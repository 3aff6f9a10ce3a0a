pub mod auth;
pub mod auth_laws;
pub mod callback;
pub mod callback_laws;
pub mod chat;
pub mod chat_event_laws;
pub mod chat_laws;
pub mod codec;
pub mod codex;
pub mod codex_event_laws;
pub mod codex_laws;
pub mod db;
pub mod db_laws;
pub mod events;
pub mod gemini;
pub mod gemini_laws;
pub mod ids;
pub mod inject;
pub mod inject_laws;
pub mod json;
pub mod legacy;
pub mod legacy_event_laws;
pub mod oauth;
pub mod oauth_laws;
pub mod reader;
pub mod reader_laws;
pub mod signature;
pub mod text;
pub mod text_laws;
pub mod tool_calls;
pub mod usage;
