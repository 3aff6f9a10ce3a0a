# antigravity_proxy

The verified core of a local proxy that lets clients of the OpenAI interface talk to Gemini, and
of the desktop program around it.

- `src/` is the library. Every function in it is verified with Verus against its contract.
  - `reader`, `codec`, `json`, `text`, `ids`: server-sent events in, JSON values, identifiers.
  - `gemini`, `usage`, `tool_calls`, `signature`: what the chunks of a Gemini stream say.
  - `chat`, `legacy`, `codex`, `events`: the three streams that are made of it, each a state
    machine from what happens upstream to what is sent. `chat_laws` and `codex_laws` hold what is
    proved of whole streams.
  - `auth`: who may use the proxy.
  - `oauth`, `callback`: the authorization flow and the browser's call back.
  - `db`, `inject`: where the editor keeps its database, and how a token gets into it.
- `app/` is ordinary Rust around the library: sockets, timers, the HTTP middleware, the database.
- `tests/` holds the tests of the library.

The functions named `law_...` state what holds of the library as a whole.
