//! What holds of an injection, statement by statement.
use vstd::prelude::*;

use crate::inject::{
    after_decoding, after_encoding, base64_bytes, base64_text, inject_next, InjectActionView,
    InjectAnswerView, InjectStageView, InjectionView, OldField,
};

verus! {

/// What is read and written: the message under its key, as the three parts one
/// behind the other in base64, and then the mark of the onboarding.
pub proof fn law_statements(
    st: InjectionView,
    clean: Seq<u8>,
    email: Seq<u8>,
    token: Seq<u8>,
)
    ensures
        st.stage is Opening ==> inject_next(st, InjectAnswerView::Done) == (
            InjectStageView::Reading,
            InjectActionView::Query {
                sql: "SELECT value FROM ItemTable WHERE key = ?"@,
                key: "jetskiStateSync.agentManagerInitState"@,
            },
        ),
        st.stage == (InjectStageView::MakingToken { clean, email }) ==> inject_next(
            st,
            InjectAnswerView::Bytes(token),
        ) == (
            InjectStageView::Writing,
            InjectActionView::Execute {
                sql: "UPDATE ItemTable SET value = ? WHERE key = ?"@,
                first: base64_text(clean + email + token),
                second: "jetskiStateSync.agentManagerInitState"@,
            },
        ),
        st.stage is Writing ==> inject_next(st, InjectAnswerView::Done) == (
            InjectStageView::Flagging,
            InjectActionView::Execute {
                sql: "INSERT OR REPLACE INTO ItemTable (key, value) VALUES (?, ?)"@,
                first: "antigravityOnboarding"@,
                second: "true"@,
            },
        ),
        st.stage is Flagging ==> inject_next(st, InjectAnswerView::Done) == (
            InjectStageView::Over,
            InjectActionView::Succeed(
                "Token and Identity injection successful!\nDatabase: "@ + st.database,
            ),
        ),
{
}

/// What is taken out of the message and put in: the fields 1, 2 and 6 go, in that
/// order, each out of what the step before left; the new fields are made of the
/// given e-mail address and the given tokens.
pub proof fn law_fields(st: InjectionView, message: Seq<u8>, text: Seq<char>)
    ensures
        st.stage is Reading && base64_bytes(text) == Ok::<Seq<u8>, Seq<char>>(message)
            ==> inject_next(st, InjectAnswerView::Text(text)) == (
            InjectStageView::Removing(OldField::UserId),
            InjectActionView::RemoveField { message, number: 1 },
        ),
        st.stage == InjectStageView::Removing(OldField::UserId) ==> inject_next(
            st,
            InjectAnswerView::Bytes(message),
        ) == (
            InjectStageView::Removing(OldField::Email),
            InjectActionView::RemoveField { message, number: 2 },
        ),
        st.stage == InjectStageView::Removing(OldField::Email) ==> inject_next(
            st,
            InjectAnswerView::Bytes(message),
        ) == (
            InjectStageView::Removing(OldField::OAuthToken),
            InjectActionView::RemoveField { message, number: 6 },
        ),
        st.stage == InjectStageView::Removing(OldField::OAuthToken) ==> inject_next(
            st,
            InjectAnswerView::Bytes(message),
        ) == (
            InjectStageView::MakingEmail { clean: message },
            InjectActionView::CreateEmailField { email: st.credentials.email },
        ),
        forall|clean: Seq<u8>|
            st.stage == (InjectStageView::MakingEmail { clean }) ==> #[trigger] makes_token(
                st,
                clean,
                message,
            ),
{
}

/// Whether the new e-mail field is kept with the cleaned message, and the token field
/// is asked for with the given tokens.
pub open spec fn makes_token(st: InjectionView, clean: Seq<u8>, email: Seq<u8>) -> bool {
    inject_next(st, InjectAnswerView::Bytes(email)) == (
        InjectStageView::MakingToken { clean, email },
        InjectActionView::CreateTokenField {
            access_token: st.credentials.access_token,
            refresh_token: st.credentials.refresh_token,
            expiry: st.credentials.expiry,
        },
    )
}

/// Wherever an injection fails, it ends with the reason, behind what could not be
/// done; a field that cannot be taken out gives the reason alone.
pub proof fn law_injection_failures(st: InjectionView, text: Seq<char>, reason: Seq<char>)
    ensures
        st.stage is Opening ==> inject_next(st, InjectAnswerView::Failed(reason)) == (
            InjectStageView::Over,
            InjectActionView::Fail("Failed to open database: "@ + reason),
        ),
        st.stage is Reading ==> inject_next(st, InjectAnswerView::Failed(reason)) == (
            InjectStageView::Over,
            InjectActionView::Fail("Failed to read data: "@ + reason),
        ),
        st.stage is Reading && base64_bytes(text) == Err::<Seq<u8>, Seq<char>>(reason)
            ==> inject_next(st, InjectAnswerView::Text(text)) == (
            InjectStageView::Over,
            InjectActionView::Fail("Base64 decoding failed: "@ + reason),
        ),
        st.stage is Removing ==> inject_next(st, InjectAnswerView::Failed(reason)) == (
            InjectStageView::Over,
            InjectActionView::Fail(reason),
        ),
        st.stage is Writing ==> inject_next(st, InjectAnswerView::Failed(reason)) == (
            InjectStageView::Over,
            InjectActionView::Fail("Failed to write data: "@ + reason),
        ),
        st.stage is Flagging ==> inject_next(st, InjectAnswerView::Failed(reason)) == (
            InjectStageView::Over,
            InjectActionView::Fail("Failed to write Onboarding flag: "@ + reason),
        ),
{
    assert(Seq::<char>::empty() + reason =~= reason);
}

/// The step behind the decoding and the one behind the encoding, for every result of
/// theirs.
pub proof fn law_behind_base64(message: Seq<u8>, reason: Seq<char>, encoded: Seq<char>)
    ensures
        after_decoding(Ok(message)) == (
            InjectStageView::Removing(OldField::UserId),
            InjectActionView::RemoveField { message, number: 1 },
        ),
        after_decoding(Err(reason)) == (
            InjectStageView::Over,
            InjectActionView::Fail("Base64 decoding failed: "@ + reason),
        ),
        after_encoding(encoded) == (
            InjectStageView::Writing,
            InjectActionView::Execute {
                sql: "UPDATE ItemTable SET value = ? WHERE key = ?"@,
                first: encoded,
                second: "jetskiStateSync.agentManagerInitState"@,
            },
        ),
{
}

/// An answer to a question that was not asked changes nothing.
pub proof fn law_injection_takes_only_answers(st: InjectionView, answer: InjectAnswerView)
    requires
        match answer {
            InjectAnswerView::Done => !(st.stage is Opening || st.stage is Writing || st.stage
                is Flagging),
            InjectAnswerView::Text(_) => !(st.stage is Reading),
            InjectAnswerView::Bytes(_) => !(st.stage is Removing || st.stage is MakingEmail
                || st.stage is MakingToken),
            InjectAnswerView::Failed(_) => st.stage is MakingEmail || st.stage is MakingToken
                || st.stage is Over,
        },
    ensures
        inject_next(st, answer) == (st.stage, InjectActionView::Nothing),
{
}

} // verus!
