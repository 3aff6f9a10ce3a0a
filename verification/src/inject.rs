//! Putting a token and an identity into the editor's database. The database and
//! the fields of the stored message are the caller's: it carries out an action
//! and reports what came of it.
use base64::Engine;
use vstd::prelude::*;

use crate::text::prefixed;

verus! {

/// The text of some bytes in base64.
pub uninterp spec fn base64_text(bytes: Seq<u8>) -> Seq<char>;

/// The bytes that a text in base64 stands for, or what is wrong with it.
pub uninterp spec fn base64_bytes(text: Seq<char>) -> Result<Seq<u8>, Seq<char>>;

/// Whether the text in base64 stands for the bytes.
pub open spec fn decodes_to(text: Seq<char>, bytes: Seq<u8>) -> bool {
    base64_bytes(text) == Ok::<Seq<u8>, Seq<char>>(bytes)
}

/// Whether the text of that many bytes in base64 can be held in memory.
pub open spec fn encodable(len: int) -> bool {
    (len + 2) / 3 * 4 <= isize::MAX
}

pub open spec fn bytes_result(r: Result<Vec<u8>, String>) -> Result<Seq<u8>, Seq<char>> {
    match r {
        Ok(bytes) => Ok(bytes@),
        Err(reason) => Err(reason@),
    }
}

/// `Engine::encode` of the crate `base64`, with the engine `STANDARD`. The text
/// depends on the bytes alone, and decoding it gives the bytes back. A text that
/// cannot be held in memory would make it panic.
#[verifier::external_body]
fn encode_base64(bytes: &[u8]) -> (r: String)
    requires
        encodable(bytes@.len() as int),
    ensures
        r@ == base64_text(bytes@),
        decodes_to(r@, bytes@),
{
    base64::engine::general_purpose::STANDARD.encode(bytes)
}

/// `Engine::decode` of the crate `base64`, with the engine `STANDARD`, an error
/// as its text. What comes out depends on the text alone.
#[verifier::external_body]
fn decode_base64(text: &str) -> (r: Result<Vec<u8>, String>)
    ensures
        bytes_result(r) == base64_bytes(text@),
{
    base64::engine::general_purpose::STANDARD.decode(text).map_err(|e| e.to_string())
}

/// Who is put into the database.
pub struct Credentials {
    pub access_token: String,
    pub refresh_token: String,
    pub expiry: i64,
    pub email: String,
}

pub struct CredentialsView {
    pub access_token: Seq<char>,
    pub refresh_token: Seq<char>,
    pub expiry: i64,
    pub email: Seq<char>,
}

impl View for Credentials {
    type V = CredentialsView;

    open spec fn view(&self) -> CredentialsView {
        CredentialsView {
            access_token: self.access_token@,
            refresh_token: self.refresh_token@,
            expiry: self.expiry,
            email: self.email@,
        }
    }
}

/// A field of the stored message that is out of date.
#[derive(Clone, Copy)]
pub enum OldField {
    UserId,
    Email,
    OAuthToken,
}

/// The number of a field in the stored message.
pub open spec fn field_number(field: OldField) -> u32 {
    match field {
        OldField::UserId => 1,
        OldField::Email => 2,
        OldField::OAuthToken => 6,
    }
}

/// How far an injection has come.
pub enum InjectStage {
    /// The database is opened.
    Opening,
    /// What is stored is read.
    Reading,
    /// A field is taken out of the stored message.
    Removing(OldField),
    /// The new e-mail field is made.
    MakingEmail { clean: Vec<u8> },
    /// The new token field is made.
    MakingToken { clean: Vec<u8>, email: Vec<u8> },
    /// The new message is written.
    Writing,
    /// The onboarding is marked as done.
    Flagging,
    /// There is nothing more to do.
    Over,
}

pub enum InjectStageView {
    Opening,
    Reading,
    Removing(OldField),
    MakingEmail { clean: Seq<u8> },
    MakingToken { clean: Seq<u8>, email: Seq<u8> },
    Writing,
    Flagging,
    Over,
}

impl View for InjectStage {
    type V = InjectStageView;

    open spec fn view(&self) -> InjectStageView {
        match *self {
            InjectStage::Opening => InjectStageView::Opening,
            InjectStage::Reading => InjectStageView::Reading,
            InjectStage::Removing(field) => InjectStageView::Removing(field),
            InjectStage::MakingEmail { clean } => InjectStageView::MakingEmail { clean: clean@ },
            InjectStage::MakingToken { clean, email } => InjectStageView::MakingToken {
                clean: clean@,
                email: email@,
            },
            InjectStage::Writing => InjectStageView::Writing,
            InjectStage::Flagging => InjectStageView::Flagging,
            InjectStage::Over => InjectStageView::Over,
        }
    }
}

/// What came of an action.
pub enum InjectAnswer {
    /// It is done.
    Done,
    /// The value that was read.
    Text(String),
    /// The message without the field, or the new field.
    Bytes(Vec<u8>),
    /// The action failed, for this reason.
    Failed(String),
}

pub enum InjectAnswerView {
    Done,
    Text(Seq<char>),
    Bytes(Seq<u8>),
    Failed(Seq<char>),
}

impl View for InjectAnswer {
    type V = InjectAnswerView;

    open spec fn view(&self) -> InjectAnswerView {
        match *self {
            InjectAnswer::Done => InjectAnswerView::Done,
            InjectAnswer::Text(s) => InjectAnswerView::Text(s@),
            InjectAnswer::Bytes(bytes) => InjectAnswerView::Bytes(bytes@),
            InjectAnswer::Failed(reason) => InjectAnswerView::Failed(reason@),
        }
    }
}

/// What is to be done next.
pub enum InjectAction {
    /// Open the database.
    Open,
    /// Read the one value that the query gives, with that parameter.
    Query { sql: &'static str, key: &'static str },
    /// Take the field with that number out of the message.
    RemoveField { message: Vec<u8>, number: u32 },
    /// Make the field that holds the e-mail address.
    CreateEmailField { email: String },
    /// Make the field that holds the token.
    CreateTokenField { access_token: String, refresh_token: String, expiry: i64 },
    /// Execute the statement, with those two parameters.
    Execute { sql: &'static str, first: String, second: String },
    /// All is done: that is the result.
    Succeed(String),
    /// Give up, for this reason.
    Fail(String),
    /// Nothing: the answer was to no question.
    Nothing,
}

pub enum InjectActionView {
    Open,
    Query { sql: Seq<char>, key: Seq<char> },
    RemoveField { message: Seq<u8>, number: u32 },
    CreateEmailField { email: Seq<char> },
    CreateTokenField { access_token: Seq<char>, refresh_token: Seq<char>, expiry: i64 },
    Execute { sql: Seq<char>, first: Seq<char>, second: Seq<char> },
    Succeed(Seq<char>),
    Fail(Seq<char>),
    Nothing,
}

impl View for InjectAction {
    type V = InjectActionView;

    open spec fn view(&self) -> InjectActionView {
        match *self {
            InjectAction::Open => InjectActionView::Open,
            InjectAction::Query { sql, key } => InjectActionView::Query { sql: sql@, key: key@ },
            InjectAction::RemoveField { message, number } => InjectActionView::RemoveField {
                message: message@,
                number,
            },
            InjectAction::CreateEmailField { email } => InjectActionView::CreateEmailField {
                email: email@,
            },
            InjectAction::CreateTokenField { access_token, refresh_token, expiry } =>
                InjectActionView::CreateTokenField {
                access_token: access_token@,
                refresh_token: refresh_token@,
                expiry,
            },
            InjectAction::Execute { sql, first, second } => InjectActionView::Execute {
                sql: sql@,
                first: first@,
                second: second@,
            },
            InjectAction::Succeed(s) => InjectActionView::Succeed(s@),
            InjectAction::Fail(reason) => InjectActionView::Fail(reason@),
            InjectAction::Nothing => InjectActionView::Nothing,
        }
    }
}

/// An injection that is under way.
pub struct Injection {
    pub credentials: Credentials,
    /// The database, as the result names it.
    pub database: String,
    pub stage: InjectStage,
}

pub struct InjectionView {
    pub credentials: CredentialsView,
    pub database: Seq<char>,
    pub stage: InjectStageView,
}

impl View for Injection {
    type V = InjectionView;

    open spec fn view(&self) -> InjectionView {
        InjectionView {
            credentials: self.credentials@,
            database: self.database@,
            stage: self.stage@,
        }
    }
}

/// The key under which the editor stores its message.
pub open spec fn message_key() -> Seq<char> {
    "jetskiStateSync.agentManagerInitState"@
}

/// Takes a field out of the message.
pub open spec fn remove_field(message: Seq<u8>, field: OldField) -> (
    InjectStageView,
    InjectActionView,
) {
    (
        InjectStageView::Removing(field),
        InjectActionView::RemoveField { message, number: field_number(field) },
    )
}

/// Gives up.
pub open spec fn give_up(what: Seq<char>, reason: Seq<char>) -> (
    InjectStageView,
    InjectActionView,
) {
    (InjectStageView::Over, InjectActionView::Fail(what + reason))
}

/// What follows the stored text, once it is decoded.
pub open spec fn after_decoding(decoded: Result<Seq<u8>, Seq<char>>) -> (
    InjectStageView,
    InjectActionView,
) {
    match decoded {
        Ok(message) => remove_field(message, OldField::UserId),
        Err(reason) => give_up("Base64 decoding failed: "@, reason),
    }
}

/// What follows the new message, once it is encoded.
pub open spec fn after_encoding(encoded: Seq<char>) -> (InjectStageView, InjectActionView) {
    (
        InjectStageView::Writing,
        InjectActionView::Execute {
            sql: "UPDATE ItemTable SET value = ? WHERE key = ?"@,
            first: encoded,
            second: message_key(),
        },
    )
}

/// What follows an answer. The stored message loses the user, the e-mail address
/// and the token; it gets the new e-mail address and the new token at its end. It
/// gets no user, so that the editor has to ask for one with the new token.
pub open spec fn inject_next(st: InjectionView, answer: InjectAnswerView) -> (
    InjectStageView,
    InjectActionView,
) {
    match (st.stage, answer) {
        (InjectStageView::Opening, InjectAnswerView::Done) => (
            InjectStageView::Reading,
            InjectActionView::Query {
                sql: "SELECT value FROM ItemTable WHERE key = ?"@,
                key: message_key(),
            },
        ),
        (InjectStageView::Opening, InjectAnswerView::Failed(reason)) => give_up(
            "Failed to open database: "@,
            reason,
        ),
        (InjectStageView::Reading, InjectAnswerView::Text(text)) => after_decoding(
            base64_bytes(text),
        ),
        (InjectStageView::Reading, InjectAnswerView::Failed(reason)) => give_up(
            "Failed to read data: "@,
            reason,
        ),
        (InjectStageView::Removing(OldField::UserId), InjectAnswerView::Bytes(message)) =>
            remove_field(message, OldField::Email),
        (InjectStageView::Removing(OldField::Email), InjectAnswerView::Bytes(message)) =>
            remove_field(message, OldField::OAuthToken),
        (InjectStageView::Removing(OldField::OAuthToken), InjectAnswerView::Bytes(message)) => (
            InjectStageView::MakingEmail { clean: message },
            InjectActionView::CreateEmailField { email: st.credentials.email },
        ),
        (InjectStageView::Removing(_), InjectAnswerView::Failed(reason)) => give_up(
            Seq::empty(),
            reason,
        ),
        (InjectStageView::MakingEmail { clean }, InjectAnswerView::Bytes(email)) => (
            InjectStageView::MakingToken { clean, email },
            InjectActionView::CreateTokenField {
                access_token: st.credentials.access_token,
                refresh_token: st.credentials.refresh_token,
                expiry: st.credentials.expiry,
            },
        ),
        (InjectStageView::MakingToken { clean, email }, InjectAnswerView::Bytes(token)) =>
            after_encoding(base64_text(clean + email + token)),
        (InjectStageView::Writing, InjectAnswerView::Done) => (
            InjectStageView::Flagging,
            InjectActionView::Execute {
                sql: "INSERT OR REPLACE INTO ItemTable (key, value) VALUES (?, ?)"@,
                first: "antigravityOnboarding"@,
                second: "true"@,
            },
        ),
        (InjectStageView::Writing, InjectAnswerView::Failed(reason)) => give_up(
            "Failed to write data: "@,
            reason,
        ),
        (InjectStageView::Flagging, InjectAnswerView::Done) => (
            InjectStageView::Over,
            InjectActionView::Succeed(
                "Token and Identity injection successful!\nDatabase: "@ + st.database,
            ),
        ),
        (InjectStageView::Flagging, InjectAnswerView::Failed(reason)) => give_up(
            "Failed to write Onboarding flag: "@,
            reason,
        ),
        _ => (st.stage, InjectActionView::Nothing),
    }
}

/// Whether the new message, should the answer complete it, can be encoded.
pub open spec fn answer_fits(st: InjectionView, answer: InjectAnswerView) -> bool {
    match (st.stage, answer) {
        (InjectStageView::MakingToken { clean, email }, InjectAnswerView::Bytes(token)) =>
            encodable((clean.len() + email.len() + token.len()) as int),
        _ => true,
    }
}

/// Begins to put a token and an identity into a database. `database` is the path
/// of the database, as the result is to name it.
pub fn inject_token(
    database: String,
    access_token: &str,
    refresh_token: &str,
    expiry: i64,
    email: &str,
) -> (r: (Injection, InjectAction))
    ensures
        r.0@ == (InjectionView {
            credentials: CredentialsView {
                access_token: access_token@,
                refresh_token: refresh_token@,
                expiry,
                email: email@,
            },
            database: database@,
            stage: InjectStageView::Opening,
        }),
        r.1@ == InjectActionView::Open,
{
    let credentials = Credentials {
        access_token: access_token.to_owned(),
        refresh_token: refresh_token.to_owned(),
        expiry,
        email: email.to_owned(),
    };
    (Injection { credentials, database, stage: InjectStage::Opening }, InjectAction::Open)
}

fn ask_removal(message: Vec<u8>, field: OldField) -> (r: (InjectStage, InjectAction))
    ensures
        (r.0@, r.1@) == remove_field(message@, field),
{
    let number: u32 = match field {
        OldField::UserId => 1,
        OldField::Email => 2,
        OldField::OAuthToken => 6,
    };
    (InjectStage::Removing(field), InjectAction::RemoveField { message, number })
}

fn fail(what: &str, reason: &str) -> (r: (InjectStage, InjectAction))
    ensures
        (r.0@, r.1@) == give_up(what@, reason@),
{
    (InjectStage::Over, InjectAction::Fail(prefixed(what, reason)))
}

/// What follows the stored text, once it is decoded.
pub fn take_decoded(decoded: Result<Vec<u8>, String>) -> (r: (InjectStage, InjectAction))
    ensures
        (r.0@, r.1@) == after_decoding(bytes_result(decoded)),
{
    match decoded {
        Ok(message) => ask_removal(message, OldField::UserId),
        Err(reason) => fail("Base64 decoding failed: ", reason.as_str()),
    }
}

/// What follows the new message, once it is encoded.
pub fn take_encoded(encoded: String) -> (r: (InjectStage, InjectAction))
    ensures
        (r.0@, r.1@) == after_encoding(encoded@),
{
    (
        InjectStage::Writing,
        InjectAction::Execute {
            sql: "UPDATE ItemTable SET value = ? WHERE key = ?",
            first: encoded,
            second: "jetskiStateSync.agentManagerInitState".to_owned(),
        },
    )
}

/// The new message in base64: the cleaned message, the new e-mail field, the new
/// token field. Decoding gives the three of them back.
pub fn merged_text(clean: Vec<u8>, email: &Vec<u8>, token: &Vec<u8>) -> (r: String)
    requires
        encodable((clean@.len() + email@.len() + token@.len()) as int),
    ensures
        r@ == base64_text(clean@ + email@ + token@),
        decodes_to(r@, clean@ + email@ + token@),
{
    let ghost whole = clean@ + email@ + token@;
    let mut message = clean;
    message.extend_from_slice(email.as_slice());
    message.extend_from_slice(token.as_slice());
    assert(message@ =~= whole);
    encode_base64(message.as_slice())
}

impl Injection {
    /// Whether the new message, should the answer complete it, can be encoded.
    pub fn fits(&self, answer: &InjectAnswer) -> (r: bool)
        ensures
            r == answer_fits(self@, answer@),
    {
        match (&self.stage, answer) {
            (InjectStage::MakingToken { clean, email }, InjectAnswer::Bytes(token)) => {
                let len: u128 = clean.len() as u128 + email.len() as u128 + token.len() as u128;
                (len + 2) / 3 * 4 <= isize::MAX as u128
            },
            _ => true,
        }
    }

    /// Takes in what came of the last action, and says what to do next. What is
    /// written to the database decodes to the message that was put together.
    pub fn step(self, answer: InjectAnswer) -> (r: (Injection, InjectAction))
        requires
            answer_fits(self@, answer@),
        ensures
            r.0@.credentials == self@.credentials,
            r.0@.database == self@.database,
            (r.0@.stage, r.1@) == inject_next(self@, answer@),
            match (self@.stage, answer@) {
                (InjectStageView::MakingToken { clean, email }, InjectAnswerView::Bytes(token)) =>
                    r.1@ is Execute && decodes_to(r.1@->first, clean + email + token),
                _ => true,
            },
    {
        let Injection { credentials, database, stage } = self;
        let (stage, action) = match (stage, answer) {
            (InjectStage::Opening, InjectAnswer::Done) => (
                InjectStage::Reading,
                InjectAction::Query {
                    sql: "SELECT value FROM ItemTable WHERE key = ?",
                    key: "jetskiStateSync.agentManagerInitState",
                },
            ),
            (InjectStage::Opening, InjectAnswer::Failed(reason)) => fail(
                "Failed to open database: ",
                reason.as_str(),
            ),
            (InjectStage::Reading, InjectAnswer::Text(text)) => take_decoded(
                decode_base64(text.as_str()),
            ),
            (InjectStage::Reading, InjectAnswer::Failed(reason)) => fail(
                "Failed to read data: ",
                reason.as_str(),
            ),
            (InjectStage::Removing(field), InjectAnswer::Bytes(message)) => match field {
                OldField::UserId => ask_removal(message, OldField::Email),
                OldField::Email => ask_removal(message, OldField::OAuthToken),
                OldField::OAuthToken => (
                    InjectStage::MakingEmail { clean: message },
                    InjectAction::CreateEmailField { email: credentials.email.clone() },
                ),
            },
            (InjectStage::Removing(_), InjectAnswer::Failed(reason)) => {
                assert(Seq::<char>::empty() + reason@ =~= reason@);
                (InjectStage::Over, InjectAction::Fail(reason))
            },
            (InjectStage::MakingEmail { clean }, InjectAnswer::Bytes(email)) => (
                InjectStage::MakingToken { clean, email },
                InjectAction::CreateTokenField {
                    access_token: credentials.access_token.clone(),
                    refresh_token: credentials.refresh_token.clone(),
                    expiry: credentials.expiry,
                },
            ),
            (InjectStage::MakingToken { clean, email }, InjectAnswer::Bytes(token)) => take_encoded(
                merged_text(clean, &email, &token),
            ),
            (InjectStage::Writing, InjectAnswer::Done) => (
                InjectStage::Flagging,
                InjectAction::Execute {
                    sql: "INSERT OR REPLACE INTO ItemTable (key, value) VALUES (?, ?)",
                    first: "antigravityOnboarding".to_owned(),
                    second: "true".to_owned(),
                },
            ),
            (InjectStage::Writing, InjectAnswer::Failed(reason)) => fail(
                "Failed to write data: ",
                reason.as_str(),
            ),
            (InjectStage::Flagging, InjectAnswer::Done) => (
                InjectStage::Over,
                InjectAction::Succeed(
                    prefixed(
                        "Token and Identity injection successful!\nDatabase: ",
                        database.as_str(),
                    ),
                ),
            ),
            (InjectStage::Flagging, InjectAnswer::Failed(reason)) => fail(
                "Failed to write Onboarding flag: ",
                reason.as_str(),
            ),
            (stage, _) => (stage, InjectAction::Nothing),
        };
        (Injection { credentials, database, stage }, action)
    }
}

/// How many answers an injection still waits for, at most.
pub open spec fn inject_rank(stage: InjectStageView) -> nat {
    match stage {
        InjectStageView::Opening => 9,
        InjectStageView::Reading => 8,
        InjectStageView::Removing(OldField::UserId) => 7,
        InjectStageView::Removing(OldField::Email) => 6,
        InjectStageView::Removing(OldField::OAuthToken) => 5,
        InjectStageView::MakingEmail { .. } => 4,
        InjectStageView::MakingToken { .. } => 3,
        InjectStageView::Writing => 2,
        InjectStageView::Flagging => 1,
        InjectStageView::Over => 0,
    }
}

/// An injection comes to an end: each answer that fits brings it nearer, and one
/// that does not fit changes nothing.
pub proof fn law_injection_ends(st: InjectionView, answer: InjectAnswerView)
    ensures
        inject_next(st, answer).1 is Nothing ==> inject_next(st, answer).0 == st.stage,
        !(inject_next(st, answer).1 is Nothing) ==> inject_rank(inject_next(st, answer).0)
            < inject_rank(st.stage),
{
}

/// How far an injection has come after these answers.
pub open spec fn inject_run(st: InjectionView, answers: Seq<InjectAnswerView>) -> InjectionView
    decreases answers.len(),
{
    if answers.len() == 0 {
        st
    } else {
        let before = inject_run(st, answers.drop_last());
        InjectionView { stage: inject_next(before, answers.last()).0, ..before }
    }
}

/// The actions that an injection came to by these answers.
pub open spec fn inject_actions(st: InjectionView, answers: Seq<InjectAnswerView>) -> Seq<
    InjectActionView,
>
    decreases answers.len(),
{
    if answers.len() == 0 {
        Seq::empty()
    } else {
        inject_actions(st, answers.drop_last()).push(
            inject_next(inject_run(st, answers.drop_last()), answers.last()).1,
        )
    }
}

/// The actions among these that write to the database.
pub open spec fn writes(actions: Seq<InjectActionView>) -> Seq<InjectActionView> {
    actions.filter(|a: InjectActionView| a is Execute)
}

proof fn lemma_writes_push(actions: Seq<InjectActionView>, action: InjectActionView)
    ensures
        writes(actions.push(action)) == (if action is Execute {
            writes(actions).push(action)
        } else {
            writes(actions)
        }),
{
    reveal(Seq::filter);
    assert(actions.push(action).drop_last() =~= actions);
}

/// Until the new message is whole, nothing is written; then the message is
/// written once; and the onboarding is marked after that, once. Only when both
/// are written is success reported.
pub proof fn law_writes_are_in_order(st: InjectionView, answers: Seq<InjectAnswerView>)
    requires
        st.stage is Opening,
    ensures
        ({
            let made = writes(inject_actions(st, answers));
            let stage = inject_run(st, answers).stage;
            &&& made.len() <= 2
            &&& inject_rank(stage) > 2 ==> made.len() == 0
            &&& stage is Writing ==> made.len() == 1
            &&& stage is Flagging ==> made.len() == 2
            &&& made.len() >= 1 ==> made[0]->second == message_key()
            &&& made.len() == 2 ==> made[1]->first == "antigravityOnboarding"@
            &&& (exists|i: int|
                0 <= i < inject_actions(st, answers).len() && #[trigger] inject_actions(
                    st,
                    answers,
                )[i] is Succeed) ==> made.len() == 2
        }),
    decreases answers.len(),
{
    let actions = inject_actions(st, answers);
    if answers.len() == 0 {
        reveal(Seq::filter);
        assert(writes(actions).len() == 0);
    } else {
        let front = answers.drop_last();
        let before = inject_run(st, front);
        let action = inject_next(before, answers.last()).1;
        let sooner = inject_actions(st, front);
        law_writes_are_in_order(st, front);
        lemma_writes_push(sooner, action);
        assert(actions == sooner.push(action));
        if exists|i: int| 0 <= i < actions.len() && #[trigger] actions[i] is Succeed {
            let i = choose|i: int| 0 <= i < actions.len() && #[trigger] actions[i] is Succeed;
            if i < sooner.len() {
                assert(sooner[i] is Succeed);
            }
        }
    }
}

/// Where nothing fails, an injection takes out the three old fields one after the
/// other, has the new fields made from the given e-mail address and tokens, and
/// writes what is left of the message, the new e-mail field and the new token
/// field; then it marks the onboarding as done and reports success.
pub proof fn law_injection_replaces_fields(
    st: InjectionView,
    text: Seq<char>,
    message: Seq<u8>,
    without_user: Seq<u8>,
    without_email: Seq<u8>,
    clean: Seq<u8>,
    email: Seq<u8>,
    token: Seq<u8>,
)
    requires
        st.stage is Opening,
    ensures
        decodes_to(text, message) ==> {
            let answers = seq![
                InjectAnswerView::Done,
                InjectAnswerView::Text(text),
                InjectAnswerView::Bytes(without_user),
                InjectAnswerView::Bytes(without_email),
                InjectAnswerView::Bytes(clean),
                InjectAnswerView::Bytes(email),
                InjectAnswerView::Bytes(token),
                InjectAnswerView::Done,
                InjectAnswerView::Done,
            ];
            let actions = inject_actions(st, answers);
            &&& actions.len() == 9
            &&& actions[0] == (InjectActionView::Query {
                sql: "SELECT value FROM ItemTable WHERE key = ?"@,
                key: message_key(),
            })
            &&& actions[1] == (InjectActionView::RemoveField { message, number: 1 })
            &&& actions[2] == (InjectActionView::RemoveField { message: without_user, number: 2 })
            &&& actions[3] == (InjectActionView::RemoveField { message: without_email, number: 6 })
            &&& actions[4] == (InjectActionView::CreateEmailField { email: st.credentials.email })
            &&& actions[5] == (InjectActionView::CreateTokenField {
                access_token: st.credentials.access_token,
                refresh_token: st.credentials.refresh_token,
                expiry: st.credentials.expiry,
            })
            &&& actions[6] == after_encoding(base64_text(clean + email + token)).1
            &&& actions[7] == (InjectActionView::Execute {
                sql: "INSERT OR REPLACE INTO ItemTable (key, value) VALUES (?, ?)"@,
                first: "antigravityOnboarding"@,
                second: "true"@,
            })
            &&& actions[8] == InjectActionView::Succeed(
                "Token and Identity injection successful!\nDatabase: "@ + st.database,
            )
        },
{
    let none: Seq<InjectAnswerView> = Seq::empty();
    let a1 = none.push(InjectAnswerView::Done);
    let a2 = a1.push(InjectAnswerView::Text(text));
    let a3 = a2.push(InjectAnswerView::Bytes(without_user));
    let a4 = a3.push(InjectAnswerView::Bytes(without_email));
    let a5 = a4.push(InjectAnswerView::Bytes(clean));
    let a6 = a5.push(InjectAnswerView::Bytes(email));
    let a7 = a6.push(InjectAnswerView::Bytes(token));
    let a8 = a7.push(InjectAnswerView::Done);
    let a9 = a8.push(InjectAnswerView::Done);
    lemma_one_more(st, none, InjectAnswerView::Done);
    lemma_one_more(st, a1, InjectAnswerView::Text(text));
    lemma_one_more(st, a2, InjectAnswerView::Bytes(without_user));
    lemma_one_more(st, a3, InjectAnswerView::Bytes(without_email));
    lemma_one_more(st, a4, InjectAnswerView::Bytes(clean));
    lemma_one_more(st, a5, InjectAnswerView::Bytes(email));
    lemma_one_more(st, a6, InjectAnswerView::Bytes(token));
    lemma_one_more(st, a7, InjectAnswerView::Done);
    lemma_one_more(st, a8, InjectAnswerView::Done);
    assert(a9 =~= seq![
        InjectAnswerView::Done,
        InjectAnswerView::Text(text),
        InjectAnswerView::Bytes(without_user),
        InjectAnswerView::Bytes(without_email),
        InjectAnswerView::Bytes(clean),
        InjectAnswerView::Bytes(email),
        InjectAnswerView::Bytes(token),
        InjectAnswerView::Done,
        InjectAnswerView::Done,
    ]);
}

proof fn lemma_one_more(
    st: InjectionView,
    answers: Seq<InjectAnswerView>,
    answer: InjectAnswerView,
)
    ensures
        inject_run(st, answers.push(answer)) == (InjectionView {
            stage: inject_next(inject_run(st, answers), answer).0,
            ..inject_run(st, answers)
        }),
        inject_actions(st, answers.push(answer)) == inject_actions(st, answers).push(
            inject_next(inject_run(st, answers), answer).1,
        ),
{
    assert(answers.push(answer).drop_last() =~= answers);
}

} // verus!
