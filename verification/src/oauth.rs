//! The authorization flow: how the local listeners are set up, what is kept of a
//! flow while it is under way, and the steps from its start to its end. The
//! network, the browser and the token exchange are the caller's: it carries out
//! an action and reports what came of it.
use vstd::prelude::*;
use vstd::string::StringExecFns;

use crate::callback::text_result;
use crate::text::{decimal, numeral, prefixed};

verus! {

/// A flow that is under way. `C` is what cancels it, `R` is where its code comes
/// in.
pub struct OAuthFlowState<C, R> {
    pub auth_url: String,
    pub redirect_uri: String,
    pub cancel_tx: C,
    /// Gone, once somebody waits for the code.
    pub code_rx: Option<R>,
}

pub struct OAuthFlowView<C, R> {
    pub auth_url: Seq<char>,
    pub redirect_uri: Seq<char>,
    pub cancel_tx: C,
    pub code_rx: Option<R>,
}

impl<C, R> View for OAuthFlowState<C, R> {
    type V = OAuthFlowView<C, R>;

    open spec fn view(&self) -> OAuthFlowView<C, R> {
        OAuthFlowView {
            auth_url: self.auth_url@,
            redirect_uri: self.redirect_uri@,
            cancel_tx: self.cancel_tx,
            code_rx: self.code_rx,
        }
    }
}

/// The flow that is under way, if any.
pub open spec fn flow_view<C, R>(state: Option<OAuthFlowState<C, R>>) -> Option<
    OAuthFlowView<C, R>,
> {
    match state {
        Some(flow) => Some(flow@),
        None => None,
    }
}

/// The state before the first flow.
pub fn get_oauth_flow_state<C, R>() -> (r: Option<OAuthFlowState<C, R>>)
    ensures
        flow_view(r) is None,
{
    None
}

/// Keeps a flow whose listeners are ready. Nobody waits for its code yet.
pub fn save_oauth_flow<C, R>(
    state: &mut Option<OAuthFlowState<C, R>>,
    auth_url: &str,
    redirect_uri: String,
    cancel_tx: C,
    code_rx: R,
)
    ensures
        flow_view(*final(state)) == Some(saved(auth_url@, redirect_uri@, cancel_tx, code_rx)),
{
    *state = Some(
        OAuthFlowState {
            auth_url: auth_url.to_owned(),
            redirect_uri,
            cancel_tx,
            code_rx: Some(code_rx),
        },
    );
}

/// A flow whose listeners are ready.
pub open spec fn saved<C, R>(
    auth_url: Seq<char>,
    redirect_uri: Seq<char>,
    cancel_tx: C,
    code_rx: R,
) -> OAuthFlowView<C, R> {
    OAuthFlowView { auth_url, redirect_uri, cancel_tx, code_rx: Some(code_rx) }
}

/// Gives up the flow that is under way. What cancels it is handed out, for the
/// caller to signal with.
pub fn cancel_oauth_flow<C, R>(state: &mut Option<OAuthFlowState<C, R>>) -> (r: Option<C>)
    ensures
        flow_view(*final(state)) is None,
        r == cancel_of(flow_view(*old(state))),
{
    match state.take() {
        Some(flow) => Some(flow.cancel_tx),
        None => None,
    }
}

/// What cancels the flow that is under way.
pub open spec fn cancel_of<C, R>(state: Option<OAuthFlowView<C, R>>) -> Option<C> {
    match state {
        Some(flow) => Some(flow.cancel_tx),
        None => None,
    }
}

/// Forgets the flow that is under way.
pub fn clear_oauth_flow<C, R>(state: &mut Option<OAuthFlowState<C, R>>)
    ensures
        flow_view(*final(state)) is None,
{
    *state = None;
}

/// Where the code of the flow will come in, with the flow's redirect URI; or why
/// nobody can wait for it now.
pub open spec fn receiver_of<C, R>(state: Option<OAuthFlowView<C, R>>) -> Result<
    (R, Seq<char>),
    Seq<char>,
> {
    match state {
        Some(flow) => match flow.code_rx {
            Some(rx) => Ok((rx, flow.redirect_uri)),
            None => Err("OAuth authorization already in progress"@),
        },
        None => Err("OAuth state does not exist"@),
    }
}

/// The state once somebody waits for the code.
pub open spec fn awaited<C, R>(state: Option<OAuthFlowView<C, R>>) -> Option<
    OAuthFlowView<C, R>,
> {
    match state {
        Some(flow) => Some(OAuthFlowView { code_rx: None, ..flow }),
        None => None,
    }
}

/// Hands out where the code of the flow will come in, once.
pub fn take_code_receiver<C, R>(state: &mut Option<OAuthFlowState<C, R>>) -> (r: Result<
    (R, String),
    String,
>)
    ensures
        flow_view(*final(state)) == awaited(flow_view(*old(state))),
        match r {
            Ok((rx, uri)) => receiver_of(flow_view(*old(state))) == Ok::<
                (R, Seq<char>),
                Seq<char>,
            >((rx, uri@)),
            Err(e) => receiver_of(flow_view(*old(state))) == Err::<(R, Seq<char>), Seq<char>>(e@),
        },
{
    match state.take() {
        Some(mut flow) => {
            let rx = flow.code_rx.take();
            let uri = flow.redirect_uri.clone();
            *state = Some(flow);
            match rx {
                Some(rx) => Ok((rx, uri)),
                None => Err("OAuth authorization already in progress".to_owned()),
            }
        },
        None => Err("OAuth state does not exist".to_owned()),
    }
}

/// The two network stacks of the local machine.
#[derive(Clone, Copy, PartialEq, Eq, Structural, Debug)]
pub enum Stack {
    V4,
    V6,
}

/// The other stack.
pub open spec fn other_stack(stack: Stack) -> Stack {
    match stack {
        Stack::V4 => Stack::V6,
        Stack::V6 => Stack::V4,
    }
}

/// The loopback address of a stack, with a port.
pub open spec fn address_of(stack: Stack, port: u16) -> Seq<char> {
    match stack {
        Stack::V4 => "127.0.0.1:"@ + numeral(port as nat, 10),
        Stack::V6 => "[::1]:"@ + numeral(port as nat, 10),
    }
}

/// The loopback address of a stack, with a port.
pub fn loopback_address(stack: Stack, port: u16) -> (r: String)
    ensures
        r@ == address_of(stack, port),
{
    let mut out = match stack {
        Stack::V4 => "127.0.0.1:".to_owned(),
        Stack::V6 => "[::1]:".to_owned(),
    };
    out.append(decimal(port as u64).as_str());
    out
}

/// Where the browser is sent back to: to `localhost`, where both stacks listen,
/// else to the address of the one that does.
pub open spec fn redirect_of(has_ipv4: bool, has_ipv6: bool, port: u16) -> Seq<char> {
    if has_ipv4 && has_ipv6 {
        "http://localhost:"@ + numeral(port as nat, 10) + "/oauth-callback"@
    } else if has_ipv4 {
        "http://"@ + address_of(Stack::V4, port) + "/oauth-callback"@
    } else {
        "http://"@ + address_of(Stack::V6, port) + "/oauth-callback"@
    }
}

/// Where the browser is sent back to.
pub fn redirect_uri(has_ipv4: bool, has_ipv6: bool, port: u16) -> (r: String)
    ensures
        r@ == redirect_of(has_ipv4, has_ipv6, port),
{
    let mut out = String::new();
    if has_ipv4 && has_ipv6 {
        out.append("http://localhost:");
        out.append(decimal(port as u64).as_str());
    } else {
        out.append("http://");
        let stack = if has_ipv4 {
            Stack::V4
        } else {
            Stack::V6
        };
        out.append(loopback_address(stack, port).as_str());
    }
    out.append("/oauth-callback");
    assert(out@ =~= redirect_of(has_ipv4, has_ipv6, port));
    out
}

/// How far the setup of the listeners has come.
#[derive(Clone, Copy)]
pub enum Setup {
    /// A listener on a free port is asked for.
    Listening { stack: Stack },
    /// The port of that listener is asked for.
    Locating { stack: Stack },
    /// A listener on the same port of the other stack is asked for.
    Joining { stack: Stack, port: u16 },
    /// The link for the browser is asked for.
    Linking { has_ipv4: bool, has_ipv6: bool, port: u16 },
    /// There is nothing more to do.
    Over,
}

/// What came of an action.
pub enum SetupAnswer {
    /// The listener is there.
    Bound,
    /// The listener has this port.
    Port(u16),
    /// The link for the browser.
    Link(String),
    /// The action failed, for this reason.
    Failed(String),
}

pub enum SetupAnswerView {
    Bound,
    Port(u16),
    Link(Seq<char>),
    Failed(Seq<char>),
}

impl View for SetupAnswer {
    type V = SetupAnswerView;

    open spec fn view(&self) -> SetupAnswerView {
        match *self {
            SetupAnswer::Bound => SetupAnswerView::Bound,
            SetupAnswer::Port(port) => SetupAnswerView::Port(port),
            SetupAnswer::Link(link) => SetupAnswerView::Link(link@),
            SetupAnswer::Failed(reason) => SetupAnswerView::Failed(reason@),
        }
    }
}

/// What is to be done next.
pub enum SetupAction {
    /// Listen at the address, on that stack.
    Bind { stack: Stack, address: String },
    /// Ask the listener of that stack for its port.
    AskPort { stack: Stack },
    /// Make the link for the browser.
    MakeLink { redirect_uri: String },
    /// Answer callbacks on all listeners, and give out the link.
    Serve { auth_url: String, redirect_uri: String },
    /// Give up, for this reason.
    Fail(String),
    /// Nothing: the answer was to no question.
    Nothing,
}

pub enum SetupActionView {
    Bind { stack: Stack, address: Seq<char> },
    AskPort { stack: Stack },
    MakeLink { redirect_uri: Seq<char> },
    Serve { auth_url: Seq<char>, redirect_uri: Seq<char> },
    Fail(Seq<char>),
    Nothing,
}

impl View for SetupAction {
    type V = SetupActionView;

    open spec fn view(&self) -> SetupActionView {
        match *self {
            SetupAction::Bind { stack, address } => SetupActionView::Bind {
                stack,
                address: address@,
            },
            SetupAction::AskPort { stack } => SetupActionView::AskPort { stack },
            SetupAction::MakeLink { redirect_uri } => SetupActionView::MakeLink {
                redirect_uri: redirect_uri@,
            },
            SetupAction::Serve { auth_url, redirect_uri } => SetupActionView::Serve {
                auth_url: auth_url@,
                redirect_uri: redirect_uri@,
            },
            SetupAction::Fail(reason) => SetupActionView::Fail(reason@),
            SetupAction::Nothing => SetupActionView::Nothing,
        }
    }
}

/// Asks for a listener on a free port of the stack.
pub open spec fn ask_listener(stack: Stack) -> (Setup, SetupActionView) {
    (
        Setup::Listening { stack },
        SetupActionView::Bind { stack, address: address_of(stack, 0) },
    )
}

/// Asks for the link, once it is clear which stacks listen.
pub open spec fn ask_link(has_ipv4: bool, has_ipv6: bool, port: u16) -> (Setup, SetupActionView) {
    (
        Setup::Linking { has_ipv4, has_ipv6, port },
        SetupActionView::MakeLink { redirect_uri: redirect_of(has_ipv4, has_ipv6, port) },
    )
}

/// What follows an answer. IPv6 is tried first, then IPv4; the stack that was
/// not tried first joins on the same port, where it can.
pub open spec fn setup_next(setup: Setup, answer: SetupAnswerView) -> (Setup, SetupActionView) {
    match (setup, answer) {
        (Setup::Listening { stack }, SetupAnswerView::Bound) => (
            Setup::Locating { stack },
            SetupActionView::AskPort { stack },
        ),
        (Setup::Listening { stack: Stack::V6 }, SetupAnswerView::Failed(_)) => ask_listener(
            Stack::V4,
        ),
        (Setup::Listening { stack: Stack::V4 }, SetupAnswerView::Failed(reason)) => (
            Setup::Over,
            SetupActionView::Fail("failed_to_bind_local_port: "@ + reason),
        ),
        (Setup::Locating { stack }, SetupAnswerView::Port(port)) => (
            Setup::Joining { stack, port },
            SetupActionView::Bind {
                stack: other_stack(stack),
                address: address_of(other_stack(stack), port),
            },
        ),
        (Setup::Locating { .. }, SetupAnswerView::Failed(reason)) => (
            Setup::Over,
            SetupActionView::Fail("failed_to_get_local_port: "@ + reason),
        ),
        (Setup::Joining { port, .. }, SetupAnswerView::Bound) => ask_link(true, true, port),
        (Setup::Joining { stack, port }, SetupAnswerView::Failed(_)) => ask_link(
            stack is V4,
            stack is V6,
            port,
        ),
        (Setup::Linking { has_ipv4, has_ipv6, port }, SetupAnswerView::Link(link)) => (
            Setup::Over,
            SetupActionView::Serve {
                auth_url: link,
                redirect_uri: redirect_of(has_ipv4, has_ipv6, port),
            },
        ),
        _ => (setup, SetupActionView::Nothing),
    }
}

impl Setup {
    fn ask_link(has_ipv4: bool, has_ipv6: bool, port: u16) -> (r: (Setup, SetupAction))
        ensures
            (r.0, r.1@) == ask_link(has_ipv4, has_ipv6, port),
    {
        (
            Setup::Linking { has_ipv4, has_ipv6, port },
            SetupAction::MakeLink { redirect_uri: redirect_uri(has_ipv4, has_ipv6, port) },
        )
    }

    /// Begins with a listener on a free port of IPv6.
    pub fn begin() -> (r: (Setup, SetupAction))
        ensures
            (r.0, r.1@) == ask_listener(Stack::V6),
    {
        (
            Setup::Listening { stack: Stack::V6 },
            SetupAction::Bind { stack: Stack::V6, address: loopback_address(Stack::V6, 0) },
        )
    }

    /// Takes in what came of the last action, and says what to do next.
    pub fn step(&self, answer: SetupAnswer) -> (r: (Setup, SetupAction))
        ensures
            (r.0, r.1@) == setup_next(*self, answer@),
    {
        match (*self, answer) {
            (Setup::Listening { stack }, SetupAnswer::Bound) => (
                Setup::Locating { stack },
                SetupAction::AskPort { stack },
            ),
            (Setup::Listening { stack: Stack::V6 }, SetupAnswer::Failed(_)) => (
                Setup::Listening { stack: Stack::V4 },
                SetupAction::Bind { stack: Stack::V4, address: loopback_address(Stack::V4, 0) },
            ),
            (Setup::Listening { stack: Stack::V4 }, SetupAnswer::Failed(reason)) => (
                Setup::Over,
                SetupAction::Fail(prefixed("failed_to_bind_local_port: ", reason.as_str())),
            ),
            (Setup::Locating { stack }, SetupAnswer::Port(port)) => {
                let other = match stack {
                    Stack::V4 => Stack::V6,
                    Stack::V6 => Stack::V4,
                };
                (
                    Setup::Joining { stack, port },
                    SetupAction::Bind { stack: other, address: loopback_address(other, port) },
                )
            },
            (Setup::Locating { .. }, SetupAnswer::Failed(reason)) => (
                Setup::Over,
                SetupAction::Fail(prefixed("failed_to_get_local_port: ", reason.as_str())),
            ),
            (Setup::Joining { port, .. }, SetupAnswer::Bound) => Setup::ask_link(true, true, port),
            (Setup::Joining { stack, port }, SetupAnswer::Failed(_)) => {
                let is_v4 = match stack {
                    Stack::V4 => true,
                    Stack::V6 => false,
                };
                Setup::ask_link(is_v4, !is_v4, port)
            },
            (Setup::Linking { has_ipv4, has_ipv6, port }, SetupAnswer::Link(link)) => (
                Setup::Over,
                SetupAction::Serve {
                    auth_url: link,
                    redirect_uri: redirect_uri(has_ipv4, has_ipv6, port),
                },
            ),
            (setup, _) => (setup, SetupAction::Nothing),
        }
    }
}

/// What is kept once the link has come in: the new flow, where it is ready to be
/// served, else what was kept before.
pub open spec fn kept_after_link<C, R>(
    state: Option<OAuthFlowView<C, R>>,
    setup: Setup,
    link: Seq<char>,
    cancel_tx: C,
    code_rx: R,
) -> Option<OAuthFlowView<C, R>> {
    match setup_next(setup, SetupAnswerView::Link(link)).1 {
        SetupActionView::Serve { auth_url, redirect_uri } => Some(
            saved(auth_url, redirect_uri, cancel_tx, code_rx),
        ),
        _ => state,
    }
}

impl Setup {
    /// Takes in the link for the browser, and keeps the flow that is ready with it:
    /// when it is to be served, it is kept.
    pub fn link<C, R>(
        &self,
        state: &mut Option<OAuthFlowState<C, R>>,
        link: String,
        cancel_tx: C,
        code_rx: R,
    ) -> (r: (Setup, SetupAction))
        ensures
            (r.0, r.1@) == setup_next(*self, SetupAnswerView::Link(link@)),
            flow_view(*final(state)) == kept_after_link(
                flow_view(*old(state)),
                *self,
                link@,
                cancel_tx,
                code_rx,
            ),
            r.1@ is Serve ==> flow_view(*final(state)) == Some(
                saved(r.1@->auth_url, r.1@->Serve_redirect_uri, cancel_tx, code_rx),
            ),
    {
        let (setup, action) = self.step(SetupAnswer::Link(link));
        match &action {
            SetupAction::Serve { auth_url, redirect_uri } => {
                save_oauth_flow(
                    state,
                    auth_url.as_str(),
                    redirect_uri.clone(),
                    cancel_tx,
                    code_rx,
                );
            },
            _ => {},
        }
        (setup, action)
    }
}

/// How a flow is made ready.
pub enum Preparation {
    /// One is under way; this is its link.
    Ready(String),
    /// The listeners are to be set up first.
    Begun(Setup, SetupAction),
}

/// Makes a flow ready. While one is under way, its link is given out again.
pub fn ensure_oauth_flow_prepared<C, R>(state: &Option<OAuthFlowState<C, R>>) -> (r: Preparation)
    ensures
        match flow_view(*state) {
            Some(flow) => r is Ready && r->Ready_0@ == flow.auth_url,
            None => r is Begun && (r->Begun_0, r->Begun_1@) == ask_listener(Stack::V6),
        },
{
    match state {
        Some(flow) => Preparation::Ready(flow.auth_url.clone()),
        None => {
            let (setup, action) = Setup::begin();
            Preparation::Begun(setup, action)
        },
    }
}

/// Makes a flow ready, without a browser and without waiting for the callback.
pub fn prepare_oauth_url<C, R>(state: &Option<OAuthFlowState<C, R>>) -> (r: Preparation)
    ensures
        match flow_view(*state) {
            Some(flow) => r is Ready && r->Ready_0@ == flow.auth_url,
            None => r is Begun && (r->Begun_0, r->Begun_1@) == ask_listener(Stack::V6),
        },
{
    ensure_oauth_flow_prepared(state)
}

/// How far a flow has come.
pub enum Flow {
    /// The listeners and the link are made ready.
    Preparing { browser: bool },
    /// The browser opens the link.
    Opening,
    /// What brings the code is taken.
    Taking,
    /// The code is awaited.
    Waiting { redirect_uri: String },
    /// There is nothing more to do.
    Over,
}

pub enum FlowView {
    Preparing { browser: bool },
    Opening,
    Taking,
    Waiting { redirect_uri: Seq<char> },
    Over,
}

impl View for Flow {
    type V = FlowView;

    open spec fn view(&self) -> FlowView {
        match *self {
            Flow::Preparing { browser } => FlowView::Preparing { browser },
            Flow::Opening => FlowView::Opening,
            Flow::Taking => FlowView::Taking,
            Flow::Waiting { redirect_uri } => FlowView::Waiting { redirect_uri: redirect_uri@ },
            Flow::Over => FlowView::Over,
        }
    }
}

/// What came of an action.
pub enum FlowAnswer {
    /// The flow is ready, with this link; or it could not be made ready.
    Prepared(Result<String, String>),
    /// The browser has the link, or could not be opened.
    Opened(Result<(), String>),
    /// What brings the code is taken, and this is the redirect URI of the flow; or
    /// it could not be taken.
    Taken(Result<String, String>),
    /// The state of the flow cannot be locked.
    LockCorrupted,
    /// What the callback brought.
    Received(Result<String, String>),
    /// Nothing can come in any more.
    Lost,
}

pub enum FlowAnswerView {
    Prepared(Result<Seq<char>, Seq<char>>),
    Opened(Result<(), Seq<char>>),
    Taken(Result<Seq<char>, Seq<char>>),
    LockCorrupted,
    Received(Result<Seq<char>, Seq<char>>),
    Lost,
}

impl View for FlowAnswer {
    type V = FlowAnswerView;

    open spec fn view(&self) -> FlowAnswerView {
        match *self {
            FlowAnswer::Prepared(r) => FlowAnswerView::Prepared(text_result(r)),
            FlowAnswer::Opened(r) => FlowAnswerView::Opened(
                match r {
                    Ok(()) => Ok(()),
                    Err(reason) => Err(reason@),
                },
            ),
            FlowAnswer::Taken(r) => FlowAnswerView::Taken(text_result(r)),
            FlowAnswer::LockCorrupted => FlowAnswerView::LockCorrupted,
            FlowAnswer::Received(r) => FlowAnswerView::Received(text_result(r)),
            FlowAnswer::Lost => FlowAnswerView::Lost,
        }
    }
}

/// What is to be done next.
pub enum FlowAction {
    /// Make the flow ready.
    Prepare,
    /// Open the link in the browser.
    OpenBrowser { auth_url: String },
    /// Take what brings the code out of the flow's state.
    TakeReceiver,
    /// Wait for the code.
    Wait,
    /// Exchange the code for a token: that is the result.
    Exchange { code: String, redirect_uri: String },
    /// Give up, for this reason.
    Fail(String),
    /// Nothing: the answer was to no question.
    Nothing,
}

pub enum FlowActionView {
    Prepare,
    OpenBrowser { auth_url: Seq<char> },
    TakeReceiver,
    Wait,
    Exchange { code: Seq<char>, redirect_uri: Seq<char> },
    Fail(Seq<char>),
    Nothing,
}

impl View for FlowAction {
    type V = FlowActionView;

    open spec fn view(&self) -> FlowActionView {
        match *self {
            FlowAction::Prepare => FlowActionView::Prepare,
            FlowAction::OpenBrowser { auth_url } => FlowActionView::OpenBrowser {
                auth_url: auth_url@,
            },
            FlowAction::TakeReceiver => FlowActionView::TakeReceiver,
            FlowAction::Wait => FlowActionView::Wait,
            FlowAction::Exchange { code, redirect_uri } => FlowActionView::Exchange {
                code: code@,
                redirect_uri: redirect_uri@,
            },
            FlowAction::Fail(reason) => FlowActionView::Fail(reason@),
            FlowAction::Nothing => FlowActionView::Nothing,
        }
    }
}

/// What follows an answer.
pub open spec fn flow_next(flow: FlowView, answer: FlowAnswerView) -> (FlowView, FlowActionView) {
    match (flow, answer) {
        (FlowView::Preparing { browser: true }, FlowAnswerView::Prepared(Ok(auth_url))) => (
            FlowView::Opening,
            FlowActionView::OpenBrowser { auth_url },
        ),
        (FlowView::Preparing { browser: false }, FlowAnswerView::Prepared(Ok(_))) => (
            FlowView::Taking,
            FlowActionView::TakeReceiver,
        ),
        (FlowView::Preparing { .. }, FlowAnswerView::Prepared(Err(reason))) => (
            FlowView::Over,
            FlowActionView::Fail(reason),
        ),
        (FlowView::Opening, FlowAnswerView::Opened(Ok(()))) => (
            FlowView::Taking,
            FlowActionView::TakeReceiver,
        ),
        (FlowView::Opening, FlowAnswerView::Opened(Err(reason))) => (
            FlowView::Over,
            FlowActionView::Fail("failed_to_open_browser: "@ + reason),
        ),
        (FlowView::Taking, FlowAnswerView::Taken(Ok(redirect_uri))) => (
            FlowView::Waiting { redirect_uri },
            FlowActionView::Wait,
        ),
        (FlowView::Taking, FlowAnswerView::Taken(Err(reason))) => (
            FlowView::Over,
            FlowActionView::Fail(reason),
        ),
        (FlowView::Taking, FlowAnswerView::LockCorrupted) => (
            FlowView::Over,
            FlowActionView::Fail("OAuth state lock corrupted"@),
        ),
        (FlowView::Waiting { redirect_uri }, FlowAnswerView::Received(Ok(code))) => (
            FlowView::Over,
            FlowActionView::Exchange { code, redirect_uri },
        ),
        (FlowView::Waiting { .. }, FlowAnswerView::Received(Err(reason))) => (
            FlowView::Over,
            FlowActionView::Fail(reason),
        ),
        (FlowView::Waiting { .. }, FlowAnswerView::Lost) => (
            FlowView::Over,
            FlowActionView::Fail("Failed to wait for OAuth callback"@),
        ),
        _ => (flow, FlowActionView::Nothing),
    }
}

/// Begins a flow that waits for the callback and exchanges the code. The browser
/// is opened where the program has a window to open it from.
pub fn start_oauth_flow(has_window: bool) -> (r: (Flow, FlowAction))
    ensures
        r.0@ == (FlowView::Preparing { browser: has_window }),
        r.1@ == FlowActionView::Prepare,
{
    (Flow::Preparing { browser: has_window }, FlowAction::Prepare)
}

/// Begins a flow that waits for the callback and exchanges the code. The user
/// opens the link.
pub fn complete_oauth_flow() -> (r: (Flow, FlowAction))
    ensures
        r.0@ == (FlowView::Preparing { browser: false }),
        r.1@ == FlowActionView::Prepare,
{
    (Flow::Preparing { browser: false }, FlowAction::Prepare)
}

impl Flow {
    /// Takes in what came of the last action, and says what to do next.
    pub fn step(self, answer: FlowAnswer) -> (r: (Flow, FlowAction))
        ensures
            (r.0@, r.1@) == flow_next(self@, answer@),
    {
        match (self, answer) {
            (Flow::Preparing { browser }, FlowAnswer::Prepared(Ok(auth_url))) => {
                if browser {
                    (Flow::Opening, FlowAction::OpenBrowser { auth_url })
                } else {
                    (Flow::Taking, FlowAction::TakeReceiver)
                }
            },
            (Flow::Preparing { .. }, FlowAnswer::Prepared(Err(reason))) => (
                Flow::Over,
                FlowAction::Fail(reason),
            ),
            (Flow::Opening, FlowAnswer::Opened(Ok(()))) => (Flow::Taking, FlowAction::TakeReceiver),
            (Flow::Opening, FlowAnswer::Opened(Err(reason))) => (
                Flow::Over,
                FlowAction::Fail(prefixed("failed_to_open_browser: ", reason.as_str())),
            ),
            (Flow::Taking, FlowAnswer::Taken(Ok(redirect_uri))) => (
                Flow::Waiting { redirect_uri },
                FlowAction::Wait,
            ),
            (Flow::Taking, FlowAnswer::Taken(Err(reason))) => (
                Flow::Over,
                FlowAction::Fail(reason),
            ),
            (Flow::Taking, FlowAnswer::LockCorrupted) => (
                Flow::Over,
                FlowAction::Fail("OAuth state lock corrupted".to_owned()),
            ),
            (Flow::Waiting { redirect_uri }, FlowAnswer::Received(Ok(code))) => (
                Flow::Over,
                FlowAction::Exchange { code, redirect_uri },
            ),
            (Flow::Waiting { .. }, FlowAnswer::Received(Err(reason))) => (
                Flow::Over,
                FlowAction::Fail(reason),
            ),
            (Flow::Waiting { .. }, FlowAnswer::Lost) => (
                Flow::Over,
                FlowAction::Fail("Failed to wait for OAuth callback".to_owned()),
            ),
            (flow, _) => (flow, FlowAction::Nothing),
        }
    }
}

/// What is kept once the answer has come in: nothing, where the code is to be
/// exchanged, else what was kept before.
pub open spec fn kept_after_answer<C, R>(
    state: Option<OAuthFlowView<C, R>>,
    flow: FlowView,
    answer: FlowAnswerView,
) -> Option<OAuthFlowView<C, R>> {
    if flow_next(flow, answer).1 is Exchange {
        None
    } else {
        state
    }
}

impl Flow {
    /// Takes in what came of the last action, and forgets the flow with its code:
    /// when the code is to be exchanged, the flow is forgotten.
    pub fn advance<C, R>(
        self,
        state: &mut Option<OAuthFlowState<C, R>>,
        answer: FlowAnswer,
    ) -> (r: (Flow, FlowAction))
        ensures
            (r.0@, r.1@) == flow_next(self@, answer@),
            flow_view(*final(state)) == kept_after_answer(
                flow_view(*old(state)),
                self@,
                answer@,
            ),
            r.1@ is Exchange ==> flow_view(*final(state)) is None,
    {
        let (flow, action) = self.step(answer);
        match &action {
            FlowAction::Exchange { .. } => {
                clear_oauth_flow(state);
            },
            _ => {},
        }
        (flow, action)
    }
}

/// The code of a flow is handed out once: who asks again is refused, until there
/// is a new flow, and a refusal changes nothing.
pub proof fn law_one_waits_for_the_code<C, R>(state: Option<OAuthFlowView<C, R>>)
    ensures
        receiver_of(awaited(state)) is Err,
        receiver_of(state) is Ok ==> receiver_of(awaited(state)) == Err::<
            (R, Seq<char>),
            Seq<char>,
        >("OAuth authorization already in progress"@),
        receiver_of(state) is Err ==> awaited(state) == state,
{
}

/// Of a flow that was kept, the code can be awaited, and the redirect URI is the
/// one that was kept. Of a flow that was given up or forgotten it cannot.
pub proof fn law_kept_flow_can_be_awaited<C, R>(
    auth_url: Seq<char>,
    redirect_uri: Seq<char>,
    cancel_tx: C,
    code_rx: R,
)
    ensures
        receiver_of(Some(saved(auth_url, redirect_uri, cancel_tx, code_rx))) == Ok::<
            (R, Seq<char>),
            Seq<char>,
        >((code_rx, redirect_uri)),
        receiver_of(None::<OAuthFlowView<C, R>>) == Err::<(R, Seq<char>), Seq<char>>(
            "OAuth state does not exist"@,
        ),
{
}

/// While somebody waits for the code, the flow still has its link, and can still
/// be given up.
pub proof fn law_waiting_keeps_the_flow<C, R>(state: Option<OAuthFlowView<C, R>>)
    ensures
        awaited(state) is Some <==> state is Some,
        state is Some ==> awaited(state)->0.auth_url == state->0.auth_url
            && awaited(state)->0.redirect_uri == state->0.redirect_uri,
        cancel_of(awaited(state)) == cancel_of(state),
{
}

/// How many answers a setup still waits for, at most.
pub open spec fn setup_rank(setup: Setup) -> nat {
    match setup {
        Setup::Listening { stack: Stack::V6 } => 5,
        Setup::Listening { stack: Stack::V4 } => 4,
        Setup::Locating { .. } => 3,
        Setup::Joining { .. } => 2,
        Setup::Linking { .. } => 1,
        Setup::Over => 0,
    }
}

/// A setup comes to an end: each answer that fits brings it nearer, and one that
/// does not fit changes nothing.
pub proof fn law_setup_ends(setup: Setup, answer: SetupAnswerView)
    ensures
        setup_next(setup, answer).1 is Nothing ==> setup_next(setup, answer).0 == setup,
        !(setup_next(setup, answer).1 is Nothing) ==> setup_rank(setup_next(setup, answer).0)
            < setup_rank(setup),
{
}

/// How far a setup has come after these answers.
pub open spec fn setup_run(answers: Seq<SetupAnswerView>) -> Setup
    decreases answers.len(),
{
    if answers.len() == 0 {
        ask_listener(Stack::V6).0
    } else {
        setup_next(setup_run(answers.drop_last()), answers.last()).0
    }
}

/// Whether a listener on the stack is asked for.
pub open spec fn asks_for(setup: Setup, stack: Stack) -> bool {
    match setup {
        Setup::Listening { stack: asked } => asked == stack,
        Setup::Joining { stack: first, .. } => other_stack(first) == stack,
        _ => false,
    }
}

/// Whether the answers brought a listener on the stack.
pub open spec fn listens(answers: Seq<SetupAnswerView>, stack: Stack) -> bool
    decreases answers.len(),
{
    answers.len() > 0 && (listens(answers.drop_last(), stack) || (answers.last() is Bound
        && asks_for(setup_run(answers.drop_last()), stack)))
}

/// The browser is sent back to where somebody listens: the redirect URI is made
/// for exactly the stacks on which a listener came up, and there is at least one.
pub proof fn law_redirect_fits_listeners(answers: Seq<SetupAnswerView>)
    ensures
        match setup_run(answers) {
            Setup::Listening { .. } => !listens(answers, Stack::V4) && !listens(answers, Stack::V6),
            Setup::Locating { stack } => listens(answers, stack) && !listens(
                answers,
                other_stack(stack),
            ),
            Setup::Joining { stack, .. } => listens(answers, stack) && !listens(
                answers,
                other_stack(stack),
            ),
            Setup::Linking { has_ipv4, has_ipv6, .. } => {
                &&& has_ipv4 == listens(answers, Stack::V4)
                &&& has_ipv6 == listens(answers, Stack::V6)
                &&& has_ipv4 || has_ipv6
            },
            Setup::Over => true,
        },
    decreases answers.len(),
{
    if answers.len() > 0 {
        law_redirect_fits_listeners(answers.drop_last());
    }
}

/// How many answers a flow still waits for, at most.
pub open spec fn flow_rank(flow: FlowView) -> nat {
    match flow {
        FlowView::Preparing { .. } => 4,
        FlowView::Opening => 3,
        FlowView::Taking => 2,
        FlowView::Waiting { .. } => 1,
        FlowView::Over => 0,
    }
}

/// A flow comes to an end: each answer that fits brings it nearer, and one that
/// does not fit changes nothing.
pub proof fn law_flow_ends(flow: FlowView, answer: FlowAnswerView)
    ensures
        flow_next(flow, answer).1 is Nothing ==> flow_next(flow, answer).0 == flow,
        !(flow_next(flow, answer).1 is Nothing) ==> flow_rank(flow_next(flow, answer).0)
            < flow_rank(flow),
{
}

/// A code is exchanged under the redirect URI of the flow that it came in on.
pub proof fn law_code_goes_with_its_redirect(redirect_uri: Seq<char>, code: Seq<char>)
    ensures
        ({
            let waiting = flow_next(FlowView::Taking, FlowAnswerView::Taken(Ok(redirect_uri))).0;
            flow_next(waiting, FlowAnswerView::Received(Ok(code))) == (
                FlowView::Over,
                FlowActionView::Exchange { code, redirect_uri },
            )
        }),
{
}

/// Once the browser has the link, a flow with a browser goes on as one without.
pub proof fn law_browser_is_one_step_more(auth_url: Seq<char>)
    ensures
        ({
            let ready = FlowAnswerView::Prepared(Ok(auth_url));
            let opening = flow_next((FlowView::Preparing { browser: true }), ready).0;
            flow_next(opening, FlowAnswerView::Opened(Ok(()))) == flow_next(
                (FlowView::Preparing { browser: false }),
                ready,
            )
        }),
{
}

/// A flow that is to be served is kept, with the link and the redirect URI that it
/// is served under, and its code can be awaited.
pub proof fn law_served_flow_is_kept<C, R>(
    state: Option<OAuthFlowView<C, R>>,
    setup: Setup,
    link: Seq<char>,
    cancel_tx: C,
    code_rx: R,
)
    requires
        setup is Linking,
    ensures
        ({
            let action = setup_next(setup, SetupAnswerView::Link(link)).1;
            let kept = kept_after_link(state, setup, link, cancel_tx, code_rx);
            &&& action is Serve
            &&& kept is Some && kept->0.auth_url == link
            &&& receiver_of(kept) == Ok::<(R, Seq<char>), Seq<char>>(
                (code_rx, action->Serve_redirect_uri),
            )
        }),
{
}

/// A flow whose code is exchanged is forgotten, so that the next one begins anew;
/// one that fails is kept as it is.
pub proof fn law_exchanged_flow_is_forgotten<C, R>(
    state: Option<OAuthFlowView<C, R>>,
    flow: FlowView,
    answer: FlowAnswerView,
)
    ensures
        flow_next(flow, answer).1 is Exchange ==> kept_after_answer(state, flow, answer) is None,
        flow_next(flow, answer).1 is Fail ==> kept_after_answer(state, flow, answer) == state,
{
}

} // verus!
