//! What holds of whole runs of the authorization flow.
use vstd::prelude::*;

use crate::oauth::{
    address_of, ask_listener, awaited, cancel_of, flow_next, kept_after_answer, kept_after_link,
    receiver_of, redirect_of, saved, setup_next, FlowActionView, FlowAnswerView, FlowView,
    OAuthFlowView, Setup, SetupActionView, SetupAnswerView, Stack,
};
use crate::text::numeral;

verus! {

/// The loopback addresses of both stacks, and where the browser is sent back to.
pub proof fn law_addresses(port: u16)
    ensures
        address_of(Stack::V4, port) == "127.0.0.1:"@ + numeral(port as nat, 10),
        address_of(Stack::V6, port) == "[::1]:"@ + numeral(port as nat, 10),
        redirect_of(true, true, port) == "http://localhost:"@ + numeral(port as nat, 10)
            + "/oauth-callback"@,
        redirect_of(true, false, port) == "http://"@ + ("127.0.0.1:"@ + numeral(port as nat, 10))
            + "/oauth-callback"@,
        redirect_of(false, true, port) == "http://"@ + ("[::1]:"@ + numeral(port as nat, 10))
            + "/oauth-callback"@,
{
}

/// The flow is served and kept under the redirect URI that its link was made with:
/// if a step asks for a link and a link is the answer, the flow is served with that
/// link and the very URI of the question.
pub proof fn law_link_and_flow_have_one_redirect(
    setup: Setup,
    answer: SetupAnswerView,
    link: Seq<char>,
)
    ensures
        setup_next(setup, answer).1 matches SetupActionView::MakeLink { redirect_uri } ==> {
            setup_next(setup_next(setup, answer).0, SetupAnswerView::Link(link)) == (
                Setup::Over,
                SetupActionView::Serve { auth_url: link, redirect_uri },
            )
        },
{
}

/// The same of what is kept, and of what its code is exchanged under: the code that
/// comes in is exchanged under the redirect URI that the link was made with.
pub proof fn law_code_is_exchanged_under_its_redirect<C, R>(
    state: Option<OAuthFlowView<C, R>>,
    setup: Setup,
    answer: SetupAnswerView,
    link: Seq<char>,
    cancel_tx: C,
    code_rx: R,
    code: Seq<char>,
)
    ensures
        setup_next(setup, answer).1 matches SetupActionView::MakeLink { redirect_uri } ==> {
            let linking = setup_next(setup, answer).0;
            let kept = kept_after_link(state, linking, link, cancel_tx, code_rx);
            &&& kept == Some(
                OAuthFlowView {
                    auth_url: link,
                    redirect_uri,
                    cancel_tx,
                    code_rx: Some(code_rx),
                },
            )
            &&& receiver_of(kept) == Ok::<(R, Seq<char>), Seq<char>>((code_rx, redirect_uri))
            &&& {
                let waiting = flow_next(
                    FlowView::Taking,
                    FlowAnswerView::Taken(Ok(redirect_uri)),
                ).0;
                flow_next(waiting, FlowAnswerView::Received(Ok(code))).1
                    == FlowActionView::Exchange { code, redirect_uri }
            }
        },
{
}

/// A setup in which IPv6 can be listened on: the other stack is asked for on the
/// same port, and the browser is sent to `localhost` or to the address of IPv6.
pub proof fn law_setup_with_ipv6(port: u16, reason: Seq<char>)
    ensures
        ({
            let begun = ask_listener(Stack::V6);
            let bound = setup_next(begun.0, SetupAnswerView::Bound);
            let located = setup_next(bound.0, SetupAnswerView::Port(port));
            &&& begun.1 == (SetupActionView::Bind {
                stack: Stack::V6,
                address: "[::1]:"@ + numeral(0, 10),
            })
            &&& bound.1 == (SetupActionView::AskPort { stack: Stack::V6 })
            &&& setup_next(bound.0, SetupAnswerView::Failed(reason)) == (
                Setup::Over,
                SetupActionView::Fail("failed_to_get_local_port: "@ + reason),
            )
            &&& located.1 == (SetupActionView::Bind {
                stack: Stack::V4,
                address: "127.0.0.1:"@ + numeral(port as nat, 10),
            })
            &&& setup_next(located.0, SetupAnswerView::Bound).1 == (SetupActionView::MakeLink {
                redirect_uri: "http://localhost:"@ + numeral(port as nat, 10) + "/oauth-callback"@,
            })
            &&& setup_next(located.0, SetupAnswerView::Failed(reason)).1 == (
            SetupActionView::MakeLink {
                redirect_uri: "http://"@ + ("[::1]:"@ + numeral(port as nat, 10))
                    + "/oauth-callback"@,
            })
        }),
{
}

/// A setup in which IPv6 cannot be listened on: IPv4 is asked for, and then IPv6 once
/// more on its port; the browser is sent to `localhost` or to the address of IPv4.
pub proof fn law_setup_without_ipv6(first: Seq<char>, port: u16, reason: Seq<char>)
    ensures
        ({
            let begun = ask_listener(Stack::V6);
            let retried = setup_next(begun.0, SetupAnswerView::Failed(first));
            let bound = setup_next(retried.0, SetupAnswerView::Bound);
            let located = setup_next(bound.0, SetupAnswerView::Port(port));
            &&& retried.1 == (SetupActionView::Bind {
                stack: Stack::V4,
                address: "127.0.0.1:"@ + numeral(0, 10),
            })
            &&& setup_next(retried.0, SetupAnswerView::Failed(reason)) == (
                Setup::Over,
                SetupActionView::Fail("failed_to_bind_local_port: "@ + reason),
            )
            &&& bound.1 == (SetupActionView::AskPort { stack: Stack::V4 })
            &&& setup_next(bound.0, SetupAnswerView::Failed(reason)) == (
                Setup::Over,
                SetupActionView::Fail("failed_to_get_local_port: "@ + reason),
            )
            &&& located.1 == (SetupActionView::Bind {
                stack: Stack::V6,
                address: "[::1]:"@ + numeral(port as nat, 10),
            })
            &&& setup_next(located.0, SetupAnswerView::Bound).1 == (SetupActionView::MakeLink {
                redirect_uri: "http://localhost:"@ + numeral(port as nat, 10) + "/oauth-callback"@,
            })
            &&& setup_next(located.0, SetupAnswerView::Failed(reason)).1 == (
            SetupActionView::MakeLink {
                redirect_uri: "http://"@ + ("127.0.0.1:"@ + numeral(port as nat, 10))
                    + "/oauth-callback"@,
            })
        }),
{
}

/// An answer to a question that was not asked changes nothing.
pub proof fn law_setup_takes_only_answers(setup: Setup, answer: SetupAnswerView)
    requires
        match answer {
            SetupAnswerView::Bound => !(setup is Listening || setup is Joining),
            SetupAnswerView::Port(_) => !(setup is Locating),
            SetupAnswerView::Link(_) => !(setup is Linking),
            SetupAnswerView::Failed(_) => setup is Linking || setup is Over,
        },
    ensures
        setup_next(setup, answer) == (setup, SetupActionView::Nothing),
{
}

/// A flow from its start to its end: with a window the link is opened, then the
/// receiver is taken, the code is awaited, and it is exchanged under the redirect URI
/// that came with the receiver.
pub proof fn law_flow_in_full(
    browser: bool,
    auth_url: Seq<char>,
    redirect_uri: Seq<char>,
    code: Seq<char>,
)
    ensures
        ({
            let begun = FlowView::Preparing { browser };
            let prepared = flow_next(begun, FlowAnswerView::Prepared(Ok(auth_url)));
            let opened = if browser {
                flow_next(prepared.0, FlowAnswerView::Opened(Ok(())))
            } else {
                prepared
            };
            let taken = flow_next(opened.0, FlowAnswerView::Taken(Ok(redirect_uri)));
            &&& browser ==> prepared.1 == (FlowActionView::OpenBrowser { auth_url })
            &&& opened.1 == FlowActionView::TakeReceiver
            &&& taken.1 == FlowActionView::Wait
            &&& flow_next(taken.0, FlowAnswerView::Received(Ok(code))) == (
                FlowView::Over,
                FlowActionView::Exchange { code, redirect_uri },
            )
        }),
{
}

/// Wherever a flow fails, it ends with the reason: the one that was given, or the one
/// that says what could not be done.
pub proof fn law_flow_failures(browser: bool, redirect_uri: Seq<char>, reason: Seq<char>)
    ensures
        flow_next((FlowView::Preparing { browser }), FlowAnswerView::Prepared(Err(reason))) == (
            FlowView::Over,
            FlowActionView::Fail(reason),
        ),
        flow_next(FlowView::Opening, FlowAnswerView::Opened(Err(reason))) == (
            FlowView::Over,
            FlowActionView::Fail("failed_to_open_browser: "@ + reason),
        ),
        flow_next(FlowView::Taking, FlowAnswerView::Taken(Err(reason))) == (
            FlowView::Over,
            FlowActionView::Fail(reason),
        ),
        flow_next(FlowView::Taking, FlowAnswerView::LockCorrupted) == (
            FlowView::Over,
            FlowActionView::Fail("OAuth state lock corrupted"@),
        ),
        flow_next((FlowView::Waiting { redirect_uri }), FlowAnswerView::Received(Err(reason))) == (
            FlowView::Over,
            FlowActionView::Fail(reason),
        ),
        flow_next((FlowView::Waiting { redirect_uri }), FlowAnswerView::Lost) == (
            FlowView::Over,
            FlowActionView::Fail("Failed to wait for OAuth callback"@),
        ),
{
}

/// An answer to a question that was not asked changes nothing.
pub proof fn law_flow_takes_only_answers(flow: FlowView, answer: FlowAnswerView)
    requires
        match answer {
            FlowAnswerView::Prepared(_) => !(flow is Preparing),
            FlowAnswerView::Opened(_) => !(flow is Opening),
            FlowAnswerView::Taken(_) => !(flow is Taking),
            FlowAnswerView::LockCorrupted => !(flow is Taking),
            FlowAnswerView::Received(_) => !(flow is Waiting),
            FlowAnswerView::Lost => !(flow is Waiting),
        },
    ensures
        flow_next(flow, answer) == (flow, FlowActionView::Nothing),
{
}

/// What is kept of a flow: until its code comes in all of it stays, and then nothing.
pub proof fn law_flow_is_kept_until_its_code_comes<C, R>(
    state: Option<OAuthFlowView<C, R>>,
    flow: FlowView,
    answer: FlowAnswerView,
)
    ensures
        flow is Waiting && answer is Received && answer->Received_0 is Ok ==> kept_after_answer(
            state,
            flow,
            answer,
        ) is None,
        !(flow is Waiting && answer is Received && answer->Received_0 is Ok) ==> kept_after_answer(
            state,
            flow,
            answer,
        ) == state,
{
}

/// What cancels a flow is what was kept with it; the flow that is kept is the one
/// that was saved, and while its code is awaited only the receiver is gone.
pub proof fn law_kept_flow<C, R>(
    auth_url: Seq<char>,
    redirect_uri: Seq<char>,
    cancel_tx: C,
    code_rx: R,
)
    ensures
        ({
            let kept = Some(saved(auth_url, redirect_uri, cancel_tx, code_rx));
            &&& kept == Some(
                OAuthFlowView { auth_url, redirect_uri, cancel_tx, code_rx: Some(code_rx) },
            )
            &&& cancel_of(kept) == Some(cancel_tx)
            &&& awaited(kept) == Some(
                OAuthFlowView { auth_url, redirect_uri, cancel_tx, code_rx: None::<R> },
            )
            &&& cancel_of(None::<OAuthFlowView<C, R>>) is None
            &&& awaited(None::<OAuthFlowView<C, R>>) is None
        }),
{
}

} // verus!
