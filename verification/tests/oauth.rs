use antigravity_proxy::callback::{
    answer_callback, callback_code, callback_reply, claim_sender, oauth_fail_html,
    oauth_success_html, read_code, read_target,
};
use antigravity_proxy::oauth::{
    cancel_oauth_flow, clear_oauth_flow, complete_oauth_flow, ensure_oauth_flow_prepared,
    get_oauth_flow_state, loopback_address, prepare_oauth_url, redirect_uri, save_oauth_flow,
    start_oauth_flow, take_code_receiver, Flow, FlowAction, FlowAnswer, OAuthFlowState,
    Preparation, Setup, SetupAction, SetupAnswer, Stack,
};

fn flow() -> Option<OAuthFlowState<u8, u16>> {
    let mut state = get_oauth_flow_state();
    save_oauth_flow(&mut state, "https://auth", "http://localhost:1/oauth-callback".to_string(), 7, 9);
    state
}

#[test]
fn a_receiver_is_taken_once() {
    let mut state = flow();
    let (rx, uri) = take_code_receiver(&mut state).unwrap();
    assert_eq!((rx, uri.as_str()), (9, "http://localhost:1/oauth-callback"));
    let again = take_code_receiver(&mut state);
    assert_eq!(again, Err("OAuth authorization already in progress".to_string()));
    assert!(state.is_some());
    assert_eq!(cancel_oauth_flow(&mut state), Some(7));
    assert!(state.is_none());
    assert_eq!(cancel_oauth_flow(&mut state), None);
    let gone = take_code_receiver(&mut state);
    assert_eq!(gone, Err("OAuth state does not exist".to_string()));
}

#[test]
fn a_flow_under_way_keeps_its_link() {
    let mut state = flow();
    for _ in 0..2 {
        match prepare_oauth_url(&state) {
            Preparation::Ready(url) => assert_eq!(url, "https://auth"),
            Preparation::Begun(..) => panic!("begun anew"),
        }
        let _ = take_code_receiver(&mut state);
    }
    clear_oauth_flow(&mut state);
    assert!(matches!(ensure_oauth_flow_prepared(&state), Preparation::Begun(..)));
}

#[test]
fn a_served_flow_is_kept() {
    let mut state: Option<OAuthFlowState<u8, u16>> = get_oauth_flow_state();
    let linking = Setup::Linking { has_ipv4: true, has_ipv6: true, port: 5000 };
    let (_, action) = linking.link(&mut state, "https://auth".to_string(), 7, 9);
    assert_eq!(tell(&action), "serve https://auth http://localhost:5000/oauth-callback");
    assert_eq!(state.as_ref().map(|s| s.auth_url.as_str()), Some("https://auth"));
    let (_, action) = Setup::Over.link(&mut state, "https://other".to_string(), 1, 2);
    assert_eq!(tell(&action), "nothing");
    assert_eq!(state.as_ref().map(|s| s.auth_url.as_str()), Some("https://auth"));
    let taken = take_code_receiver(&mut state);
    assert_eq!(taken, Ok((9, "http://localhost:5000/oauth-callback".to_string())));
}

#[test]
fn an_exchanged_flow_is_forgotten() {
    let mut state = flow();
    let waiting = || Flow::Waiting { redirect_uri: "uri".to_string() };
    let (_, action) = waiting().advance(&mut state, FlowAnswer::Lost);
    assert_eq!(tell_flow(&action), "fail Failed to wait for OAuth callback");
    assert!(state.is_some());
    let (_, action) = waiting().advance(&mut state, FlowAnswer::Received(ok("code")));
    assert_eq!(tell_flow(&action), "exchange code uri");
    assert!(state.is_none());
}

#[test]
fn addresses_and_redirects() {
    assert_eq!(loopback_address(Stack::V6, 0), "[::1]:0");
    assert_eq!(loopback_address(Stack::V4, 65535), "127.0.0.1:65535");
    assert_eq!(redirect_uri(true, true, 8045), "http://localhost:8045/oauth-callback");
    assert_eq!(redirect_uri(true, false, 8045), "http://127.0.0.1:8045/oauth-callback");
    assert_eq!(redirect_uri(false, true, 8045), "http://[::1]:8045/oauth-callback");
}

fn run(answers: Vec<SetupAnswer>) -> Vec<String> {
    let (mut setup, action) = Setup::begin();
    let mut told = vec![tell(&action)];
    for answer in answers {
        let (next, action) = setup.step(answer);
        setup = next;
        told.push(tell(&action));
    }
    told
}

fn tell(action: &SetupAction) -> String {
    match action {
        SetupAction::Bind { stack, address } => format!("bind {:?} {}", stack, address),
        SetupAction::AskPort { stack } => format!("port {:?}", stack),
        SetupAction::MakeLink { redirect_uri } => format!("link {}", redirect_uri),
        SetupAction::Serve { auth_url, redirect_uri } => {
            format!("serve {} {}", auth_url, redirect_uri)
        }
        SetupAction::Fail(reason) => format!("fail {}", reason),
        SetupAction::Nothing => "nothing".to_string(),
    }
}

fn failed(reason: &str) -> SetupAnswer {
    SetupAnswer::Failed(reason.to_string())
}

#[test]
fn both_stacks_listen_on_one_port() {
    let told = run(vec![
        SetupAnswer::Bound,
        SetupAnswer::Port(5000),
        SetupAnswer::Bound,
        SetupAnswer::Link("https://auth".to_string()),
        SetupAnswer::Bound,
    ]);
    assert_eq!(
        told,
        vec![
            "bind V6 [::1]:0",
            "port V6",
            "bind V4 127.0.0.1:5000",
            "link http://localhost:5000/oauth-callback",
            "serve https://auth http://localhost:5000/oauth-callback",
            "nothing",
        ]
    );
}

#[test]
fn one_stack_alone_is_named_by_its_address() {
    let told = run(vec![SetupAnswer::Bound, SetupAnswer::Port(5000), failed("busy")]);
    assert_eq!(told[3], "link http://[::1]:5000/oauth-callback");
    let told = run(vec![
        failed("no v6"),
        SetupAnswer::Bound,
        SetupAnswer::Port(6000),
        failed("no v6"),
    ]);
    assert_eq!(told[1], "bind V4 127.0.0.1:0");
    assert_eq!(told[3], "bind V6 [::1]:6000");
    assert_eq!(told[4], "link http://127.0.0.1:6000/oauth-callback");
    let told = run(vec![
        failed("no v6"),
        SetupAnswer::Bound,
        SetupAnswer::Port(6000),
        SetupAnswer::Bound,
    ]);
    assert_eq!(told[4], "link http://localhost:6000/oauth-callback");
}

#[test]
fn setups_that_fail() {
    let told = run(vec![failed("a"), failed("b")]);
    assert_eq!(told[2], "fail failed_to_bind_local_port: b");
    let told = run(vec![SetupAnswer::Bound, failed("c")]);
    assert_eq!(told[2], "fail failed_to_get_local_port: c");
    let told = run(vec![SetupAnswer::Port(1)]);
    assert_eq!(told[1], "nothing");
}

fn flow_told(begin: (Flow, FlowAction), answers: Vec<FlowAnswer>) -> Vec<String> {
    let (mut flow, action) = begin;
    let mut told = vec![tell_flow(&action)];
    for answer in answers {
        let (next, action) = flow.step(answer);
        flow = next;
        told.push(tell_flow(&action));
    }
    told
}

fn tell_flow(action: &FlowAction) -> String {
    match action {
        FlowAction::Prepare => "prepare".to_string(),
        FlowAction::OpenBrowser { auth_url } => format!("open {}", auth_url),
        FlowAction::TakeReceiver => "take".to_string(),
        FlowAction::Wait => "wait".to_string(),
        FlowAction::Exchange { code, redirect_uri } => format!("exchange {} {}", code, redirect_uri),
        FlowAction::Fail(reason) => format!("fail {}", reason),
        FlowAction::Nothing => "nothing".to_string(),
    }
}

fn ok(s: &str) -> Result<String, String> {
    Ok(s.to_string())
}

fn err<T>(s: &str) -> Result<T, String> {
    Err(s.to_string())
}

#[test]
fn a_flow_with_a_browser() {
    let told = flow_told(
        start_oauth_flow(true),
        vec![
            FlowAnswer::Prepared(ok("url")),
            FlowAnswer::Opened(Ok(())),
            FlowAnswer::Taken(ok("uri")),
            FlowAnswer::Received(ok("code")),
            FlowAnswer::Lost,
        ],
    );
    assert_eq!(told, vec!["prepare", "open url", "take", "wait", "exchange code uri", "nothing"]);
}

#[test]
fn a_flow_without_a_browser() {
    for begin in [start_oauth_flow(false), complete_oauth_flow()] {
        let told = flow_told(
            begin,
            vec![
                FlowAnswer::Prepared(ok("url")),
                FlowAnswer::Taken(ok("uri")),
                FlowAnswer::Received(ok("code")),
            ],
        );
        assert_eq!(told, vec!["prepare", "take", "wait", "exchange code uri"]);
    }
}

#[test]
fn flows_that_fail() {
    let told = flow_told(complete_oauth_flow(), vec![FlowAnswer::Prepared(err("no port"))]);
    assert_eq!(told[1], "fail no port");
    let told = flow_told(
        start_oauth_flow(true),
        vec![FlowAnswer::Prepared(ok("url")), FlowAnswer::Opened(err("none"))],
    );
    assert_eq!(told[2], "fail failed_to_open_browser: none");
    let prepared = || FlowAnswer::Prepared(ok("url"));
    let told = flow_told(complete_oauth_flow(), vec![prepared(), FlowAnswer::Taken(err("busy"))]);
    assert_eq!(told[2], "fail busy");
    let told = flow_told(complete_oauth_flow(), vec![prepared(), FlowAnswer::LockCorrupted]);
    assert_eq!(told[2], "fail OAuth state lock corrupted");
    let taken = || FlowAnswer::Taken(ok("uri"));
    let told = flow_told(
        complete_oauth_flow(),
        vec![prepared(), taken(), FlowAnswer::Received(err("no code"))],
    );
    assert_eq!(told[3], "fail no code");
    let told = flow_told(complete_oauth_flow(), vec![prepared(), taken(), FlowAnswer::Lost]);
    assert_eq!(told[3], "fail Failed to wait for OAuth callback");
}

#[test]
fn a_callback_with_a_code() {
    let (result, page) =
        answer_callback(b"GET /oauth-callback?state=x&code=4%2F0a+b&code=no HTTP/1.1\r\nHost: x\r\n");
    assert_eq!(result, Ok("4/0a b".to_string()));
    assert_eq!(page, oauth_success_html());
    assert!(page.starts_with("HTTP/1.1 200 OK\r\nContent-Type: text/html; charset=utf-8\r\n\r\n<html>"));
    assert!(page.contains("<h1 style='color: green;'>✅ Authorization Successful!</h1><p>"));
}

#[test]
fn callbacks_without_a_code() {
    let requests: [&[u8]; 6] = [
        b"",
        b"\nGET /?code=a HTTP/1.1",
        b"GET",
        b"GET /oauth-callback?error=denied HTTP/1.1\r\n",
        b"GET :x/?code=a HTTP/1.1\r\n",
        b"GET /oauth-callback#code=a HTTP/1.1\r\n",
    ];
    for request in requests {
        let (result, page) = answer_callback(request);
        assert_eq!(result, Err("Failed to get Authorization Code in callback".to_string()));
        assert_eq!(page, oauth_fail_html());
    }
    assert!(oauth_fail_html().starts_with("HTTP/1.1 400 Bad Request\r\n"));
    assert!(oauth_fail_html().contains("<h1 style='color: red;'>❌ Authorization Failed</h1><p>"));
}

#[test]
fn callbacks_in_broken_text() {
    let (result, _) = answer_callback(b"GET /?code=\xff HTTP/1.1");
    assert_eq!(result, Ok("\u{fffd}".to_string()));
}

#[test]
fn steps_of_reading_a_callback() {
    assert_eq!(read_target("GET /a b\n"), Some("/a"));
    assert_eq!(read_target("GET\n/a"), None);
    assert_eq!(callback_code("GET /?code= HTTP/1.1").as_deref(), Some(""));
    let pairs = vec![
        ("x".to_string(), "1".to_string()),
        ("code".to_string(), "2".to_string()),
        ("code".to_string(), "3".to_string()),
    ];
    assert_eq!(read_code(&pairs).as_deref(), Some("2"));
    assert_eq!(read_code(&vec![]), None);
    assert_eq!(callback_reply(Some("c".to_string())).0, Ok("c".to_string()));
    let more = callback_code("GET /?code=a HTTP/1.1\nGET /?code=b HTTP/1.1");
    assert_eq!(more.as_deref(), Some("a"));
}

#[test]
fn the_first_callback_hands_its_result_on() {
    let mut slot = Some(5);
    assert_eq!(claim_sender(&mut slot), Some(5));
    assert_eq!(claim_sender(&mut slot), None);
}
