use antigravity_proxy::db::{
    get_antigravity_path, get_db_path, Candidate, DbAction, DbAnswer, Platform,
};
use antigravity_proxy::inject::{
    inject_token, merged_text, take_decoded, take_encoded, InjectAction, InjectAnswer, Injection,
};
use base64::Engine;

fn tell(action: &DbAction<&'static str>) -> String {
    match action {
        DbAction::AskUserDataDir => "user data dir".to_string(),
        DbAction::AskExecutable => "executable".to_string(),
        DbAction::AskParent(path) => format!("parent {}", path),
        DbAction::AskHome => "home".to_string(),
        DbAction::AskAppData => "app data".to_string(),
        DbAction::Look { base, names } => format!("look {} {}", base, names.join("+")),
        DbAction::Use(path) => format!("use {}", path),
        DbAction::UseUnder { base, names } => format!("use {} {}", base, names.join("+")),
        DbAction::Fail(reason) => format!("fail {}", reason),
        DbAction::Nothing => "nothing".to_string(),
    }
}

fn search(platform: Platform, answers: Vec<DbAnswer<&'static str>>) -> Vec<String> {
    let (mut search, action) = get_db_path(platform);
    let mut told = vec![tell(&action)];
    for answer in answers {
        let (next, action) = search.step(answer);
        search = next;
        told.push(tell(&action));
    }
    told
}

#[test]
fn the_custom_database_goes_first() {
    let told = search(
        Platform::Linux,
        vec![DbAnswer::Path(Some("/data")), DbAnswer::Exists("/data/db"), DbAnswer::Missing],
    );
    assert_eq!(
        told,
        vec![
            "user data dir",
            "look /data User+globalStorage+state.vscdb",
            "use /data/db",
            "nothing",
        ]
    );
}

#[test]
fn the_portable_database_goes_next() {
    let told = search(
        Platform::Windows,
        vec![
            DbAnswer::Path(Some("/data")),
            DbAnswer::Missing,
            DbAnswer::Path(Some("/app/exe")),
            DbAnswer::Path(Some("/app")),
            DbAnswer::Exists("/app/db"),
        ],
    );
    assert_eq!(told[2], "executable");
    assert_eq!(told[3], "parent /app/exe");
    assert_eq!(told[4], "look /app data+user-data+User+globalStorage+state.vscdb");
    assert_eq!(told[5], "use /app/db");
}

#[test]
fn the_standard_database_goes_last() {
    let last = |platform: Platform| {
        search(
            platform,
            vec![DbAnswer::Path(None), DbAnswer::Path(None), DbAnswer::Path(Some("/u"))],
        )
    };
    let told = last(Platform::Linux);
    assert_eq!(told[2], "home");
    assert_eq!(told[3], "use /u .config/Antigravity/User/globalStorage/state.vscdb");
    let told = last(Platform::MacOs);
    assert_eq!(told[2], "home");
    assert_eq!(
        told[3],
        "use /u Library/Application Support/Antigravity/User/globalStorage/state.vscdb"
    );
    let told = last(Platform::Windows);
    assert_eq!(told[2], "app data");
    assert_eq!(told[3], "use /u Antigravity\\User\\globalStorage\\state.vscdb");
}

#[test]
fn searches_that_fail() {
    let last = |platform: Platform| {
        let none = || DbAnswer::Path(None);
        search(
            platform,
            vec![none(), DbAnswer::Path(Some("/exe")), DbAnswer::Path(Some("/")), DbAnswer::Missing, none()],
        )
    };
    assert_eq!(last(Platform::Linux)[5], "fail Failed to get home directory");
    assert_eq!(last(Platform::MacOs)[5], "fail Failed to get home directory");
    let told = last(Platform::Windows);
    assert_eq!(told[5], "fail Failed to get APPDATA environment variable");
    let looked = search(
        Platform::Linux,
        vec![
            DbAnswer::Path(Some("/data")),
            DbAnswer::Missing,
            DbAnswer::Path(None),
            DbAnswer::Path(Some("/u")),
        ],
    );
    assert_eq!(looked[4], "use /u .config/Antigravity/User/globalStorage/state.vscdb");
    let rootless = search(
        Platform::Linux,
        vec![DbAnswer::Path(None), DbAnswer::Path(Some("/exe")), DbAnswer::Path(None)],
    );
    assert_eq!(rootless[3], "home");
}

#[test]
fn a_configured_executable_has_to_exist() {
    let found = get_antigravity_path(Some(Candidate { path: "p", exists: true }));
    assert!(!found.asks_process());
    assert_eq!(found.settle(Some("q")), Some("p"));
    for configured in [None, Some(Candidate { path: "p", exists: false })] {
        let search = get_antigravity_path(configured);
        assert!(search.asks_process());
        assert_eq!(search.settle(Some("q")), Some("q"));
    }
    assert_eq!(get_antigravity_path::<&str>(None).settle(None), None);
}

fn injection() -> (Injection, InjectAction) {
    inject_token("\"/db\"".to_string(), "access", "refresh", 99, "me@example.com")
}

fn drive(answers: Vec<InjectAnswer>) -> Vec<InjectAction> {
    let (mut injection, action) = injection();
    let mut actions = vec![action];
    for answer in answers {
        assert!(injection.fits(&answer));
        let (next, action) = injection.step(answer);
        injection = next;
        actions.push(action);
    }
    actions
}

fn stored() -> InjectAnswer {
    InjectAnswer::Text("AQID".to_string())
}

fn raw(b: &[u8]) -> InjectAnswer {
    InjectAnswer::Bytes(b.to_vec())
}

#[test]
fn an_injection_that_succeeds() {
    let actions = drive(vec![
        InjectAnswer::Done,
        stored(),
        raw(&[2, 3]),
        raw(&[3]),
        raw(&[0xff]),
        raw(b"mail"),
        raw(b"token"),
        InjectAnswer::Done,
        InjectAnswer::Done,
        InjectAnswer::Done,
    ]);
    assert!(matches!(&actions[0], InjectAction::Open));
    assert!(matches!(
        &actions[1],
        InjectAction::Query {
            sql: "SELECT value FROM ItemTable WHERE key = ?",
            key: "jetskiStateSync.agentManagerInitState",
        }
    ));
    let removed = |i: usize| match &actions[i] {
        InjectAction::RemoveField { message, number } => (message.clone(), *number),
        _ => panic!("no removal"),
    };
    assert_eq!(removed(2), (vec![1, 2, 3], 1));
    assert_eq!(removed(3), (vec![2, 3], 2));
    assert_eq!(removed(4), (vec![3], 6));
    assert!(matches!(&actions[5], InjectAction::CreateEmailField { email } if email == "me@example.com"));
    assert!(matches!(
        &actions[6],
        InjectAction::CreateTokenField { access_token, refresh_token, expiry: 99 }
            if access_token == "access" && refresh_token == "refresh"
    ));
    match &actions[7] {
        InjectAction::Execute { sql, first, second } => {
            assert_eq!(*sql, "UPDATE ItemTable SET value = ? WHERE key = ?");
            assert_eq!(first, "/21haWx0b2tlbg==");
            let decoded = base64::engine::general_purpose::STANDARD.decode(first).unwrap();
            assert_eq!(decoded, b"\xffmailtoken");
            assert_eq!(second, "jetskiStateSync.agentManagerInitState");
        }
        _ => panic!("no write"),
    }
    match &actions[8] {
        InjectAction::Execute { sql, first, second } => {
            assert_eq!(*sql, "INSERT OR REPLACE INTO ItemTable (key, value) VALUES (?, ?)");
            assert_eq!((first.as_str(), second.as_str()), ("antigravityOnboarding", "true"));
        }
        _ => panic!("no flag"),
    }
    assert!(matches!(
        &actions[9],
        InjectAction::Succeed(s)
            if s == "Token and Identity injection successful!\nDatabase: \"/db\""
    ));
    assert!(matches!(&actions[10], InjectAction::Nothing));
}

#[test]
fn injections_that_fail() {
    let no = || InjectAnswer::Failed("no".to_string());
    let reason = |answers: Vec<InjectAnswer>| match drive(answers).pop() {
        Some(InjectAction::Fail(reason)) => reason,
        _ => panic!("no failure"),
    };
    let done = || InjectAnswer::Done;
    assert_eq!(reason(vec![no()]), "Failed to open database: no");
    assert_eq!(reason(vec![done(), no()]), "Failed to read data: no");
    let broken = InjectAnswer::Text("A*==".to_string());
    let expected = base64::engine::general_purpose::STANDARD.decode("A*==").unwrap_err();
    assert_eq!(reason(vec![done(), broken]), format!("Base64 decoding failed: {}", expected));
    assert_eq!(reason(vec![done(), stored(), no()]), "no");
    assert_eq!(reason(vec![done(), stored(), raw(&[]), no()]), "no");
    let made = || vec![done(), stored(), raw(&[]), raw(&[]), raw(&[]), raw(&[]), raw(&[])];
    let mut answers = made();
    answers.push(no());
    assert_eq!(reason(answers), "Failed to write data: no");
    let mut answers = made();
    answers.push(done());
    answers.push(no());
    assert_eq!(reason(answers), "Failed to write Onboarding flag: no");
}

#[test]
fn steps_of_an_injection() {
    assert_eq!(merged_text(vec![1], &vec![2], &vec![3]), "AQID");
    let (_, action) = take_decoded(Err("bad".to_string()));
    assert!(matches!(action, InjectAction::Fail(r) if r == "Base64 decoding failed: bad"));
    let (_, action) = take_decoded(Ok(vec![5]));
    assert!(matches!(action, InjectAction::RemoveField { message, number: 1 } if message == [5]));
    let (_, action) = take_encoded("x".to_string());
    assert!(matches!(action, InjectAction::Execute { first, .. } if first == "x"));
    let (injection, _) = injection();
    let (_, action) = injection.step(InjectAnswer::Text("x".to_string()));
    assert!(matches!(action, InjectAction::Nothing));
}
