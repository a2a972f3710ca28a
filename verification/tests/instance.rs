use bddkit_browser::config::InstanceConfig;
use bddkit_browser::instance::{
    close_outcome, probe_outcome, session_trace, OpenAction, OpenEvent, OpenNext, Opening, Reset, ResetNext,
};
use bddkit_browser::json::{render, Json};
use bddkit_browser::managed::Resolved;
use bddkit_browser::webdriver::{Error, Session, SessionInfo};
use bddkit_browser::weburl::WebUrl;
use serde_json::Value;

fn to_json(v: &Value) -> Json {
    match v {
        Value::Null => Json::Null,
        Value::Bool(b) => Json::Bool(*b),
        Value::Number(n) => {
            if let Some(u) = n.as_u64() {
                Json::UInt(u)
            } else if let Some(i) = n.as_i64() {
                Json::NegInt(i)
            } else {
                Json::Float(n.to_string())
            }
        }
        Value::String(s) => Json::Str(s.clone()),
        Value::Array(a) => Json::Array(a.iter().map(to_json).collect()),
        Value::Object(m) => Json::Object(m.iter().map(|(k, v)| (k.clone(), to_json(v))).collect()),
    }
}

fn j(text: &str) -> Json {
    to_json(&serde_json::from_str::<Value>(text).expect("JSON"))
}


fn back(text: &str) -> Value {
    serde_json::from_str(text).expect("rendered JSON")
}

fn config(text: &str) -> InstanceConfig {
    InstanceConfig::parse(&j(text), "/home/ann", false).expect("valid")
}

fn opened_reply(ws: Option<&str>) -> OpenEvent {
    let caps = match ws {
        Some(w) => format!(r#"{{"browserName":"chrome","browserVersion":"131","webSocketUrl":"{w}"}}"#),
        None => r#"{"browserName":"chrome","browserVersion":"131"}"#.to_string(),
    };
    OpenEvent::Reply(Ok(j(&format!(r#"{{"sessionId":"s1","capabilities":{caps}}}"#))))
}

#[test]
fn init_opens_a_headless_session_and_sizes_the_window() {
    let c = config(r#"{"browser": "chrome", "url": "http://h:4444", "window": "1024x600"}"#);
    let (mut o, n) = Opening::start(&c);
    match &n {
        OpenNext::Do(OpenAction::NewSession { endpoint, command }) => {
            assert_eq!(endpoint.as_str(), "http://h:4444/");
            assert_eq!(command.path, "session");
            let body = render(command.body.as_ref().expect("body"));
            assert!(body.contains("\"webSocketUrl\":true"), "{body}");
            assert!(body.contains("--headless=new"), "{body}");
        }
        _ => panic!("a session is opened first"),
    }
    assert!(o.accepts(&opened_reply(None)));
    let n = o.advance(opened_reply(None));
    match &n {
        OpenNext::Do(OpenAction::Send(c)) => {
            assert_eq!(c.path, "session/s1/window/rect");
            assert_eq!(render(c.body.as_ref().expect("body")), r#"{"height":600,"width":1024}"#);
        }
        _ => panic!("the window is sized next"),
    }
    match o.advance(OpenEvent::Reply(Ok(Json::Null))) {
        OpenNext::Opened { session, info, bidi } => {
            assert_eq!(session.id, "s1");
            assert_eq!(info.browser_name, "chrome");
            assert!(!bidi, "no webSocketUrl, no BiDi");
        }
        _ => panic!("opened"),
    }
}

#[test]
fn an_unreachable_endpoint_fails_init_with_the_url_in_the_message() {
    let c = config(r#"{"browser": "chrome", "url": "http://127.0.0.1:1"}"#);
    let (mut o, _) = Opening::start(&c);
    let refused = Error::Transport("POST http://127.0.0.1:1/session: connection refused".into());
    match o.advance(OpenEvent::Reply(Err(refused))) {
        OpenNext::Failed(e) => {
            assert!(e.starts_with("cannot open a chrome session at http://127.0.0.1:1/: "), "{e}");
            assert!(e.contains("127.0.0.1:1"), "{e}");
        }
        _ => panic!("failed"),
    }
}

#[test]
fn a_session_that_cannot_be_used_is_deleted_before_failing() {
    let c = config(r#"{"browser": "firefox", "url": "http://h:4444"}"#);
    let (mut o, _) = Opening::start(&c);
    o.advance(opened_reply(Some("ws://h:4444/session/s1/se/bidi")));
    let n = o.advance(OpenEvent::Reply(Ok(Json::Null)));
    assert!(matches!(&n, OpenNext::Do(OpenAction::ConnectBidi(w)) if w == "ws://h:4444/session/s1/se/bidi"));
    let n = o.advance(OpenEvent::Connected(Err("refused".into())));
    match &n {
        OpenNext::Do(OpenAction::Send(c)) => assert_eq!(c.path, "session/s1"),
        _ => panic!("the session is deleted first"),
    }
    match o.advance(OpenEvent::Reply(Ok(Json::Null))) {
        OpenNext::Failed(e) => assert_eq!(
            e,
            "the session advertised BiDi at ws://h:4444/session/s1/se/bidi but it cannot be used: refused"
        ),
        _ => panic!("failed"),
    }
    let (mut o, _) = Opening::start(&c);
    o.advance(opened_reply(None));
    o.advance(OpenEvent::Reply(Err(Error::Protocol { status: 500, error: "unsupported operation".into(), message: "no".into() })));
    match o.advance(OpenEvent::Reply(Err(Error::Transport("gone".into())))) {
        OpenNext::Failed(e) => assert_eq!(e, "cannot size the window to 1280x800: unsupported operation (500): no"),
        _ => panic!("failed"),
    }
}

#[test]
fn managed_mode_resolves_starts_the_driver_and_passes_the_binary() {
    let c = config(r#"{"browser": "chrome"}"#);
    let (mut o, n) = Opening::start(&c);
    assert!(matches!(n, OpenNext::Do(OpenAction::Resolve)));
    let n = o.advance(OpenEvent::Resolved(Ok(Resolved {
        driver_path: "/c/chromedriver".into(),
        browser_path: Some("/c/chrome".into()),
    })));
    assert!(matches!(&n, OpenNext::Do(OpenAction::StartDriver(p)) if p == "/c/chromedriver"));
    let url = WebUrl::parse("http://127.0.0.1:9515/").expect("url");
    match o.advance(OpenEvent::DriverStarted(Ok(url))) {
        OpenNext::Do(OpenAction::NewSession { endpoint, command }) => {
            assert_eq!(endpoint.as_str(), "http://127.0.0.1:9515/");
            let body: Value = back(&render(command.body.as_ref().expect("body")));
            assert_eq!(body["capabilities"]["alwaysMatch"]["goog:chromeOptions"]["binary"], "/c/chrome");
        }
        _ => panic!("a session next"),
    }
    let (mut o, _) = Opening::start(&c);
    match o.advance(OpenEvent::Resolved(Err("selenium-manager not found".into()))) {
        OpenNext::Failed(e) => assert_eq!(e, "selenium-manager not found"),
        _ => panic!("failed"),
    }
}

#[test]
fn reset_clears_storage_and_cookies_before_leaving_the_page() {
    let s = Session { id: "s1".into() };
    let (mut r, first) = Reset::start(&s);
    assert_eq!(first.path, "session/s1/execute/sync");
    assert!(render(first.body.as_ref().expect("body")).contains("localStorage.clear()"));
    let second = match r.advance(Ok(Json::Null)) {
        ResetNext::Send(c) => c,
        _ => panic!("cookies next"),
    };
    assert_eq!(second.path, "session/s1/cookie");
    let third = match r.advance(Ok(Json::Null)) {
        ResetNext::Send(c) => c,
        _ => panic!("about:blank next"),
    };
    assert_eq!(render(third.body.as_ref().expect("body")), r#"{"url":"about:blank"}"#);
    assert!(matches!(r.advance(Ok(Json::Null)), ResetNext::ClearBuffers));
    let (mut r, _) = Reset::start(&s);
    r.advance(Ok(Json::Null));
    match r.advance(Err(Error::Transport("boom".into()))) {
        ResetNext::Failed(e) => assert_eq!(e, "deleting cookies: boom"),
        _ => panic!("failed"),
    }
}

#[test]
fn drop_and_probe_name_their_failures() {
    assert_eq!(close_outcome(Ok(Json::Null)), Ok(()));
    assert_eq!(close_outcome(Err(Error::Transport("gone".into()))), Err("closing the session: gone".to_string()));
    let info = SessionInfo { browser_name: String::new(), browser_version: String::new(), websocket_url: None };
    assert_eq!(probe_outcome(&info, Ok(())), Err("the session opened but reported no browserName".to_string()));
    assert_eq!(probe_outcome(&info, Err("closing the session: x".into())), Err("closing the session: x".to_string()));
    let named = SessionInfo { browser_name: "firefox".into(), browser_version: "131".into(), websocket_url: None };
    assert_eq!(probe_outcome(&named, Ok(())), Ok(()));
    assert_eq!(session_trace(&Session { id: "s9".into() }, &named), "[browser] session s9 on firefox 131");
}
