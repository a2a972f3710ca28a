use bddkit_browser::json::{render, Json};
use bddkit_browser::webdriver::{
    bool_reply, decode, decode_parsed, element_id, optional_text_reply, screenshot_reply, text_reply, Command, Driver, Element, Error, Exchange, Method, Outcome,
    Session, Strategy, MAX_BODY,
};
use bddkit_browser::weburl::WebUrl;
use serde_json::Value;

fn to_json(v: &Value) -> Json {
    match v {
        Value::Null => Json::Null,
        Value::Bool(b) => Json::Bool(*b),
        Value::Number(n) => {
            if let Some(u) = n.as_u64() {
                Json::UInt(u)
            } else if let Some(i) = n.as_i64() {
                Json::NegInt(i)
            } else {
                Json::Float(n.to_string())
            }
        }
        Value::String(s) => Json::Str(s.clone()),
        Value::Array(a) => Json::Array(a.iter().map(to_json).collect()),
        Value::Object(m) => Json::Object(m.iter().map(|(k, v)| (k.clone(), to_json(v))).collect()),
    }
}

fn j(text: &str) -> Json {
    to_json(&serde_json::from_str::<Value>(text).expect("JSON"))
}


fn back(text: &str) -> Value {
    serde_json::from_str(text).expect("rendered JSON")
}

fn url(text: &str) -> WebUrl {
    WebUrl::parse(text).expect("url")
}

#[test]
fn a_base_without_a_trailing_slash_still_joins_paths_under_it() {
    let d = Driver::new(url("http://h:4444/wd/hub"), false);
    assert_eq!(d.endpoint("status").as_str(), "http://h:4444/wd/hub/status");
    let d = Driver::new(url("http://h:4444"), false);
    assert_eq!(d.endpoint("session/s1/url").as_str(), "http://h:4444/session/s1/url");
}

#[test]
fn an_error_body_becomes_a_protocol_error() {
    let body = r#"{"value":{"error":"no such element","message":"nothing at //a","stacktrace":""}}"#;
    let e = decode("POST", "session/s1/element", 404, body).expect_err("404 is an error");
    assert!(e.is_no_such_element());
    assert!(e.to_string().contains("nothing at //a"), "{}", e.to_string());
    let ok = match decode("GET", "session/s1/title", 200, r#"{"value":"Hi"}"#) {
        Ok(v) => v,
        Err(e) => panic!("200: {}", e.to_string()),
    };
    assert_eq!(render(&ok), "\"Hi\"");
    let bad = decode("GET", "status", 200, "<html>").expect_err("HTML is not a reply");
    assert!(matches!(bad, Error::Transport(_)));
}

#[test]
fn set_debug_toggles_what_call_reads() {
    let mut d = Driver::new(url("http://h:4444"), false);
    assert!(!d.debug());
    d.set_debug(true);
    assert!(d.debug());
}

#[test]
fn an_exchange_renders_truncated_bodies() {
    let ex = Exchange {
        request: "POST session/s1/url".into(),
        request_body: "x".repeat(MAX_BODY + 10),
        status: 200,
        response_body: String::new(),
    };
    let rendered = ex.render();
    assert!(rendered.contains("POST session/s1/url"));
    assert!(rendered.contains("… truncated"));
    assert!(!rendered.contains(&"x".repeat(MAX_BODY + 1)));
}

#[test]
fn truncation_cuts_at_a_character_boundary() {
    let short = Exchange {
        request: "GET status".into(),
        request_body: String::new(),
        status: 200,
        response_body: "{}".into(),
    };
    assert_eq!(short.render(), "GET status\n\n\nstatus: 200\n{}");
    let body = "é".repeat(MAX_BODY);
    let ex = Exchange {
        request: "GET x".into(),
        request_body: body,
        status: 500,
        response_body: String::new(),
    };
    let rendered = ex.render();
    let expected = format!("GET x\n{}… truncated\n\nstatus: 500\n", "é".repeat(MAX_BODY / 2));
    assert_eq!(rendered, expected);
}

#[test]
fn an_error_without_details_is_an_unknown_error() {
    let e = decode("GET", "session/s1/url", 500, r#"{"value":null}"#).expect_err("500");
    assert_eq!(e.to_string(), "unknown error (500): ");
    let e = decode("GET", "status", 502, "[]").expect_err("502");
    assert!(!e.is_no_such_element());
    let t = decode_parsed("POST", "session", 200, Err("expected value at line 1 column 1".into()))
        .expect_err("not JSON");
    assert_eq!(
        t.to_string(),
        "POST session: status 200 with a non-JSON body: expected value at line 1 column 1"
    );
    let missing = match decode("GET", "status", 200, r#"{"ready":true}"#) {
        Ok(v) => v,
        Err(e) => panic!("200: {}", e.to_string()),
    };
    assert_eq!(render(&missing), "null");
}

#[test]
fn a_call_records_its_exchange_and_answers_its_value() {
    let mut d = Driver::new(url("http://h:4444/wd/hub"), false);
    assert!(d.last_exchange().is_none());
    let cmd = Command { method: Method::Post, path: "session".into(), body: Some(j(r#"{"b":1,"a":[true]}"#)) };
    let call = d.prepare(&cmd);
    assert_eq!(call.url, "http://h:4444/wd/hub/session");
    assert_eq!(call.request_body, r#"{"a":[true],"b":1}"#);
    assert_eq!(call.wire_body.as_deref(), Some(r#"{"a":[true],"b":1}"#));
    let v = d
        .finish(
            &call,
            Outcome::Received { status: 200, body: r#"{"value":{"sessionId":"s1"}}"#.into() },
        )
        .ok()
        .expect("200");
    assert_eq!(render(&v), r#"{"sessionId":"s1"}"#);
    let last = d.last_exchange().expect("recorded");
    assert_eq!(last.request, "POST session");
    assert_eq!(last.status, 200);

    let get = Command { method: Method::Get, path: "status".into(), body: None };
    let call = d.prepare(&get);
    assert_eq!(call.request_body, "");
    assert!(call.wire_body.is_none());
    let e = d.finish(&call, Outcome::SendFailed("connection refused".into())).expect_err("refused");
    assert_eq!(e.to_string(), "GET http://h:4444/wd/hub/status: connection refused");
    let last = d.last_exchange().expect("recorded");
    assert_eq!(last.status, 0);
    assert_eq!(last.response_body, "GET http://h:4444/wd/hub/status: connection refused");
    let e = d.finish(&call, Outcome::ReadFailed("broken pipe".into())).expect_err("unread");
    assert_eq!(e.to_string(), "GET http://h:4444/wd/hub/status: reading the reply: broken pipe");
    assert_eq!(d.last_exchange().expect("kept").status, 0, "an unread reply records nothing");

    let post = Command { method: Method::Post, path: "session/s1/refresh".into(), body: None };
    assert_eq!(d.prepare(&post).wire_body.as_deref(), Some("{}"));
}

#[test]
fn commands_have_the_webdriver_paths_and_bodies() {
    let s = Session { id: "s1".into() };
    let c = s.navigate("http://app.test/login");
    assert!(matches!(c.method, Method::Post));
    assert_eq!(c.path, "session/s1/url");
    assert_eq!(render(c.body.as_ref().expect("body")), r#"{"url":"http://app.test/login"}"#);
    let c = s.set_window_rect(1024, 600);
    assert_eq!(c.path, "session/s1/window/rect");
    assert_eq!(render(c.body.as_ref().expect("body")), r#"{"height":600,"width":1024}"#);
    let c = s.find(Strategy::Css, "#cart");
    assert_eq!(render(c.body.as_ref().expect("body")), r##"{"using":"css selector","value":"#cart"}"##);
    assert_eq!(s.delete().path, "session/s1");
    assert!(matches!(s.delete_all_cookies().method, Method::Delete));
    assert_eq!(s.delete_all_cookies().path, "session/s1/cookie");
    let c = s.execute("return 1", Vec::new());
    assert_eq!(render(c.body.as_ref().expect("body")), r#"{"args":[],"script":"return 1"}"#);
    let e = Element { session: "s1".into(), id: "e0".into() };
    assert_eq!(e.click().path, "session/s1/element/e0/click");
    assert_eq!(e.attribute("data-id").path, "session/s1/element/e0/attribute/data-id");
    assert_eq!(e.property("value").path, "session/s1/element/e0/property/value");
    assert_eq!(render(e.send_keys("ann").body.as_ref().expect("body")), r#"{"text":"ann"}"#);
    assert_eq!(e.find(Strategy::XPath, ".//option").path, "session/s1/element/e0/element");
}

#[test]
fn element_replies_carry_the_w3c_key() {
    assert_eq!(
        element_id(&j(r#"{"element-6066-11e4-a52e-4f735466cecf":"e7"}"#)).ok(),
        Some("e7".to_string())
    );
    let e = element_id(&j(r#"{"ELEMENT":"e7"}"#)).expect_err("no W3C key");
    assert_eq!(
        e.to_string(),
        r#"an element reply without element-6066-11e4-a52e-4f735466cecf: {"ELEMENT":"e7"}"#
    );
    let s = Session { id: "s1".into() };
    let none = s
        .found(Err(Error::Protocol { status: 404, error: "no such element".into(), message: String::new() }))
        .ok()
        .expect("not found is not an error");
    assert!(none.is_none());
    let other = s.found(Err(Error::Protocol { status: 500, error: "stale element reference".into(), message: "gone".into() }));
    assert_eq!(other.err().expect("passed up").to_string(), "stale element reference (500): gone");
}

#[test]
fn a_screenshot_reply_is_base64() {
    let png = screenshot_reply(&j(r#""iVBORw0KGgo=""#)).ok().expect("base64");
    assert_eq!(png, vec![0x89, b'P', b'N', b'G', 0x0d, 0x0a, 0x1a, 0x0a]);
    let e = screenshot_reply(&j(r#""not base64!""#)).expect_err("bad");
    assert!(e.to_string().starts_with("the screenshot is not base64: "), "{}", e.to_string());
}

#[test]
fn a_new_session_reply_names_the_browser_and_its_socket() {
    let v = j(r#"{"sessionId":"s1","capabilities":{"browserName":"chrome","browserVersion":"131.0","webSocketUrl":"ws://h:4444/session/s1/se/bidi"}}"#);
    let (s, info) = Session::opened(&v).ok().expect("opened");
    assert_eq!(s.id, "s1");
    assert_eq!(info.browser_name, "chrome");
    assert_eq!(info.browser_version, "131.0");
    assert_eq!(info.websocket_url.as_deref(), Some("ws://h:4444/session/s1/se/bidi"));
    let e = Session::opened(&j(r#"{"capabilities":{}}"#)).err().expect("no id");
    assert_eq!(e.to_string(), "POST session: the reply carries no sessionId");
    let c = Driver::new_session(&j(r#"{"capabilities":{}}"#));
    assert_eq!(c.path, "session");
    assert_eq!(Driver::status().path, "status");
}

#[test]
fn value_replies_read_as_text_flags_or_nothing() {
    assert_eq!(text_reply(&j(r#""Hello""#)), "Hello");
    assert_eq!(text_reply(&j("null")), "");
    assert!(bool_reply(&j("true")));
    assert!(!bool_reply(&j("false")));
    assert!(!bool_reply(&j("null")));
    assert_eq!(optional_text_reply(&j(r#""/a.png""#)), Some("/a.png".to_string()));
    assert_eq!(optional_text_reply(&j("null")), None);
}

#[test]
fn a_reply_body_is_read_as_json_by_the_library() {
    let t = decode("POST", "session", 200, "<html>").expect_err("not JSON");
    assert!(
        t.to_string().starts_with("POST session: status 200 with a non-JSON body: expected value"),
        "{}",
        t.to_string()
    );
    let v = decode("GET", "session/s1/element", 200, r#"{"value":{"n":-3,"f":1.5,"u":7}}"#).ok().expect("JSON");
    assert_eq!(render(&v), r#"{"f":1.5,"n":-3,"u":7}"#);
    assert_eq!(
        bddkit_browser::json::parse_json(r#"{"b":[true,null],"a":"x"}"#).map(|v| render(&v)),
        Ok(r#"{"a":"x","b":[true,null]}"#.to_string())
    );
}

#[test]
fn a_path_set_with_two_leading_slashes_keeps_the_url_without_a_host() {
    let base = WebUrl::parse("foo:/bar").expect("url");
    let odd = base.with_path("//x");
    assert_eq!(odd.as_str(), "foo://x");
    assert!(!odd.has_host());
    let parsed = WebUrl::parse("foo://x").expect("url");
    assert_eq!(parsed.host_str(), Some("x"), "the same text parses with a host");
}
