use bddkit_browser::bidi::Buffers;
use bddkit_browser::config::InstanceConfig;
use bddkit_browser::json::{render, Json};
use bddkit_browser::steps::{
    pause_event, resolve_file, same_location, scalar_text, steps_json, Action, BufferRead, Dispatch, Event, Next,
    Payload, Request,
};
use bddkit_browser::text::collapse;
use bddkit_browser::webdriver::{Command, Error, Exchange, Method, Session};
use bddkit_browser::weburl::WebUrl;
use serde_json::Value;

fn to_json(v: &Value) -> Json {
    match v {
        Value::Null => Json::Null,
        Value::Bool(b) => Json::Bool(*b),
        Value::Number(n) => {
            if let Some(u) = n.as_u64() {
                Json::UInt(u)
            } else if let Some(i) = n.as_i64() {
                Json::NegInt(i)
            } else {
                Json::Float(n.to_string())
            }
        }
        Value::String(s) => Json::Str(s.clone()),
        Value::Array(a) => Json::Array(a.iter().map(to_json).collect()),
        Value::Object(m) => Json::Object(m.iter().map(|(k, v)| (k.clone(), to_json(v))).collect()),
    }
}

fn j(text: &str) -> Json {
    to_json(&serde_json::from_str::<Value>(text).expect("JSON"))
}


fn back(text: &str) -> Value {
    serde_json::from_str(text).expect("rendered JSON")
}

fn config(extra: &str) -> InstanceConfig {
    let body = format!(r#"{{"browser": "chrome", "url": "http://h:4444"{extra}}}"#);
    InstanceConfig::parse(&j(&body), "/home/ann", false).expect("valid config")
}

fn request(args: &[&str]) -> Request {
    let list: Vec<Value> = args.iter().map(|a| Value::String(a.to_string())).collect();
    let v = Value::Object(
        [
            ("args".to_string(), Value::Array(list)),
            ("artifacts_dir".to_string(), Value::String("/tmp/a".into())),
            ("workspace_dir".to_string(), Value::String("/work".into())),
        ]
        .into_iter()
        .collect(),
    );
    Request::parse(&to_json(&v))
}

fn session() -> Session {
    Session { id: "s1".into() }
}

fn sent(n: &Next) -> &Command {
    match n {
        Next::Do(Action::Send(c)) => c,
        other => panic!("expected a command, got {}", describe(other)),
    }
}

fn describe(n: &Next) -> String {
    match n {
        Next::Do(Action::Send(c)) => format!("send {:?} {}", c.method, c.path),
        Next::Do(Action::StartWait) => "start wait".into(),
        Next::Do(Action::Pause) => "pause".into(),
        Next::Do(Action::CheckFile(p)) => format!("check file {p}"),
        Next::Do(Action::Write { name, .. }) => format!("write {name}"),
        Next::Do(Action::ReadBuffers) => "read buffers".into(),
        Next::Do(Action::LastExchange) => "last exchange".into(),
        Next::Do(Action::Trace(t)) => format!("trace {t}"),
        Next::Done(r) => format!("done {r}"),
    }
}

fn done(n: Next) -> Value {
    match n {
        Next::Done(r) => back(&r),
        other => panic!("expected the reply, got {}", describe(&other)),
    }
}

fn body(c: &Command) -> String {
    render(c.body.as_ref().expect("a body"))
}

fn ok(text: &str) -> Event {
    Event::Reply(Ok(j(text)))
}

fn element(id: &str) -> Event {
    ok(&format!(r#"{{"element-6066-11e4-a52e-4f735466cecf":"{id}"}}"#))
}

fn no_such() -> Event {
    Event::Reply(Err(Error::Protocol {
        status: 404,
        error: "no such element".into(),
        message: "nothing there".into(),
    }))
}

fn step(d: &mut Dispatch, e: Event) -> Next {
    assert!(d.accepts(&e), "the event must answer the last action");
    d.advance(e)
}

/// Runs the evidence of a failure with `on_failure: none`: no previous
/// exchange, the page at `url` titled `title`.
fn evidence_without_extras(d: &mut Dispatch, n: Next, url: &str, title: &str) -> Value {
    assert!(matches!(n, Next::Do(Action::LastExchange)), "{}", describe(&n));
    let n = step(d, Event::Exchange(None));
    assert_eq!(sent(&n).path, "session/s1/url");
    let n = step(d, ok(&format!("{url:?}")));
    assert_eq!(sent(&n).path, "session/s1/title");
    done(step(d, ok(&format!("{title:?}"))))
}

#[test]
fn every_step_is_anchored_named_and_of_a_known_kind() {
    let steps: Vec<Value> = serde_json::from_str(&steps_json()).expect("JSON");
    assert_eq!(steps.len(), 32, "append, never reorder");
    for (i, s) in steps.iter().enumerate() {
        let p = s["pattern"].as_str().expect("pattern");
        assert!(p.starts_with('^') && p.ends_with('$'), "step {i} is not anchored: {p}");
        assert!(!p.contains("(["), "step {i} has an unnamed capture group: {p}");
        assert!(!p.contains("(\\d"), "step {i} has an unnamed capture group: {p}");
        assert!(matches!(s["kind"].as_str(), Some("action" | "assertion")), "step {i}");
        assert_eq!(s["group"], "browser");
        let expected = if i <= 14 || (26..=28).contains(&i) { "action" } else { "assertion" };
        assert_eq!(s["kind"], expected, "step {i}");
    }
}

#[test]
fn same_location_compares_path_and_query_or_the_whole_url() {
    let u = WebUrl::parse("http://app.test:3000/login?error=1#top").expect("url");
    assert!(same_location(&u, "/login?error=1"));
    assert!(!same_location(&u, "/login"));
    assert!(same_location(&u, "http://app.test:3000/login?error=1"));
    assert!(!same_location(&u, "https://app.test:3000/login?error=1"));
    assert!(same_location(&u, "http://app.test:3000/login?error=1#elsewhere"));
}

#[test]
fn collapse_and_scalar_text_do_what_the_spec_says() {
    assert_eq!(collapse("  Welcome,\n\t ann  "), "Welcome, ann");
    assert_eq!(scalar_text(&Json::Null), "");
    assert_eq!(scalar_text(&j(r#""x""#)), "x");
    assert_eq!(scalar_text(&j(r#"{"a": 1}"#)), "{\"a\":1}");
    assert_eq!(resolve_file("/work", "me.png"), "/work/me.png");
    assert_eq!(resolve_file("/work", "/abs/me.png"), "/abs/me.png");
}

#[test]
fn a_null_argument_is_refused_before_anything_is_sent() {
    let (_, n) = Dispatch::start(5, request(&["email", "\u{0}__bddkit_null__\u{0}"]), &config(""), &session());
    let v = done(n);
    assert_eq!(v["status"], "fatal");
    assert!(v["error"].as_str().expect("error").contains("<<null>>"));
    let empty: Value = serde_json::from_str("[]").expect("JSON");
    assert_eq!(v["diagnostics"], empty, "nothing must reach the driver");
}

#[test]
fn i_am_on_joins_a_relative_path_to_base_url_and_keeps_an_absolute_one() {
    let c = config(r#", "base_url": "http://app.test""#);
    let (mut d, n) = Dispatch::start(0, request(&["/login"]), &c, &session());
    assert_eq!(sent(&n).path, "session/s1/url");
    assert_eq!(body(sent(&n)), r#"{"url":"http://app.test/login"}"#);
    assert_eq!(done(step(&mut d, ok("null")))["status"], "passed");
    let (_, n) = Dispatch::start(0, request(&["https://other.test/x"]), &c, &session());
    assert_eq!(body(sent(&n)), r#"{"url":"https://other.test/x"}"#);
}

#[test]
fn a_relative_path_without_base_url_is_fatal_naming_the_key() {
    let (mut d, n) = Dispatch::start(0, request(&["/login"]), &config(r#", "on_failure": "none""#), &session());
    let v = evidence_without_extras(&mut d, n, "about:blank", "");
    assert_eq!(v["status"], "fatal");
    assert!(v["error"].as_str().expect("error").contains("base_url"), "{v}");
}

#[test]
fn should_be_on_and_title_answer_not_yet_on_a_mismatch() {
    let c = config(r#", "on_failure": "none""#);
    let (mut d, n) = Dispatch::start(15, request(&["/login?error=1"]), &c, &session());
    assert_eq!(sent(&n).path, "session/s1/url");
    assert_eq!(done(step(&mut d, ok(r#""http://app.test/login?error=1""#)))["status"], "passed");
    let (mut d, _) = Dispatch::start(15, request(&["/dashboard"]), &c, &session());
    let n = step(&mut d, ok(r#""http://app.test/login?error=1""#));
    let v = evidence_without_extras(&mut d, n, "http://app.test/login?error=1", "Sign in");
    assert_eq!(v["status"], "not_yet");
    assert_eq!(v["error"], "the browser is on http://app.test/login?error=1, expected \"/dashboard\"");
    let (mut d, _) = Dispatch::start(16, request(&["Dashboard"]), &c, &session());
    let n = step(&mut d, ok(r#""Sign in""#));
    let v = evidence_without_extras(&mut d, n, "http://app.test/login", "Sign in");
    assert_eq!(v["error"], "the title is \"Sign in\", expected \"Dashboard\"");
    assert_eq!(v["diagnostics"][0]["title"], "Page");
    assert_eq!(v["diagnostics"][0]["content"], "http://app.test/login\nSign in");
}

#[test]
fn follow_press_and_click_find_by_text_and_click() {
    let c = config(r#", "find_timeout_secs": 0"#);
    let (mut d, n) = Dispatch::start(2, request(&["New order"]), &c, &session());
    assert!(matches!(n, Next::Do(Action::StartWait)));
    let n = step(&mut d, Event::Ack);
    assert!(body(sent(&n)).contains("\"using\":\"xpath\""));
    assert!(body(sent(&n)).contains("//a[normalize-space(.)='New order'"));
    let n = step(&mut d, element("e0"));
    assert_eq!(sent(&n).path, "session/s1/element/e0/click");
    assert_eq!(body(sent(&n)), "{}");
    assert_eq!(done(step(&mut d, ok("null")))["status"], "passed");
    let (mut d, _) = Dispatch::start(4, request(&["#cart"]), &c, &session());
    let n = step(&mut d, Event::Ack);
    assert_eq!(body(sent(&n)), r##"{"using":"css selector","value":"#cart"}"##);
}

#[test]
fn a_missing_element_is_fatal_for_an_action_and_names_the_lookup() {
    let c = config(r#", "find_timeout_secs": 0, "on_failure": "none""#);
    let (mut d, _) = Dispatch::start(3, request(&["Nope"]), &c, &session());
    let mut n = step(&mut d, Event::Ack);
    let mut finds = 0;
    while let Next::Do(Action::Send(_)) = n {
        finds += 1;
        n = step(&mut d, no_such());
    }
    assert_eq!(finds, 3, "exact text, partial text, then CSS");
    assert!(matches!(n, Next::Do(Action::Pause)));
    let n = step(&mut d, Event::GaveUp);
    let v = evidence_without_extras(&mut d, n, "http://app.test/", "");
    assert_eq!(v["status"], "fatal");
    assert_eq!(v["error"], "no button \"Nope\" found within 0s");
}

#[test]
fn an_action_waits_for_its_element_and_looks_again_after_a_pause() {
    let c = config(r#", "find_timeout_secs": 1"#);
    let (mut d, _) = Dispatch::start(4, request(&["#pay"]), &c, &session());
    let n = step(&mut d, Event::Ack);
    let n2 = step(&mut d, no_such());
    assert!(matches!(n2, Next::Do(Action::Pause)), "{}", describe(&n2));
    let n3 = step(&mut d, Event::Ack);
    assert_eq!(sent(&n3).path, sent(&n).path, "the same find again");
    let n4 = step(&mut d, element("e3"));
    assert_eq!(sent(&n4).path, "session/s1/element/e3/click");
}

#[test]
fn an_assertion_looks_once_and_never_waits() {
    let c = config(r#", "find_timeout_secs": 500, "on_failure": "none""#);
    let (mut d, n) = Dispatch::start(19, request(&["#total", "42"]), &c, &session());
    assert_eq!(sent(&n).path, "session/s1/element", "no wait is started");
    let n = step(&mut d, no_such());
    let v = evidence_without_extras(&mut d, n, "http://app.test/", "");
    assert_eq!(v["status"], "not_yet");
    assert_eq!(v["error"], "no element \"#total\" on the page");
}

#[test]
fn fill_in_clears_then_types_and_select_picks_the_option() {
    let c = config(r#", "find_timeout_secs": 0"#);
    let (mut d, _) = Dispatch::start(5, request(&["email", "ann@example.test"]), &c, &session());
    step(&mut d, Event::Ack);
    let n = step(&mut d, element("e0"));
    assert_eq!(sent(&n).path, "session/s1/element/e0/clear");
    let n = step(&mut d, ok("null"));
    assert_eq!(sent(&n).path, "session/s1/element/e0/value");
    assert_eq!(body(sent(&n)), r#"{"text":"ann@example.test"}"#);
    assert_eq!(done(step(&mut d, ok("null")))["status"], "passed");

    let (mut d, _) = Dispatch::start(6, request(&["Latvia", "country"]), &c, &session());
    step(&mut d, Event::Ack);
    let n = step(&mut d, element("e1"));
    assert_eq!(sent(&n).path, "session/s1/element/e1/element");
    assert!(body(sent(&n)).contains("option[normalize-space(.)='Latvia'"));
    let n = step(&mut d, element("o4"));
    assert_eq!(sent(&n).path, "session/s1/element/o4/click");
}

#[test]
fn a_missing_option_is_fatal() {
    let c = config(r#", "find_timeout_secs": 0, "on_failure": "none""#);
    let (mut d, _) = Dispatch::start(6, request(&["Mars", "country"]), &c, &session());
    step(&mut d, Event::Ack);
    step(&mut d, element("e1"));
    let n = step(&mut d, no_such());
    let v = evidence_without_extras(&mut d, n, "http://app.test/", "");
    assert_eq!(v["error"], "no option \"Mars\" in field \"country\"");
}

#[test]
fn check_and_uncheck_click_only_when_the_state_differs() {
    let c = config(r#", "find_timeout_secs": 0"#);
    let mut ticked = false;
    let mut clicks = 0;
    for index in [7u32, 7, 8] {
        let (mut d, _) = Dispatch::start(index, request(&["newsletter"]), &c, &session());
        step(&mut d, Event::Ack);
        let n = step(&mut d, element("e0"));
        assert_eq!(sent(&n).path, "session/s1/element/e0/selected");
        let mut n = step(&mut d, ok(if ticked { "true" } else { "false" }));
        if let Next::Do(Action::Send(c)) = &n {
            assert_eq!(c.path, "session/s1/element/e0/click", "step {index}");
            clicks += 1;
            ticked = !ticked;
            n = step(&mut d, ok("null"));
        }
        assert_eq!(done(n)["status"], "passed", "step {index}");
        assert_eq!(ticked, index == 7, "a second check must not toggle it back");
    }
    assert_eq!(clicks, 2);
}

#[test]
fn attach_sends_the_absolute_path_and_refuses_a_missing_file() {
    let c = config(r#", "find_timeout_secs": 0, "on_failure": "none""#);
    let (mut d, n) = Dispatch::start(9, request(&["me.png", "avatar"]), &c, &session());
    assert!(matches!(&n, Next::Do(Action::CheckFile(p)) if p == "/work/me.png"));
    let n = step(&mut d, Event::IsFile(true));
    assert!(matches!(n, Next::Do(Action::StartWait)));
    step(&mut d, Event::Ack);
    let n = step(&mut d, element("e0"));
    assert_eq!(body(sent(&n)), r#"{"text":"/work/me.png"}"#);
    let (mut d, _) = Dispatch::start(9, request(&["nope.png", "avatar"]), &c, &session());
    let n = step(&mut d, Event::IsFile(false));
    let v = evidence_without_extras(&mut d, n, "http://app.test/", "");
    assert_eq!(v["error"], "/work/nope.png is not a file");
}

#[test]
fn read_text_and_attribute_publish_variables_and_a_missing_attribute_is_fatal() {
    let c = config(r#", "find_timeout_secs": 0, "on_failure": "none""#);
    let (mut d, _) = Dispatch::start(12, request(&["[data-test=order-id]", "orderId"]), &c, &session());
    step(&mut d, Event::Ack);
    step(&mut d, element("e0"));
    let v = done(step(&mut d, ok(r#""  ord-42 \n""#)));
    assert_eq!(v["vars"]["orderId"], "ord-42");
    let (mut d, _) = Dispatch::start(13, request(&["data-id", "[data-test=order-id]", "orderId"]), &c, &session());
    step(&mut d, Event::Ack);
    let n = step(&mut d, element("e0"));
    assert_eq!(sent(&n).path, "session/s1/element/e0/attribute/data-id");
    assert_eq!(done(step(&mut d, ok(r#""ord-42""#)))["vars"]["orderId"], "ord-42");
    let (mut d, _) = Dispatch::start(13, request(&["data-nope", "#x", "v"]), &c, &session());
    step(&mut d, Event::Ack);
    step(&mut d, element("e0"));
    let n = step(&mut d, ok("null"));
    let v = evidence_without_extras(&mut d, n, "http://app.test/", "");
    assert_eq!(v["error"], "the element has no attribute \"data-nope\"");
}

#[test]
fn page_and_element_text_assertions_collapse_whitespace_and_answer_not_yet() {
    let c = config(r#", "on_failure": "none""#);
    let (mut d, n) = Dispatch::start(17, request(&["Welcome,   ann@example.test"]), &c, &session());
    assert_eq!(body(sent(&n)), r#"{"using":"css selector","value":"body"}"#);
    let n = step(&mut d, element("b"));
    assert_eq!(sent(&n).path, "session/s1/element/b/text");
    let page = r#""Welcome,\n   ann@example.test  \n Sign out""#;
    assert_eq!(done(step(&mut d, ok(page)))["status"], "passed");
    let (mut d, _) = Dispatch::start(18, request(&["Sign out"]), &c, &session());
    step(&mut d, element("b"));
    let n = step(&mut d, ok(page));
    let v = evidence_without_extras(&mut d, n, "http://app.test/", "");
    assert_eq!(v["status"], "not_yet");
    assert_eq!(v["error"], "the page contains \"Sign out\"");
    let (mut d, _) = Dispatch::start(20, request(&["#who", "ann"]), &c, &session());
    step(&mut d, element("w"));
    let n = step(&mut d, ok(r#""Welcome,   ann""#));
    let v = evidence_without_extras(&mut d, n, "http://app.test/", "");
    assert_eq!(v["error"], "element \"#who\" contains \"ann\": its text is \"Welcome, ann\"");
    let (mut d, _) = Dispatch::start(17, request(&["x"]), &c, &session());
    let n = step(&mut d, no_such());
    let v = evidence_without_extras(&mut d, n, "http://app.test/", "");
    assert_eq!(v["error"], "the page has no body element");
}

/// Runs an assertion whose lookup finds element `x` answering `value`, or,
/// when `value` is `None`, finds nothing; a failure's evidence is the page.
fn look(index: u32, args: &[&str], value: Option<&str>) -> Value {
    let c = config(r#", "on_failure": "none""#);
    let (mut d, n) = Dispatch::start(index, request(args), &c, &session());
    assert_eq!(sent(&n).path, "session/s1/element", "an assertion looks at once");
    let n = match value {
        Some(v) => {
            step(&mut d, element("x"));
            step(&mut d, ok(v))
        }
        None => step(&mut d, no_such()),
    };
    match n {
        Next::Done(_) => done(n),
        other => evidence_without_extras(&mut d, other, "http://app.test/", ""),
    }
}

#[test]
fn visibility_field_and_checkbox_assertions() {
    assert_eq!(look(21, &["#shown"], Some("true"))["status"], "passed");
    let v = look(21, &["#hidden"], Some("false"));
    assert_eq!(v["status"], "not_yet");
    assert_eq!(v["error"], "element \"#hidden\" is not visible");
    assert_eq!(look(22, &["#hidden"], Some("false"))["status"], "passed");
    assert_eq!(look(22, &["#absent"], None)["status"], "passed", "not found counts as not visible");
    assert_eq!(look(21, &["#absent"], None)["status"], "not_yet");
    assert_eq!(look(23, &["email", "ann@example.test"], Some(r#""ann@example.test""#))["status"], "passed");
    let v = look(23, &["email", "bob"], Some(r#""ann@example.test""#));
    assert_eq!(v["status"], "not_yet");
    assert_eq!(v["error"], "field \"email\" holds \"ann@example.test\", expected \"bob\"");
    assert_eq!(look(24, &["newsletter"], Some("true"))["status"], "passed");
    let v = look(25, &["newsletter"], Some("true"));
    assert_eq!(v["status"], "not_yet");
    assert_eq!(v["error"], "field \"newsletter\" is checked");
}

#[test]
fn scripts_publish_their_result_as_text() {
    let c = config(r#", "on_failure": "none""#);
    let (mut d, n) = Dispatch::start(10, request(&["return document.title"]), &c, &session());
    assert_eq!(body(sent(&n)), r#"{"args":[],"script":"return document.title"}"#);
    assert_eq!(done(step(&mut d, ok(r#"{"a":1}"#)))["vars"]["script_result"], "{\"a\":1}");
    let (mut d, _) = Dispatch::start(10, request(&["return null"]), &c, &session());
    assert_eq!(done(step(&mut d, ok("null")))["vars"]["script_result"], "");
    let (mut d, n) = Dispatch::start(11, request(&[]), &c, &session());
    let v = evidence_without_extras(&mut d, n, "http://app.test/", "");
    assert_eq!(v["error"], "`I execute the script:` needs a doc string");
}

#[test]
fn i_take_a_screenshot_writes_a_png_into_artifacts_dir() {
    let c = config("");
    let (mut d, n) = Dispatch::start(14, request(&[]), &c, &session());
    assert_eq!(sent(&n).path, "session/s1/screenshot");
    let n = step(&mut d, ok(r#""iVBORw0KGgo=""#));
    match &n {
        Next::Do(Action::Write { name, payload: Payload::Bytes(b) }) => {
            assert_eq!(name, "screenshot.png");
            assert_eq!(&b[1..4], b"PNG");
        }
        other => panic!("expected a write, got {}", describe(other)),
    }
    assert_eq!(done(step(&mut d, Event::Written(Ok("/tmp/a/screenshot.png".into()))))["status"], "passed");
}

#[test]
fn a_failure_carries_the_page_a_screenshot_and_the_last_exchange() {
    let c = config(r#", "find_timeout_secs": 0"#);
    let (mut d, _) = Dispatch::start(3, request(&["Pay"]), &c, &session());
    step(&mut d, Event::Ack);
    step(&mut d, no_such());
    step(&mut d, no_such());
    step(&mut d, no_such());
    let n = step(&mut d, Event::GaveUp);
    assert!(matches!(n, Next::Do(Action::LastExchange)));
    let failed_find = Exchange {
        request: "POST session/s1/element".into(),
        request_body: r#"{"using":"css selector","value":"Pay"}"#.into(),
        status: 404,
        response_body: r#"{"value":{"error":"no such element"}}"#.into(),
    };
    let n = step(&mut d, Event::Exchange(Some(failed_find)));
    assert_eq!(sent(&n).path, "session/s1/url");
    step(&mut d, ok(r#""http://app.test/orders/new""#));
    let n = step(&mut d, ok(r#""New order""#));
    assert_eq!(sent(&n).path, "session/s1/screenshot");
    let n = step(&mut d, ok(r#""iVBORw0KGgo=""#));
    assert!(matches!(n, Next::Do(Action::Write { .. })));
    let n = step(&mut d, Event::Written(Ok("/tmp/a/screenshot.png".into())));
    assert!(matches!(n, Next::Do(Action::ReadBuffers)));
    let v = done(step(&mut d, Event::Buffers(BufferRead::Missing)));
    assert_eq!(v["status"], "fatal");
    let titles: Vec<&str> = v["diagnostics"].as_array().expect("diagnostics").iter().map(|x| x["title"].as_str().expect("title")).collect();
    assert_eq!(titles, vec!["Page", "Screenshot", "WebDriver"]);
    assert_eq!(v["diagnostics"][0]["content"], "http://app.test/orders/new\nNew order");
    assert_eq!(v["diagnostics"][1]["path"], "/tmp/a/screenshot.png");
    let http = v["diagnostics"][2]["content"].as_str().expect("http");
    assert!(http.contains("POST session/s1/element") && http.contains("no such element"), "the last exchange is the failed find, not the evidence calls: {http}");
}

#[test]
fn on_failure_none_writes_nothing_to_disk() {
    let c = config(r#", "find_timeout_secs": 0, "on_failure": "none""#);
    let (mut d, _) = Dispatch::start(3, request(&["Pay"]), &c, &session());
    step(&mut d, Event::Ack);
    step(&mut d, no_such());
    step(&mut d, no_such());
    step(&mut d, no_such());
    let n = step(&mut d, Event::GaveUp);
    assert!(matches!(n, Next::Do(Action::LastExchange)), "{}", describe(&n));
    let failed_find = Exchange {
        request: "POST session/s1/element".into(),
        request_body: r#"{"using":"css selector","value":"Pay"}"#.into(),
        status: 404,
        response_body: r#"{"value":{"error":"no such element"}}"#.into(),
    };
    let n = step(&mut d, Event::Exchange(Some(failed_find)));
    assert_eq!(sent(&n).path, "session/s1/url");
    let n = step(&mut d, ok(r#""http://app.test/""#));
    assert_eq!(sent(&n).path, "session/s1/title");
    let n = step(&mut d, ok(r#""Shop""#));
    let v = done(n);
    assert_eq!(v["status"], "fatal");
    let titles: Vec<&str> = v["diagnostics"].as_array().expect("diagnostics").iter().map(|x| x["title"].as_str().expect("title")).collect();
    assert_eq!(titles, vec!["Page", "WebDriver"], "no screenshot is taken and nothing is written");
}

#[test]
fn evidence_that_cannot_be_read_says_so() {
    let c = config(r#", "on_failure": "screenshot""#);
    let (mut d, n) = Dispatch::start(16, request(&["T"]), &c, &session());
    assert_eq!(sent(&n).path, "session/s1/title");
    step(&mut d, ok(r#""other""#));
    step(&mut d, Event::Exchange(None));
    let gone = || Event::Reply(Err(Error::Transport("GET x: connection refused".into())));
    step(&mut d, gone());
    let n = step(&mut d, gone());
    assert_eq!(sent(&n).path, "session/s1/screenshot");
    let v = done(step(&mut d, gone()));
    assert_eq!(v["diagnostics"][0]["content"], "(unavailable: GET x: connection refused)\n(unavailable: GET x: connection refused)");
    assert_eq!(v["diagnostics"][1]["content"], "not taken: GET x: connection refused");
}

#[test]
fn without_bidi_the_console_and_network_steps_fail_naming_the_capability() {
    let c = config(r#", "on_failure": "none""#);
    for index in 26..=31u32 {
        let (mut d, n) = Dispatch::start(index, request(&["/x", "200"]), &c, &session());
        assert!(matches!(n, Next::Do(Action::ReadBuffers)));
        let n = step(&mut d, Event::Buffers(BufferRead::Missing));
        let v = evidence_without_extras(&mut d, n, "http://app.test/", "");
        assert_eq!(v["status"], "fatal", "{index}");
        assert!(v["error"].as_str().expect("error").contains("webSocketUrl"), "{v}");
    }
}

fn buffers(messages: &[&str]) -> Buffers {
    let mut b = Buffers::new();
    for m in messages {
        b.apply(&j(m));
    }
    b
}

#[test]
fn console_errors_including_uncaught_exceptions_are_fatal_with_the_entries() {
    let b = buffers(&[
        r#"{"method":"log.entryAdded","params":{"type":"console","level":"info","text":"fine"}}"#,
        r#"{"method":"log.entryAdded","params":{"type":"console","level":"error","text":"boom: the widget failed"}}"#,
        r#"{"method":"log.entryAdded","params":{"type":"javascript","level":"error","text":"Error: uncaught"}}"#,
    ]);
    let c = config(r#", "on_failure": "console""#);
    let (mut d, _) = Dispatch::start(29, request(&[]), &c, &session());
    let n = step(&mut d, Event::Buffers(BufferRead::Ready(b)));
    assert!(matches!(n, Next::Do(Action::LastExchange)));
    step(&mut d, Event::Exchange(None));
    step(&mut d, ok(r#""http://app.test/""#));
    let n = step(&mut d, ok(r#""T""#));
    assert!(matches!(n, Next::Do(Action::ReadBuffers)));
    let again = buffers(&[r#"{"method":"log.entryAdded","params":{"type":"console","level":"error","text":"boom"}}"#]);
    let v = done(step(&mut d, Event::Buffers(BufferRead::Ready(again))));
    assert_eq!(
        v["error"],
        "2 error(s) in the browser console:\n[console] boom: the widget failed\n[javascript] Error: uncaught"
    );
    assert_eq!(v["diagnostics"][1]["title"], "Console");
    assert!(v["diagnostics"][1]["content"].as_str().expect("content").contains("\"boom\""));
    let (mut d, _) = Dispatch::start(29, request(&[]), &c, &session());
    let quiet = buffers(&[r#"{"method":"log.entryAdded","params":{"level":"warn","text":"meh"}}"#]);
    assert_eq!(done(step(&mut d, Event::Buffers(BufferRead::Ready(quiet))))["status"], "passed");
}

#[test]
fn network_assertions_match_method_and_path_prefix_and_read_the_status() {
    let msgs = [
        r#"{"method":"network.beforeRequestSent","params":{"request":{"request":"r1","method":"GET","url":"http://app.test/orders/new"}}}"#,
        r#"{"method":"network.beforeRequestSent","params":{"request":{"request":"r2","method":"POST","url":"http://app.test/api/orders?x=1"}}}"#,
        r#"{"method":"network.responseCompleted","params":{"request":{"request":"r2"},"response":{"status":201}}}"#,
    ];
    let c = config(r#", "on_failure": "none""#);
    let run = |index: u32, args: &[&str]| -> (Dispatch, Next) {
        let (mut d, _) = Dispatch::start(index, request(args), &c, &session());
        let n = step(&mut d, Event::Buffers(BufferRead::Ready(buffers(&msgs))));
        (d, n)
    };
    assert_eq!(done(run(30, &["POST", "/api/orders"]).1)["status"], "passed");
    let (mut d, n) = run(30, &["DELETE", "/api"]);
    let v = evidence_without_extras(&mut d, n, "http://app.test/", "");
    assert_eq!(v["status"], "not_yet", "prefix on the path, method exact");
    assert_eq!(v["error"], "no DELETE request to \"/api\" yet");
    assert_eq!(done(run(31, &["/api/orders", "201"]).1)["status"], "passed");
    let (mut d, n) = run(31, &["/api/orders", "200"]);
    let v = evidence_without_extras(&mut d, n, "http://app.test/", "");
    assert_eq!(v["error"], "the last POST request to \"/api/orders\" answered 201, expected 200");
    let (mut d, n) = run(31, &["/orders/new", "200"]);
    let v = evidence_without_extras(&mut d, n, "http://app.test/", "");
    assert_eq!(v["error"], "the GET request to \"/orders/new\" has no response yet");
    assert_eq!(done(run(28, &["/api/orders", "code"]).1)["vars"]["code"], "201");
    let (mut d, n) = run(28, &["/nope", "code"]);
    let v = evidence_without_extras(&mut d, n, "http://app.test/", "");
    assert_eq!(v["status"], "fatal");
    assert_eq!(v["error"], "no completed request to \"/nope\" in this scenario");
}

#[test]
fn dumps_write_json_files_and_trace_them_when_debugging() {
    let b = buffers(&[r#"{"method":"log.entryAdded","params":{"level":"warn","text":"careful","timestamp":1}}"#]);
    let c = config("");
    let (mut d, _) = Dispatch::start(26, request(&[]), &c, &session());
    let n = step(&mut d, Event::Buffers(BufferRead::Ready(b)));
    match &n {
        Next::Do(Action::Write { name, payload: Payload::Text(t) }) => {
            assert_eq!(name, "console.json");
            let v: Value = serde_json::from_str(t).expect("JSON");
            assert_eq!(v[0]["text"], "careful");
        }
        other => panic!("expected a write, got {}", describe(other)),
    }
    assert_eq!(done(step(&mut d, Event::Written(Ok("/tmp/a/console.json".into()))))["status"], "passed");

    let mut req = request(&[]);
    req.ctx.debug = true;
    let (mut d, _) = Dispatch::start(27, req, &c, &session());
    step(&mut d, Event::Buffers(BufferRead::Ready(Buffers::new())));
    let n = step(&mut d, Event::Written(Ok("/tmp/a/network.json".into())));
    assert!(matches!(&n, Next::Do(Action::Trace(t)) if t == "[browser] network.json: /tmp/a/network.json\n[]"));
    assert_eq!(done(step(&mut d, Event::Ack))["status"], "passed");
    let (mut d, _) = Dispatch::start(26, request(&[]), &c, &session());
    step(&mut d, Event::Buffers(BufferRead::Ready(Buffers::new())));
    let n = step(&mut d, Event::Written(Err("creating /tmp/a: permission denied".into())));
    assert!(matches!(n, Next::Do(Action::LastExchange)));
}

#[test]
fn an_unknown_step_index_is_fatal() {
    let c = config(r#", "on_failure": "none""#);
    let (mut d, n) = Dispatch::start(32, request(&[]), &c, &session());
    let v = evidence_without_extras(&mut d, n, "http://app.test/", "");
    assert_eq!(v["error"], "unknown step index 32");
}

#[test]
fn a_request_reads_its_arguments_doc_string_and_context() {
    let r = Request::parse(&j(r#"{"args": ["a", 1, null], "docstring": "return 1", "artifacts_dir": "/tmp/x", "debug": true}"#));
    assert_eq!(r.args, vec!["a", "", ""]);
    assert_eq!(r.docstring.as_deref(), Some("return 1"));
    assert_eq!(r.ctx.artifacts_dir, "/tmp/x");
    assert_eq!(r.ctx.workspace_dir, "");
    assert!(r.ctx.debug);
    assert!(!r.has_null());
    let r = Request::parse(&j(r#"{"docstring": "x\u0000__bddkit_null__\u0000y"}"#));
    assert!(r.args.is_empty());
    assert!(r.has_null());
    let _ = Command { method: Method::Get, path: String::new(), body: None };
}

/// Answers every find of a `Pay` button: the first `misses` finds find
/// nothing, later ones find `e9`; a pause is answered by `pause_event` at
/// `elapsed_ms`.
fn press_pay(d: &mut Dispatch, mut n: Next, misses: usize, elapsed_ms: u64, timeout_secs: u64) -> (Next, usize) {
    let mut finds = 0;
    loop {
        n = match n {
            Next::Do(Action::StartWait) => step(d, Event::Ack),
            Next::Do(Action::Send(ref c)) if c.path == "session/s1/element" => {
                finds += 1;
                if finds <= misses { step(d, no_such()) } else { step(d, element("e9")) }
            }
            Next::Do(Action::Pause) => step(d, pause_event(elapsed_ms, timeout_secs)),
            other => return (other, finds),
        };
    }
}

#[test]
fn an_action_waits_for_its_element_and_gives_up_after_find_timeout() {
    let c = config(r#", "find_timeout_secs": 2, "on_failure": "none""#);
    let (mut d, n) = Dispatch::start(3, request(&["Pay"]), &c, &session());
    let (n, finds) = press_pay(&mut d, n, 3, 100, 2);
    assert_eq!(finds, 4, "three misses, a pause, then the first strategy again");
    assert_eq!(sent(&n).path, "session/s1/element/e9/click");
    assert_eq!(done(step(&mut d, ok("null")))["status"], "passed");
    let (mut d, n) = Dispatch::start(3, request(&["Pay"]), &c, &session());
    let (n, _) = press_pay(&mut d, n, usize::MAX, 2000, 2);
    let v = evidence_without_extras(&mut d, n, "http://app.test/", "");
    assert_eq!(v["status"], "fatal");
    assert!(v["error"].as_str().expect("error").contains("within 2s"), "{v}");
    assert!(matches!(pause_event(1999, 2), Event::Ack));
    assert!(matches!(pause_event(2000, 2), Event::GaveUp));
    assert!(matches!(pause_event(0, 0), Event::GaveUp), "0 disables the wait");
}

#[test]
fn debug_true_then_false_traces_without_failing_the_dispatch() {
    let c = config(r#", "base_url": "http://app.test""#);
    for debug in [true, false] {
        let mut req = request(&["/login"]);
        req.ctx.debug = debug;
        let (mut d, mut n) = Dispatch::start(0, req, &c, &session());
        let v = loop {
            n = match n {
                Next::Do(Action::Send(_)) => step(&mut d, ok("null")),
                Next::Do(Action::Trace(_)) => step(&mut d, Event::Ack),
                other => break done(other),
            };
        };
        assert_eq!(v["status"], "passed", "debug {debug}");
    }
}

#[test]
fn a_failure_attaches_console_and_network_when_on_failure_asks() {
    let c = config(r#", "find_timeout_secs": 0, "on_failure": "console,network""#);
    let (mut d, n) = Dispatch::start(3, request(&["Pay"]), &c, &session());
    let (n, _) = press_pay(&mut d, n, usize::MAX, 0, 0);
    assert!(matches!(n, Next::Do(Action::LastExchange)), "{}", describe(&n));
    let last = Exchange {
        request: "POST session/s1/element".into(),
        request_body: r#"{"using":"css selector","value":"Pay"}"#.into(),
        status: 404,
        response_body: r#"{"value":{"error":"no such element"}}"#.into(),
    };
    let n = step(&mut d, Event::Exchange(Some(last)));
    assert_eq!(sent(&n).path, "session/s1/url");
    step(&mut d, ok(r#""http://app.test/""#));
    let n = step(&mut d, ok(r#""Shop""#));
    assert!(matches!(n, Next::Do(Action::ReadBuffers)), "{}", describe(&n));
    let b = buffers(&[
        r#"{"type":"event","method":"log.entryAdded","params":{"type":"console","level":"error","text":"e","timestamp":1}}"#,
        r#"{"type":"event","method":"network.beforeRequestSent","params":{"timestamp":1,"request":{"request":"r1","method":"GET","url":"http://app.test/x","headers":[]}}}"#,
    ]);
    let v = done(step(&mut d, Event::Buffers(BufferRead::Ready(b))));
    let titles: Vec<&str> = v["diagnostics"].as_array().expect("d").iter().map(|x| x["title"].as_str().expect("t")).collect();
    assert_eq!(titles, vec!["Page", "Console", "Network", "WebDriver"]);
}
