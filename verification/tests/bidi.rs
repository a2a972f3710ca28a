use bddkit_browser::bidi::{on_read, path_starts_with, subscribe_answer, subscribe_answer_of, subscribe_message, Buffers, ReadEvent};
use bddkit_browser::json::{render, Json};
use serde_json::Value;

fn to_json(v: &Value) -> Json {
    match v {
        Value::Null => Json::Null,
        Value::Bool(b) => Json::Bool(*b),
        Value::Number(n) => {
            if let Some(u) = n.as_u64() {
                Json::UInt(u)
            } else if let Some(i) = n.as_i64() {
                Json::NegInt(i)
            } else {
                Json::Float(n.to_string())
            }
        }
        Value::String(s) => Json::Str(s.clone()),
        Value::Array(a) => Json::Array(a.iter().map(to_json).collect()),
        Value::Object(m) => Json::Object(m.iter().map(|(k, v)| (k.clone(), to_json(v))).collect()),
    }
}

fn j(text: &str) -> Json {
    to_json(&serde_json::from_str::<Value>(text).expect("JSON"))
}


fn back(text: &str) -> Value {
    serde_json::from_str(text).expect("rendered JSON")
}

fn request_sent(id: &str, method: &str, url: &str, ts: u64) -> Json {
    j(&format!(
        r#"{{"type": "event", "method": "network.beforeRequestSent", "params": {{
            "timestamp": {ts},
            "request": {{"request": "{id}", "method": "{method}", "url": "{url}",
                        "headers": [{{"name": "accept", "value": {{"type": "string", "value": "*/*"}}}}]}}
        }}}}"#
    ))
}

fn response_completed(id: &str, status: u16, ts: u64) -> Json {
    j(&format!(
        r#"{{"type": "event", "method": "network.responseCompleted", "params": {{
            "timestamp": {ts},
            "request": {{"request": "{id}"}},
            "response": {{"status": {status}, "headers": [{{"name": "content-type", "value": {{"type": "string", "value": "application/json"}}}}]}}
        }}}}"#
    ))
}

#[test]
fn console_entries_keep_level_text_and_source() {
    let mut b = Buffers::new();
    b.apply(&j(r#"{"type": "event", "method": "log.entryAdded", "params": {"type": "console", "level": "error", "text": "boom", "timestamp": 5}}"#));
    b.apply(&j(r#"{"type": "event", "method": "log.entryAdded", "params": {"type": "javascript", "level": "error", "text": "Error: uncaught", "timestamp": 6}}"#));
    b.apply(&j(r#"{"type": "event", "method": "log.entryAdded", "params": {"type": "console", "level": "info", "text": "fine", "timestamp": 7}}"#));
    assert_eq!(b.console.len(), 3);
    assert_eq!(b.console[1].source, "javascript");
    assert_eq!(b.errors().len(), 2);
}

#[test]
fn a_response_is_joined_onto_its_request_by_id() {
    let mut b = Buffers::new();
    b.apply(&request_sent("r1", "POST", "http://app.test/api/orders", 10));
    b.apply(&request_sent("r2", "GET", "http://app.test/dashboard", 11));
    b.apply(&response_completed("r1", 201, 12));
    assert_eq!(b.network.len(), 2);
    assert_eq!(b.network[0].status, Some(201));
    assert_eq!(
        b.network[0].response_headers[0],
        ("content-type".to_string(), "application/json".to_string())
    );
    assert_eq!(b.network[1].status, None);
    assert_eq!(b.last_to("/api/orders").map(|e| e.method.as_str()), Some("POST"));
    assert!(b.last_to("/nope").is_none());
}

#[test]
fn unknown_events_and_command_replies_are_ignored() {
    let mut b = Buffers::new();
    b.apply(&j(r#"{"id": 1, "type": "success", "result": {}}"#));
    b.apply(&j(r#"{"type": "event", "method": "browsingContext.load", "params": {}}"#));
    assert!(b.console.is_empty() && b.network.is_empty());
    b.apply(&request_sent("r1", "GET", "http://a/b", 1));
    b.clear();
    assert!(b.network.is_empty());
}

#[test]
fn a_response_joins_the_most_recent_request_with_its_id() {
    let mut b = Buffers::new();
    b.apply(&request_sent("r1", "GET", "http://a/x", 1));
    b.apply(&request_sent("r1", "GET", "http://a/y", 2));
    b.apply(&response_completed("r1", 304, 3));
    assert_eq!(b.network[0].status, None);
    assert_eq!(b.network[1].status, Some(304));
    assert_eq!(b.network[1].completed_at, Some(3));
    assert_eq!(b.network[1].request_headers, vec![("accept".to_string(), "*/*".to_string())]);
    b.apply(&response_completed("r9", 200, 4));
    assert_eq!(b.network.len(), 2, "a response to no known request adds nothing");
    b.apply(&j(r#"{"method": "network.responseCompleted", "params": {"request": {"request": "r1"}, "response": {"status": 70000}}}"#));
    assert_eq!(b.network[1].status, None, "a status beyond u16 is no status");
    assert_eq!(b.network[1].completed_at, None);
}

#[test]
fn missing_fields_default_to_empty_and_zero() {
    let mut b = Buffers::new();
    b.apply(&j(r#"{"method": "log.entryAdded", "params": {}}"#));
    assert_eq!(b.console[0].level, "");
    assert_eq!(b.console[0].source, "console");
    assert_eq!(b.console[0].timestamp, 0);
    b.apply(&j(r#"{"method": "network.beforeRequestSent"}"#));
    assert_eq!(b.network[0].url, "");
    assert!(b.network[0].request_headers.is_empty());
}

#[test]
fn a_path_prefix_is_matched_on_the_parsed_url() {
    assert!(path_starts_with("http://app.test/api/orders?x=1", "/api"));
    assert!(!path_starts_with("http://app.test/orders/new", "/api"));
    assert!(!path_starts_with("not a url", "/"));
}

#[test]
fn the_dumps_are_json_without_bodies() {
    let mut b = Buffers::new();
    b.apply(&j(r#"{"method": "log.entryAdded", "params": {"type": "console", "level": "warn", "text": "careful", "timestamp": 9}}"#));
    b.apply(&request_sent("r1", "GET", "http://app.test/x", 10));
    assert_eq!(
        render(&b.console_json()),
        r#"[{"level":"warn","source":"console","text":"careful","timestamp":9}]"#
    );
    assert_eq!(
        render(&b.network_json()),
        r#"[{"completed_at":null,"method":"GET","request_headers":[["accept","*/*"]],"request_id":"r1","response_headers":[],"started_at":10,"status":null,"url":"http://app.test/x"}]"#
    );
}

#[test]
fn the_subscription_is_read_before_any_event() {
    assert_eq!(
        subscribe_message(),
        r#"{"id":1,"method":"session.subscribe","params":{"events":["log.entryAdded","network.beforeRequestSent","network.responseCompleted"]}}"#
    );
    assert_eq!(subscribe_answer((r#"{"type":"event","method":"log.entryAdded"}"#)), Ok(false));
    assert_eq!(subscribe_answer((r#"{"id":1,"type":"success","result":{}}"#)), Ok(true));
    assert_eq!(
        subscribe_answer((r#"{"id":1,"type":"error","message":"no such event"}"#)),
        Err("BiDi subscribe refused: no such event".to_string())
    );
    assert_eq!(
        subscribe_answer(r#"{"id":1,"type":"error"}"#),
        Err(r#"BiDi subscribe refused: {"id":1,"type":"error"}"#.to_string())
    );
    assert_eq!(
        subscribe_answer_of("<", Err("bad".into())),
        Err("BiDi reply is not JSON: bad".to_string())
    );
    assert!(subscribe_answer("<").expect_err("not JSON").starts_with("BiDi reply is not JSON: "));
}

#[test]
fn the_reader_folds_text_and_stops_on_close_or_failure() {
    let mut b = Buffers::new();
    assert!(on_read(&mut b, ReadEvent::Text(render(&request_sent("r1", "GET", "http://a/b", 1)))));
    assert!(on_read(&mut b, ReadEvent::Text("not JSON".into())));
    assert!(on_read(&mut b, ReadEvent::TimedOut));
    assert!(on_read(&mut b, ReadEvent::Other));
    assert_eq!(b.network.len(), 1);
    assert!(!on_read(&mut b, ReadEvent::Closed));
    assert!(!on_read(&mut b, ReadEvent::Failed));
}
