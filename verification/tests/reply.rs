use bddkit_browser::json::Json;
use bddkit_browser::reply::{err, fatal, not_yet, ok, passed, passed_with, Diagnostic};
use serde_json::Value;

fn to_json(v: &Value) -> Json {
    match v {
        Value::Null => Json::Null,
        Value::Bool(b) => Json::Bool(*b),
        Value::Number(n) => {
            if let Some(u) = n.as_u64() {
                Json::UInt(u)
            } else if let Some(i) = n.as_i64() {
                Json::NegInt(i)
            } else {
                Json::Float(n.to_string())
            }
        }
        Value::String(s) => Json::Str(s.clone()),
        Value::Array(a) => Json::Array(a.iter().map(to_json).collect()),
        Value::Object(m) => Json::Object(m.iter().map(|(k, v)| (k.clone(), to_json(v))).collect()),
    }
}

fn j(text: &str) -> Json {
    to_json(&serde_json::from_str::<Value>(text).expect("JSON"))
}


fn back(text: &str) -> Value {
    serde_json::from_str(text).expect("rendered JSON")
}

#[test]
fn a_passed_reply_carries_vars_and_nothing_else() {
    let v = back(&passed_with(j(r#"{"orderId": "ord-1"}"#)));
    assert_eq!(v["status"], "passed");
    assert_eq!(v["vars"]["orderId"], "ord-1");
    assert!(v.get("diagnostics").is_none());
}

#[test]
fn a_failure_renders_every_diagnostic_kind() {
    let diagnostics = vec![
        Diagnostic::text("Page", "http://x\nTitle"),
        Diagnostic::image("Screenshot", "/tmp/a/screenshot.png"),
        Diagnostic::json("Console", &j(r#"[{"level": "error"}]"#)),
    ];
    let v = back(&fatal("boom", &diagnostics));
    assert_eq!(v["status"], "fatal");
    assert_eq!(v["error"], "boom");
    assert_eq!(v["diagnostics"][0]["kind"], "text");
    assert_eq!(v["diagnostics"][1]["kind"], "image");
    assert_eq!(v["diagnostics"][1]["path"], "/tmp/a/screenshot.png");
    assert!(v["diagnostics"][1]["content"].is_null());
    assert_eq!(v["diagnostics"][2]["kind"], "json");
    assert!(v["diagnostics"][2]["content"].as_str().expect("content").contains("\"level\""));
}

#[test]
fn not_yet_and_envelopes_have_the_documented_shape() {
    let v = back(&not_yet("still loading", &Vec::new()));
    assert_eq!(v["status"], "not_yet");
    let empty: Value = serde_json::from_str("[]").expect("JSON");
    assert_eq!(v["diagnostics"], empty);
    assert_eq!(ok(), r#"{"ok":true}"#);
    let e = back(&err("bad"));
    assert_eq!(e["ok"], false);
    assert_eq!(e["error"], "bad");
}

#[test]
fn replies_are_compact_json_with_sorted_keys() {
    assert_eq!(passed(), r#"{"status":"passed"}"#);
    assert_eq!(err("say \"hi\"\n"), r#"{"error":"say \"hi\"\n","ok":false}"#);
    assert_eq!(
        fatal("x", &vec![Diagnostic::http("WebDriver", "GET status")]),
        r#"{"diagnostics":[{"content":"GET status","kind":"http","path":null,"title":"WebDriver"}],"error":"x","status":"fatal"}"#
    );
}

#[test]
fn a_json_diagnostic_is_pretty_printed() {
    let d = Diagnostic::json("Console", &j(r#"[{"level": "error", "n": [1, 2]}, [], {}]"#));
    assert_eq!(
        d.content.as_deref(),
        Some("[\n  {\n    \"level\": \"error\",\n    \"n\": [\n      1,\n      2\n    ]\n  },\n  [],\n  {}\n]")
    );
    let reparsed: Value = serde_json::from_str(d.content.as_deref().expect("content")).expect("JSON");
    let expected: Value = serde_json::from_str(r#"[{"level": "error", "n": [1, 2]}, [], {}]"#).expect("JSON");
    assert_eq!(reparsed, expected);
}
