use bddkit_browser::handles::Handles;
use bddkit_browser::{live_instances, manifest_json, take_instance};
use serde_json::Value;

#[test]
fn the_manifest_claims_the_browser_group_and_is_per_worker() {
    let v: Value = serde_json::from_str(&manifest_json("0.1.0")).expect("JSON");
    assert_eq!(v["name"], "browser", "the lock entry must name this plugin `browser`");
    let groups: Value = serde_json::from_str(r#"["browser"]"#).expect("JSON");
    assert_eq!(v["groups"], groups);
    assert_eq!(v["concurrency"], "per_worker", "the plugin keeps per-scenario state");
    assert_eq!(v["version"], "0.1.0");
    assert_eq!(v["fields"]["browser"].as_array().expect("fields").len(), 14);
}

#[test]
fn every_handle_is_distinct_from_every_live_one() {
    let mut table: Handles<&str> = Handles::new();
    let a = table.insert("a").expect("handle");
    let b = table.insert("b").expect("handle");
    assert_ne!(a, b);
    assert_eq!(live_instances(&table), 2);
    assert_eq!(take_instance(&table, a), Some(&"a"));
    assert_eq!(table.remove(a), Some("a"));
    assert_eq!(take_instance(&table, a), None, "a dropped handle is unknown");
    assert_eq!(table.remove(a), None);
    let c = table.insert("c").expect("handle");
    assert!(c != a && c != b, "a handle is never given out twice");
    assert_eq!(live_instances(&table), 2);
}
