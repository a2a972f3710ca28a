use bddkit_browser::config::{Browser, Managed};
use bddkit_browser::json::Json;
use bddkit_browser::managed::{
    driver_endpoint, manager_args, manager_candidates, parse_manager_output, pick_manager, readiness,
    read_manager_output, resolve_outcome, Readiness,
};
use bddkit_browser::weburl::WebUrl;
use serde_json::Value;

fn to_json(v: &Value) -> Json {
    match v {
        Value::Null => Json::Null,
        Value::Bool(b) => Json::Bool(*b),
        Value::Number(n) => {
            if let Some(u) = n.as_u64() {
                Json::UInt(u)
            } else if let Some(i) = n.as_i64() {
                Json::NegInt(i)
            } else {
                Json::Float(n.to_string())
            }
        }
        Value::String(s) => Json::Str(s.clone()),
        Value::Array(a) => Json::Array(a.iter().map(to_json).collect()),
        Value::Object(m) => Json::Object(m.iter().map(|(k, v)| (k.clone(), to_json(v))).collect()),
    }
}

fn j(text: &str) -> Json {
    to_json(&serde_json::from_str::<Value>(text).expect("JSON"))
}


fn back(text: &str) -> Value {
    serde_json::from_str(text).expect("rendered JSON")
}

fn managed() -> Managed {
    Managed {
        version: "stable".into(),
        browser_path: None,
        offline: false,
        cache_dir: "/tmp/c".into(),
        proxy: None,
        mirror_url: None,
    }
}

#[test]
fn manager_args_map_the_config_one_to_one() {
    let args = manager_args(Browser::Firefox, &managed());
    assert_eq!(
        args,
        vec!["--browser", "firefox", "--browser-version", "stable", "--cache-path", "/tmp/c", "--output", "JSON"]
    );
    let mut m = managed();
    m.browser_path = Some("/opt/chrome".into());
    m.offline = true;
    m.proxy = Some(WebUrl::parse("http://proxy:3128").expect("url"));
    m.mirror_url = Some(WebUrl::parse("https://mirror.test/").expect("url"));
    let args = manager_args(Browser::Chrome, &m);
    assert!(
        args.windows(3).any(|w| w == ["--browser-path", "/opt/chrome", "--avoid-browser-download"]),
        "{args:?}"
    );
    assert!(!args.contains(&"--browser-version".to_string()), "a path excludes a version");
    assert!(args.contains(&"--offline".to_string()));
    assert!(args.windows(2).any(|w| w == ["--proxy", "http://proxy:3128/"]));
    assert!(args.windows(2).any(|w| w == ["--driver-mirror-url", "https://mirror.test/"]));
    assert!(args.windows(2).any(|w| w == ["--browser-mirror-url", "https://mirror.test/"]));
}

#[test]
fn manager_output_yields_the_paths_or_the_message() {
    let ok = r#"{"logs":[],"result":{"code":0,"message":"/c/chromedriver","driver_path":"/c/chromedriver","browser_path":"/c/chrome"}}"#;
    let r = parse_manager_output(ok).expect("parses");
    assert_eq!(r.driver_path, "/c/chromedriver");
    assert_eq!(r.browser_path.as_deref(), Some("/c/chrome"));
    let no_browser = r#"{"logs":[],"result":{"code":0,"message":"","driver_path":"/c/geckodriver","browser_path":""}}"#;
    assert!(parse_manager_output(no_browser).expect("parses").browser_path.is_none());
    let failed = r#"{"logs":[{"level":"ERROR","message":"offline and not cached"}],"result":{"code":65,"message":"offline and not cached","driver_path":"","browser_path":""}}"#;
    let e = parse_manager_output(failed).expect_err("no driver path");
    assert!(e.contains("offline and not cached"), "{e}");
    assert!(parse_manager_output("not json").is_err());
}

#[test]
fn a_failed_run_reports_its_status_output_and_stderr() {
    let failed = r#"{"logs":[{"message":"a"},{"level":"INFO"},{"message":"b"}],"result":{"code":65,"message":"m","driver_path":""}}"#;
    assert_eq!(
        parse_manager_output(failed).expect_err("no driver"),
        "selenium-manager found no driver (code 65): m\na\nb"
    );
    assert_eq!(
        resolve_outcome(false, "exit status: 65", failed, "boom").expect_err("failed"),
        "selenium-manager failed (exit status: 65): selenium-manager found no driver (code 65): m\na\nb\nboom"
    );
    let ok = r#"{"result":{"driver_path":"/d"}}"#;
    assert_eq!(resolve_outcome(true, "exit status: 0", ok, "").expect("ok").driver_path, "/d");
    assert_eq!(
        resolve_outcome(false, "signal: 9", ok, "killed").expect_err("failed"),
        "selenium-manager failed (signal: 9): \nkilled"
    );
    assert_eq!(
        read_manager_output("oops", Err("expected value".into())).expect_err("not JSON"),
        "selenium-manager printed something that is not JSON: expected value\noops"
    );
}

#[test]
fn the_manager_binary_is_found_through_the_env_override_first() {
    let c = manager_candidates(Some("/opt/sm"), Some("/usr/bin::/bin/"), Some("/lib/plugins"));
    assert_eq!(
        c,
        vec!["/opt/sm", "/usr/bin/selenium-manager", "selenium-manager", "/bin/selenium-manager", "/lib/plugins/selenium-manager"]
    );
    let checked: Vec<(String, bool)> = c.iter().map(|p| (p.clone(), p == "/opt/sm")).collect();
    assert_eq!(pick_manager(&checked), Ok("/opt/sm".to_string()));
    let checked: Vec<(String, bool)> = c.iter().map(|p| (p.clone(), p.ends_with("plugins/selenium-manager"))).collect();
    assert_eq!(pick_manager(&checked), Ok("/lib/plugins/selenium-manager".to_string()));
    let e = pick_manager(&Vec::new()).expect_err("nothing found");
    assert!(e.contains("BDDKIT_SELENIUM_MANAGER") && e.contains("PATH"), "{e}");
    assert!(manager_candidates(None, None, None).is_empty());
}

#[test]
fn a_driver_is_ready_only_when_its_status_says_so() {
    let url = driver_endpoint(9515).ok().expect("url");
    assert_eq!(url.as_str(), "http://127.0.0.1:9515/");
    assert!(matches!(readiness(&Ok(j(r#"{"ready":true}"#)), None, true, "/d"), Readiness::Ready));
    assert!(matches!(readiness(&Ok(j(r#"{"ready":false}"#)), None, false, "/d"), Readiness::NotYet));
    assert!(matches!(readiness(&Ok(j(r#"{"ready":false}"#)), None, true, "/d"), Readiness::TimedOut));
    match readiness(&Ok(j(r#"{"ready":"yes"}"#)), Some("exit status: 3"), true, "/d/chromedriver") {
        Readiness::Exited(m) => assert_eq!(m, "/d/chromedriver exited before becoming ready: exit status: 3"),
        _ => panic!("exited"),
    }
}
