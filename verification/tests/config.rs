use bddkit_browser::config::{
    deep_merge, expand_home, fields_json, join_path, known_keys, parse_window, Browser, InstanceConfig,
    Mode, OnFailure,
};
use bddkit_browser::json::{render, Json};
use serde_json::Value;

fn to_json(v: &Value) -> Json {
    match v {
        Value::Null => Json::Null,
        Value::Bool(b) => Json::Bool(*b),
        Value::Number(n) => {
            if let Some(u) = n.as_u64() {
                Json::UInt(u)
            } else if let Some(i) = n.as_i64() {
                Json::NegInt(i)
            } else {
                Json::Float(n.to_string())
            }
        }
        Value::String(s) => Json::Str(s.clone()),
        Value::Array(a) => Json::Array(a.iter().map(to_json).collect()),
        Value::Object(m) => Json::Object(m.iter().map(|(k, v)| (k.clone(), to_json(v))).collect()),
    }
}

fn j(text: &str) -> Json {
    to_json(&serde_json::from_str::<Value>(text).expect("JSON"))
}

fn back(v: &Json) -> Value {
    serde_json::from_str(&render(v)).expect("rendered JSON")
}

fn home() -> String {
    "/home/ann".to_string()
}

fn parse(text: &str) -> Result<InstanceConfig, String> {
    InstanceConfig::parse(&j(text), &home(), false)
}

fn minimal() -> &'static str {
    r#"{"browser": "chrome", "url": "http://localhost:4444"}"#
}

#[test]
fn a_minimal_remote_config_parses_with_defaults() {
    let c = parse(minimal()).expect("valid");
    assert_eq!(c.browser, Browser::Chrome);
    assert!(matches!(c.mode, Mode::Remote { .. }));
    assert!(c.headless);
    assert_eq!(c.window, (1280, 800));
    assert_eq!(c.find_timeout_secs, 5);
    assert!(c.on_failure.screenshot && c.on_failure.console && c.on_failure.network);
    assert!(c.base_url.is_none());
}

#[test]
fn every_refusal_names_what_is_wrong() {
    let cases: Vec<(&str, &str)> = vec![
        (r#"{"url": "http://h:4444"}"#, "browser"),
        (r#"{"browser": "safari", "url": "http://h:4444"}"#, "safari"),
        (r#"{"browser": "chrome", "url": ""}"#, "url"),
        (r#"{"browser": "chrome", "url": "not a url"}"#, "url"),
        (r#"{"browser": "chrome", "url": "http://h:4444", "bogus": 1}"#, "bogus"),
        (r#"{"browser": "chrome", "url": "http://h:4444", "window": "wide"}"#, "window"),
        (
            r#"{"browser": "chrome", "url": "http://h:4444", "on_failure": "screenshot,video"}"#,
            "video",
        ),
        (r#"{"browser": "chrome", "url": "http://h:4444", "headless": "yes"}"#, "headless"),
        (
            r#"{"browser": "chrome", "url": "http://h:4444", "find_timeout_secs": -1}"#,
            "find_timeout_secs",
        ),
        (
            r#"{"browser": "chrome", "url": "http://h:4444", "capabilities": []}"#,
            "capabilities",
        ),
        (
            r#"{"browser": "chrome", "url": "http://h:4444", "base_url": "/relative"}"#,
            "base_url",
        ),
    ];
    for (body, needle) in cases {
        let error = match parse(body) {
            Ok(_) => panic!("must be refused: {body}"),
            Err(e) => e,
        };
        assert!(error.contains(needle), "{body}: {error}");
    }
}

#[test]
fn on_failure_none_switches_everything_off() {
    let c = parse(r#"{"browser": "chrome", "url": "http://localhost:4444", "on_failure": "none"}"#)
        .expect("valid");
    assert!(!c.on_failure.screenshot && !c.on_failure.console && !c.on_failure.network);
    let c = parse(r#"{"browser": "chrome", "url": "http://localhost:4444", "on_failure": "screenshot"}"#)
        .expect("valid");
    assert!(c.on_failure.screenshot && !c.on_failure.console);
}

#[test]
fn capabilities_carry_headless_websocket_and_the_users_extras() {
    let c = parse(
        r#"{"browser": "chrome", "url": "http://localhost:4444", "capabilities": {"goog:chromeOptions": {"args": ["--lang=en-GB"]}, "acceptInsecureCerts": true}}"#,
    )
    .expect("valid");
    let caps = back(&c.session_capabilities(Some("/opt/chrome")));
    let always = &caps["capabilities"]["alwaysMatch"];
    assert_eq!(always["browserName"], "chrome");
    assert_eq!(always["webSocketUrl"], true);
    assert_eq!(always["acceptInsecureCerts"], true);
    assert_eq!(always["goog:chromeOptions"]["binary"], "/opt/chrome");
    let expected: Value = serde_json::from_str(r#"["--headless=new", "--lang=en-GB"]"#).expect("JSON");
    assert_eq!(
        always["goog:chromeOptions"]["args"], expected,
        "arrays concatenate: the user's args must not erase the headless flag"
    );
}

#[test]
fn headless_false_adds_no_argument_and_firefox_uses_its_own_flag() {
    let c = parse(r#"{"browser": "chrome", "url": "http://localhost:4444", "headless": false}"#)
        .expect("valid");
    let empty: Value = serde_json::from_str("[]").expect("JSON");
    assert_eq!(
        back(&c.session_capabilities(None))["capabilities"]["alwaysMatch"]["goog:chromeOptions"]["args"],
        empty
    );
    let c = parse(r#"{"browser": "firefox", "url": "http://localhost:4444", "headless": true}"#)
        .expect("valid");
    let flag: Value = serde_json::from_str(r#"["-headless"]"#).expect("JSON");
    assert_eq!(
        back(&c.session_capabilities(None))["capabilities"]["alwaysMatch"]["moz:firefoxOptions"]["args"],
        flag
    );
    assert_eq!(
        back(&c.session_capabilities(None))["capabilities"]["alwaysMatch"]["browserName"],
        "firefox"
    );
}

#[test]
fn deep_merge_merges_objects_concatenates_arrays_and_replaces_scalars() {
    let mut base = j(r#"{"a": {"x": 1, "list": [1]}, "s": "old"}"#);
    deep_merge(&mut base, &j(r#"{"a": {"y": 2, "list": [2]}, "s": "new", "n": true}"#));
    let expected: Value =
        serde_json::from_str(r#"{"a": {"x": 1, "y": 2, "list": [1, 2]}, "s": "new", "n": true}"#)
            .expect("JSON");
    assert_eq!(back(&base), expected);
}

#[test]
fn deep_merge_replaces_a_mismatched_kind_whole() {
    let mut base = j(r#"{"a": {"x": 1}, "b": [1]}"#);
    deep_merge(&mut base, &j(r#"{"a": [2], "b": {"y": 3}}"#));
    let expected: Value = serde_json::from_str(r#"{"a": [2], "b": {"y": 3}}"#).expect("JSON");
    assert_eq!(back(&base), expected);
    let mut scalar = j("1");
    deep_merge(&mut scalar, &j(r#"{"z": null}"#));
    assert_eq!(render(&scalar), r#"{"z":null}"#);
}

#[test]
fn without_url_the_mode_is_managed_with_defaults() {
    let c = parse(r#"{"browser": "firefox"}"#).expect("valid");
    let Mode::Managed(m) = &c.mode else {
        panic!("managed")
    };
    assert_eq!(m.version, "stable");
    assert!(m.browser_path.is_none() && !m.offline && m.proxy.is_none() && m.mirror_url.is_none());
    assert_eq!(m.cache_dir, join_path(&home(), ".cache/bddkit/plugins/browser"));
    assert_eq!(m.cache_dir, "/home/ann/.cache/bddkit/plugins/browser");
    assert_eq!(c.browser.manager_name(), "firefox");
}

#[test]
fn managed_keys_are_read_and_refused_beside_url() {
    let path = "/usr/local/bin/chrome-for-tests";
    let body = format!(
        r#"{{"browser": "chrome", "browser_path": "{path}", "offline": true, "cache_dir": "/var/cache/b", "proxy": "http://proxy:3128", "mirror_url": "https://mirror.test/"}}"#
    );
    let c = InstanceConfig::parse(&j(&body), &home(), true).expect("valid");
    let Mode::Managed(m) = &c.mode else {
        panic!("managed")
    };
    assert_eq!(m.browser_path.as_deref(), Some(path));
    assert!(m.offline);
    assert_eq!(m.cache_dir, "/var/cache/b");
    assert_eq!(m.proxy.as_ref().map(|u| u.as_str()), Some("http://proxy:3128/"));
    assert_eq!(m.mirror_url.as_ref().map(|u| u.as_str()), Some("https://mirror.test/"));

    let exclusive = format!(r#"{{"browser": "chrome", "version": "beta", "browser_path": "{path}"}}"#);
    let cases: Vec<(String, bool, &str)> = vec![
        (
            r#"{"browser": "chrome", "url": "http://h:4444", "version": "beta"}"#.to_string(),
            true,
            "version",
        ),
        (
            r#"{"browser": "chrome", "url": "http://h:4444", "offline": true}"#.to_string(),
            true,
            "offline",
        ),
        (exclusive, true, "browser_path"),
        (
            r#"{"browser": "chrome", "browser_path": "/nope/chrome"}"#.to_string(),
            false,
            "/nope/chrome",
        ),
        (r#"{"browser": "chrome", "proxy": "proxy:3128"}"#.to_string(), true, "proxy"),
        (r#"{"browser": "chrome", "offline": "yes"}"#.to_string(), true, "offline"),
    ];
    for (body, is_file, needle) in cases {
        let error = match InstanceConfig::parse(&j(&body), &home(), is_file) {
            Ok(_) => panic!("must be refused: {body}"),
            Err(e) => e,
        };
        assert!(error.contains(needle), "{body}: {error}");
    }
}

#[test]
fn expand_home_replaces_only_a_leading_tilde() {
    assert_eq!(expand_home(&home(), "~/x"), join_path(&home(), "x"));
    assert_eq!(expand_home(&home(), "/a/~/x"), "/a/~/x");
    assert_eq!(expand_home("/home/ann", "~/x"), "/home/ann/x");
    assert_eq!(expand_home("/home/ann/", "~/x"), "/home/ann/x");
    assert_eq!(expand_home("", "~/x"), "x");
    assert_eq!(expand_home("/home/ann", "~"), "~");
}

#[test]
fn the_manifest_describes_exactly_the_keys_the_parser_accepts() {
    let fields = back(&fields_json());
    let described: Vec<String> = fields
        .as_array()
        .expect("array")
        .iter()
        .map(|f| f["name"].as_str().expect("name").to_string())
        .collect();
    let accepted: Vec<String> = known_keys().iter().map(|k| k.to_string()).collect();
    assert_eq!(described, accepted);
    for f in fields.as_array().expect("array") {
        if let Some(example) = f.get("example") {
            assert!(
                example.is_string(),
                "{}: a non-string example fails the host's manifest parse",
                f["name"]
            );
        }
        if let Some(t) = f.get("type") {
            assert!(["string", "boolean", "number", "nonscalar"].contains(&t.as_str().expect("type")));
        }
    }
}

#[test]
fn every_known_key_is_accepted_and_an_unknown_one_lists_them_all() {
    let e = match parse(r#"{"browser": "chrome", "url": "http://h:4444", "headles": true}"#) {
        Ok(_) => panic!("a typo must be refused"),
        Err(e) => e,
    };
    assert_eq!(
        e,
        "unknown key \"headles\"; known keys are browser, url, version, browser_path, offline, cache_dir, proxy, mirror_url, base_url, headless, window, find_timeout_secs, on_failure, capabilities"
    );
    assert_eq!(
        parse("[]").err().as_deref(),
        Some("the instance body must be a mapping")
    );
}

#[test]
fn each_refusal_has_its_exact_words() {
    let cases: Vec<(&str, &str)> = vec![
        (r#"{"url": "http://h:4444"}"#, "requires a string \"browser\""),
        (r#"{"browser": ""}"#, "\"browser\" must not be empty"),
        (r#"{"browser": 7}"#, "\"browser\" must be a string"),
        (
            r#"{"browser": "safari"}"#,
            "\"browser\" must be chrome, firefox or edge, got \"safari\"",
        ),
        (
            r#"{"browser": "chrome", "url": ""}"#,
            "\"url\" must not be empty; omit it for managed mode",
        ),
        (
            r#"{"browser": "chrome", "url": "http://h:4444", "proxy": null, "cache_dir": "/c"}"#,
            "\"cache_dir\" is a managed-mode key and cannot be set beside \"url\": a remote endpoint owns its own browsers",
        ),
        (
            r#"{"browser": "chrome", "url": "http://h:4444", "window": "wide"}"#,
            "\"window\" must be <width>x<height>, got \"wide\"",
        ),
        (
            r#"{"browser": "chrome", "url": "http://h:4444", "find_timeout_secs": -1}"#,
            "\"find_timeout_secs\" must be a non-negative integer",
        ),
        (
            r#"{"browser": "chrome", "url": "http://h:4444", "find_timeout_secs": "5"}"#,
            "\"find_timeout_secs\" must be a non-negative integer, got \"5\"",
        ),
        (
            r#"{"browser": "chrome", "url": "http://h:4444", "headless": "yes"}"#,
            "\"headless\" must be true or false",
        ),
        (
            r#"{"browser": "chrome", "url": "http://h:4444", "capabilities": 1}"#,
            "\"capabilities\" must be a mapping",
        ),
        (
            r#"{"browser": "chrome", "version": "beta", "browser_path": "/c"}"#,
            "\"version\" and \"browser_path\" are exclusive: name a version to download, or a path to use",
        ),
        (
            r#"{"browser": "chrome", "proxy": "proxy:3128"}"#,
            "\"proxy\" \"proxy:3128\" is not an absolute URL: missing host",
        ),
        (
            r#"{"browser": "chrome", "url": "http://h:4444", "on_failure": " screenshot , , video"}"#,
            "\"on_failure\" token \"video\" is not one of screenshot, console, network, none",
        ),
    ];
    for (body, expected) in cases {
        assert_eq!(parse(body).err().as_deref(), Some(expected), "{body}");
    }
}

#[test]
fn window_sizes_are_trimmed_and_checked() {
    assert_eq!(parse_window("1024x600"), Some((1024, 600)));
    assert_eq!(parse_window(" 1024 x +600 "), Some((1024, 600)));
    assert_eq!(parse_window("1024X600"), None);
    assert_eq!(parse_window("1024x"), None);
    assert_eq!(parse_window("4294967296x1"), None);
    assert_eq!(parse_window("4294967295x1"), Some((4294967295, 1)));
    let c = parse(r#"{"browser": "edge", "url": "http://h:4444", "window": "800x600", "find_timeout_secs": 0}"#)
        .expect("valid");
    assert_eq!(c.window, (800, 600));
    assert_eq!(c.find_timeout_secs, 0);
    assert_eq!(c.browser.browser_name(), "MicrosoftEdge");
    assert_eq!(c.browser.options_key(), "ms:edgeOptions");
    assert_eq!(c.browser.headless_arg(), "--headless=new");
}

#[test]
fn on_failure_tokens_are_trimmed_and_combined() {
    let on = OnFailure::parse("console, network").expect("valid");
    assert!(!on.screenshot && on.console && on.network);
    let on = OnFailure::parse(" , none,").expect("valid");
    assert!(!on.screenshot && !on.console && !on.network);
    assert_eq!(Browser::parse("chrome"), Some(Browser::Chrome));
    assert_eq!(Browser::parse("Chrome"), None);
}

#[test]
fn find_timeout_takes_any_non_negative_integer_and_nothing_else() {
    let with = |v: &str| parse(&format!(r#"{{"browser": "chrome", "url": "http://h:4444", "find_timeout_secs": {v}}}"#));
    assert_eq!(with("0").expect("0 disables the wait").find_timeout_secs, 0);
    assert_eq!(with("7").expect("7").find_timeout_secs, 7);
    assert_eq!(with("null").expect("null is the default").find_timeout_secs, 5);
    for bad in ["1.5", "-1", "\"5\"", "true"] {
        let e = with(bad).err().expect("refused");
        assert!(e.starts_with("\"find_timeout_secs\" must be a non-negative integer"), "{bad}: {e}");
    }
}

#[test]
fn an_override_with_a_repeated_key_merges_each_entry_in_order() {
    let mut base = j(r#"{"a": {"x": 1}}"#);
    let over = Json::Object(vec![
        ("a".to_string(), j(r#"{"y": 2}"#)),
        ("a".to_string(), j(r#"{"z": 3}"#)),
    ]);
    deep_merge(&mut base, &over);
    let expected: Value = serde_json::from_str(r#"{"a": {"x": 1, "y": 2, "z": 3}}"#).expect("JSON");
    assert_eq!(back(&base), expected);
    let mut empty_over = j(r#"{"k": [1]}"#);
    deep_merge(&mut empty_over, &j("{}"));
    assert_eq!(back(&empty_over), serde_json::from_str::<Value>(r#"{"k": [1]}"#).expect("JSON"));
}
