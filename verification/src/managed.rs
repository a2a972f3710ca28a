//! Managed mode: Selenium Manager finds or downloads a browser and the
//! driver that matches it; the plugin starts that driver on a free port and
//! stops it with the instance. What to run, how to read its answer and when
//! the driver counts as ready are decided here; running it is the caller's.

use vstd::prelude::*;

use crate::config::{path_join, Browser, Managed, ManagedV};
use crate::json::{at_or_null, json_parse, json_text, json_views, lemma_json_views_len, parse_json, render, str_at, Json, JsonV};
use crate::text::{join, owned, push_char, push_decimal, push_str, split_char, views};
use crate::webdriver::{json_res, Error, ErrorV};
use crate::weburl::{opt_view, whatwg_parse, WebUrl};

verus! {

/// The driver Selenium Manager found, and the browser when it named one.
#[derive(Debug)]
pub struct Resolved {
    pub driver_path: String,
    pub browser_path: Option<String>,
}

pub struct ResolvedV {
    pub driver_path: Seq<char>,
    pub browser_path: Option<Seq<char>>,
}

impl View for Resolved {
    type V = ResolvedV;

    open spec fn view(&self) -> ResolvedV {
        ResolvedV { driver_path: self.driver_path@, browser_path: opt_view(self.browser_path) }
    }
}

/// The command line of Selenium Manager for a managed instance, one to one
/// with its configuration.
pub open spec fn manager_args_spec(b: Browser, m: ManagedV) -> Seq<Seq<char>> {
    seq!["--browser"@, b.manager_name_spec()] + match m.browser_path {
        Some(p) => seq!["--browser-path"@, p, "--avoid-browser-download"@],
        None => seq!["--browser-version"@, m.version],
    } + seq!["--cache-path"@, m.cache_dir, "--output"@, "JSON"@] + (if m.offline {
        seq!["--offline"@]
    } else {
        Seq::empty()
    }) + match m.proxy {
        Some(u) => seq!["--proxy"@, u.href],
        None => Seq::empty(),
    } + match m.mirror_url {
        Some(u) => seq!["--driver-mirror-url"@, u.href, "--browser-mirror-url"@, u.href],
        None => Seq::empty(),
    }
}

fn push_arg(args: &mut Vec<String>, a: &str)
    ensures
        views(final(args)@) == views(old(args)@).push(a@),
{
    let ghost prev = args@;
    args.push(owned(a));
    assert(views(args@) =~= views(prev).push(a@));
}

pub fn manager_args(browser: Browser, m: &Managed) -> (r: Vec<String>)
    ensures
        views(r@) == manager_args_spec(browser, m@),
{
    let mut args: Vec<String> = Vec::new();
    push_arg(&mut args, "--browser");
    push_arg(&mut args, browser.manager_name());
    let ghost a1 = views(args@);
    match &m.browser_path {
        Some(p) => {
            push_arg(&mut args, "--browser-path");
            push_arg(&mut args, p.as_str());
            push_arg(&mut args, "--avoid-browser-download");
        },
        None => {
            push_arg(&mut args, "--browser-version");
            push_arg(&mut args, m.version.as_str());
        },
    }
    let ghost a2 = views(args@);
    push_arg(&mut args, "--cache-path");
    push_arg(&mut args, m.cache_dir.as_str());
    push_arg(&mut args, "--output");
    push_arg(&mut args, "JSON");
    let ghost a3 = views(args@);
    if m.offline {
        push_arg(&mut args, "--offline");
    }
    let ghost a4 = views(args@);
    match &m.proxy {
        Some(u) => {
            push_arg(&mut args, "--proxy");
            push_arg(&mut args, u.as_str());
        },
        None => {},
    }
    let ghost a5 = views(args@);
    match &m.mirror_url {
        Some(u) => {
            push_arg(&mut args, "--driver-mirror-url");
            push_arg(&mut args, u.as_str());
            push_arg(&mut args, "--browser-mirror-url");
            push_arg(&mut args, u.as_str());
        },
        None => {},
    }
    assert(views(args@) =~= manager_args_spec(browser, m@));
    args
}

/// The `message` of each log line that has one, in order.
pub open spec fn log_messages(items: Seq<JsonV>) -> Seq<Seq<char>>
    decreases items.len(),
{
    if items.len() == 0 {
        Seq::empty()
    } else {
        let rest = log_messages(items.drop_last());
        match items.last().at("message"@).as_str() {
            Some(m) => rest.push(m),
            None => rest,
        }
    }
}

/// What Selenium Manager's JSON output says: the driver (and browser)
/// paths, or why there are none. `parsed` is `stdout` read as JSON.
pub open spec fn manager_output_spec(stdout: Seq<char>, parsed: Result<JsonV, Seq<char>>) -> Result<
    ResolvedV,
    Seq<char>,
> {
    match parsed {
        Err(e) => Err("selenium-manager printed something that is not JSON: "@ + e + seq!['\n'] + stdout),
        Ok(v) => {
            let result = v.at("result"@);
            let driver = result.at("driver_path"@).str_or_empty();
            if driver.len() == 0 {
                Err(
                    "selenium-manager found no driver (code "@ + json_text(result.at("code"@)) + "): "@
                        + result.at("message"@).str_or_empty() + seq!['\n'] + join(
                        match v.at("logs"@) {
                            JsonV::Array(items) => log_messages(items),
                            _ => Seq::empty(),
                        },
                        seq!['\n'],
                    ),
                )
            } else {
                Ok(
                    ResolvedV {
                        driver_path: driver,
                        browser_path: match result.at("browser_path"@).as_str() {
                            Some(s) => if s.len() > 0 {
                                Some(s)
                            } else {
                                None
                            },
                            None => None,
                        },
                    },
                )
            }
        },
    }
}

pub open spec fn resolved_res(r: Result<Resolved, String>) -> Result<ResolvedV, Seq<char>> {
    match r {
        Ok(x) => Ok(x@),
        Err(e) => Err(e@),
    }
}

fn join_lines(parts: &Vec<String>) -> (r: String)
    ensures
        r@ == join(views(parts@), seq!['\n']),
{
    let mut out = String::new();
    let mut i: usize = 0;
    while i < parts.len()
        invariant
            i <= parts.len(),
            out@ == join(views(parts@.take(i as int)), seq!['\n']),
        decreases parts.len() - i,
    {
        proof {
            assert(views(parts@.take(i + 1)) =~= views(parts@.take(i as int)).push(parts@[i as int]@));
            crate::text::lemma_join_push(views(parts@.take(i as int)), seq!['\n'], parts@[i as int]@);
        }
        if i > 0 {
            push_char(&mut out, '\n');
        }
        push_str(&mut out, parts[i].as_str());
        proof {
            if i > 0 {
                assert(out@ =~= join(views(parts@.take(i as int)), seq!['\n']) + seq!['\n'] + parts@[i as int]@);
            }
        }
        i = i + 1;
    }
    assert(parts@.take(parts.len() as int) =~= parts@);
    out
}

/// Reads Selenium Manager's standard output: it is read as JSON here.
pub fn parse_manager_output(stdout: &str) -> (r: Result<Resolved, String>)
    ensures
        resolved_res(r) == manager_output_spec(stdout@, json_parse(stdout@)),
{
    let parsed = parse_json(stdout);
    read_manager_output(stdout, parsed)
}

/// Reads Selenium Manager's standard output `stdout`, given `parsed`, that
/// output read as JSON or the reader's complaint.
pub fn read_manager_output(stdout: &str, parsed: Result<Json, String>) -> (r: Result<Resolved, String>)
    ensures
        resolved_res(r) == manager_output_spec(stdout@, crate::webdriver::parsed_view(parsed)),
{
    match parsed {
        Err(e) => {
            let mut m = owned("selenium-manager printed something that is not JSON: ");
            push_str(&mut m, e.as_str());
            push_char(&mut m, '\n');
            push_str(&mut m, stdout);
            assert(m@ =~= "selenium-manager printed something that is not JSON: "@ + e@ + seq!['\n'] + stdout@);
            Err(m)
        },
        Ok(v) => {
            let result = at_or_null(&v, "result");
            let driver = crate::json::string_at(&result, "driver_path");
            if driver.as_str().is_empty() {
                let logs = at_or_null(&v, "logs");
                let mut messages: Vec<String> = Vec::new();
                match &logs {
                    Json::Array(items) => {
                        proof {
                            lemma_json_views_len(items@);
                        }
                        let mut i: usize = 0;
                        while i < items.len()
                            invariant
                                i <= items.len(),
                                json_views(items@).len() == items@.len(),
                                forall|k: int| 0 <= k < items@.len() ==> #[trigger] json_views(items@)[k] == items@[k]@,
                                views(messages@) == log_messages(json_views(items@).take(i as int)),
                            decreases items.len() - i,
                        {
                            let ghost before = views(messages@);
                            assert(json_views(items@).take(i + 1).drop_last() =~= json_views(items@).take(i as int));
                            assert(json_views(items@).take(i + 1).last() == items@[i as int]@);
                            match str_at(&items[i], "message") {
                                Some(s) => {
                                    let ghost prev = messages@;
                                    messages.push(owned(s));
                                    assert(views(messages@) =~= views(prev).push(s@));
                                },
                                None => {},
                            }
                            i = i + 1;
                        }
                        assert(json_views(items@).take(items.len() as int) =~= json_views(items@));
                    },
                    _ => {
                        assert(views(messages@) =~= Seq::<Seq<char>>::empty());
                    },
                }
                let mut m = owned("selenium-manager found no driver (code ");
                let code = at_or_null(&result, "code");
                let t = render(&code);
                push_str(&mut m, t.as_str());
                push_str(&mut m, "): ");
                let msg = crate::json::string_at(&result, "message");
                push_str(&mut m, msg.as_str());
                push_char(&mut m, '\n');
                let joined = join_lines(&messages);
                push_str(&mut m, joined.as_str());
                proof {
                    let expected = "selenium-manager found no driver (code "@ + json_text(v@.at("result"@).at("code"@)) + "): "@
                        + v@.at("result"@).at("message"@).str_or_empty() + seq!['\n'] + join(views(messages@), seq!['\n']);
                    assert(m@ =~= expected);
                }
                Err(m)
            } else {
                let browser_path = match str_at(&result, "browser_path") {
                    Some(s) => if s.is_empty() {
                        None
                    } else {
                        Some(owned(s))
                    },
                    None => None,
                };
                Ok(Resolved { driver_path: driver, browser_path })
            }
        },
    }
}

/// The outcome of one Selenium Manager run: its JSON when it succeeded,
/// else the failure with its exit status, whatever its output said and its
/// standard error.
pub open spec fn resolve_spec(
    success: bool,
    status: Seq<char>,
    stdout: Seq<char>,
    parsed: Result<JsonV, Seq<char>>,
    stderr: Seq<char>,
) -> Result<ResolvedV, Seq<char>> {
    if success {
        manager_output_spec(stdout, parsed)
    } else {
        Err(
            "selenium-manager failed ("@ + status + "): "@ + match manager_output_spec(stdout, parsed) {
                Err(e) => e,
                Ok(_) => Seq::empty(),
            } + seq!['\n'] + stderr,
        )
    }
}

pub fn resolve_outcome(
    success: bool,
    status: &str,
    stdout: &str,
    stderr: &str,
) -> (r: Result<Resolved, String>)
    ensures
        resolved_res(r) == resolve_spec(success, status@, stdout@, json_parse(stdout@), stderr@),
{
    let read = parse_manager_output(stdout);
    if success {
        read
    } else {
        let mut m = owned("selenium-manager failed (");
        push_str(&mut m, status);
        push_str(&mut m, "): ");
        match &read {
            Err(e) => push_str(&mut m, e.as_str()),
            Ok(_) => {},
        }
        push_char(&mut m, '\n');
        push_str(&mut m, stderr);
        proof {
            let expected = "selenium-manager failed ("@ + status@ + "): "@ + match resolved_res(read) {
                Err(e) => e,
                Ok(_) => Seq::empty(),
            } + seq!['\n'] + stderr@;
            assert(m@ =~= expected);
        }
        Err(m)
    }
}

/// Where `selenium-manager` is looked for, in order: the override, each
/// directory of `PATH`, the plugin library's own directory.
pub open spec fn manager_candidates_spec(
    override_path: Option<Seq<char>>,
    path_var: Option<Seq<char>>,
    library_dir: Option<Seq<char>>,
) -> Seq<Seq<char>> {
    (match override_path {
        Some(p) => seq![p],
        None => Seq::empty(),
    }) + match path_var {
        Some(v) => split_char(v, ':').map_values(|d: Seq<char>| path_join(d, "selenium-manager"@)),
        None => Seq::empty(),
    } + match library_dir {
        Some(d) => seq![path_join(d, "selenium-manager"@)],
        None => Seq::empty(),
    }
}

pub open spec fn opt_str(o: Option<&str>) -> Option<Seq<char>> {
    match o {
        Some(s) => Some(s@),
        None => None,
    }
}

pub fn manager_candidates(
    override_path: Option<&str>,
    path_var: Option<&str>,
    library_dir: Option<&str>,
) -> (r: Vec<String>)
    ensures
        views(r@) == manager_candidates_spec(opt_str(override_path), opt_str(path_var), opt_str(library_dir)),
{
    let mut out: Vec<String> = Vec::new();
    match override_path {
        Some(p) => push_arg(&mut out, p),
        None => {},
    }
    let ghost first = views(out@);
    match path_var {
        Some(v) => {
            let dirs = crate::text::split_on(v, ':');
            let ghost ds = views(dirs@);
            let mut i: usize = 0;
            while i < dirs.len()
                invariant
                    i <= dirs.len(),
                    ds == views(dirs@),
                    views(out@) =~= first + ds.take(i as int).map_values(
                        |d: Seq<char>| path_join(d, "selenium-manager"@),
                    ),
                decreases dirs.len() - i,
            {
                let c = crate::config::join_path(dirs[i].as_str(), "selenium-manager");
                let ghost cv = c@;
                let ghost prev = out@;
                out.push(c);
                proof {
                    assert(views(out@) =~= views(prev).push(cv));
                    assert(ds.take(i + 1) =~= ds.take(i as int).push(ds[i as int]));
                }
                i = i + 1;
            }
            assert(ds.take(dirs.len() as int) =~= ds);
        },
        None => {},
    }
    let ghost second = views(out@);
    match library_dir {
        Some(d) => {
            let c = crate::config::join_path(d, "selenium-manager");
            push_arg(&mut out, c.as_str());
        },
        None => {},
    }
    assert(views(out@) =~= manager_candidates_spec(opt_str(override_path), opt_str(path_var), opt_str(library_dir)));
    out
}

pub open spec fn not_found_message() -> Seq<char> {
    "selenium-manager not found: set BDDKIT_SELENIUM_MANAGER to its path, put selenium-manager on PATH, or keep it beside the plugin library (a release archive does)"@
}

/// The first candidate that is a file.
pub open spec fn first_file(checked: Seq<(Seq<char>, bool)>) -> Option<Seq<char>>
    decreases checked.len(),
{
    if checked.len() == 0 {
        None
    } else if checked[0].1 {
        Some(checked[0].0)
    } else {
        first_file(checked.drop_first())
    }
}

/// `selenium-manager`: the first candidate, in order, that is a file.
pub fn pick_manager(checked: &Vec<(String, bool)>) -> (r: Result<String, String>)
    ensures
        match first_file(checked@.map_values(|c: (String, bool)| (c.0@, c.1))) {
            Some(p) => r matches Ok(x) && x@ == p,
            None => r matches Err(e) && e@ == not_found_message(),
        },
{
    let ghost cs = checked@.map_values(|c: (String, bool)| (c.0@, c.1));
    assert(cs.skip(0) =~= cs);
    let mut i: usize = 0;
    while i < checked.len()
        invariant
            i <= checked.len(),
            cs == checked@.map_values(|c: (String, bool)| (c.0@, c.1)),
            first_file(cs) == first_file(cs.skip(i as int)),
        decreases checked.len() - i,
    {
        assert(cs.skip(i as int)[0] == cs[i as int]);
        if checked[i].1 {
            return Ok(checked[i].0.clone());
        }
        assert(cs.skip(i as int).drop_first() =~= cs.skip(i + 1));
        i = i + 1;
    }
    assert(cs.skip(i as int) =~= Seq::<(Seq<char>, bool)>::empty());
    Err(
        owned(
            "selenium-manager not found: set BDDKIT_SELENIUM_MANAGER to its path, put selenium-manager on PATH, or keep it beside the plugin library (a release archive does)",
        ),
    )
}

/// The endpoint of a driver started on `port`.
pub open spec fn driver_url_text(port: u16) -> Seq<char> {
    "http://127.0.0.1:"@ + crate::text::decimal(port as nat) + seq!['/']
}

pub fn driver_endpoint(port: u16) -> (r: Result<WebUrl, String>)
    ensures
        crate::weburl::url_result_view(r) == whatwg_parse(driver_url_text(port)),
{
    let mut t = owned("http://127.0.0.1:");
    push_decimal(&mut t, port as u64);
    push_char(&mut t, '/');
    assert(t@ =~= driver_url_text(port));
    WebUrl::parse(t.as_str())
}

/// What one look at a starting driver says.
pub enum Readiness {
    /// `GET /status` answered `ready: true`.
    Ready,
    /// The process has exited; the message says so.
    Exited(String),
    /// Neither yet, and the deadline has not passed: look again after the
    /// pause.
    NotYet,
    /// Neither, and the deadline has passed: stop the driver and give up.
    TimedOut,
}

/// Whether a `GET /status` reply says `ready: true`.
pub open spec fn says_ready(r: Result<JsonV, ErrorV>) -> bool {
    match r {
        Ok(v) => v.at("ready"@) == JsonV::Bool(true),
        Err(_) => false,
    }
}

/// Ready when the status reply says `ready: true`; else exited when the
/// process has (its exit status given), naming the driver; else timed out
/// when the deadline has passed, and not yet otherwise.
pub fn readiness(status: &Result<Json, Error>, exited: Option<&str>, past_deadline: bool, driver_path: &str) -> (r: Readiness)
    ensures
        match r {
            Readiness::Ready => says_ready(json_res(*status)),
            Readiness::Exited(m) => !says_ready(json_res(*status)) && (exited matches Some(x)
                && m@ == driver_path@ + " exited before becoming ready: "@ + x@),
            Readiness::NotYet => !says_ready(json_res(*status)) && exited is None && !past_deadline,
            Readiness::TimedOut => !says_ready(json_res(*status)) && exited is None && past_deadline,
        },
{
    let ready = match status {
        Ok(v) => match crate::json::bool_at(v, "ready") {
            Some(b) => b,
            None => false,
        },
        Err(_) => false,
    };
    if ready {
        return Readiness::Ready;
    }
    match exited {
        Some(x) => {
            let mut m = owned(driver_path);
            push_str(&mut m, " exited before becoming ready: ");
            push_str(&mut m, x);
            Readiness::Exited(m)
        },
        None => if past_deadline {
            Readiness::TimedOut
        } else {
            Readiness::NotYet
        },
    }
}

/// A value that Selenium Manager could not tell from one of the flags
/// whose presence the configuration decides.
pub open spec fn not_a_flag(x: Seq<char>) -> bool {
    x != "--browser-version"@ && x != "--offline"@
}

/// Whether `x` follows `flag` somewhere in `a`.
pub open spec fn passes(a: Seq<Seq<char>>, flag: Seq<char>, x: Seq<char>) -> bool {
    exists|i: int| 0 <= i && i + 1 < a.len() && #[trigger] a[i] == flag && a[i + 1] == x
}

/// Selenium Manager's command line maps the configuration one to one: the
/// browser first; a browser path, with downloads of the browser turned off
/// and no version asked for, or else the version; `--offline` exactly when
/// offline; the proxy and the mirror after their flags. Stated for values
/// that are not themselves one of the flags counted.
pub proof fn law_manager_args_one_to_one(b: Browser, m: ManagedV)
    requires
        not_a_flag(m.version),
        not_a_flag(m.cache_dir),
        match m.browser_path {
            Some(p) => not_a_flag(p),
            None => true,
        },
        match m.proxy {
            Some(u) => not_a_flag(u.href),
            None => true,
        },
        match m.mirror_url {
            Some(u) => not_a_flag(u.href),
            None => true,
        },
    ensures
        manager_args_spec(b, m)[0] == "--browser"@,
        manager_args_spec(b, m)[1] == b.manager_name_spec(),
        match m.browser_path {
            Some(p) => manager_args_spec(b, m)[2] == "--browser-path"@ && manager_args_spec(b, m)[3] == p
                && manager_args_spec(b, m)[4] == "--avoid-browser-download"@ && !manager_args_spec(b, m).contains(
                "--browser-version"@,
            ),
            None => manager_args_spec(b, m)[2] == "--browser-version"@ && manager_args_spec(b, m)[3] == m.version,
        },
        manager_args_spec(b, m).contains("--offline"@) <==> m.offline,
        match m.proxy {
            Some(u) => passes(manager_args_spec(b, m), "--proxy"@, u.href),
            None => true,
        },
        match m.mirror_url {
            Some(u) => passes(manager_args_spec(b, m), "--driver-mirror-url"@, u.href) && passes(
                manager_args_spec(b, m),
                "--browser-mirror-url"@,
                u.href,
            ),
            None => true,
        },
{
    reveal_strlit("--browser");
    reveal_strlit("--browser-path");
    reveal_strlit("--avoid-browser-download");
    reveal_strlit("--browser-version");
    reveal_strlit("--cache-path");
    reveal_strlit("--output");
    reveal_strlit("JSON");
    reveal_strlit("--offline");
    reveal_strlit("--proxy");
    reveal_strlit("--driver-mirror-url");
    reveal_strlit("--browser-mirror-url");
    reveal_strlit("chrome");
    reveal_strlit("firefox");
    reveal_strlit("edge");
    let a = manager_args_spec(b, m);
    let pa = seq!["--browser"@, b.manager_name_spec()];
    let pb = match m.browser_path {
        Some(p) => seq!["--browser-path"@, p, "--avoid-browser-download"@],
        None => seq!["--browser-version"@, m.version],
    };
    let pc = seq!["--cache-path"@, m.cache_dir, "--output"@, "JSON"@];
    let pd: Seq<Seq<char>> = if m.offline {
        seq!["--offline"@]
    } else {
        Seq::empty()
    };
    let pe: Seq<Seq<char>> = match m.proxy {
        Some(u) => seq!["--proxy"@, u.href],
        None => Seq::empty(),
    };
    let pf: Seq<Seq<char>> = match m.mirror_url {
        Some(u) => seq!["--driver-mirror-url"@, u.href, "--browser-mirror-url"@, u.href],
        None => Seq::empty(),
    };
    assert(a =~= pa + pb + pc + pd + pe + pf);
    let o: int = (pa.len() + pb.len() + pc.len()) as int;
    if m.offline {
        assert(a[o] == "--offline"@);
    } else {
        assert forall|i: int| 0 <= i < a.len() implies a[i] != "--offline"@ by {
            assert(a[i].len() != 9 || a[i] == "--browser"@ || a[i] == m.version || a[i] == m.cache_dir || (
            m.browser_path matches Some(p) && a[i] == p) || (m.proxy matches Some(u) && a[i] == u.href) || (
            m.mirror_url matches Some(u) && a[i] == u.href));
            assert("--browser"@[2] != "--offline"@[2]);
        }
    }
    if m.browser_path is Some {
        assert forall|i: int| 0 <= i < a.len() implies a[i] != "--browser-version"@ by {
            assert(a[i].len() != 17 || a[i] == m.cache_dir || (m.browser_path matches Some(p) && a[i] == p) || (
            m.proxy matches Some(u) && a[i] == u.href) || (m.mirror_url matches Some(u) && a[i] == u.href));
        }
    }
    let oe: int = o + pd.len();
    match m.proxy {
        Some(u) => assert(a[oe] == "--proxy"@ && a[oe + 1] == u.href),
        None => {},
    }
    let of: int = oe + pe.len();
    match m.mirror_url {
        Some(u) => {
            assert(a[of] == "--driver-mirror-url"@ && a[of + 1] == u.href);
            assert(a[of + 2] == "--browser-mirror-url"@ && a[of + 3] == u.href);
        },
        None => {},
    }
}

} // verus!
