//! The step table and the decisions of a dispatch on its index — kept
//! adjacent so they cannot drift. The index of a step in the table is its
//! identity.

use vstd::prelude::*;

use crate::bidi::{errors_spec, last_to_spec, path_starts_spec, Buffers, BuffersV, ConsoleEntryV, NetworkEntryV};
use crate::config::{path_join, ConfigV, InstanceConfig, OnFailure};
use crate::json::{
    entry_views, json_pretty, json_text, json_views, lemma_entry_views_map,
    lemma_json_views_len, object_from, object_of, render, Json, JsonV,
};
use crate::reply::{diagnostics_view, Ctx, Diagnostic, DiagnosticV};
use crate::find::{
    button_strategies, field_strategies, link_strategies, option_xpath_spec, selector_strategy,
    xpath_literal_spec, Lookup, LookupV,
};
use crate::text::{
    collapse_ws, contains_seq, debug_quoted, debug_str, decimal, owned, push_char, push_str, str_eq,
};
use crate::webdriver::{
    command, element_id_spec, element_path, error_text, found_spec, json_res, no_such, opt_exchange,
    screenshot_spec, session_path, Command, CommandV, Element, ElementV, Error, ErrorV, Exchange,
    ExchangeV, Method, Session, Strategy,
};
use crate::weburl::{opt_view, whatwg_join, whatwg_parse, UrlV, WebUrl};

verus! {

/// One entry of the step table.
#[derive(Clone, Copy)]
pub struct Step {
    pub pattern: &'static str,
    pub kind: &'static str,
    pub description: &'static str,
}

/// **The step table.** Append, never reorder: the host addresses a step by
/// its index.
pub open spec fn step_table() -> Seq<Step> {
    seq![
        Step {
            pattern: "^I am on \"(?P<path>[^\"]+)\"$",
            kind: "action",
            description: "opens a path under base_url, or an absolute URL as is",
        },
        Step {
            pattern: "^I reload the page$",
            kind: "action",
            description: "reloads the current page",
        },
        Step {
            pattern: "^I follow \"(?P<link>[^\"]+)\"$",
            kind: "action",
            description: "clicks a link by its text, title, id or image alt, then by CSS",
        },
        Step {
            pattern: "^I press \"(?P<button>[^\"]+)\"$",
            kind: "action",
            description: "clicks a button by its text, value, id, name or title, then by CSS",
        },
        Step {
            pattern: "^I click on \"(?P<selector>[^\"]+)\"$",
            kind: "action",
            description: "clicks any element by CSS, xpath= or text=",
        },
        Step {
            pattern: "^I fill in \"(?P<field>[^\"]+)\" with \"(?P<value>[^\"]*)\"$",
            kind: "action",
            description: "clears and types into a field found by label, name, id or placeholder, then by CSS",
        },
        Step {
            pattern: "^I select \"(?P<option>[^\"]+)\" from \"(?P<field>[^\"]+)\"$",
            kind: "action",
            description: "picks an option by its text or value in a select field",
        },
        Step {
            pattern: "^I check \"(?P<field>[^\"]+)\"$",
            kind: "action",
            description: "ticks a checkbox if it is not ticked",
        },
        Step {
            pattern: "^I uncheck \"(?P<field>[^\"]+)\"$",
            kind: "action",
            description: "unticks a checkbox if it is ticked",
        },
        Step {
            pattern: "^I attach the file \"(?P<path>[^\"]+)\" to \"(?P<field>[^\"]+)\"$",
            kind: "action",
            description: "sets a file input to a file, path relative to the workspace directory; the browser must be able to see it",
        },
        Step {
            pattern: "^I execute the script \"(?P<js>[^\"]+)\"$",
            kind: "action",
            description: "runs JavaScript in the page; the return value becomes <<script_result>>",
        },
        Step {
            pattern: "^I execute the script:$",
            kind: "action",
            description: "runs the doc string as JavaScript in the page; the return value becomes <<script_result>>",
        },
        Step {
            pattern: "^I read the \"(?P<selector>[^\"]+)\" element text as \"(?P<name>[^\"]+)\"$",
            kind: "action",
            description: "stores an element's rendered text in a variable",
        },
        Step {
            pattern: "^I read the \"(?P<attr>[^\"]+)\" attribute of \"(?P<selector>[^\"]+)\" as \"(?P<name>[^\"]+)\"$",
            kind: "action",
            description: "stores an element's attribute in a variable; a missing attribute fails",
        },
        Step {
            pattern: "^I take a screenshot$",
            kind: "action",
            description: "writes a PNG of the page into the artifacts directory",
        },
        Step {
            pattern: "^I should be on \"(?P<path>[^\"]+)\"$",
            kind: "assertion",
            description: "the current URL's path and query (or the whole absolute URL) equal this",
        },
        Step {
            pattern: "^the page title should be \"(?P<text>[^\"]*)\"$",
            kind: "assertion",
            description: "the document title equals this exactly",
        },
        Step {
            pattern: "^the page should contain \"(?P<text>[^\"]+)\"$",
            kind: "assertion",
            description: "the rendered text of the page contains this",
        },
        Step {
            pattern: "^the page should not contain \"(?P<text>[^\"]+)\"$",
            kind: "assertion",
            description: "the rendered text of the page does not contain this",
        },
        Step {
            pattern: "^the \"(?P<selector>[^\"]+)\" element should contain \"(?P<text>[^\"]*)\"$",
            kind: "assertion",
            description: "the element exists and its rendered text contains this",
        },
        Step {
            pattern: "^the \"(?P<selector>[^\"]+)\" element should not contain \"(?P<text>[^\"]*)\"$",
            kind: "assertion",
            description: "the element exists and its rendered text does not contain this",
        },
        Step {
            pattern: "^the \"(?P<selector>[^\"]+)\" element should be visible$",
            kind: "assertion",
            description: "the element exists and is displayed",
        },
        Step {
            pattern: "^the \"(?P<selector>[^\"]+)\" element should not be visible$",
            kind: "assertion",
            description: "the element is absent or not displayed",
        },
        Step {
            pattern: "^the \"(?P<field>[^\"]+)\" field should contain \"(?P<value>[^\"]*)\"$",
            kind: "assertion",
            description: "the field's value equals this exactly",
        },
        Step {
            pattern: "^the \"(?P<field>[^\"]+)\" checkbox should be checked$",
            kind: "assertion",
            description: "the checkbox is ticked",
        },
        Step {
            pattern: "^the \"(?P<field>[^\"]+)\" checkbox should be unchecked$",
            kind: "assertion",
            description: "the checkbox is not ticked",
        },
        Step {
            pattern: "^I dump the browser console$",
            kind: "action",
            description: "writes the scenario's console entries as console.json into the artifacts directory",
        },
        Step {
            pattern: "^I dump the network log$",
            kind: "action",
            description: "writes the scenario's requests (method, URL, status, headers, timings — no bodies) as network.json",
        },
        Step {
            pattern: "^I read the status of the last request to \"(?P<path>[^\"]+)\" as \"(?P<name>[^\"]+)\"$",
            kind: "action",
            description: "stores the HTTP status of the most recent request whose path starts with this",
        },
        Step {
            pattern: "^the browser console should have no errors$",
            kind: "assertion",
            description: "no console.error and no uncaught exception since the scenario started",
        },
        Step {
            pattern: "^the browser should have sent a \"(?P<method>[A-Z]+)\" request to \"(?P<path>[^\"]+)\"$",
            kind: "assertion",
            description: "some request of the scenario has this method and a path starting with this",
        },
        Step {
            pattern: "^the last request to \"(?P<path>[^\"]+)\" should have status \"(?P<code>\\d+)\"$",
            kind: "assertion",
            description: "the most recent request whose path starts with this has completed with this status",
        },
    ]
}

/// The table of [`step_table`].
pub fn steps() -> (r: Vec<Step>)
    ensures
        r@ == step_table(),
{
    let mut v: Vec<Step> = Vec::new();
    v.push(Step {
        pattern: "^I am on \"(?P<path>[^\"]+)\"$",
        kind: "action",
        description: "opens a path under base_url, or an absolute URL as is",
    });
    v.push(Step {
        pattern: "^I reload the page$",
        kind: "action",
        description: "reloads the current page",
    });
    v.push(Step {
        pattern: "^I follow \"(?P<link>[^\"]+)\"$",
        kind: "action",
        description: "clicks a link by its text, title, id or image alt, then by CSS",
    });
    v.push(Step {
        pattern: "^I press \"(?P<button>[^\"]+)\"$",
        kind: "action",
        description: "clicks a button by its text, value, id, name or title, then by CSS",
    });
    v.push(Step {
        pattern: "^I click on \"(?P<selector>[^\"]+)\"$",
        kind: "action",
        description: "clicks any element by CSS, xpath= or text=",
    });
    v.push(Step {
        pattern: "^I fill in \"(?P<field>[^\"]+)\" with \"(?P<value>[^\"]*)\"$",
        kind: "action",
        description: "clears and types into a field found by label, name, id or placeholder, then by CSS",
    });
    v.push(Step {
        pattern: "^I select \"(?P<option>[^\"]+)\" from \"(?P<field>[^\"]+)\"$",
        kind: "action",
        description: "picks an option by its text or value in a select field",
    });
    v.push(Step {
        pattern: "^I check \"(?P<field>[^\"]+)\"$",
        kind: "action",
        description: "ticks a checkbox if it is not ticked",
    });
    v.push(Step {
        pattern: "^I uncheck \"(?P<field>[^\"]+)\"$",
        kind: "action",
        description: "unticks a checkbox if it is ticked",
    });
    v.push(Step {
        pattern: "^I attach the file \"(?P<path>[^\"]+)\" to \"(?P<field>[^\"]+)\"$",
        kind: "action",
        description: "sets a file input to a file, path relative to the workspace directory; the browser must be able to see it",
    });
    v.push(Step {
        pattern: "^I execute the script \"(?P<js>[^\"]+)\"$",
        kind: "action",
        description: "runs JavaScript in the page; the return value becomes <<script_result>>",
    });
    v.push(Step {
        pattern: "^I execute the script:$",
        kind: "action",
        description: "runs the doc string as JavaScript in the page; the return value becomes <<script_result>>",
    });
    v.push(Step {
        pattern: "^I read the \"(?P<selector>[^\"]+)\" element text as \"(?P<name>[^\"]+)\"$",
        kind: "action",
        description: "stores an element's rendered text in a variable",
    });
    v.push(Step {
        pattern: "^I read the \"(?P<attr>[^\"]+)\" attribute of \"(?P<selector>[^\"]+)\" as \"(?P<name>[^\"]+)\"$",
        kind: "action",
        description: "stores an element's attribute in a variable; a missing attribute fails",
    });
    v.push(Step {
        pattern: "^I take a screenshot$",
        kind: "action",
        description: "writes a PNG of the page into the artifacts directory",
    });
    v.push(Step {
        pattern: "^I should be on \"(?P<path>[^\"]+)\"$",
        kind: "assertion",
        description: "the current URL's path and query (or the whole absolute URL) equal this",
    });
    v.push(Step {
        pattern: "^the page title should be \"(?P<text>[^\"]*)\"$",
        kind: "assertion",
        description: "the document title equals this exactly",
    });
    v.push(Step {
        pattern: "^the page should contain \"(?P<text>[^\"]+)\"$",
        kind: "assertion",
        description: "the rendered text of the page contains this",
    });
    v.push(Step {
        pattern: "^the page should not contain \"(?P<text>[^\"]+)\"$",
        kind: "assertion",
        description: "the rendered text of the page does not contain this",
    });
    v.push(Step {
        pattern: "^the \"(?P<selector>[^\"]+)\" element should contain \"(?P<text>[^\"]*)\"$",
        kind: "assertion",
        description: "the element exists and its rendered text contains this",
    });
    v.push(Step {
        pattern: "^the \"(?P<selector>[^\"]+)\" element should not contain \"(?P<text>[^\"]*)\"$",
        kind: "assertion",
        description: "the element exists and its rendered text does not contain this",
    });
    v.push(Step {
        pattern: "^the \"(?P<selector>[^\"]+)\" element should be visible$",
        kind: "assertion",
        description: "the element exists and is displayed",
    });
    v.push(Step {
        pattern: "^the \"(?P<selector>[^\"]+)\" element should not be visible$",
        kind: "assertion",
        description: "the element is absent or not displayed",
    });
    v.push(Step {
        pattern: "^the \"(?P<field>[^\"]+)\" field should contain \"(?P<value>[^\"]*)\"$",
        kind: "assertion",
        description: "the field's value equals this exactly",
    });
    v.push(Step {
        pattern: "^the \"(?P<field>[^\"]+)\" checkbox should be checked$",
        kind: "assertion",
        description: "the checkbox is ticked",
    });
    v.push(Step {
        pattern: "^the \"(?P<field>[^\"]+)\" checkbox should be unchecked$",
        kind: "assertion",
        description: "the checkbox is not ticked",
    });
    v.push(Step {
        pattern: "^I dump the browser console$",
        kind: "action",
        description: "writes the scenario's console entries as console.json into the artifacts directory",
    });
    v.push(Step {
        pattern: "^I dump the network log$",
        kind: "action",
        description: "writes the scenario's requests (method, URL, status, headers, timings — no bodies) as network.json",
    });
    v.push(Step {
        pattern: "^I read the status of the last request to \"(?P<path>[^\"]+)\" as \"(?P<name>[^\"]+)\"$",
        kind: "action",
        description: "stores the HTTP status of the most recent request whose path starts with this",
    });
    v.push(Step {
        pattern: "^the browser console should have no errors$",
        kind: "assertion",
        description: "no console.error and no uncaught exception since the scenario started",
    });
    v.push(Step {
        pattern: "^the browser should have sent a \"(?P<method>[A-Z]+)\" request to \"(?P<path>[^\"]+)\"$",
        kind: "assertion",
        description: "some request of the scenario has this method and a path starting with this",
    });
    v.push(Step {
        pattern: "^the last request to \"(?P<path>[^\"]+)\" should have status \"(?P<code>\\d+)\"$",
        kind: "assertion",
        description: "the most recent request whose path starts with this has completed with this status",
    });
    assert(v@ =~= step_table());
    v
}

/// A step as the host's step list reads it.
pub open spec fn step_json(s: Step) -> JsonV {
    object_of(
        seq![
            ("pattern"@, JsonV::Str(s.pattern@)),
            ("group"@, JsonV::Str("browser"@)),
            ("kind"@, JsonV::Str(s.kind@)),
            ("description"@, JsonV::Str(s.description@)),
        ],
    )
}

fn step_entry(s: &Step) -> (r: Json)
    ensures
        r@ == step_json(*s),
{
    let mut es: Vec<(String, Json)> = Vec::new();
    es.push((owned("pattern"), Json::text(s.pattern)));
    es.push((owned("group"), Json::text("browser")));
    es.push((owned("kind"), Json::text(s.kind)));
    es.push((owned("description"), Json::text(s.description)));
    proof {
        lemma_entry_views_map(es@);
    }
    assert(entry_views(es@) =~= seq![
        ("pattern"@, JsonV::Str(s.pattern@)),
        ("group"@, JsonV::Str("browser"@)),
        ("kind"@, JsonV::Str(s.kind@)),
        ("description"@, JsonV::Str(s.description@)),
    ]);
    object_from(&es)
}

/// The step list the host asks for: every step of the table, in order.
pub fn steps_json() -> (r: String)
    ensures
        r@ == json_text(JsonV::Array(step_table().map_values(|s: Step| step_json(s)))),
{
    let table = steps();
    let mut out: Vec<Json> = Vec::new();
    let mut i: usize = 0;
    while i < table.len()
        invariant
            i <= table.len(),
            table@ == step_table(),
            json_views(out@) =~= table@.take(i as int).map_values(|s: Step| step_json(s)),
        decreases table.len() - i,
    {
        let e = step_entry(&table[i]);
        let ghost prev = out@;
        out.push(e);
        proof {
            assert(out@.drop_last() =~= prev);
            assert(table@.take(i + 1) =~= table@.take(i as int).push(table@[i as int]));
        }
        i = i + 1;
    }
    assert(table@.take(table.len() as int) =~= table@);
    render(&Json::Array(out))
}


/// What the host interpolates `<<null>>` to. NUL characters cannot occur in
/// `.feature` text, so the sentinel cannot collide with a real value.
pub const NULL_SENTINEL: &'static str = "\u{0}__bddkit_null__\u{0}";

/// One dispatch as the host sends it: the step's arguments, its doc
/// string, and the context.
pub struct Request {
    pub args: Vec<String>,
    pub docstring: Option<String>,
    pub ctx: Ctx,
}

pub struct RequestV {
    pub args: Seq<Seq<char>>,
    pub docstring: Option<Seq<char>>,
    pub artifacts_dir: Seq<char>,
    pub workspace_dir: Seq<char>,
    pub debug: bool,
}

impl View for Request {
    type V = RequestV;

    open spec fn view(&self) -> RequestV {
        RequestV {
            args: crate::text::views(self.args@),
            docstring: opt_view(self.docstring),
            artifacts_dir: self.ctx.artifacts_dir@,
            workspace_dir: self.ctx.workspace_dir@,
            debug: self.ctx.debug,
        }
    }
}

/// A dispatch request read from its JSON: `args` (each a string, `""` for
/// anything else), `docstring`, and the context, each defaulting when
/// missing.
pub open spec fn request_spec(v: JsonV) -> RequestV {
    RequestV {
        args: match v.at("args"@) {
            JsonV::Array(items) => items.map_values(|x: JsonV| x.str_or_empty()),
            _ => Seq::empty(),
        },
        docstring: v.at("docstring"@).as_str(),
        artifacts_dir: v.at("artifacts_dir"@).str_or_empty(),
        workspace_dir: v.at("workspace_dir"@).str_or_empty(),
        debug: match v.at("debug"@).as_bool() {
            Some(b) => b,
            None => false,
        },
    }
}

impl Request {
    pub fn parse(v: &Json) -> (r: Request)
        ensures
            r@ == request_spec(v@),
    {
        let mut args: Vec<String> = Vec::new();
        let a = crate::json::at_or_null(v, "args");
        match &a {
            Json::Array(items) => {
                proof {
                    lemma_json_views_len(items@);
                }
                let mut i: usize = 0;
                while i < items.len()
                    invariant
                        i <= items.len(),
                        json_views(items@).len() == items@.len(),
                        forall|k: int| 0 <= k < items@.len() ==> #[trigger] json_views(items@)[k] == items@[k]@,
                        crate::text::views(args@) =~= json_views(items@).take(i as int).map_values(
                            |x: JsonV| x.str_or_empty(),
                        ),
                    decreases items.len() - i,
                {
                    let t = crate::webdriver::text_reply(&items[i]);
                    let ghost tv = t@;
                    let ghost prev = args@;
                    args.push(t);
                    proof {
                        assert(crate::text::views(args@) =~= crate::text::views(prev).push(tv));
                        assert(json_views(items@).take(i + 1) =~= json_views(items@).take(i as int).push(
                            items@[i as int]@,
                        ));
                    }
                    i = i + 1;
                }
                assert(json_views(items@).take(items.len() as int) =~= json_views(items@));
            },
            _ => {
                assert(crate::text::views(args@) =~= Seq::<Seq<char>>::empty());
            },
        }
        let docstring = match crate::json::str_at(v, "docstring") {
            Some(s) => Some(owned(s)),
            None => None,
        };
        let debug = match crate::json::bool_at(v, "debug") {
            Some(b) => b,
            None => false,
        };
        Request {
            args,
            docstring,
            ctx: Ctx {
                artifacts_dir: crate::json::string_at(v, "artifacts_dir"),
                workspace_dir: crate::json::string_at(v, "workspace_dir"),
                debug,
            },
        }
    }
}

/// Whether an argument or the doc string holds the `<<null>>` sentinel.
pub open spec fn carries_null(r: RequestV) -> bool {
    ||| exists|i: int| 0 <= i < r.args.len() && contains_seq(#[trigger] r.args[i], NULL_SENTINEL@)
    ||| (r.docstring matches Some(d) && contains_seq(d, NULL_SENTINEL@))
}

fn contains_str(s: &str, t: &str) -> (r: bool)
    ensures
        r == contains_seq(s@, t@),
{
    let a = crate::text::chars_of(s);
    let b = crate::text::chars_of(t);
    crate::text::contains_chars(&a, &b)
}

impl Request {
    pub fn has_null(&self) -> (r: bool)
        ensures
            r == carries_null(self@),
    {
        let mut i: usize = 0;
        while i < self.args.len()
            invariant
                i <= self.args.len(),
                forall|k: int| 0 <= k < i ==> !contains_seq(#[trigger] self@.args[k], NULL_SENTINEL@),
            decreases self.args.len() - i,
        {
            if contains_str(self.args[i].as_str(), NULL_SENTINEL) {
                assert(self@.args[i as int] == self.args@[i as int]@);
                return true;
            }
            i = i + 1;
        }
        match &self.docstring {
            Some(d) => contains_str(d.as_str(), NULL_SENTINEL),
            None => false,
        }
    }
}

/// Argument `n`, or `""` when there are fewer.
pub open spec fn arg_at(args: Seq<Seq<char>>, n: int) -> Seq<char> {
    if 0 <= n < args.len() {
        args[n]
    } else {
        Seq::empty()
    }
}

/// A scalar as the host wants it in a variable: strings bare, `null`
/// empty, anything else as JSON text.
pub open spec fn scalar_text_spec(v: JsonV) -> Seq<char> {
    match v {
        JsonV::Null => Seq::empty(),
        JsonV::Str(s) => s,
        _ => json_text(v),
    }
}

pub fn scalar_text(v: &Json) -> (r: String)
    ensures
        r@ == scalar_text_spec(v@),
{
    match v {
        Json::Null => String::new(),
        Json::Str(s) => s.clone(),
        _ => render(v),
    }
}

pub open spec fn opt_url(o: Option<WebUrl>) -> Option<UrlV> {
    match o {
        Some(u) => Some(u@),
        None => None,
    }
}

/// The URL `I am on` opens: an absolute one as it is, a relative one
/// joined to `base_url`.
pub open spec fn resolve_url_spec(base: Option<UrlV>, path: Seq<char>) -> Result<UrlV, Seq<char>> {
    match whatwg_parse(path) {
        Ok(u) => Ok(u),
        Err(_) => match base {
            None => Err(
                debug_quoted(path) + " is a relative path and \"base_url\" is not set on this instance"@,
            ),
            Some(b) => match whatwg_join(b, path) {
                Ok(u) => Ok(u),
                Err(e) => Err("cannot join "@ + debug_quoted(path) + " to "@ + b.href + ": "@ + e),
            },
        },
    }
}

pub fn resolve_url(base: &Option<WebUrl>, path: &str) -> (r: Result<WebUrl, String>)
    ensures
        match r {
            Ok(u) => resolve_url_spec(opt_url(*base), path@) == Ok::<UrlV, Seq<char>>(u@),
            Err(e) => resolve_url_spec(opt_url(*base), path@) == Err::<UrlV, Seq<char>>(e@),
        },
{
    match WebUrl::parse(path) {
        Ok(u) => Ok(u),
        Err(_) => match base {
            None => {
                let mut m = debug_str(path);
                push_str(&mut m, " is a relative path and \"base_url\" is not set on this instance");
                Err(m)
            },
            Some(b) => match b.join(path) {
                Ok(u) => Ok(u),
                Err(e) => {
                    let mut m = owned("cannot join ");
                    let q = debug_str(path);
                    push_str(&mut m, q.as_str());
                    push_str(&mut m, " to ");
                    push_str(&mut m, b.as_str());
                    push_str(&mut m, ": ");
                    push_str(&mut m, e.as_str());
                    Err(m)
                },
            },
        },
    }
}

/// The current URL's path, with `?query` when it has one.
pub open spec fn path_and_query(u: UrlV) -> Seq<char> {
    match u.query {
        Some(q) => u.path + seq!['?'] + q,
        None => u.path,
    }
}

/// `wanted` absolute: scheme, host, port, path and query must match.
/// Relative: `path?query` of the current URL must equal it. Fragments
/// never count.
pub open spec fn same_location_spec(current: UrlV, wanted: Seq<char>) -> bool {
    match whatwg_parse(wanted) {
        Ok(w) => current.scheme == w.scheme && current.host == w.host && current.port == w.port
            && current.path == w.path && current.query == w.query,
        Err(_) => path_and_query(current) == wanted,
    }
}

/// Where the browser is depends on scheme, host, port, path and query
/// only: two current URLs that differ in nothing else (a fragment, say) are
/// on the same location as every wanted one or on neither.
pub proof fn law_same_location_reads_no_fragment(c1: UrlV, c2: UrlV, wanted: Seq<char>)
    requires
        c1.scheme == c2.scheme,
        c1.host == c2.host,
        c1.port == c2.port,
        c1.path == c2.path,
        c1.query == c2.query,
    ensures
        same_location_spec(c1, wanted) == same_location_spec(c2, wanted),
{
}

/// `I should be on` an absolute URL `w` holds exactly when the browser is
/// at `w`'s place: a different scheme, host, port, path or query is never
/// the same location, and agreeing on all five always is. A relative
/// `wanted` is compared with the current path and query alone.
pub proof fn law_same_location_compares_every_part(current: UrlV, wanted: Seq<char>)
    ensures
        whatwg_parse(wanted) matches Ok(w) ==> (same_location_spec(current, wanted) ==> current.scheme == w.scheme
            && current.host == w.host && current.port == w.port && current.path == w.path && current.query
            == w.query),
        whatwg_parse(wanted) matches Ok(w) ==> (current.scheme == w.scheme && current.host == w.host
            && current.port == w.port && current.path == w.path && current.query == w.query
            ==> same_location_spec(current, wanted)),
        whatwg_parse(wanted) is Err ==> (same_location_spec(current, wanted) <==> (match current.query {
            Some(q) => current.path + seq!['?'] + q,
            None => current.path,
        }) == wanted),
{
}

fn opt_str_eq(a: Option<&str>, b: Option<&str>) -> (r: bool)
    ensures
        r == (crate::config::opt_str(a) == crate::config::opt_str(b)),
{
    match (a, b) {
        (Some(x), Some(y)) => str_eq(x, y),
        (None, None) => true,
        _ => false,
    }
}

pub fn same_location(current: &WebUrl, wanted: &str) -> (r: bool)
    ensures
        r == same_location_spec(current@, wanted@),
{
    match WebUrl::parse(wanted) {
        Ok(w) => {
            str_eq(current.scheme(), w.scheme()) && opt_str_eq(current.host_str(), w.host_str())
                && current.port_or_known_default() == w.port_or_known_default() && str_eq(
                current.path(),
                w.path(),
            ) && opt_str_eq(current.query(), w.query())
        },
        Err(_) => {
            let have = match current.query() {
                Some(q) => {
                    let mut h = owned(current.path());
                    push_char(&mut h, '?');
                    push_str(&mut h, q);
                    assert(h@ =~= path_and_query(current@));
                    h
                },
                None => owned(current.path()),
            };
            str_eq(have.as_str(), wanted)
        },
    }
}

/// The file `I attach the file` sends: an absolute path as it is, a
/// relative one under the workspace directory.
pub fn resolve_file(workspace_dir: &str, path: &str) -> (r: String)
    ensures
        r@ == path_join(workspace_dir@, path@),
{
    crate::config::join_path(workspace_dir, path)
}

/// Whether the step at `i` is an action: actions wait for their element,
/// assertions look once.
pub open spec fn is_action(i: u32) -> bool {
    i <= 14 || (26 <= i && i <= 28)
}

pub open spec fn is_assertion(i: u32) -> bool {
    (15 <= i && i <= 25) || (29 <= i && i <= 31)
}

/// How a failed step answers.
#[derive(Debug, Clone, Copy, PartialEq, Eq, Structural)]
pub enum Status {
    /// The condition is not met yet; only an assertion answers this.
    NotYet,
    /// The observation itself failed; retrying cannot help.
    Fatal,
}

/// The bytes or the text of an artifact.
pub enum Payload {
    Bytes(Vec<u8>),
    Text(String),
}

pub enum PayloadV {
    Bytes(Seq<u8>),
    Text(Seq<char>),
}

impl View for Payload {
    type V = PayloadV;

    open spec fn view(&self) -> PayloadV {
        match self {
            Payload::Bytes(b) => PayloadV::Bytes(b@),
            Payload::Text(t) => PayloadV::Text(t@),
        }
    }
}

/// What a dispatch asks of its caller, who answers with the event named.
pub enum Action {
    /// Send this command; answer `Reply`.
    Send(Command),
    /// Start the clock of an action's wait: its deadline is the instance's
    /// find timeout from now; answer `Ack`.
    StartWait,
    /// Past the deadline, answer `GaveUp`; else sleep 100 ms and answer `Ack`.
    Pause,
    /// Say whether this path names a file; answer `IsFile`.
    CheckFile(String),
    /// Write this artifact into the artifacts directory, creating the
    /// directory first; answer `Written` with the path or the error.
    Write { name: String, payload: Payload },
    /// Take a snapshot of the event buffers; answer `Buffers`.
    ReadBuffers,
    /// Hand over the driver's last exchange; answer `Exchange`.
    LastExchange,
    /// Print this debug line; answer `Ack`.
    Trace(String),
}

pub enum ActionV {
    Send(CommandV),
    StartWait,
    Pause,
    CheckFile(Seq<char>),
    Write { name: Seq<char>, payload: PayloadV },
    ReadBuffers,
    LastExchange,
    Trace(Seq<char>),
}

impl View for Action {
    type V = ActionV;

    open spec fn view(&self) -> ActionV {
        match self {
            Action::Send(c) => ActionV::Send(c@),
            Action::StartWait => ActionV::StartWait,
            Action::Pause => ActionV::Pause,
            Action::CheckFile(p) => ActionV::CheckFile(p@),
            Action::Write { name, payload } => ActionV::Write { name: name@, payload: payload@ },
            Action::ReadBuffers => ActionV::ReadBuffers,
            Action::LastExchange => ActionV::LastExchange,
            Action::Trace(t) => ActionV::Trace(t@),
        }
    }
}

/// A snapshot of the event buffers, or why there is none.
pub enum BufferRead {
    /// The session has no usable BiDi channel.
    Missing,
    /// The buffers' lock is poisoned.
    Poisoned,
    Ready(Buffers),
}

pub enum BufferReadV {
    Missing,
    Poisoned,
    Ready(BuffersV),
}

impl View for BufferRead {
    type V = BufferReadV;

    open spec fn view(&self) -> BufferReadV {
        match self {
            BufferRead::Missing => BufferReadV::Missing,
            BufferRead::Poisoned => BufferReadV::Poisoned,
            BufferRead::Ready(b) => BufferReadV::Ready(b@),
        }
    }
}

/// The caller's answer to an action.
pub enum Event {
    Reply(Result<Json, Error>),
    Ack,
    GaveUp,
    IsFile(bool),
    Written(Result<String, String>),
    Buffers(BufferRead),
    Exchange(Option<Exchange>),
}

pub enum EventV {
    Reply(Result<JsonV, ErrorV>),
    Ack,
    GaveUp,
    IsFile(bool),
    Written(Result<Seq<char>, Seq<char>>),
    Buffers(BufferReadV),
    Exchange(Option<ExchangeV>),
}

impl View for Event {
    type V = EventV;

    open spec fn view(&self) -> EventV {
        match self {
            Event::Reply(r) => EventV::Reply(json_res(*r)),
            Event::Ack => EventV::Ack,
            Event::GaveUp => EventV::GaveUp,
            Event::IsFile(b) => EventV::IsFile(*b),
            Event::Written(r) => EventV::Written(crate::config::str_res(*r)),
            Event::Buffers(b) => EventV::Buffers(b@),
            Event::Exchange(x) => EventV::Exchange(opt_exchange(*x)),
        }
    }
}

/// What comes next: an action to perform, or the reply of the dispatch.
pub enum Next {
    Do(Action),
    Done(String),
}

pub enum NextV {
    Do(ActionV),
    Done(Seq<char>),
}

impl View for Next {
    type V = NextV;

    open spec fn view(&self) -> NextV {
        match self {
            Next::Do(a) => NextV::Do(a@),
            Next::Done(t) => NextV::Done(t@),
        }
    }
}

/// What the reply to a sent command is for.
pub enum Expect {
    /// Anything but an error: the step passed.
    Done,
    /// The field is cleared: type the value into it.
    Cleared(Element),
    /// The option searched for under the select named here.
    Option(String),
    /// Whether the checkbox is ticked.
    Selected(Element),
    Script,
    Text,
    Attribute,
    Screenshot,
    CurrentUrl,
    Title,
    BodyText,
    /// The text of the element named here.
    ElementText(String),
    Displayed(String),
    FieldValue(String),
    Checked(String),
}

pub enum ExpectV {
    Done,
    Cleared(ElementV),
    Option(Seq<char>),
    Selected(ElementV),
    Script,
    Text,
    Attribute,
    Screenshot,
    CurrentUrl,
    Title,
    BodyText,
    ElementText(Seq<char>),
    Displayed(Seq<char>),
    FieldValue(Seq<char>),
    Checked(Seq<char>),
}

impl View for Expect {
    type V = ExpectV;

    open spec fn view(&self) -> ExpectV {
        match self {
            Expect::Done => ExpectV::Done,
            Expect::Cleared(e) => ExpectV::Cleared(e@),
            Expect::Option(w) => ExpectV::Option(w@),
            Expect::Selected(e) => ExpectV::Selected(e@),
            Expect::Script => ExpectV::Script,
            Expect::Text => ExpectV::Text,
            Expect::Attribute => ExpectV::Attribute,
            Expect::Screenshot => ExpectV::Screenshot,
            Expect::CurrentUrl => ExpectV::CurrentUrl,
            Expect::Title => ExpectV::Title,
            Expect::BodyText => ExpectV::BodyText,
            Expect::ElementText(w) => ExpectV::ElementText(w@),
            Expect::Displayed(w) => ExpectV::Displayed(w@),
            Expect::FieldValue(w) => ExpectV::FieldValue(w@),
            Expect::Checked(w) => ExpectV::Checked(w@),
        }
    }
}

/// Where the evidence of a failed step has got to.
pub enum Evidence {
    /// Waiting for the last exchange.
    Last,
    /// Waiting for the current URL.
    Url,
    /// Waiting for the title; the URL is known.
    Title(String),
    /// Waiting for the screenshot.
    Shot,
    /// Waiting for the screenshot's file.
    ShotWrite,
    /// Waiting for the buffers.
    Buffers,
}

pub enum EvidenceV {
    Last,
    Url,
    Title(Seq<char>),
    Shot,
    ShotWrite,
    Buffers,
}

impl View for Evidence {
    type V = EvidenceV;

    open spec fn view(&self) -> EvidenceV {
        match self {
            Evidence::Last => EvidenceV::Last,
            Evidence::Url => EvidenceV::Url,
            Evidence::Title(u) => EvidenceV::Title(u@),
            Evidence::Shot => EvidenceV::Shot,
            Evidence::ShotWrite => EvidenceV::ShotWrite,
            Evidence::Buffers => EvidenceV::Buffers,
        }
    }
}

/// Where a dispatch has got to.
pub enum Stage {
    /// Nothing asked yet.
    Begin,
    /// An action's wait is starting.
    StartingWait(Lookup),
    /// Strategy `k` of the lookup was tried.
    Finding(Lookup, usize),
    /// Every strategy missed; the wait decides whether to look again.
    Pausing(Lookup),
    Sent(Expect),
    /// Step `I attach the file`: is the path a file?
    CheckingFile,
    /// An artifact is being written; the text a debug trace shows with it.
    Writing(Option<String>),
    Tracing,
    ReadingBuffers,
    Evidence(Evidence),
    /// The reply has been given.
    Over,
}

pub enum StageV {
    Begin,
    StartingWait(LookupV),
    Finding(LookupV, int),
    Pausing(LookupV),
    Sent(ExpectV),
    CheckingFile,
    Writing(Option<Seq<char>>),
    Tracing,
    ReadingBuffers,
    Evidence(EvidenceV),
    Over,
}

impl View for Stage {
    type V = StageV;

    open spec fn view(&self) -> StageV {
        match self {
            Stage::Begin => StageV::Begin,
            Stage::StartingWait(l) => StageV::StartingWait(l@),
            Stage::Finding(l, k) => StageV::Finding(l@, *k as int),
            Stage::Pausing(l) => StageV::Pausing(l@),
            Stage::Sent(x) => StageV::Sent(x@),
            Stage::CheckingFile => StageV::CheckingFile,
            Stage::Writing(t) => StageV::Writing(opt_view(*t)),
            Stage::Tracing => StageV::Tracing,
            Stage::ReadingBuffers => StageV::ReadingBuffers,
            Stage::Evidence(e) => StageV::Evidence(e@),
            Stage::Over => StageV::Over,
        }
    }
}

/// One dispatch of a step on an instance, from the request to the reply.
pub struct Dispatch {
    index: u32,
    request: Request,
    base_url: Option<WebUrl>,
    timeout_secs: u64,
    on_failure: OnFailure,
    session: Session,
    stage: Stage,
    status: Status,
    error: String,
    diagnostics: Vec<Diagnostic>,
    last: Option<Exchange>,
}

pub struct DispatchV {
    pub index: u32,
    pub req: RequestV,
    pub base_url: Option<UrlV>,
    pub timeout_secs: u64,
    pub on_failure: OnFailure,
    pub session: Seq<char>,
    pub stage: StageV,
    pub status: Status,
    pub error: Seq<char>,
    pub diagnostics: Seq<DiagnosticV>,
    pub last: Option<ExchangeV>,
}

impl View for Dispatch {
    type V = DispatchV;

    closed spec fn view(&self) -> DispatchV {
        DispatchV {
            index: self.index,
            req: self.request@,
            base_url: opt_url(self.base_url),
            timeout_secs: self.timeout_secs,
            on_failure: self.on_failure,
            session: self.session.id@,
            stage: self.stage@,
            status: self.status,
            error: self.error@,
            diagnostics: diagnostics_view(self.diagnostics@),
            last: opt_exchange(self.last),
        }
    }
}

// ----- the dispatch, as mathematics -----

pub open spec fn arg0(m: DispatchV) -> Seq<char> {
    arg_at(m.req.args, 0)
}

pub open spec fn arg1(m: DispatchV) -> Seq<char> {
    arg_at(m.req.args, 1)
}

pub open spec fn arg2(m: DispatchV) -> Seq<char> {
    arg_at(m.req.args, 2)
}

pub open spec fn go(m: DispatchV, stage: StageV, a: ActionV) -> (DispatchV, NextV) {
    (DispatchV { stage, ..m }, NextV::Do(a))
}

pub open spec fn send(m: DispatchV, x: ExpectV, c: CommandV) -> (DispatchV, NextV) {
    go(m, StageV::Sent(x), ActionV::Send(c))
}

pub open spec fn passed_text() -> Seq<char> {
    json_text(object_of(seq![("status"@, JsonV::Str("passed"@))]))
}

pub open spec fn passed_with_text(k: Seq<char>, v: Seq<char>) -> Seq<char> {
    json_text(
        object_of(
            seq![("status"@, JsonV::Str("passed"@)), ("vars"@, object_of(seq![(k, JsonV::Str(v))]))],
        ),
    )
}

/// The step passed, publishing at most one variable.
pub open spec fn succeed(m: DispatchV, var: Option<(Seq<char>, Seq<char>)>) -> (DispatchV, NextV) {
    (
        DispatchV { stage: StageV::Over, ..m },
        NextV::Done(
            match var {
                None => passed_text(),
                Some((k, v)) => passed_with_text(k, v),
            },
        ),
    )
}

/// The step failed: the evidence starts with the last exchange, taken
/// before any evidence command replaces it.
pub open spec fn fail(m: DispatchV, status: Status, error: Seq<char>) -> (DispatchV, NextV) {
    (
        DispatchV {
            stage: StageV::Evidence(EvidenceV::Last),
            status,
            error,
            diagnostics: Seq::empty(),
            last: None,
            ..m
        },
        NextV::Do(ActionV::LastExchange),
    )
}

pub open spec fn find_command(sid: Seq<char>, using: Strategy, value: Seq<char>) -> CommandV {
    command(
        Method::Post,
        session_path(sid, "element"@),
        Some(object_of(seq![("using"@, JsonV::Str(using.wire_spec())), ("value"@, JsonV::Str(value))])),
    )
}

pub open spec fn element_find_command(e: ElementV, using: Strategy, value: Seq<char>) -> CommandV {
    command(
        Method::Post,
        element_path(e.session, e.id, "element"@),
        Some(object_of(seq![("using"@, JsonV::Str(using.wire_spec())), ("value"@, JsonV::Str(value))])),
    )
}

pub open spec fn element_post(e: ElementV, what: Seq<char>, body: JsonV) -> CommandV {
    command(Method::Post, element_path(e.session, e.id, what), Some(body))
}

pub open spec fn element_get(e: ElementV, what: Seq<char>) -> CommandV {
    command(Method::Get, element_path(e.session, e.id, what), None)
}

pub open spec fn session_get(sid: Seq<char>, tail: Seq<char>) -> CommandV {
    command(Method::Get, session_path(sid, tail), None)
}

pub open spec fn execute_command(sid: Seq<char>, script: Seq<char>) -> CommandV {
    command(
        Method::Post,
        session_path(sid, "execute/sync"@),
        Some(object_of(seq![("script"@, JsonV::Str(script)), ("args"@, JsonV::Array(Seq::empty()))])),
    )
}

pub open spec fn selector_lookup(raw: Seq<char>) -> LookupV {
    LookupV { what: "element "@ + debug_quoted(raw), strategies: seq![selector_strategy(raw)] }
}

pub open spec fn link_lookup(t: Seq<char>) -> LookupV {
    LookupV { what: "link "@ + debug_quoted(t), strategies: link_strategies(t) }
}

pub open spec fn button_lookup(t: Seq<char>) -> LookupV {
    LookupV { what: "button "@ + debug_quoted(t), strategies: button_strategies(t) }
}

pub open spec fn field_lookup(t: Seq<char>) -> LookupV {
    LookupV { what: "field "@ + debug_quoted(t), strategies: field_strategies(t) }
}

/// The page's `body`, one CSS look.
pub open spec fn body_lookup() -> LookupV {
    LookupV { what: "body"@, strategies: seq![(Strategy::Css, "body"@)] }
}

/// What the step at `index` looks for.
pub open spec fn lookup_spec(index: u32, args: Seq<Seq<char>>) -> LookupV {
    let a0 = arg_at(args, 0);
    let a1 = arg_at(args, 1);
    if index == 2 {
        link_lookup(a0)
    } else if index == 3 {
        button_lookup(a0)
    } else if index == 4 || index == 12 || (19 <= index && index <= 22) {
        selector_lookup(a0)
    } else if index == 13 {
        selector_lookup(a1)
    } else if index == 6 || index == 9 {
        field_lookup(a1)
    } else if index == 17 || index == 18 {
        body_lookup()
    } else {
        field_lookup(a0)
    }
}

pub open spec fn unknown_index(index: u32) -> Seq<char> {
    "unknown step index "@ + decimal(index as nat)
}

/// The message for a session without BiDi.
pub open spec fn no_bidi() -> Seq<char> {
    "the session has no usable BiDi channel (the driver returned no webSocketUrl, or advertised one at wss://, which this version cannot connect to); the console and network steps need Chrome/Edge 116+, Firefox 129+, or a Grid that passes BiDi through over ws://"@
}

pub open spec fn attach_path(m: DispatchV) -> Seq<char> {
    path_join(m.req.workspace_dir, arg0(m))
}

/// The first action of a step.
pub open spec fn begin(m: DispatchV) -> (DispatchV, NextV) {
    let i = m.index;
    let sid = m.session;
    if i == 0 {
        match resolve_url_spec(m.base_url, arg0(m)) {
            Err(e) => fail(m, Status::Fatal, e),
            Ok(u) => send(
                m,
                ExpectV::Done,
                command(
                    Method::Post,
                    session_path(sid, "url"@),
                    Some(object_of(seq![("url"@, JsonV::Str(u.href))])),
                ),
            ),
        }
    } else if i == 1 {
        send(m, ExpectV::Done, command(Method::Post, session_path(sid, "refresh"@), Some(object_of(Seq::empty()))))
    } else if i == 9 {
        go(m, StageV::CheckingFile, ActionV::CheckFile(attach_path(m)))
    } else if i == 10 {
        send(m, ExpectV::Script, execute_command(sid, arg0(m)))
    } else if i == 11 {
        match m.req.docstring {
            None => fail(m, Status::Fatal, "`I execute the script:` needs a doc string"@),
            Some(d) => send(m, ExpectV::Script, execute_command(sid, d)),
        }
    } else if i == 14 {
        send(m, ExpectV::Screenshot, session_get(sid, "screenshot"@))
    } else if i == 15 {
        send(m, ExpectV::CurrentUrl, session_get(sid, "url"@))
    } else if i == 16 {
        send(m, ExpectV::Title, session_get(sid, "title"@))
    } else if 26 <= i && i <= 31 {
        go(m, StageV::ReadingBuffers, ActionV::ReadBuffers)
    } else if i <= 25 {
        begin_find(m)
    } else {
        fail(m, Status::Fatal, unknown_index(i))
    }
}

/// An action starts its wait's clock; an assertion looks at once.
pub open spec fn begin_find(m: DispatchV) -> (DispatchV, NextV) {
    let l = lookup_spec(m.index, m.req.args);
    if is_action(m.index) {
        go(m, StageV::StartingWait(l), ActionV::StartWait)
    } else {
        find_from(m, l, 0)
    }
}

/// Try strategy `k` of the lookup, or, past the last one, miss.
pub open spec fn find_from(m: DispatchV, l: LookupV, k: int) -> (DispatchV, NextV) {
    if 0 <= k < l.strategies.len() {
        go(
            m,
            StageV::Finding(l, k),
            ActionV::Send(find_command(m.session, l.strategies[k].0, l.strategies[k].1)),
        )
    } else if is_action(m.index) {
        go(m, StageV::Pausing(l), ActionV::Pause)
    } else {
        found(m, l, None)
    }
}

/// What a step does with the element its lookup found, or with none.
pub open spec fn found(m: DispatchV, l: LookupV, el: Option<ElementV>) -> (DispatchV, NextV) {
    let i = m.index;
    match el {
        None => if is_action(i) {
            fail(
                m,
                Status::Fatal,
                "no "@ + l.what + " found within "@ + decimal(m.timeout_secs as nat) + "s"@,
            )
        } else if i == 17 || i == 18 {
            fail(m, Status::Fatal, "the page has no body element"@)
        } else if i == 21 || i == 22 {
            visible_verdict(m, l.what, false)
        } else {
            fail(m, Status::NotYet, "no "@ + l.what + " on the page"@)
        },
        Some(e) => if i == 2 || i == 3 || i == 4 {
            send(m, ExpectV::Done, element_post(e, "click"@, object_of(Seq::empty())))
        } else if i == 5 {
            send(m, ExpectV::Cleared(e), element_post(e, "clear"@, object_of(Seq::empty())))
        } else if i == 6 {
            send(
                m,
                ExpectV::Option(l.what),
                element_find_command(e, Strategy::XPath, option_xpath_spec(xpath_literal_spec(arg0(m)))),
            )
        } else if i == 7 || i == 8 {
            send(m, ExpectV::Selected(e), element_get(e, "selected"@))
        } else if i == 9 {
            send(
                m,
                ExpectV::Done,
                element_post(e, "value"@, object_of(seq![("text"@, JsonV::Str(attach_path(m)))])),
            )
        } else if i == 12 || i == 17 || i == 18 {
            send(m, if i == 12 { ExpectV::Text } else { ExpectV::BodyText }, element_get(e, "text"@))
        } else if i == 13 {
            send(m, ExpectV::Attribute, element_get(e, "attribute/"@ + arg0(m)))
        } else if i == 19 || i == 20 {
            send(m, ExpectV::ElementText(l.what), element_get(e, "text"@))
        } else if i == 21 || i == 22 {
            send(m, ExpectV::Displayed(l.what), element_get(e, "displayed"@))
        } else if i == 23 {
            send(m, ExpectV::FieldValue(l.what), element_get(e, "property/"@ + "value"@))
        } else if i == 24 || i == 25 {
            send(m, ExpectV::Checked(l.what), element_get(e, "selected"@))
        } else {
            fail(m, Status::Fatal, unknown_index(i))
        },
    }
}

pub open spec fn bool_of(v: JsonV) -> bool {
    match v.as_bool() {
        Some(b) => b,
        None => false,
    }
}

pub open spec fn visible_verdict(m: DispatchV, what: Seq<char>, visible: bool) -> (DispatchV, NextV) {
    if visible == (m.index == 21) {
        succeed(m, None)
    } else {
        fail(
            m,
            Status::NotYet,
            what + " is "@ + if visible {
                "visible"@
            } else {
                "not visible"@
            },
        )
    }
}

pub open spec fn contain_verb(positive: bool) -> Seq<char> {
    if positive {
        "does not contain"@
    } else {
        "contains"@
    }
}

/// What a step does with the value a command answered.
pub open spec fn replied(m: DispatchV, x: ExpectV, v: JsonV) -> (DispatchV, NextV) {
    let i = m.index;
    match x {
        ExpectV::Done => succeed(m, None),
        ExpectV::Cleared(e) => send(
            m,
            ExpectV::Done,
            element_post(e, "value"@, object_of(seq![("text"@, JsonV::Str(arg1(m)))])),
        ),
        ExpectV::Option(what) => match element_id_spec(v) {
            Err(err) => fail(m, Status::Fatal, error_text(err)),
            Ok(id) => send(
                m,
                ExpectV::Done,
                element_post(ElementV { session: m.session, id }, "click"@, object_of(Seq::empty())),
            ),
        },
        ExpectV::Selected(e) => if bool_of(v) != (i == 7) {
            send(m, ExpectV::Done, element_post(e, "click"@, object_of(Seq::empty())))
        } else {
            succeed(m, None)
        },
        ExpectV::Script => succeed(m, Some(("script_result"@, scalar_text_spec(v)))),
        ExpectV::Text => succeed(m, Some((arg1(m), crate::text::trim(v.str_or_empty())))),
        ExpectV::Attribute => match v.as_str() {
            None => fail(m, Status::Fatal, "the element has no attribute "@ + debug_quoted(arg0(m))),
            Some(s) => succeed(m, Some((arg2(m), s))),
        },
        ExpectV::Screenshot => match screenshot_spec(v) {
            Err(err) => fail(m, Status::Fatal, error_text(err)),
            Ok(bytes) => go(
                m,
                StageV::Writing(None),
                ActionV::Write { name: "screenshot.png"@, payload: PayloadV::Bytes(bytes) },
            ),
        },
        ExpectV::CurrentUrl => {
            let raw = v.str_or_empty();
            match whatwg_parse(raw) {
                Err(e) => fail(
                    m,
                    Status::Fatal,
                    "the browser reports a URL that does not parse, "@ + debug_quoted(raw) + ": "@ + e,
                ),
                Ok(cur) => if same_location_spec(cur, arg0(m)) {
                    succeed(m, None)
                } else {
                    fail(
                        m,
                        Status::NotYet,
                        "the browser is on "@ + raw + ", expected "@ + debug_quoted(arg0(m)),
                    )
                },
            }
        },
        ExpectV::Title => {
            let t = v.str_or_empty();
            if t == arg0(m) {
                succeed(m, None)
            } else {
                fail(
                    m,
                    Status::NotYet,
                    "the title is "@ + debug_quoted(t) + ", expected "@ + debug_quoted(arg0(m)),
                )
            }
        },
        ExpectV::BodyText => {
            let wanted = collapse_ws(arg0(m));
            if contains_seq(collapse_ws(v.str_or_empty()), wanted) == (i == 17) {
                succeed(m, None)
            } else {
                fail(
                    m,
                    Status::NotYet,
                    "the page "@ + contain_verb(i == 17) + " "@ + debug_quoted(wanted),
                )
            }
        },
        ExpectV::ElementText(what) => {
            let text = collapse_ws(v.str_or_empty());
            let wanted = collapse_ws(arg1(m));
            if contains_seq(text, wanted) == (i == 19) {
                succeed(m, None)
            } else {
                fail(
                    m,
                    Status::NotYet,
                    what + " "@ + contain_verb(i == 19) + " "@ + debug_quoted(wanted) + ": its text is "@
                        + debug_quoted(text),
                )
            }
        },
        ExpectV::Displayed(what) => visible_verdict(m, what, bool_of(v)),
        ExpectV::FieldValue(what) => {
            let value = scalar_text_spec(v);
            if value == arg1(m) {
                succeed(m, None)
            } else {
                fail(
                    m,
                    Status::NotYet,
                    what + " holds "@ + debug_quoted(value) + ", expected "@ + debug_quoted(arg1(m)),
                )
            }
        },
        ExpectV::Checked(what) => {
            let checked = bool_of(v);
            if checked == (i == 24) {
                succeed(m, None)
            } else {
                fail(
                    m,
                    Status::NotYet,
                    what + " is "@ + if checked {
                        "checked"@
                    } else {
                        "unchecked"@
                    },
                )
            }
        },
    }
}

/// The name of the dump a step writes.
pub open spec fn dump_name(i: u32) -> Seq<char> {
    if i == 26 {
        "console.json"@
    } else {
        "network.json"@
    }
}

/// After an artifact is written: trace it when debugging, then pass.
pub open spec fn after_write(m: DispatchV, shown: Option<Seq<char>>, path: Seq<char>) -> (DispatchV, NextV) {
    if m.req.debug {
        let line = match shown {
            None => "[browser] screenshot: "@ + path,
            Some(t) => "[browser] "@ + dump_name(m.index) + ": "@ + path + seq!['\n'] + t,
        };
        go(m, StageV::Tracing, ActionV::Trace(line))
    } else {
        succeed(m, None)
    }
}

pub open spec fn console_value(b: BuffersV) -> JsonV {
    JsonV::Array(b.console.map_values(|e: ConsoleEntryV| crate::bidi::console_entry_json(e)))
}

pub open spec fn network_value(b: BuffersV) -> JsonV {
    JsonV::Array(b.network.map_values(|e: NetworkEntryV| crate::bidi::network_entry_json(e)))
}

pub open spec fn error_line(e: ConsoleEntryV) -> Seq<char> {
    seq!['['] + e.source + "] "@ + e.text
}

/// What the console and network steps make of the buffers.
pub open spec fn with_buffers(m: DispatchV, b: BuffersV) -> (DispatchV, NextV) {
    let i = m.index;
    if i == 26 || i == 27 {
        let shown = json_pretty(if i == 26 { console_value(b) } else { network_value(b) });
        go(
            m,
            StageV::Writing(Some(shown)),
            ActionV::Write { name: dump_name(i), payload: PayloadV::Text(shown) },
        )
    } else if i == 28 {
        match last_to_spec(b.network, arg0(m)) {
            Some(k) if b.network[k].status is Some => succeed(
                m,
                Some((arg1(m), decimal(b.network[k].status->0 as nat))),
            ),
            _ => fail(
                m,
                Status::Fatal,
                "no completed request to "@ + debug_quoted(arg0(m)) + " in this scenario"@,
            ),
        }
    } else if i == 29 {
        let errs = errors_spec(b.console);
        if errs.len() == 0 {
            succeed(m, None)
        } else {
            fail(
                m,
                Status::Fatal,
                decimal(errs.len()) + " error(s) in the browser console:\n"@ + crate::text::join(
                    errs.map_values(|e: ConsoleEntryV| error_line(e)),
                    "\n"@,
                ),
            )
        }
    } else if i == 30 {
        if exists|k: int|
            0 <= k < b.network.len() && #[trigger] b.network[k].method == arg0(m) && path_starts_spec(
                b.network[k].url,
                arg1(m),
            ) {
            succeed(m, None)
        } else {
            fail(
                m,
                Status::NotYet,
                "no "@ + arg0(m) + " request to "@ + debug_quoted(arg1(m)) + " yet"@,
            )
        }
    } else if i == 31 {
        match last_to_spec(b.network, arg0(m)) {
            None => fail(m, Status::NotYet, "no request to "@ + debug_quoted(arg0(m)) + " yet"@),
            Some(k) => {
                let e = b.network[k];
                match e.status {
                    None => fail(
                        m,
                        Status::NotYet,
                        "the "@ + e.method + " request to "@ + debug_quoted(arg0(m))
                            + " has no response yet"@,
                    ),
                    Some(s) => if decimal(s as nat) != arg1(m) {
                        fail(
                            m,
                            Status::NotYet,
                            "the last "@ + e.method + " request to "@ + debug_quoted(arg0(m))
                                + " answered "@ + decimal(s as nat) + ", expected "@ + arg1(m),
                        )
                    } else {
                        succeed(m, None)
                    },
                }
            },
        }
    } else {
        fail(m, Status::Fatal, unknown_index(i))
    }
}

/// A reply's text, or what stood in its way.
pub open spec fn text_or_unavailable(r: Result<JsonV, ErrorV>) -> Seq<char> {
    match r {
        Ok(v) => v.str_or_empty(),
        Err(e) => "(unavailable: "@ + error_text(e) + ")"@,
    }
}

pub open spec fn text_diag(title: Seq<char>, content: Seq<char>) -> DiagnosticV {
    DiagnosticV { title, kind: "text"@, content: Some(content), path: None }
}

pub open spec fn push_diag(m: DispatchV, d: DiagnosticV) -> DispatchV {
    DispatchV { diagnostics: m.diagnostics.push(d), ..m }
}

/// After the page's URL and title: the screenshot when asked for.
pub open spec fn after_page(m: DispatchV) -> (DispatchV, NextV) {
    if m.on_failure.screenshot {
        go(m, StageV::Evidence(EvidenceV::Shot), ActionV::Send(session_get(m.session, "screenshot"@)))
    } else {
        after_shot(m)
    }
}

/// After the screenshot: the buffers when the console or the network is
/// asked for.
pub open spec fn after_shot(m: DispatchV) -> (DispatchV, NextV) {
    if m.on_failure.console || m.on_failure.network {
        go(m, StageV::Evidence(EvidenceV::Buffers), ActionV::ReadBuffers)
    } else {
        finish(m)
    }
}

pub open spec fn json_diag(title: Seq<char>, value: JsonV) -> DiagnosticV {
    DiagnosticV { title, kind: "json"@, content: Some(json_pretty(value)), path: None }
}

/// The reply of a failed step: its status, its error, and the evidence with
/// the last exchange at the end.
pub open spec fn finish(m: DispatchV) -> (DispatchV, NextV) {
    let ds = match m.last {
        Some(x) => m.diagnostics.push(
            DiagnosticV {
                title: "WebDriver"@,
                kind: "http"@,
                content: Some(crate::webdriver::render_exchange(x)),
                path: None,
            },
        ),
        None => m.diagnostics,
    };
    (
        DispatchV { stage: StageV::Over, diagnostics: ds, ..m },
        NextV::Done(
            crate::reply::failure_reply(
                match m.status {
                    Status::NotYet => "not_yet"@,
                    Status::Fatal => "fatal"@,
                },
                m.error,
                ds,
            ),
        ),
    )
}

/// One step of the evidence of a failed step.
pub open spec fn evidence_step(m: DispatchV, ev: EvidenceV, e: EventV) -> (DispatchV, NextV) {
    match ev {
        EvidenceV::Last => match e {
            EventV::Exchange(x) => go(
                DispatchV { last: x, ..m },
                StageV::Evidence(EvidenceV::Url),
                ActionV::Send(session_get(m.session, "url"@)),
            ),
            _ => (m, NextV::Done(Seq::empty())),
        },
        EvidenceV::Url => match e {
            EventV::Reply(r) => go(
                m,
                StageV::Evidence(EvidenceV::Title(text_or_unavailable(r))),
                ActionV::Send(session_get(m.session, "title"@)),
            ),
            _ => (m, NextV::Done(Seq::empty())),
        },
        EvidenceV::Title(url) => match e {
            EventV::Reply(r) => after_page(
                push_diag(m, text_diag("Page"@, url + seq!['\n'] + text_or_unavailable(r))),
            ),
            _ => (m, NextV::Done(Seq::empty())),
        },
        EvidenceV::Shot => match e {
            EventV::Reply(Err(x)) => after_shot(
                push_diag(m, text_diag("Screenshot"@, "not taken: "@ + error_text(x))),
            ),
            EventV::Reply(Ok(v)) => match screenshot_spec(v) {
                Err(x) => after_shot(
                    push_diag(m, text_diag("Screenshot"@, "not taken: "@ + error_text(x))),
                ),
                Ok(bytes) => go(
                    m,
                    StageV::Evidence(EvidenceV::ShotWrite),
                    ActionV::Write { name: "screenshot.png"@, payload: PayloadV::Bytes(bytes) },
                ),
            },
            _ => (m, NextV::Done(Seq::empty())),
        },
        EvidenceV::ShotWrite => match e {
            EventV::Written(Ok(p)) => after_shot(
                push_diag(
                    m,
                    DiagnosticV { title: "Screenshot"@, kind: "image"@, content: None, path: Some(p) },
                ),
            ),
            EventV::Written(Err(msg)) => after_shot(
                push_diag(m, text_diag("Screenshot"@, "not taken: "@ + msg)),
            ),
            _ => (m, NextV::Done(Seq::empty())),
        },
        EvidenceV::Buffers => match e {
            EventV::Buffers(BufferReadV::Ready(b)) => {
                let m1 = if m.on_failure.console {
                    push_diag(m, json_diag("Console"@, console_value(b)))
                } else {
                    m
                };
                let m2 = if m.on_failure.network {
                    push_diag(m1, json_diag("Network"@, network_value(b)))
                } else {
                    m1
                };
                finish(m2)
            },
            EventV::Buffers(_) => finish(m),
            _ => (m, NextV::Done(Seq::empty())),
        },
    }
}

/// Whether `e` answers the action a dispatch in `stage` asked for.
pub open spec fn answers(stage: StageV, e: EventV) -> bool {
    match stage {
        StageV::StartingWait(_) => e is Ack,
        StageV::Finding(..) => e is Reply,
        StageV::Pausing(_) => e is Ack || e is GaveUp,
        StageV::Sent(_) => e is Reply,
        StageV::CheckingFile => e is IsFile,
        StageV::Writing(_) => e is Written,
        StageV::Tracing => e is Ack,
        StageV::ReadingBuffers => e is Buffers,
        StageV::Evidence(EvidenceV::Last) => e is Exchange,
        StageV::Evidence(EvidenceV::Url) => e is Reply,
        StageV::Evidence(EvidenceV::Title(_)) => e is Reply,
        StageV::Evidence(EvidenceV::Shot) => e is Reply,
        StageV::Evidence(EvidenceV::ShotWrite) => e is Written,
        StageV::Evidence(EvidenceV::Buffers) => e is Buffers,
        StageV::Begin => false,
        StageV::Over => false,
    }
}

/// The dispatch's answer to an event: the stage it was in decides, and
/// the dispatch leaves that stage before anything else.
pub open spec fn advance_spec(m: DispatchV, e: EventV) -> (DispatchV, NextV) {
    on_stage(m.stage, DispatchV { stage: StageV::Over, ..m }, e)
}

/// What a dispatch that was in `st` does with `e`.
pub open spec fn on_stage(st: StageV, m: DispatchV, e: EventV) -> (DispatchV, NextV) {
    match st {
        StageV::StartingWait(l) => find_from(m, l, 0),
        StageV::Finding(l, k) => match e {
            EventV::Reply(r) => match found_spec(r, no_such(r)) {
                Err(x) => fail(m, Status::Fatal, error_text(x)),
                Ok(Some(id)) => found(m, l, Some(ElementV { session: m.session, id })),
                Ok(None) => find_from(m, l, k + 1),
            },
            _ => (m, NextV::Done(Seq::empty())),
        },
        StageV::Pausing(l) => match e {
            EventV::GaveUp => found(m, l, None),
            _ => find_from(m, l, 0),
        },
        StageV::Sent(x) => match e {
            EventV::Reply(r) => match x {
                ExpectV::Option(what) => match found_spec(r, no_such(r)) {
                    Err(err) => fail(m, Status::Fatal, error_text(err)),
                    Ok(None) => fail(
                        m,
                        Status::Fatal,
                        "no option "@ + debug_quoted(arg0(m)) + " in "@ + what,
                    ),
                    Ok(Some(id)) => send(
                        m,
                        ExpectV::Done,
                        element_post(ElementV { session: m.session, id }, "click"@, object_of(Seq::empty())),
                    ),
                },
                _ => match r {
                    Err(err) => fail(m, Status::Fatal, error_text(err)),
                    Ok(v) => replied(m, x, v),
                },
            },
            _ => (m, NextV::Done(Seq::empty())),
        },
        StageV::CheckingFile => match e {
            EventV::IsFile(true) => begin_find(m),
            _ => fail(m, Status::Fatal, attach_path(m) + " is not a file"@),
        },
        StageV::Writing(shown) => match e {
            EventV::Written(Ok(p)) => after_write(m, shown, p),
            EventV::Written(Err(msg)) => fail(m, Status::Fatal, msg),
            _ => (m, NextV::Done(Seq::empty())),
        },
        StageV::Tracing => succeed(m, None),
        StageV::ReadingBuffers => match e {
            EventV::Buffers(BufferReadV::Ready(b)) => with_buffers(m, b),
            EventV::Buffers(BufferReadV::Poisoned) => fail(m, Status::Fatal, "the BiDi buffers are poisoned"@),
            _ => fail(m, Status::Fatal, no_bidi()),
        },
        StageV::Evidence(ev) => evidence_step(m, ev, e),
        _ => (m, NextV::Done(Seq::empty())),
    }
}

/// How a dispatch starts: a request carrying `<<null>>` is refused before
/// anything is sent; any other starts its step.
pub open spec fn start_spec(index: u32, req: RequestV, c: ConfigV, sid: Seq<char>) -> (DispatchV, NextV) {
    let m = DispatchV {
        index,
        req,
        base_url: c.base_url,
        timeout_secs: c.find_timeout_secs,
        on_failure: c.on_failure,
        session: sid,
        stage: StageV::Begin,
        status: Status::Fatal,
        error: Seq::empty(),
        diagnostics: Seq::empty(),
        last: None,
    };
    if carries_null(req) {
        (
            DispatchV { stage: StageV::Over, ..m },
            NextV::Done(
                crate::reply::failure_reply(
                    "fatal"@,
                    "<<null>> has no meaning in a browser"@,
                    Seq::empty(),
                ),
            ),
        )
    } else {
        begin(m)
    }
}

// ----- the dispatch, as code -----

pub open spec fn opt_element(e: Option<Element>) -> Option<ElementV> {
    match e {
        Some(x) => Some(x@),
        None => None,
    }
}

pub open spec fn opt_pair(v: Option<(String, String)>) -> Option<(Seq<char>, Seq<char>)> {
    match v {
        Some((k, x)) => Some((k@, x@)),
        None => None,
    }
}

pub fn is_action_step(i: u32) -> (r: bool)
    ensures
        r == is_action(i),
{
    i <= 14 || (26 <= i && i <= 28)
}

fn body_lookup_exec() -> (r: Lookup)
    ensures
        r@ == body_lookup(),
{
    let mut strategies: Vec<(Strategy, String)> = Vec::new();
    strategies.push((Strategy::Css, owned("body")));
    let r = Lookup { what: owned("body"), strategies };
    assert(r@.strategies =~= seq![(Strategy::Css, "body"@)]);
    r
}

fn diag_push(ds: &mut Vec<Diagnostic>, d: Diagnostic)
    ensures
        diagnostics_view(final(ds)@) == diagnostics_view(old(ds)@).push(d@),
{
    let ghost prev = ds@;
    let ghost dv = d@;
    ds.push(d);
    assert(diagnostics_view(ds@) =~= diagnostics_view(prev).push(dv));
}

fn text_or_unavailable_exec(r: &Result<Json, Error>) -> (t: String)
    ensures
        t@ == text_or_unavailable(json_res(*r)),
{
    match r {
        Ok(v) => crate::webdriver::text_reply(v),
        Err(e) => {
            let mut m = owned("(unavailable: ");
            let x = e.to_string();
            push_str(&mut m, x.as_str());
            push_char(&mut m, ')');
            assert(m@ =~= "(unavailable: "@ + error_text(e@) + ")"@) by {
                reveal_strlit(")");
            }
            m
        },
    }
}

impl Dispatch {
    fn arg(&self, n: usize) -> (r: String)
        ensures
            r@ == arg_at(self@.req.args, n as int),
    {
        if n < self.request.args.len() {
            self.request.args[n].clone()
        } else {
            String::new()
        }
    }

    fn attach_path_exec(&self) -> (r: String)
        ensures
            r@ == attach_path(self@),
    {
        let a0 = self.arg(0);
        resolve_file(self.request.ctx.workspace_dir.as_str(), a0.as_str())
    }

    fn lookup_for(&self) -> (r: Lookup)
        ensures
            r@ == lookup_spec(self@.index, self@.req.args),
    {
        let i = self.index;
        let a0 = self.arg(0);
        let a1 = self.arg(1);
        if i == 2 {
            crate::find::link(a0.as_str())
        } else if i == 3 {
            crate::find::button(a0.as_str())
        } else if i == 4 || i == 12 || (19 <= i && i <= 22) {
            crate::find::selector(a0.as_str())
        } else if i == 13 {
            crate::find::selector(a1.as_str())
        } else if i == 6 || i == 9 {
            crate::find::field(a1.as_str())
        } else if i == 17 || i == 18 {
            body_lookup_exec()
        } else {
            crate::find::field(a0.as_str())
        }
    }

    fn go(&mut self, stage: Stage, a: Action) -> (r: Next)
        ensures
            (final(self)@, r@) == go(old(self)@, stage@, a@),
    {
        self.stage = stage;
        Next::Do(a)
    }

    fn send(&mut self, x: Expect, c: Command) -> (r: Next)
        ensures
            (final(self)@, r@) == send(old(self)@, x@, c@),
    {
        self.go(Stage::Sent(x), Action::Send(c))
    }

    fn succeed(&mut self, var: Option<(String, String)>) -> (r: Next)
        ensures
            (final(self)@, r@) == succeed(old(self)@, opt_pair(var)),
    {
        self.stage = Stage::Over;
        match var {
            None => Next::Done(crate::reply::passed()),
            Some((k, v)) => Next::Done(
                crate::reply::passed_with(crate::json::object1(k.as_str(), Json::Str(v))),
            ),
        }
    }

    fn fail(&mut self, status: Status, error: String) -> (r: Next)
        ensures
            (final(self)@, r@) == fail(old(self)@, status, error@),
    {
        self.stage = Stage::Evidence(Evidence::Last);
        self.status = status;
        self.error = error;
        self.diagnostics = Vec::new();
        self.last = None;
        assert(diagnostics_view(self.diagnostics@) =~= Seq::<DiagnosticV>::empty());
        Next::Do(Action::LastExchange)
    }

    fn begin(&mut self) -> (r: Next)
        ensures
            (final(self)@, r@) == begin(old(self)@),
    {
        let i = self.index;
        if i == 0 {
            let a0 = self.arg(0);
            match resolve_url(&self.base_url, a0.as_str()) {
                Err(e) => self.fail(Status::Fatal, e),
                Ok(u) => {
                    let c = self.session.navigate(u.as_str());
                    self.send(Expect::Done, c)
                },
            }
        } else if i == 1 {
            let c = self.session.refresh();
            self.send(Expect::Done, c)
        } else if i == 9 {
            let p = self.attach_path_exec();
            self.go(Stage::CheckingFile, Action::CheckFile(p))
        } else if i == 10 {
            let a0 = self.arg(0);
            let c = self.session.execute(a0.as_str(), Vec::new());
            assert(json_views(Seq::<Json>::empty()) =~= Seq::<JsonV>::empty());
            self.send(Expect::Script, c)
        } else if i == 11 {
            match &self.request.docstring {
                None => self.fail(Status::Fatal, owned("`I execute the script:` needs a doc string")),
                Some(d) => {
                    let c = self.session.execute(d.as_str(), Vec::new());
                    assert(json_views(Seq::<Json>::empty()) =~= Seq::<JsonV>::empty());
                    self.send(Expect::Script, c)
                },
            }
        } else if i == 14 {
            let c = self.session.screenshot();
            self.send(Expect::Screenshot, c)
        } else if i == 15 {
            let c = self.session.current_url();
            self.send(Expect::CurrentUrl, c)
        } else if i == 16 {
            let c = self.session.title();
            self.send(Expect::Title, c)
        } else if 26 <= i && i <= 31 {
            self.go(Stage::ReadingBuffers, Action::ReadBuffers)
        } else if i <= 25 {
            self.begin_find()
        } else {
            let mut m = owned("unknown step index ");
            crate::text::push_decimal(&mut m, i as u64);
            self.fail(Status::Fatal, m)
        }
    }

    fn begin_find(&mut self) -> (r: Next)
        ensures
            (final(self)@, r@) == begin_find(old(self)@),
    {
        let l = self.lookup_for();
        if is_action_step(self.index) {
            self.go(Stage::StartingWait(l), Action::StartWait)
        } else {
            self.find_from(l, 0)
        }
    }

    fn find_from(&mut self, l: Lookup, k: usize) -> (r: Next)
        ensures
            (final(self)@, r@) == find_from(old(self)@, l@, k as int),
    {
        if k < l.strategies.len() {
            let c = self.session.find(l.strategies[k].0, l.strategies[k].1.as_str());
            self.go(Stage::Finding(l, k), Action::Send(c))
        } else if is_action_step(self.index) {
            self.go(Stage::Pausing(l), Action::Pause)
        } else {
            self.found(l, None)
        }
    }

    fn visible_verdict(&mut self, what: &str, visible: bool) -> (r: Next)
        ensures
            (final(self)@, r@) == visible_verdict(old(self)@, what@, visible),
    {
        if visible == (self.index == 21) {
            self.succeed(None)
        } else {
            let mut m = owned(what);
            push_str(&mut m, " is ");
            push_str(&mut m, if visible { "visible" } else { "not visible" });
            self.fail(Status::NotYet, m)
        }
    }

    fn found(&mut self, l: Lookup, el: Option<Element>) -> (r: Next)
        ensures
            (final(self)@, r@) == found(old(self)@, l@, opt_element(el)),
    {
        let i = self.index;
        match el {
            None => if is_action_step(i) {
                let mut m = owned("no ");
                push_str(&mut m, l.what.as_str());
                push_str(&mut m, " found within ");
                crate::text::push_decimal(&mut m, self.timeout_secs);
                push_str(&mut m, "s");
                self.fail(Status::Fatal, m)
            } else if i == 17 || i == 18 {
                self.fail(Status::Fatal, owned("the page has no body element"))
            } else if i == 21 || i == 22 {
                self.visible_verdict(l.what.as_str(), false)
            } else {
                let mut m = owned("no ");
                push_str(&mut m, l.what.as_str());
                push_str(&mut m, " on the page");
                self.fail(Status::NotYet, m)
            },
            Some(e) => if i == 2 || i == 3 || i == 4 {
                let c = e.click();
                self.send(Expect::Done, c)
            } else if i == 5 {
                let c = e.clear();
                self.send(Expect::Cleared(e), c)
            } else if i == 6 {
                let a0 = self.arg(0);
                let x = crate::find::option_xpath(a0.as_str());
                let c = e.find(Strategy::XPath, x.as_str());
                self.send(Expect::Option(l.what), c)
            } else if i == 7 || i == 8 {
                let c = e.selected();
                self.send(Expect::Selected(e), c)
            } else if i == 9 {
                let p = self.attach_path_exec();
                let c = e.send_keys(p.as_str());
                self.send(Expect::Done, c)
            } else if i == 12 || i == 17 || i == 18 {
                let c = e.text();
                self.send(if i == 12 { Expect::Text } else { Expect::BodyText }, c)
            } else if i == 13 {
                let a0 = self.arg(0);
                let c = e.attribute(a0.as_str());
                self.send(Expect::Attribute, c)
            } else if i == 19 || i == 20 {
                let c = e.text();
                self.send(Expect::ElementText(l.what), c)
            } else if i == 21 || i == 22 {
                let c = e.displayed();
                self.send(Expect::Displayed(l.what), c)
            } else if i == 23 {
                let c = e.property("value");
                self.send(Expect::FieldValue(l.what), c)
            } else if i == 24 || i == 25 {
                let c = e.selected();
                self.send(Expect::Checked(l.what), c)
            } else {
                let mut m = owned("unknown step index ");
                crate::text::push_decimal(&mut m, i as u64);
                self.fail(Status::Fatal, m)
            },
        }
    }
}

fn verb(positive: bool) -> (r: &'static str)
    ensures
        r@ == contain_verb(positive),
{
    if positive {
        "does not contain"
    } else {
        "contains"
    }
}

impl Dispatch {
    fn replied(&mut self, x: Expect, v: Json) -> (r: Next)
        ensures
            (final(self)@, r@) == replied(old(self)@, x@, v@),
    {
        let i = self.index;
        match x {
            Expect::Done => self.succeed(None),
            Expect::Cleared(e) => {
                let a1 = self.arg(1);
                let c = e.send_keys(a1.as_str());
                self.send(Expect::Done, c)
            },
            Expect::Option(_) => match crate::webdriver::element_id(&v) {
                Err(err) => {
                    let t = err.to_string();
                    self.fail(Status::Fatal, t)
                },
                Ok(id) => {
                    let e = Element { session: self.session.id.clone(), id };
                    let c = e.click();
                    self.send(Expect::Done, c)
                },
            },
            Expect::Selected(e) => if crate::webdriver::bool_reply(&v) != (i == 7) {
                let c = e.click();
                self.send(Expect::Done, c)
            } else {
                self.succeed(None)
            },
            Expect::Script => {
                let t = scalar_text(&v);
                self.succeed(Some((owned("script_result"), t)))
            },
            Expect::Text => {
                let t = crate::webdriver::text_reply(&v);
                let trimmed = crate::text::trim_str(t.as_str());
                let a1 = self.arg(1);
                self.succeed(Some((a1, trimmed)))
            },
            Expect::Attribute => match crate::webdriver::optional_text_reply(&v) {
                None => {
                    let mut m = owned("the element has no attribute ");
                    let a0 = self.arg(0);
                    let q = debug_str(a0.as_str());
                    push_str(&mut m, q.as_str());
                    self.fail(Status::Fatal, m)
                },
                Some(s) => {
                    let a2 = self.arg(2);
                    self.succeed(Some((a2, s)))
                },
            },
            Expect::Screenshot => match crate::webdriver::screenshot_reply(&v) {
                Err(err) => {
                    let t = err.to_string();
                    self.fail(Status::Fatal, t)
                },
                Ok(bytes) => self.go(
                    Stage::Writing(None),
                    Action::Write { name: owned("screenshot.png"), payload: Payload::Bytes(bytes) },
                ),
            },
            Expect::CurrentUrl => {
                let raw = crate::webdriver::text_reply(&v);
                match WebUrl::parse(raw.as_str()) {
                    Err(e) => {
                        let mut m = owned("the browser reports a URL that does not parse, ");
                        let q = debug_str(raw.as_str());
                        push_str(&mut m, q.as_str());
                        push_str(&mut m, ": ");
                        push_str(&mut m, e.as_str());
                        self.fail(Status::Fatal, m)
                    },
                    Ok(cur) => {
                        let a0 = self.arg(0);
                        if same_location(&cur, a0.as_str()) {
                            self.succeed(None)
                        } else {
                            let mut m = owned("the browser is on ");
                            push_str(&mut m, raw.as_str());
                            push_str(&mut m, ", expected ");
                            let q = debug_str(a0.as_str());
                            push_str(&mut m, q.as_str());
                            self.fail(Status::NotYet, m)
                        }
                    },
                }
            },
            Expect::Title => {
                let t = crate::webdriver::text_reply(&v);
                let a0 = self.arg(0);
                if str_eq(t.as_str(), a0.as_str()) {
                    self.succeed(None)
                } else {
                    let mut m = owned("the title is ");
                    let q = debug_str(t.as_str());
                    push_str(&mut m, q.as_str());
                    push_str(&mut m, ", expected ");
                    let q2 = debug_str(a0.as_str());
                    push_str(&mut m, q2.as_str());
                    self.fail(Status::NotYet, m)
                }
            },
            Expect::BodyText => {
                let a0 = self.arg(0);
                let wanted = crate::text::collapse(a0.as_str());
                let t = crate::webdriver::text_reply(&v);
                let text = crate::text::collapse(t.as_str());
                if contains_str(text.as_str(), wanted.as_str()) == (i == 17) {
                    self.succeed(None)
                } else {
                    let mut m = owned("the page ");
                    push_str(&mut m, verb(i == 17));
                    push_str(&mut m, " ");
                    let q = debug_str(wanted.as_str());
                    push_str(&mut m, q.as_str());
                    self.fail(Status::NotYet, m)
                }
            },
            Expect::ElementText(what) => {
                let t = crate::webdriver::text_reply(&v);
                let text = crate::text::collapse(t.as_str());
                let a1 = self.arg(1);
                let wanted = crate::text::collapse(a1.as_str());
                if contains_str(text.as_str(), wanted.as_str()) == (i == 19) {
                    self.succeed(None)
                } else {
                    let mut m = what;
                    push_str(&mut m, " ");
                    push_str(&mut m, verb(i == 19));
                    push_str(&mut m, " ");
                    let q = debug_str(wanted.as_str());
                    push_str(&mut m, q.as_str());
                    push_str(&mut m, ": its text is ");
                    let q2 = debug_str(text.as_str());
                    push_str(&mut m, q2.as_str());
                    self.fail(Status::NotYet, m)
                }
            },
            Expect::Displayed(what) => {
                let b = crate::webdriver::bool_reply(&v);
                self.visible_verdict(what.as_str(), b)
            },
            Expect::FieldValue(what) => {
                let value = scalar_text(&v);
                let a1 = self.arg(1);
                if str_eq(value.as_str(), a1.as_str()) {
                    self.succeed(None)
                } else {
                    let mut m = what;
                    push_str(&mut m, " holds ");
                    let q = debug_str(value.as_str());
                    push_str(&mut m, q.as_str());
                    push_str(&mut m, ", expected ");
                    let q2 = debug_str(a1.as_str());
                    push_str(&mut m, q2.as_str());
                    self.fail(Status::NotYet, m)
                }
            },
            Expect::Checked(what) => {
                let checked = crate::webdriver::bool_reply(&v);
                if checked == (i == 24) {
                    self.succeed(None)
                } else {
                    let mut m = what;
                    push_str(&mut m, " is ");
                    push_str(&mut m, if checked { "checked" } else { "unchecked" });
                    self.fail(Status::NotYet, m)
                }
            },
        }
    }

    fn after_write(&mut self, shown: Option<String>, path: String) -> (r: Next)
        ensures
            (final(self)@, r@) == after_write(old(self)@, opt_view(shown), path@),
    {
        if self.request.ctx.debug {
            let line = match shown {
                None => {
                    let mut l = owned("[browser] screenshot: ");
                    push_str(&mut l, path.as_str());
                    l
                },
                Some(t) => {
                    let mut l = owned("[browser] ");
                    push_str(&mut l, if self.index == 26 { "console.json" } else { "network.json" });
                    push_str(&mut l, ": ");
                    push_str(&mut l, path.as_str());
                    push_char(&mut l, '\n');
                    push_str(&mut l, t.as_str());
                    assert(l@ =~= "[browser] "@ + dump_name(self.index) + ": "@ + path@ + seq!['\n'] + t@);
                    l
                },
            };
            self.go(Stage::Tracing, Action::Trace(line))
        } else {
            self.succeed(None)
        }
    }

    fn with_buffers(&mut self, b: Buffers) -> (r: Next)
        ensures
            (final(self)@, r@) == with_buffers(old(self)@, b@),
    {
        let i = self.index;
        if i == 26 || i == 27 {
            let value = if i == 26 {
                b.console_json()
            } else {
                b.network_json()
            };
            let shown = crate::json::render_pretty(&value);
            let name = owned(if i == 26 { "console.json" } else { "network.json" });
            let copy = shown.clone();
            self.go(Stage::Writing(Some(copy)), Action::Write { name, payload: Payload::Text(shown) })
        } else if i == 28 {
            let a0 = self.arg(0);
            let status = match b.last_to(a0.as_str()) {
                Some(e) => e.status,
                None => None,
            };
            match status {
                Some(s) => {
                    let a1 = self.arg(1);
                    let t = crate::text::decimal_string(s as u64);
                    self.succeed(Some((a1, t)))
                },
                None => {
                    let mut m = owned("no completed request to ");
                    let q = debug_str(a0.as_str());
                    push_str(&mut m, q.as_str());
                    push_str(&mut m, " in this scenario");
                    self.fail(Status::Fatal, m)
                },
            }
        } else if i == 29 {
            let errs = b.errors();
            if errs.len() == 0 {
                self.succeed(None)
            } else {
                let ghost ev = crate::bidi::console_view(errs@);
                let mut lines: Vec<String> = Vec::new();
                let mut k: usize = 0;
                while k < errs.len()
                    invariant
                        k <= errs.len(),
                        ev == crate::bidi::console_view(errs@),
                        crate::text::views(lines@) =~= ev.take(k as int).map_values(
                            |e: ConsoleEntryV| error_line(e),
                        ),
                    decreases errs.len() - k,
                {
                    let mut line = owned("[");
                    push_str(&mut line, errs[k].source.as_str());
                    push_str(&mut line, "] ");
                    push_str(&mut line, errs[k].text.as_str());
                    assert(line@ =~= error_line(ev[k as int])) by {
                        reveal_strlit("[");
                    }
                    let ghost lv = line@;
                    let ghost prev = lines@;
                    lines.push(line);
                    proof {
                        assert(crate::text::views(lines@) =~= crate::text::views(prev).push(lv));
                        assert(ev.take(k + 1) =~= ev.take(k as int).push(ev[k as int]));
                    }
                    k = k + 1;
                }
                assert(ev.take(errs.len() as int) =~= ev);
                let mut m = crate::text::decimal_string(errs.len() as u64);
                push_str(&mut m, " error(s) in the browser console:\n");
                let joined = crate::text::join_strs(&lines, "\n");
                push_str(&mut m, joined.as_str());
                self.fail(Status::Fatal, m)
            }
        } else if i == 30 {
            let a0 = self.arg(0);
            let a1 = self.arg(1);
            let ghost nv = b@.network;
            let mut k: usize = 0;
            let mut seen = false;
            while k < b.network.len()
                invariant
                    k <= b.network.len(),
                    nv == b@.network,
                    nv.len() == b.network@.len(),
                    forall|j: int| 0 <= j < nv.len() ==> #[trigger] nv[j] == b.network@[j]@,
                    seen ==> exists|j: int|
                        0 <= j < nv.len() && #[trigger] nv[j].method == a0@ && path_starts_spec(
                            nv[j].url,
                            a1@,
                        ),
                    !seen ==> forall|j: int|
                        0 <= j < k ==> !(#[trigger] nv[j].method == a0@ && path_starts_spec(
                            nv[j].url,
                            a1@,
                        )),
                decreases b.network.len() - k,
            {
                if !seen && str_eq(b.network[k].method.as_str(), a0.as_str())
                    && crate::bidi::path_starts_with(b.network[k].url.as_str(), a1.as_str()) {
                    seen = true;
                    assert(nv[k as int].method == a0@);
                }
                k = k + 1;
            }
            if seen {
                self.succeed(None)
            } else {
                let mut m = owned("no ");
                push_str(&mut m, a0.as_str());
                push_str(&mut m, " request to ");
                let q = debug_str(a1.as_str());
                push_str(&mut m, q.as_str());
                push_str(&mut m, " yet");
                self.fail(Status::NotYet, m)
            }
        } else if i == 31 {
            let a0 = self.arg(0);
            match b.last_to(a0.as_str()) {
                None => {
                    let mut m = owned("no request to ");
                    let q = debug_str(a0.as_str());
                    push_str(&mut m, q.as_str());
                    push_str(&mut m, " yet");
                    self.fail(Status::NotYet, m)
                },
                Some(e) => match e.status {
                    None => {
                        let mut m = owned("the ");
                        push_str(&mut m, e.method.as_str());
                        push_str(&mut m, " request to ");
                        let q = debug_str(a0.as_str());
                        push_str(&mut m, q.as_str());
                        push_str(&mut m, " has no response yet");
                        self.fail(Status::NotYet, m)
                    },
                    Some(s) => {
                        let code = crate::text::decimal_string(s as u64);
                        let a1 = self.arg(1);
                        if !str_eq(code.as_str(), a1.as_str()) {
                            let mut m = owned("the last ");
                            push_str(&mut m, e.method.as_str());
                            push_str(&mut m, " request to ");
                            let q = debug_str(a0.as_str());
                            push_str(&mut m, q.as_str());
                            push_str(&mut m, " answered ");
                            push_str(&mut m, code.as_str());
                            push_str(&mut m, ", expected ");
                            push_str(&mut m, a1.as_str());
                            self.fail(Status::NotYet, m)
                        } else {
                            self.succeed(None)
                        }
                    },
                },
            }
        } else {
            let mut m = owned("unknown step index ");
            crate::text::push_decimal(&mut m, i as u64);
            self.fail(Status::Fatal, m)
        }
    }
}

impl Dispatch {
    fn after_shot(&mut self) -> (r: Next)
        ensures
            (final(self)@, r@) == after_shot(old(self)@),
    {
        if self.on_failure.console || self.on_failure.network {
            self.go(Stage::Evidence(Evidence::Buffers), Action::ReadBuffers)
        } else {
            self.finish()
        }
    }

    fn after_page(&mut self) -> (r: Next)
        ensures
            (final(self)@, r@) == after_page(old(self)@),
    {
        if self.on_failure.screenshot {
            let c = self.session.screenshot();
            self.go(Stage::Evidence(Evidence::Shot), Action::Send(c))
        } else {
            self.after_shot()
        }
    }

    fn finish(&mut self) -> (r: Next)
        ensures
            (final(self)@, r@) == finish(old(self)@),
    {
        match &self.last {
            Some(x) => {
                let t = x.render();
                let d = Diagnostic::http("WebDriver", t.as_str());
                diag_push(&mut self.diagnostics, d);
            },
            None => {},
        }
        self.stage = Stage::Over;
        match self.status {
            Status::NotYet => Next::Done(crate::reply::not_yet(self.error.as_str(), &self.diagnostics)),
            Status::Fatal => Next::Done(crate::reply::fatal(self.error.as_str(), &self.diagnostics)),
        }
    }

    fn not_taken(&mut self, why: &str) -> (r: Next)
        ensures
            (final(self)@, r@) == after_shot(
                push_diag(old(self)@, text_diag("Screenshot"@, "not taken: "@ + why@)),
            ),
    {
        let mut m = owned("not taken: ");
        push_str(&mut m, why);
        let d = Diagnostic::text("Screenshot", m.as_str());
        diag_push(&mut self.diagnostics, d);
        self.after_shot()
    }

    fn evidence_step(&mut self, ev: Evidence, e: Event) -> (r: Next)
        requires
            answers(StageV::Evidence(ev@), e@),
        ensures
            (final(self)@, r@) == evidence_step(old(self)@, ev@, e@),
    {
        match ev {
            Evidence::Last => match e {
                Event::Exchange(x) => {
                    self.last = x;
                    let c = self.session.current_url();
                    self.go(Stage::Evidence(Evidence::Url), Action::Send(c))
                },
                _ => Next::Done(String::new()),
            },
            Evidence::Url => match e {
                Event::Reply(r) => {
                    let url = text_or_unavailable_exec(&r);
                    let c = self.session.title();
                    self.go(Stage::Evidence(Evidence::Title(url)), Action::Send(c))
                },
                _ => Next::Done(String::new()),
            },
            Evidence::Title(url) => match e {
                Event::Reply(r) => {
                    let title = text_or_unavailable_exec(&r);
                    let mut content = url;
                    push_char(&mut content, '\n');
                    push_str(&mut content, title.as_str());
                    assert(content@ =~= url@ + seq!['\n'] + title@);
                    let d = Diagnostic::text("Page", content.as_str());
                    diag_push(&mut self.diagnostics, d);
                    self.after_page()
                },
                _ => Next::Done(String::new()),
            },
            Evidence::Shot => match e {
                Event::Reply(Err(x)) => {
                    let t = x.to_string();
                    self.not_taken(t.as_str())
                },
                Event::Reply(Ok(v)) => match crate::webdriver::screenshot_reply(&v) {
                    Err(x) => {
                        let t = x.to_string();
                        self.not_taken(t.as_str())
                    },
                    Ok(bytes) => self.go(
                        Stage::Evidence(Evidence::ShotWrite),
                        Action::Write { name: owned("screenshot.png"), payload: Payload::Bytes(bytes) },
                    ),
                },
                _ => Next::Done(String::new()),
            },
            Evidence::ShotWrite => match e {
                Event::Written(Ok(p)) => {
                    let d = Diagnostic::image("Screenshot", p.as_str());
                    diag_push(&mut self.diagnostics, d);
                    self.after_shot()
                },
                Event::Written(Err(msg)) => self.not_taken(msg.as_str()),
                _ => Next::Done(String::new()),
            },
            Evidence::Buffers => match e {
                Event::Buffers(BufferRead::Ready(b)) => {
                    if self.on_failure.console {
                        let v = b.console_json();
                        let d = Diagnostic::json("Console", &v);
                        diag_push(&mut self.diagnostics, d);
                    }
                    if self.on_failure.network {
                        let v = b.network_json();
                        let d = Diagnostic::json("Network", &v);
                        diag_push(&mut self.diagnostics, d);
                    }
                    self.finish()
                },
                Event::Buffers(_) => self.finish(),
                _ => Next::Done(String::new()),
            },
        }
    }

    /// Whether `e` answers the action this dispatch asked for last.
    pub fn accepts(&self, e: &Event) -> (r: bool)
        ensures
            r == answers(self@.stage, e@),
    {
        match &self.stage {
            Stage::StartingWait(_) => matches!(e, Event::Ack),
            Stage::Finding(..) => matches!(e, Event::Reply(_)),
            Stage::Pausing(_) => matches!(e, Event::Ack) || matches!(e, Event::GaveUp),
            Stage::Sent(_) => matches!(e, Event::Reply(_)),
            Stage::CheckingFile => matches!(e, Event::IsFile(_)),
            Stage::Writing(_) => matches!(e, Event::Written(_)),
            Stage::Tracing => matches!(e, Event::Ack),
            Stage::ReadingBuffers => matches!(e, Event::Buffers(_)),
            Stage::Evidence(Evidence::Last) => matches!(e, Event::Exchange(_)),
            Stage::Evidence(Evidence::Url) => matches!(e, Event::Reply(_)),
            Stage::Evidence(Evidence::Title(_)) => matches!(e, Event::Reply(_)),
            Stage::Evidence(Evidence::Shot) => matches!(e, Event::Reply(_)),
            Stage::Evidence(Evidence::ShotWrite) => matches!(e, Event::Written(_)),
            Stage::Evidence(Evidence::Buffers) => matches!(e, Event::Buffers(_)),
            Stage::Begin => false,
            Stage::Over => false,
        }
    }

    /// Opens a dispatch of step `index` for `request`, on an instance
    /// configured as `config` whose session is `session`.
    pub fn start(index: u32, request: Request, config: &InstanceConfig, session: &Session) -> (r: (
        Dispatch,
        Next,
    ))
        ensures
            (r.0@, r.1@) == start_spec(index, request@, config@, session.id@),
    {
        let null = request.has_null();
        let base_url = match &config.base_url {
            Some(u) => Some(u.duplicate()),
            None => None,
        };
        let mut d = Dispatch {
            index,
            request,
            base_url,
            timeout_secs: config.find_timeout_secs,
            on_failure: config.on_failure,
            session: session.duplicate(),
            stage: Stage::Begin,
            status: Status::Fatal,
            error: String::new(),
            diagnostics: Vec::new(),
            last: None,
        };
        assert(diagnostics_view(d.diagnostics@) =~= Seq::<DiagnosticV>::empty());
        if null {
            d.stage = Stage::Over;
            let none: Vec<Diagnostic> = Vec::new();
            assert(diagnostics_view(none@) =~= Seq::<DiagnosticV>::empty());
            let reply = crate::reply::fatal("<<null>> has no meaning in a browser", &none);
            return (d, Next::Done(reply));
        }
        let n = d.begin();
        (d, n)
    }

    /// The dispatch's answer to the event that answers its last action.
    pub fn advance(&mut self, event: Event) -> (r: Next)
        requires
            answers(old(self)@.stage, event@),
        ensures
            (final(self)@, r@) == advance_spec(old(self)@, event@),
    {
        let mut stage = Stage::Over;
        std::mem::swap(&mut stage, &mut self.stage);
        match stage {
            Stage::StartingWait(l) => self.find_from(l, 0),
            Stage::Finding(l, k) => self.on_found(l, k, event),
            Stage::Pausing(l) => match event {
                Event::GaveUp => self.found(l, None),
                _ => self.find_from(l, 0),
            },
            Stage::Sent(x) => self.on_reply(x, event),
            Stage::CheckingFile => match event {
                Event::IsFile(true) => self.begin_find(),
                _ => {
                    let mut m = self.attach_path_exec();
                    push_str(&mut m, " is not a file");
                    self.fail(Status::Fatal, m)
                },
            },
            Stage::Writing(shown) => match event {
                Event::Written(Ok(p)) => self.after_write(shown, p),
                Event::Written(Err(msg)) => self.fail(Status::Fatal, msg),
                _ => Next::Done(String::new()),
            },
            Stage::Tracing => self.succeed(None),
            Stage::ReadingBuffers => self.on_buffers(event),
            Stage::Evidence(ev) => self.evidence_step(ev, event),
            _ => Next::Done(String::new()),
        }
    }

    fn on_found(&mut self, l: Lookup, k: usize, event: Event) -> (r: Next)
        ensures
            (final(self)@, r@) == on_stage(StageV::Finding(l@, k as int), old(self)@, event@),
    {
        match event {
            Event::Reply(r) => match self.session.found(r) {
                Err(x) => {
                    let t = x.to_string();
                    self.fail(Status::Fatal, t)
                },
                Ok(Some(el)) => self.found(l, Some(el)),
                Ok(None) => {
                    if k < l.strategies.len() {
                        self.find_from(l, k + 1)
                    } else {
                        self.find_from(l, k)
                    }
                },
            },
            _ => Next::Done(String::new()),
        }
    }

    fn on_reply(&mut self, x: Expect, event: Event) -> (r: Next)
        ensures
            (final(self)@, r@) == on_stage(StageV::Sent(x@), old(self)@, event@),
    {
        match event {
            Event::Reply(r) => match x {
                Expect::Option(what) => match self.session.found(r) {
                    Err(err) => {
                        let t = err.to_string();
                        self.fail(Status::Fatal, t)
                    },
                    Ok(None) => {
                        let mut m = owned("no option ");
                        let a0 = self.arg(0);
                        let q = debug_str(a0.as_str());
                        push_str(&mut m, q.as_str());
                        push_str(&mut m, " in ");
                        push_str(&mut m, what.as_str());
                        self.fail(Status::Fatal, m)
                    },
                    Ok(Some(el)) => {
                        let c = el.click();
                        self.send(Expect::Done, c)
                    },
                },
                _ => match r {
                    Err(err) => {
                        let t = err.to_string();
                        self.fail(Status::Fatal, t)
                    },
                    Ok(v) => self.replied(x, v),
                },
            },
            _ => Next::Done(String::new()),
        }
    }

    fn on_buffers(&mut self, event: Event) -> (r: Next)
        ensures
            (final(self)@, r@) == on_stage(StageV::ReadingBuffers, old(self)@, event@),
    {
        match event {
            Event::Buffers(BufferRead::Ready(b)) => self.with_buffers(b),
            Event::Buffers(BufferRead::Poisoned) => self.fail(
                Status::Fatal,
                owned("the BiDi buffers are poisoned"),
            ),
            _ => self.fail(
                Status::Fatal,
                owned(
                    "the session has no usable BiDi channel (the driver returned no webSocketUrl, or advertised one at wss://, which this version cannot connect to); the console and network steps need Chrome/Edge 116+, Firefox 129+, or a Grid that passes BiDi through over ws://",
                ),
            ),
        }
    }
}


// ----- what every dispatch keeps -----

/// A request carrying `<<null>>` is answered `fatal` at once: nothing is
/// sent to the driver.
pub proof fn law_null_is_refused_before_anything_is_sent(
    index: u32,
    req: RequestV,
    c: ConfigV,
    sid: Seq<char>,
)
    requires
        carries_null(req),
    ensures
        start_spec(index, req, c, sid).1 == NextV::Done(
            crate::reply::failure_reply("fatal"@, "<<null>> has no meaning in a browser"@, Seq::empty()),
        ),
{
}

pub open spec fn waits(n: NextV) -> bool {
    n == NextV::Do(ActionV::StartWait) || n == NextV::Do(ActionV::Pause)
}

proof fn lemma_found_never_waits(m: DispatchV, l: LookupV, el: Option<ElementV>)
    requires
        is_assertion(m.index),
    ensures
        !waits(found(m, l, el).1),
{
}

proof fn lemma_find_from_never_waits(m: DispatchV, l: LookupV, k: int)
    requires
        is_assertion(m.index),
    ensures
        !waits(find_from(m, l, k).1),
{
    lemma_found_never_waits(m, l, None);
}

proof fn lemma_replied_never_waits(m: DispatchV, x: ExpectV, v: JsonV)
    ensures
        !waits(replied(m, x, v).1),
{
}

proof fn lemma_with_buffers_never_waits(m: DispatchV, b: BuffersV)
    ensures
        !waits(with_buffers(m, b).1),
{
}

proof fn lemma_evidence_never_waits(m: DispatchV, ev: EvidenceV, e: EventV)
    ensures
        !waits(evidence_step(m, ev, e).1),
{
}

/// An assertion never waits: neither its first action nor any answer to an
/// event starts a wait's clock or pauses.
pub proof fn law_assertions_never_wait(m: DispatchV, e: EventV, req: RequestV, c: ConfigV, sid: Seq<char>)
    requires
        is_assertion(m.index),
    ensures
        !waits(advance_spec(m, e).1),
        !waits(start_spec(m.index, req, c, sid).1),
{
    let m2 = DispatchV { stage: StageV::Over, ..m };
    match m.stage {
        StageV::StartingWait(l) => lemma_find_from_never_waits(m2, l, 0),
        StageV::Finding(l, k) => {
            lemma_find_from_never_waits(m2, l, k + 1);
            match e {
                EventV::Reply(r) => match found_spec(r, no_such(r)) {
                    Ok(Some(id)) => lemma_found_never_waits(m2, l, Some(ElementV { session: m2.session, id })),
                    _ => {},
                },
                _ => {},
            }
        },
        StageV::Pausing(l) => {
            lemma_find_from_never_waits(m2, l, 0);
            lemma_found_never_waits(m2, l, None);
        },
        StageV::Sent(x) => match e {
            EventV::Reply(Ok(v)) => lemma_replied_never_waits(m2, x, v),
            _ => {},
        },
        StageV::CheckingFile => {
            lemma_find_from_never_waits(m2, lookup_spec(m2.index, m2.req.args), 0);
        },
        StageV::ReadingBuffers => match e {
            EventV::Buffers(BufferReadV::Ready(b)) => lemma_with_buffers_never_waits(m2, b),
            _ => {},
        },
        StageV::Evidence(ev) => lemma_evidence_never_waits(m2, ev, e),
        _ => {},
    }
    let m0 = DispatchV {
        index: m.index,
        req,
        base_url: c.base_url,
        timeout_secs: c.find_timeout_secs,
        on_failure: c.on_failure,
        session: sid,
        stage: StageV::Begin,
        status: Status::Fatal,
        error: Seq::empty(),
        diagnostics: Seq::empty(),
        last: None,
    };
    lemma_find_from_never_waits(m0, lookup_spec(m0.index, m0.req.args), 0);
}

/// `I check` and `I uncheck` click only when the box is not already as
/// wanted; otherwise the step passes without touching it.
pub proof fn law_check_clicks_only_when_the_state_differs(m: DispatchV, el: ElementV, v: JsonV)
    requires
        m.index == 7 || m.index == 8,
        m.stage == StageV::Sent(ExpectV::Selected(el)),
    ensures
        advance_spec(m, EventV::Reply(Ok(v))).1 == if bool_of(v) != (m.index == 7) {
            NextV::Do(ActionV::Send(element_post(el, "click"@, object_of(Seq::empty()))))
        } else {
            NextV::Done(passed_text())
        },
{
}

/// An action whose element has not appeared by the deadline fails `fatal`,
/// naming what it looked for and the timeout; its evidence starts.
pub proof fn law_a_missed_action_names_the_lookup(m: DispatchV, l: LookupV)
    requires
        is_action(m.index),
        m.stage == StageV::Pausing(l),
    ensures
        advance_spec(m, EventV::GaveUp).1 == NextV::Do(ActionV::LastExchange),
        advance_spec(m, EventV::GaveUp).0.status == Status::Fatal,
        advance_spec(m, EventV::GaveUp).0.error == "no "@ + l.what + " found within "@ + decimal(
            m.timeout_secs as nat,
        ) + "s"@,
{
}

/// The evidence starts from the last exchange as it stood when the step
/// failed: it is taken before the first evidence command is sent.
pub proof fn law_evidence_keeps_the_failed_exchange(m: DispatchV, x: Option<ExchangeV>)
    requires
        m.stage == StageV::Evidence(EvidenceV::Last),
    ensures
        advance_spec(m, EventV::Exchange(x)).0.last == x,
        advance_spec(m, EventV::Exchange(x)).1 == NextV::Do(ActionV::Send(session_get(m.session, "url"@))),
{
}

/// With `on_failure: none` the evidence is the page alone (and the last
/// exchange): once the title is read the reply is given, with no screenshot
/// taken and nothing written.
pub proof fn law_on_failure_none_writes_nothing(m: DispatchV, url: Seq<char>, r: Result<JsonV, ErrorV>)
    requires
        m.stage == StageV::Evidence(EvidenceV::Title(url)),
        !m.on_failure.screenshot,
        !m.on_failure.console,
        !m.on_failure.network,
    ensures
        advance_spec(m, EventV::Reply(r)).1 is Done,
{
}

/// Whether an action's wait is over: `elapsed_ms` since the wait started
/// has reached the find timeout.
pub open spec fn wait_over(elapsed_ms: u64, timeout_secs: u64) -> bool {
    elapsed_ms >= timeout_secs * 1000
}

/// The answer to a `Pause`, `elapsed_ms` after the wait started: `GaveUp`
/// once the find timeout has passed, else `Ack`, given after the caller's
/// 100 ms pause.
pub fn pause_event(elapsed_ms: u64, timeout_secs: u64) -> (r: Event)
    ensures
        r@ == if wait_over(elapsed_ms, timeout_secs) {
            EventV::GaveUp
        } else {
            EventV::Ack
        },
{
    let over = match timeout_secs.checked_mul(1000) {
        Some(t) => elapsed_ms >= t,
        None => false,
    };
    if over {
        Event::GaveUp
    } else {
        Event::Ack
    }
}

/// `find_timeout_secs: 0` disables the wait: the first pause of an action
/// already gives up, so a missing element fails at once, naming the lookup.
pub proof fn law_zero_timeout_gives_up_at_once(m: DispatchV, l: LookupV, elapsed_ms: u64)
    requires
        is_action(m.index),
        m.stage == StageV::Pausing(l),
        m.timeout_secs == 0,
    ensures
        wait_over(elapsed_ms, 0),
        advance_spec(m, EventV::GaveUp).0.status == Status::Fatal,
        advance_spec(m, EventV::GaveUp).0.error == "no "@ + l.what + " found within 0s"@,
{
    law_a_missed_action_names_the_lookup(m, l);
    reveal_strlit("0");
    reveal_strlit("s");
    reveal_strlit(" found within ");
    reveal_strlit(" found within 0s");
    assert(decimal(0) =~= "0"@);
    assert(" found within "@ + decimal(0) + "s"@ =~= " found within 0s"@);
    assert("no "@ + l.what + " found within "@ + decimal(0) + "s"@ =~= "no "@ + l.what + " found within 0s"@);
}

/// A lookup tries its strategies in order, each once per look: after
/// strategy `k` finds nothing the find of strategy `k + 1` is sent; after
/// the last an action pauses and an assertion answers the miss; a found
/// element, or a find that failed, ends the look with no later strategy
/// sent. After a pause an action looks again from the first strategy.
pub proof fn law_strategies_are_tried_in_order(m: DispatchV, l: LookupV, k: int, r: Result<JsonV, ErrorV>)
    requires
        m.stage == StageV::Finding(l, k),
        0 <= k < l.strategies.len(),
    ensures
        found_spec(r, no_such(r)) == Ok::<Option<Seq<char>>, ErrorV>(None) && k + 1 < l.strategies.len()
            ==> advance_spec(m, EventV::Reply(r)).1 == NextV::Do(
            ActionV::Send(find_command(m.session, l.strategies[k + 1].0, l.strategies[k + 1].1)),
        ),
        found_spec(r, no_such(r)) == Ok::<Option<Seq<char>>, ErrorV>(None) && k + 1 == l.strategies.len()
            && is_action(m.index) ==> advance_spec(m, EventV::Reply(r)).1 == NextV::Do(ActionV::Pause),
        found_spec(r, no_such(r)) == Ok::<Option<Seq<char>>, ErrorV>(None) && k + 1 == l.strategies.len()
            && !is_action(m.index) ==> advance_spec(m, EventV::Reply(r)) == found(
            DispatchV { stage: StageV::Over, ..m },
            l,
            None,
        ),
        found_spec(r, no_such(r)) matches Ok(Some(id)) ==> advance_spec(m, EventV::Reply(r)) == found(
            DispatchV { stage: StageV::Over, ..m },
            l,
            Some(ElementV { session: m.session, id }),
        ),
        found_spec(r, no_such(r)) matches Err(x) ==> advance_spec(m, EventV::Reply(r)).1 == NextV::Do(
            ActionV::LastExchange,
        ) && advance_spec(m, EventV::Reply(r)).0.error == error_text(x),
        forall|p: DispatchV|
            p.stage == StageV::Pausing(l) && 0 < l.strategies.len() ==> #[trigger] advance_spec(p, EventV::Ack).1
                == NextV::Do(ActionV::Send(find_command(p.session, l.strategies[0].0, l.strategies[0].1))),
{
}

/// Whether `n` is one POST to the session's `execute/sync` running exactly
/// `script`, with no arguments.
pub open spec fn runs_script(n: NextV, sid: Seq<char>, script: Seq<char>) -> bool {
    match n {
        NextV::Do(ActionV::Send(c)) => c.method == Method::Post && c.path == crate::webdriver::session_path(
            sid,
            "execute/sync"@,
        ) && match c.body {
            Some(b) => b.get("script"@) == Some(JsonV::Str(script)) && b.get("args"@) == Some(
                JsonV::Array(Seq::empty()),
            ),
            None => false,
        },
        _ => false,
    }
}

proof fn lemma_execute_body(sid: Seq<char>, script: Seq<char>)
    ensures
        runs_script(NextV::Do(ActionV::Send(execute_command(sid, script))), sid, script),
{
    reveal_strlit("script");
    reveal_strlit("args");
    assert("script"@.len() != "args"@.len());
    let es = seq![("script"@, JsonV::Str(script)), ("args"@, JsonV::Array(Seq::empty()))];
    assert(es.drop_last().drop_last() =~= Seq::<(Seq<char>, JsonV)>::empty());
    let m1 = crate::json::map_from(es.drop_last());
    assert(es.drop_last().last() == ("script"@, JsonV::Str(script)));
    assert(crate::json::map_from(es.drop_last().drop_last()) =~= Seq::<(Seq<char>, JsonV)>::empty());
    assert(m1 == crate::json::map_insert(Seq::empty(), "script"@, JsonV::Str(script)));
    assert(crate::json::map_from(es) == crate::json::map_insert(m1, "args"@, JsonV::Array(Seq::empty())));
    assert(object_of(es) == JsonV::Object(crate::json::map_from(es)));
    crate::json::lemma_map_insert_get(Seq::empty(), "script"@, JsonV::Str(script), "script"@);
    crate::json::lemma_map_insert_get(Seq::empty(), "script"@, JsonV::Str(script), "args"@);
    crate::json::lemma_map_insert_get(m1, "args"@, JsonV::Array(Seq::empty()), "script"@);
    crate::json::lemma_map_insert_get(m1, "args"@, JsonV::Array(Seq::empty()), "args"@);
    let c = execute_command(sid, script);
    assert(c.body == Some(object_of(es)));
    assert(object_of(es).get("script"@) == Some(JsonV::Str(script)));
    assert(object_of(es).get("args"@) == Some(JsonV::Array(Seq::<JsonV>::empty())));
}

/// The script steps run what the scenario gives them: `I execute the
/// script:` sends its doc string, exactly, as the script of one POST to
/// `execute/sync` with no arguments, and `I execute the script "<js>"`
/// sends its argument the same way; nothing is sent before it.
pub proof fn law_scripts_run_what_they_are_given(req: RequestV, c: ConfigV, sid: Seq<char>)
    requires
        !carries_null(req),
    ensures
        req.docstring matches Some(d) ==> runs_script(start_spec(11, req, c, sid).1, sid, d),
        req.args.len() > 0 ==> runs_script(start_spec(10, req, c, sid).1, sid, req.args[0]),
{
    match req.docstring {
        Some(d) => lemma_execute_body(sid, d),
        None => {},
    }
    if req.args.len() > 0 {
        lemma_execute_body(sid, req.args[0]);
    }
}

/// Whether a dispatch answers that its step passed, publishing nothing.
pub open spec fn answers_passed(n: NextV) -> bool {
    n == NextV::Done(passed_text())
}

/// The assertions judge what the browser reported: each passes exactly
/// when its condition holds, and otherwise answers `not_yet` (the host may
/// ask again), with its evidence still to come. The title must equal the
/// argument; the page text must contain the argument (17) or must not (18),
/// white space collapsed on both sides; likewise an element's text (19,
/// 20); an element must be displayed (21) or not (22); a field's value must
/// equal the argument; a checkbox must be ticked (24) or not (25).
pub proof fn law_assertions_pass_exactly_when_their_condition_holds(m: DispatchV, v: JsonV)
    ensures
        m.stage == StageV::Sent(ExpectV::Title) ==> (answers_passed(advance_spec(m, EventV::Reply(Ok(v))).1)
            <==> v.str_or_empty() == arg_at(m.req.args, 0)),
        m.stage == StageV::Sent(ExpectV::BodyText) && (m.index == 17 || m.index == 18) ==> (answers_passed(
            advance_spec(m, EventV::Reply(Ok(v))).1,
        ) <==> (contains_seq(collapse_ws(v.str_or_empty()), collapse_ws(arg_at(m.req.args, 0))) <==> m.index
            == 17)),
        forall|what: Seq<char>|
            m.stage == StageV::Sent(ExpectV::ElementText(what)) && (m.index == 19 || m.index == 20) ==> (
            #[trigger] answers_passed(advance_spec(m, EventV::Reply(Ok(v))).1) <==> (contains_seq(
                collapse_ws(v.str_or_empty()),
                collapse_ws(arg_at(m.req.args, 1)),
            ) <==> m.index == 19)),
        forall|what: Seq<char>|
            m.stage == StageV::Sent(ExpectV::Displayed(what)) && (m.index == 21 || m.index == 22) ==> (
            #[trigger] answers_passed(advance_spec(m, EventV::Reply(Ok(v))).1) <==> (v.as_bool() == Some(true)
                <==> m.index == 21)),
        forall|what: Seq<char>|
            m.stage == StageV::Sent(ExpectV::FieldValue(what)) ==> (#[trigger] answers_passed(
                advance_spec(m, EventV::Reply(Ok(v))).1,
            ) <==> scalar_text_spec(v) == arg_at(m.req.args, 1)),
        forall|what: Seq<char>|
            m.stage == StageV::Sent(ExpectV::Checked(what)) && (m.index == 24 || m.index == 25) ==> (
            #[trigger] answers_passed(advance_spec(m, EventV::Reply(Ok(v))).1) <==> (v.as_bool() == Some(true)
                <==> m.index == 24)),
        (m.stage matches StageV::Sent(x) && (x is Title || x is BodyText || x is ElementText || x is Displayed
            || x is FieldValue || x is Checked)) && !answers_passed(advance_spec(m, EventV::Reply(Ok(v))).1)
            ==> advance_spec(m, EventV::Reply(Ok(v))).0.status == Status::NotYet && advance_spec(
            m,
            EventV::Reply(Ok(v)),
        ).1 == NextV::Do(ActionV::LastExchange),
{
}

/// Whether entry `k` is the most recent request whose URL path starts with
/// `prefix`.
pub open spec fn most_recent_to(ns: Seq<NetworkEntryV>, prefix: Seq<char>, k: int) -> bool {
    &&& 0 <= k < ns.len()
    &&& path_starts_spec(ns[k].url, prefix)
    &&& forall|j: int| k < j < ns.len() ==> !path_starts_spec(#[trigger] ns[j].url, prefix)
}

/// The console and network steps judge the scenario's buffers: step 28
/// publishes the status of the most recent request to the path; step 31
/// passes exactly when that request has completed with the status named;
/// step 29 passes exactly when no console entry is at level `error`;
/// step 30 passes exactly when some request has the method named and a
/// path that starts with the one named.
pub proof fn law_network_steps_read_the_buffers(m: DispatchV, b: BuffersV, k: int)
    requires
        m.stage == StageV::ReadingBuffers,
    ensures
        m.index == 28 && most_recent_to(b.network, arg_at(m.req.args, 0), k) && b.network[k].status is Some
            ==> advance_spec(m, EventV::Buffers(BufferReadV::Ready(b))).1 == NextV::Done(
            passed_with_text(arg_at(m.req.args, 1), decimal(b.network[k].status->0 as nat)),
        ),
        m.index == 31 && most_recent_to(b.network, arg_at(m.req.args, 0), k) ==> (answers_passed(
            advance_spec(m, EventV::Buffers(BufferReadV::Ready(b))).1,
        ) <==> (b.network[k].status is Some && decimal(b.network[k].status->0 as nat) == arg_at(
            m.req.args,
            1,
        ))),
        m.index == 29 ==> (answers_passed(advance_spec(m, EventV::Buffers(BufferReadV::Ready(b))).1) <==> forall|
            i: int,
        | 0 <= i < b.console.len() ==> #[trigger] b.console[i].level != "error"@),
        m.index == 30 ==> (answers_passed(advance_spec(m, EventV::Buffers(BufferReadV::Ready(b))).1) <==> exists|
            j: int,
        |
            0 <= j < b.network.len() && #[trigger] b.network[j].method == arg_at(m.req.args, 0) && path_starts_spec(
                b.network[j].url,
                arg_at(m.req.args, 1),
            )),
{
    let p = arg_at(m.req.args, 0);
    crate::bidi::law_last_to_is_the_most_recent_match(b.network, p);
    if most_recent_to(b.network, p, k) {
        match last_to_spec(b.network, p) {
            Some(i) => {
                if i < k {
                    assert(!path_starts_spec(b.network[k].url, p));
                }
                if k < i {
                    assert(!path_starts_spec(b.network[i].url, p));
                }
                assert(i == k);
            },
            None => {
                assert(!path_starts_spec(b.network[k].url, p));
            },
        }
    }
    crate::bidi::law_errors_are_the_error_level_entries(b.console);
    let errs = errors_spec(b.console);
    b.console.filter_lemma(crate::bidi::at_error_level());
    if errs.len() == 0 {
        assert forall|i: int| 0 <= i < b.console.len() implies #[trigger] b.console[i].level != "error"@ by {
            if b.console[i].level == "error"@ {
                assert(crate::bidi::at_error_level()(b.console[i]));
                assert(errs.contains(b.console[i]));
            }
        }
    } else {
        assert(errs[0].level == "error"@);
        assert(b.console.filter(crate::bidi::at_error_level()).contains(errs[0]));
        b.console.lemma_filter_contains_rev(crate::bidi::at_error_level(), errs[0]);
        let i = choose|i: int| 0 <= i < b.console.len() && b.console[i] == errs[0];
        assert(b.console[i].level == "error"@);
    }
}

} // verus!
