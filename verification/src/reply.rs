//! Every reply the plugin sends is built here, so the shape the host parses
//! has one author.

use vstd::prelude::*;

use crate::json::{
    entry_views, json_text, json_views, lemma_entry_views_map, object_from, object_of,
    render, render_pretty, json_pretty, Json, JsonV,
};
use crate::text::owned;
use crate::weburl::opt_view;

verus! {

/// The per-dispatch context the host hands over with every step.
#[derive(Debug)]
pub struct Ctx {
    pub artifacts_dir: String,
    pub workspace_dir: String,
    pub debug: bool,
}

/// One piece of evidence in a failure dump. `kind` is what the host renders
/// in the `--- <title> (<kind>) ---` header; `text`, `json`, `http` and
/// `image` are the conventional values.
#[derive(Debug)]
pub struct Diagnostic {
    pub title: String,
    pub kind: &'static str,
    pub content: Option<String>,
    pub path: Option<String>,
}

pub struct DiagnosticV {
    pub title: Seq<char>,
    pub kind: Seq<char>,
    pub content: Option<Seq<char>>,
    pub path: Option<Seq<char>>,
}

impl View for Diagnostic {
    type V = DiagnosticV;

    open spec fn view(&self) -> DiagnosticV {
        DiagnosticV {
            title: self.title@,
            kind: self.kind@,
            content: opt_view(self.content),
            path: opt_view(self.path),
        }
    }
}

pub open spec fn diagnostics_view(ds: Seq<Diagnostic>) -> Seq<DiagnosticV> {
    ds.map_values(|d: Diagnostic| d@)
}

/// A text, or `null` when there is none.
pub open spec fn text_or_null(o: Option<Seq<char>>) -> JsonV {
    match o {
        Some(s) => JsonV::Str(s),
        None => JsonV::Null,
    }
}

/// A diagnostic as the host reads it.
pub open spec fn diagnostic_json(d: DiagnosticV) -> JsonV {
    object_of(
        seq![
            ("title"@, JsonV::Str(d.title)),
            ("kind"@, JsonV::Str(d.kind)),
            ("content"@, text_or_null(d.content)),
            ("path"@, text_or_null(d.path)),
        ],
    )
}

pub open spec fn diagnostics_json_spec(ds: Seq<DiagnosticV>) -> JsonV {
    JsonV::Array(ds.map_values(|d: DiagnosticV| diagnostic_json(d)))
}

fn text_or_null_json(o: &Option<String>) -> (r: Json)
    ensures
        r@ == text_or_null(opt_view(*o)),
{
    match o {
        Some(s) => Json::Str(s.clone()),
        None => Json::Null,
    }
}

impl Diagnostic {
    pub fn text(title: &str, content: &str) -> (r: Diagnostic)
        ensures
            r@ == (DiagnosticV { title: title@, kind: "text"@, content: Some(content@), path: None }),
    {
        Diagnostic { title: owned(title), kind: "text", content: Some(owned(content)), path: None }
    }

    pub fn http(title: &str, content: &str) -> (r: Diagnostic)
        ensures
            r@ == (DiagnosticV { title: title@, kind: "http"@, content: Some(content@), path: None }),
    {
        Diagnostic { title: owned(title), kind: "http", content: Some(owned(content)), path: None }
    }

    /// `value` rendered as pretty JSON.
    pub fn json(title: &str, value: &Json) -> (r: Diagnostic)
        ensures
            r@ == (DiagnosticV {
                title: title@,
                kind: "json"@,
                content: Some(json_pretty(value@)),
                path: None,
            }),
    {
        Diagnostic {
            title: owned(title),
            kind: "json",
            content: Some(render_pretty(value)),
            path: None,
        }
    }

    pub fn image(title: &str, path: &str) -> (r: Diagnostic)
        ensures
            r@ == (DiagnosticV { title: title@, kind: "image"@, content: None, path: Some(path@) }),
    {
        Diagnostic { title: owned(title), kind: "image", content: None, path: Some(owned(path)) }
    }

    pub fn to_json(&self) -> (r: Json)
        ensures
            r@ == diagnostic_json(self@),
    {
        let mut es: Vec<(String, Json)> = Vec::new();
        es.push((owned("title"), Json::Str(self.title.clone())));
        es.push((owned("kind"), Json::text(self.kind)));
        es.push((owned("content"), text_or_null_json(&self.content)));
        es.push((owned("path"), text_or_null_json(&self.path)));
        proof {
            lemma_entry_views_map(es@);
        }
        assert(entry_views(es@) =~= seq![
            ("title"@, JsonV::Str(self.title@)),
            ("kind"@, JsonV::Str(self.kind@)),
            ("content"@, text_or_null(opt_view(self.content))),
            ("path"@, text_or_null(opt_view(self.path))),
        ]);
        object_from(&es)
    }
}

pub fn diagnostics_json(diagnostics: &Vec<Diagnostic>) -> (r: Json)
    ensures
        r@ == diagnostics_json_spec(diagnostics_view(diagnostics@)),
{
    let mut out: Vec<Json> = Vec::new();
    let mut i: usize = 0;
    while i < diagnostics.len()
        invariant
            i <= diagnostics.len(),
            json_views(out@) =~= diagnostics_view(diagnostics@.take(i as int)).map_values(
                |d: DiagnosticV| diagnostic_json(d),
            ),
        decreases diagnostics.len() - i,
    {
        let j = diagnostics[i].to_json();
        let ghost prev = out@;
        out.push(j);
        proof {
            assert(out@.drop_last() =~= prev);
            assert(diagnostics@.take(i + 1) =~= diagnostics@.take(i as int).push(diagnostics@[i as int]));
        }
        i = i + 1;
    }
    assert(diagnostics@.take(diagnostics.len() as int) =~= diagnostics@);
    Json::Array(out)
}

/// The envelope shared by validate / init / drop / reset / probe.
pub fn ok() -> (r: String)
    ensures
        r@ == json_text(object_of(seq![("ok"@, JsonV::Bool(true))])),
{
    render(&crate::json::object1("ok", Json::Bool(true)))
}

pub fn err(error: &str) -> (r: String)
    ensures
        r@ == json_text(err_value(error@)),
{
    render(&crate::json::object2("ok", Json::Bool(false), "error", Json::text(error)))
}

pub fn passed() -> (r: String)
    ensures
        r@ == json_text(object_of(seq![("status"@, JsonV::Str("passed"@))])),
{
    render(&crate::json::object1("status", Json::text("passed")))
}

pub fn passed_with(vars: Json) -> (r: String)
    ensures
        r@ == json_text(object_of(seq![("status"@, JsonV::Str("passed"@)), ("vars"@, vars@)])),
{
    render(&crate::json::object2("status", Json::text("passed"), "vars", vars))
}

/// The object of a failure envelope: its status, the error and the
/// evidence.
pub open spec fn failure_value(status: Seq<char>, error: Seq<char>, ds: Seq<DiagnosticV>) -> JsonV {
    object_of(
        seq![
            ("status"@, JsonV::Str(status)),
            ("error"@, JsonV::Str(error)),
            ("diagnostics"@, diagnostics_json_spec(ds)),
        ],
    )
}

/// A failure envelope, as text.
pub open spec fn failure_reply(status: Seq<char>, error: Seq<char>, ds: Seq<DiagnosticV>) -> Seq<char> {
    json_text(failure_value(status, error, ds))
}

/// The object of the error envelope.
pub open spec fn err_value(error: Seq<char>) -> JsonV {
    object_of(seq![("ok"@, JsonV::Bool(false)), ("error"@, JsonV::Str(error))])
}

/// What the envelopes say: a failure carries its status, its error text
/// and its evidence under `status`, `error` and `diagnostics`; the error
/// envelope carries `ok: false` and its error text.
pub proof fn law_envelopes_carry_what_they_report(status: Seq<char>, error: Seq<char>, ds: Seq<DiagnosticV>)
    ensures
        failure_reply(status, error, ds) == json_text(failure_value(status, error, ds)),
        failure_value(status, error, ds).get("status"@) == Some(JsonV::Str(status)),
        failure_value(status, error, ds).get("error"@) == Some(JsonV::Str(error)),
        failure_value(status, error, ds).get("diagnostics"@) == Some(diagnostics_json_spec(ds)),
        err_value(error).get("ok"@) == Some(JsonV::Bool(false)),
        err_value(error).get("error"@) == Some(JsonV::Str(error)),
{
    reveal_strlit("status");
    reveal_strlit("error");
    reveal_strlit("diagnostics");
    reveal_strlit("ok");
    assert("status"@.len() == 6 && "error"@.len() == 5 && "diagnostics"@.len() == 11 && "ok"@.len() == 2);
    let es = seq![
        ("status"@, JsonV::Str(status)),
        ("error"@, JsonV::Str(error)),
        ("diagnostics"@, diagnostics_json_spec(ds)),
    ];
    let m0 = crate::json::map_insert(Seq::empty(), "status"@, JsonV::Str(status));
    let m1 = crate::json::map_insert(m0, "error"@, JsonV::Str(error));
    assert(es.drop_last().drop_last().drop_last() =~= Seq::<(Seq<char>, JsonV)>::empty());
    assert(crate::json::map_from(es.drop_last().drop_last().drop_last()) == Seq::<(Seq<char>, JsonV)>::empty());
    assert(es.drop_last().drop_last().last() == ("status"@, JsonV::Str(status)));
    assert(crate::json::map_from(es.drop_last().drop_last()) == m0);
    assert(crate::json::map_from(es.drop_last()) == m1);
    assert(crate::json::map_from(es) == crate::json::map_insert(m1, "diagnostics"@, diagnostics_json_spec(ds)));
    let ks = seq!["status"@, "error"@, "diagnostics"@];
    assert forall|n: int| 0 <= n < 3 implies {
        let k = #[trigger] ks[n];
        crate::json::entry_get(crate::json::map_from(es), k) == Some(es[n].1)
    } by {
        let k = ks[n];
        crate::json::lemma_map_insert_get(Seq::empty(), "status"@, JsonV::Str(status), k);
        crate::json::lemma_map_insert_get(m0, "error"@, JsonV::Str(error), k);
        crate::json::lemma_map_insert_get(m1, "diagnostics"@, diagnostics_json_spec(ds), k);
    }
    assert(ks[0] == "status"@ && ks[1] == "error"@ && ks[2] == "diagnostics"@);
    let fs = seq![("ok"@, JsonV::Bool(false)), ("error"@, JsonV::Str(error))];
    let n0 = crate::json::map_insert(Seq::empty(), "ok"@, JsonV::Bool(false));
    assert(fs.drop_last().drop_last() =~= Seq::<(Seq<char>, JsonV)>::empty());
    assert(crate::json::map_from(fs.drop_last().drop_last()) == Seq::<(Seq<char>, JsonV)>::empty());
    assert(fs.drop_last().last() == ("ok"@, JsonV::Bool(false)));
    assert(crate::json::map_from(fs.drop_last()) == n0);
    crate::json::lemma_map_insert_get(Seq::empty(), "ok"@, JsonV::Bool(false), "ok"@);
    crate::json::lemma_map_insert_get(Seq::empty(), "ok"@, JsonV::Bool(false), "error"@);
    crate::json::lemma_map_insert_get(n0, "error"@, JsonV::Str(error), "ok"@);
    crate::json::lemma_map_insert_get(n0, "error"@, JsonV::Str(error), "error"@);
}

fn failure(status: &str, error: &str, diagnostics: &Vec<Diagnostic>) -> (r: String)
    ensures
        r@ == failure_reply(status@, error@, diagnostics_view(diagnostics@)),
{
    let mut es: Vec<(String, Json)> = Vec::new();
    es.push((owned("status"), Json::text(status)));
    es.push((owned("error"), Json::text(error)));
    es.push((owned("diagnostics"), diagnostics_json(diagnostics)));
    proof {
        lemma_entry_views_map(es@);
    }
    assert(entry_views(es@) =~= seq![
        ("status"@, JsonV::Str(status@)),
        ("error"@, JsonV::Str(error@)),
        ("diagnostics"@, diagnostics_json_spec(diagnostics_view(diagnostics@))),
    ]);
    render(&object_from(&es))
}

/// One fresh observation says the condition is not met yet. Only an
/// assertion may answer this; without an armed eventual assertion the host
/// treats it as a failure, so the message says what was observed.
pub fn not_yet(error: &str, diagnostics: &Vec<Diagnostic>) -> (r: String)
    ensures
        r@ == failure_reply("not_yet"@, error@, diagnostics_view(diagnostics@)),
{
    failure("not_yet", error, diagnostics)
}

/// The observation itself failed; retrying cannot help.
pub fn fatal(error: &str, diagnostics: &Vec<Diagnostic>) -> (r: String)
    ensures
        r@ == failure_reply("fatal"@, error@, diagnostics_view(diagnostics@)),
{
    failure("fatal", error, diagnostics)
}

} // verus!
