//! WebDriver BiDi: the event side of the session. The socket is read by the
//! caller; this module says what to subscribe to, what the subscription's
//! answer means, and folds each event into the two buffers a scenario reads
//! and the reset empties.

use vstd::prelude::*;

use crate::json::{
    at_or_null, json_parse, json_text, json_view, json_views, lemma_entry_views_map, lemma_json_views_len, object_from,
    object_of, parse_json, render, str_at, string_at, u64_at, entry_views, Json, JsonV,
};
use crate::text::{chars_of, owned, push_str, starts_with, str_eq};
use crate::weburl::{whatwg_parse, WebUrl};

verus! {

/// The events a session subscribes to.
pub open spec fn events_spec() -> Seq<Seq<char>> {
    seq!["log.entryAdded"@, "network.beforeRequestSent"@, "network.responseCompleted"@]
}

#[derive(Debug)]
pub struct ConsoleEntry {
    pub level: String,
    pub text: String,
    /// `console` for `console.*` calls, `javascript` for uncaught exceptions.
    pub source: String,
    pub timestamp: u64,
}

pub struct ConsoleEntryV {
    pub level: Seq<char>,
    pub text: Seq<char>,
    pub source: Seq<char>,
    pub timestamp: u64,
}

impl View for ConsoleEntry {
    type V = ConsoleEntryV;

    open spec fn view(&self) -> ConsoleEntryV {
        ConsoleEntryV {
            level: self.level@,
            text: self.text@,
            source: self.source@,
            timestamp: self.timestamp,
        }
    }
}

#[derive(Debug)]
pub struct NetworkEntry {
    pub request_id: String,
    pub method: String,
    pub url: String,
    pub request_headers: Vec<(String, String)>,
    pub started_at: u64,
    pub status: Option<u16>,
    pub response_headers: Vec<(String, String)>,
    pub completed_at: Option<u64>,
}

pub struct NetworkEntryV {
    pub request_id: Seq<char>,
    pub method: Seq<char>,
    pub url: Seq<char>,
    pub request_headers: Seq<(Seq<char>, Seq<char>)>,
    pub started_at: u64,
    pub status: Option<u16>,
    pub response_headers: Seq<(Seq<char>, Seq<char>)>,
    pub completed_at: Option<u64>,
}

pub open spec fn pairs_view(v: Seq<(String, String)>) -> Seq<(Seq<char>, Seq<char>)> {
    v.map_values(|p: (String, String)| (p.0@, p.1@))
}

impl View for NetworkEntry {
    type V = NetworkEntryV;

    open spec fn view(&self) -> NetworkEntryV {
        NetworkEntryV {
            request_id: self.request_id@,
            method: self.method@,
            url: self.url@,
            request_headers: pairs_view(self.request_headers@),
            started_at: self.started_at,
            status: self.status,
            response_headers: pairs_view(self.response_headers@),
            completed_at: self.completed_at,
        }
    }
}

/// What the event reader has gathered since the session opened or was
/// last reset.
#[derive(Debug)]
pub struct Buffers {
    pub console: Vec<ConsoleEntry>,
    pub network: Vec<NetworkEntry>,
}

pub struct BuffersV {
    pub console: Seq<ConsoleEntryV>,
    pub network: Seq<NetworkEntryV>,
}

pub open spec fn console_view(v: Seq<ConsoleEntry>) -> Seq<ConsoleEntryV> {
    v.map_values(|e: ConsoleEntry| e@)
}

pub open spec fn network_view(v: Seq<NetworkEntry>) -> Seq<NetworkEntryV> {
    v.map_values(|e: NetworkEntry| e@)
}

impl View for Buffers {
    type V = BuffersV;

    open spec fn view(&self) -> BuffersV {
        BuffersV { console: console_view(self.console@), network: network_view(self.network@) }
    }
}

/// The headers of a BiDi request or response: each `name` with the string
/// under `value.value`, `""` for what is missing; none when `v` is not an
/// array.
pub open spec fn headers_spec(v: JsonV) -> Seq<(Seq<char>, Seq<char>)> {
    match v {
        JsonV::Array(items) => items.map_values(
            |h: JsonV| (h.at("name"@).str_or_empty(), h.at("value"@).at("value"@).str_or_empty()),
        ),
        _ => Seq::empty(),
    }
}

pub fn headers(v: &Json) -> (r: Vec<(String, String)>)
    ensures
        pairs_view(r@) == headers_spec(v@),
{
    let mut out: Vec<(String, String)> = Vec::new();
    match v {
        Json::Array(items) => {
            proof {
                lemma_json_views_len(items@);
            }
            let mut i: usize = 0;
            while i < items.len()
                invariant
                    i <= items.len(),
                    v@ == JsonV::Array(json_views(items@)),
                    json_views(items@).len() == items@.len(),
                    forall|k: int| 0 <= k < items@.len() ==> #[trigger] json_views(items@)[k] == items@[k]@,
                    pairs_view(out@) =~= json_views(items@).take(i as int).map_values(
                        |h: JsonV|
                            (h.at("name"@).str_or_empty(), h.at("value"@).at("value"@).str_or_empty()),
                    ),
                decreases items.len() - i,
            {
                let h = &items[i];
                let name = string_at(h, "name");
                let inner = at_or_null(h, "value");
                let value = string_at(&inner, "value");
                let ghost prev = out@;
                let ghost nv = (name@, value@);
                out.push((name, value));
                proof {
                    assert(pairs_view(out@) =~= pairs_view(prev).push(nv));
                    assert(json_views(items@).take(i + 1) =~= json_views(items@).take(i as int).push(
                        items@[i as int]@,
                    ));
                }
                i = i + 1;
            }
            assert(json_views(items@).take(items.len() as int) =~= json_views(items@));
        },
        _ => {},
    }
    out
}

/// A status that fits in a `u16`, `u16::try_from(n).ok()`.
pub open spec fn status_of(n: Option<u64>) -> Option<u16> {
    match n {
        Some(s) => if s <= 0xffff {
            Some(s as u16)
        } else {
            None
        },
        None => None,
    }
}

/// The most recent entry for the request `id`.
pub open spec fn last_with_id(ns: Seq<NetworkEntryV>, id: Seq<char>) -> Option<int>
    decreases ns.len(),
{
    if ns.len() == 0 {
        None
    } else if ns.last().request_id == id {
        Some(ns.len() - 1)
    } else {
        last_with_id(ns.drop_last(), id)
    }
}

/// The console entry a `log.entryAdded` event makes.
pub open spec fn console_event(p: JsonV) -> ConsoleEntryV {
    ConsoleEntryV {
        level: p.at("level"@).str_or_empty(),
        text: p.at("text"@).str_or_empty(),
        source: match p.at("type"@).as_str() {
            Some(s) => s,
            None => "console"@,
        },
        timestamp: match p.at("timestamp"@).as_u64() {
            Some(t) => t,
            None => 0,
        },
    }
}

/// The request a `network.beforeRequestSent` event makes, not yet answered.
pub open spec fn request_event(p: JsonV) -> NetworkEntryV {
    NetworkEntryV {
        request_id: p.at("request"@).at("request"@).str_or_empty(),
        method: p.at("request"@).at("method"@).str_or_empty(),
        url: p.at("request"@).at("url"@).str_or_empty(),
        request_headers: headers_spec(p.at("request"@).at("headers"@)),
        started_at: match p.at("timestamp"@).as_u64() {
            Some(t) => t,
            None => 0,
        },
        status: None,
        response_headers: Seq::empty(),
        completed_at: None,
    }
}

/// A request with the answer a `network.responseCompleted` event reports.
pub open spec fn completed(e: NetworkEntryV, p: JsonV) -> NetworkEntryV {
    NetworkEntryV {
        status: status_of(p.at("response"@).at("status"@).as_u64()),
        response_headers: headers_spec(p.at("response"@).at("headers"@)),
        completed_at: p.at("timestamp"@).as_u64(),
        ..e
    }
}

/// One BiDi message folded in: a console entry appended, a request
/// appended, or a response joined onto the most recent request with its
/// id. Anything else, command replies included, changes nothing.
pub open spec fn apply_spec(b: BuffersV, m: JsonV) -> BuffersV {
    let p = m.at("params"@);
    let method = m.at("method"@).as_str();
    if method == Some("log.entryAdded"@) {
        BuffersV { console: b.console.push(console_event(p)), ..b }
    } else if method == Some("network.beforeRequestSent"@) {
        BuffersV { network: b.network.push(request_event(p)), ..b }
    } else if method == Some("network.responseCompleted"@) {
        match last_with_id(b.network, p.at("request"@).at("request"@).str_or_empty()) {
            Some(i) => BuffersV { network: b.network.update(i, completed(b.network[i], p)), ..b },
            None => b,
        }
    } else {
        b
    }
}

/// The console entries at level `error`, in order.
pub open spec fn errors_spec(cs: Seq<ConsoleEntryV>) -> Seq<ConsoleEntryV>
    decreases cs.len(),
{
    if cs.len() == 0 {
        Seq::empty()
    } else if cs.last().level == "error"@ {
        errors_spec(cs.drop_last()).push(cs.last())
    } else {
        errors_spec(cs.drop_last())
    }
}

/// Whether `url` parses and its path starts with `prefix`.
pub open spec fn path_starts_spec(url: Seq<char>, prefix: Seq<char>) -> bool {
    match whatwg_parse(url) {
        Ok(u) => prefix.is_prefix_of(u.path),
        Err(_) => false,
    }
}

/// The most recent request whose URL path starts with `prefix`.
pub open spec fn last_to_spec(ns: Seq<NetworkEntryV>, prefix: Seq<char>) -> Option<int>
    decreases ns.len(),
{
    if ns.len() == 0 {
        None
    } else if path_starts_spec(ns.last().url, prefix) {
        Some(ns.len() - 1)
    } else {
        last_to_spec(ns.drop_last(), prefix)
    }
}

pub fn path_starts_with(url: &str, prefix: &str) -> (r: bool)
    ensures
        r == path_starts_spec(url@, prefix@),
{
    match WebUrl::parse(url) {
        Ok(u) => {
            let p = chars_of(u.path());
            let q = chars_of(prefix);
            starts_with(&p, &q)
        },
        Err(_) => false,
    }
}

fn copy_pairs(v: &Vec<(String, String)>) -> (r: Vec<(String, String)>)
    ensures
        pairs_view(r@) == pairs_view(v@),
{
    let mut out: Vec<(String, String)> = Vec::new();
    let mut i: usize = 0;
    while i < v.len()
        invariant
            i <= v.len(),
            pairs_view(out@) =~= pairs_view(v@.take(i as int)),
        decreases v.len() - i,
    {
        let ghost prev = out@;
        out.push((v[i].0.clone(), v[i].1.clone()));
        proof {
            assert(pairs_view(out@) =~= pairs_view(prev).push((v@[i as int].0@, v@[i as int].1@)));
            assert(v@.take(i + 1) =~= v@.take(i as int).push(v@[i as int]));
        }
        i = i + 1;
    }
    assert(v@.take(v.len() as int) =~= v@);
    out
}

impl ConsoleEntry {
    pub fn duplicate(&self) -> (r: ConsoleEntry)
        ensures
            r@ == self@,
    {
        ConsoleEntry {
            level: self.level.clone(),
            text: self.text.clone(),
            source: self.source.clone(),
            timestamp: self.timestamp,
        }
    }
}

impl NetworkEntry {
    pub fn duplicate(&self) -> (r: NetworkEntry)
        ensures
            r@ == self@,
    {
        NetworkEntry {
            request_id: self.request_id.clone(),
            method: self.method.clone(),
            url: self.url.clone(),
            request_headers: copy_pairs(&self.request_headers),
            started_at: self.started_at,
            status: self.status,
            response_headers: copy_pairs(&self.response_headers),
            completed_at: self.completed_at,
        }
    }
}

fn last_index_with_id(ns: &Vec<NetworkEntry>, id: &str) -> (r: Option<usize>)
    ensures
        match r {
            Some(i) => last_with_id(network_view(ns@), id@) == Some(i as int) && i < ns@.len(),
            None => last_with_id(network_view(ns@), id@) is None,
        },
{
    let ghost nv = network_view(ns@);
    let mut j: usize = ns.len();
    assert(nv.take(j as int) =~= nv);
    while j > 0
        invariant
            j <= ns.len(),
            nv == network_view(ns@),
            last_with_id(nv, id@) == last_with_id(nv.take(j as int), id@),
        decreases j,
    {
        assert(nv.take(j as int).last() == ns@[j - 1]@);
        if str_eq(ns[j - 1].request_id.as_str(), id) {
            return Some(j - 1);
        }
        assert(nv.take(j as int).drop_last() =~= nv.take(j - 1));
        j = j - 1;
    }
    None
}

fn last_index_to(ns: &Vec<NetworkEntry>, prefix: &str) -> (r: Option<usize>)
    ensures
        match r {
            Some(i) => last_to_spec(network_view(ns@), prefix@) == Some(i as int) && i < ns@.len(),
            None => last_to_spec(network_view(ns@), prefix@) is None,
        },
{
    let ghost nv = network_view(ns@);
    let mut j: usize = ns.len();
    assert(nv.take(j as int) =~= nv);
    while j > 0
        invariant
            j <= ns.len(),
            nv == network_view(ns@),
            last_to_spec(nv, prefix@) == last_to_spec(nv.take(j as int), prefix@),
        decreases j,
    {
        assert(nv.take(j as int).last() == ns@[j - 1]@);
        if path_starts_with(ns[j - 1].url.as_str(), prefix) {
            return Some(j - 1);
        }
        assert(nv.take(j as int).drop_last() =~= nv.take(j - 1));
        j = j - 1;
    }
    None
}

impl Buffers {
    /// A copy of both buffers as they stand.
    pub fn snapshot(&self) -> (r: Buffers)
        ensures
            r@ == self@,
    {
        let mut console: Vec<ConsoleEntry> = Vec::new();
        let mut i: usize = 0;
        while i < self.console.len()
            invariant
                i <= self.console.len(),
                console_view(console@) =~= console_view(self.console@.take(i as int)),
            decreases self.console.len() - i,
        {
            let ghost prev = console@;
            let e = self.console[i].duplicate();
            console.push(e);
            proof {
                assert(console_view(console@) =~= console_view(prev).push(self.console@[i as int]@));
                assert(self.console@.take(i + 1) =~= self.console@.take(i as int).push(self.console@[i as int]));
            }
            i = i + 1;
        }
        let mut network: Vec<NetworkEntry> = Vec::new();
        let mut k: usize = 0;
        while k < self.network.len()
            invariant
                k <= self.network.len(),
                network_view(network@) =~= network_view(self.network@.take(k as int)),
            decreases self.network.len() - k,
        {
            let ghost prev = network@;
            let e = self.network[k].duplicate();
            network.push(e);
            proof {
                assert(network_view(network@) =~= network_view(prev).push(self.network@[k as int]@));
                assert(self.network@.take(k + 1) =~= self.network@.take(k as int).push(self.network@[k as int]));
            }
            k = k + 1;
        }
        assert(self.console@.take(self.console.len() as int) =~= self.console@);
        assert(self.network@.take(self.network.len() as int) =~= self.network@);
        Buffers { console, network }
    }

    pub fn new() -> (r: Buffers)
        ensures
            r@.console.len() == 0,
            r@.network.len() == 0,
    {
        Buffers { console: Vec::new(), network: Vec::new() }
    }

    pub fn clear(&mut self)
        ensures
            final(self)@.console.len() == 0,
            final(self)@.network.len() == 0,
    {
        self.console.clear();
        self.network.clear();
    }

    /// Folds one BiDi message in.
    pub fn apply(&mut self, message: &Json)
        ensures
            final(self)@ == apply_spec(old(self)@, message@),
    {
        let ghost before = self@;
        let p = at_or_null(message, "params");
        let method = at_or_null(message, "method");
        let is = |name: &str| -> (r: bool)
            ensures
                r == (method@.as_str() == Some(name@)),
            {
                match method.as_str() {
                    Some(m) => str_eq(m, name),
                    None => false,
                }
            };
        if is("log.entryAdded") {
            let source = match str_at(&p, "type") {
                Some(s) => owned(s),
                None => owned("console"),
            };
            let entry = ConsoleEntry {
                level: string_at(&p, "level"),
                text: string_at(&p, "text"),
                source,
                timestamp: match u64_at(&p, "timestamp") {
                    Some(t) => t,
                    None => 0,
                },
            };
            let ghost ev = entry@;
            self.console.push(entry);
            assert(console_view(self.console@) =~= before.console.push(ev));
        } else if is("network.beforeRequestSent") {
            let req = at_or_null(&p, "request");
            let hs = at_or_null(&req, "headers");
            let entry = NetworkEntry {
                request_id: string_at(&req, "request"),
                method: string_at(&req, "method"),
                url: string_at(&req, "url"),
                request_headers: headers(&hs),
                started_at: match u64_at(&p, "timestamp") {
                    Some(t) => t,
                    None => 0,
                },
                status: None,
                response_headers: Vec::new(),
                completed_at: None,
            };
            let ghost ev = entry@;
            assert(pairs_view(Seq::<(String, String)>::empty()) =~= Seq::<(Seq<char>, Seq<char>)>::empty());
            self.network.push(entry);
            assert(network_view(self.network@) =~= before.network.push(ev));
        } else if is("network.responseCompleted") {
            let req = at_or_null(&p, "request");
            let id = string_at(&req, "request");
            match last_index_with_id(&self.network, id.as_str()) {
                Some(i) => {
                    let resp = at_or_null(&p, "response");
                    let hs = at_or_null(&resp, "headers");
                    let status = match u64_at(&resp, "status") {
                        Some(s) => if s <= 0xffff {
                            Some(s as u16)
                        } else {
                            None
                        },
                        None => None,
                    };
                    let old = &self.network[i];
                    let updated = NetworkEntry {
                        request_id: old.request_id.clone(),
                        method: old.method.clone(),
                        url: old.url.clone(),
                        request_headers: copy_pairs(&old.request_headers),
                        started_at: old.started_at,
                        status,
                        response_headers: headers(&hs),
                        completed_at: u64_at(&p, "timestamp"),
                    };
                    let ghost uv = updated@;
                    self.network.set(i, updated);
                    assert(uv == completed(before.network[i as int], p@));
                    assert(network_view(self.network@) =~= before.network.update(i as int, uv));
                },
                None => {},
            }
        }
    }

    /// The console entries at level `error`.
    pub fn errors(&self) -> (r: Vec<ConsoleEntry>)
        ensures
            console_view(r@) == errors_spec(self@.console),
    {
        let mut out: Vec<ConsoleEntry> = Vec::new();
        let mut i: usize = 0;
        while i < self.console.len()
            invariant
                i <= self.console.len(),
                console_view(out@) == errors_spec(console_view(self.console@.take(i as int))),
            decreases self.console.len() - i,
        {
            let ghost prev = out@;
            assert(console_view(self.console@.take(i + 1)).drop_last() =~= console_view(
                self.console@.take(i as int),
            ));
            assert(console_view(self.console@.take(i + 1)).last() == self.console@[i as int]@);
            if str_eq(self.console[i].level.as_str(), "error") {
                out.push(self.console[i].duplicate());
                assert(console_view(out@) =~= console_view(prev).push(self.console@[i as int]@));
            }
            i = i + 1;
        }
        assert(self.console@.take(self.console.len() as int) =~= self.console@);
        out
    }

    /// The most recent request whose URL path starts with `prefix`, any method.
    pub fn last_to(&self, prefix: &str) -> (r: Option<&NetworkEntry>)
        ensures
            match r {
                Some(e) => exists|i: int|
                    last_to_spec(self@.network, prefix@) == Some(i) && 0 <= i < self.network@.len()
                        && *e == self.network@[i],
                None => last_to_spec(self@.network, prefix@) is None,
            },
    {
        match last_index_to(&self.network, prefix) {
            Some(i) => Some(&self.network[i]),
            None => None,
        }
    }
}


/// A console entry as `console.json` holds it.
pub open spec fn console_entry_json(e: ConsoleEntryV) -> JsonV {
    object_of(
        seq![
            ("level"@, JsonV::Str(e.level)),
            ("text"@, JsonV::Str(e.text)),
            ("source"@, JsonV::Str(e.source)),
            ("timestamp"@, JsonV::UInt(e.timestamp)),
        ],
    )
}

/// Header pairs as two-element arrays.
pub open spec fn pairs_json(ps: Seq<(Seq<char>, Seq<char>)>) -> JsonV {
    JsonV::Array(
        ps.map_values(
            |p: (Seq<char>, Seq<char>)| JsonV::Array(seq![JsonV::Str(p.0), JsonV::Str(p.1)]),
        ),
    )
}

pub open spec fn number_or_null(n: Option<u64>) -> JsonV {
    match n {
        Some(x) => JsonV::UInt(x),
        None => JsonV::Null,
    }
}

pub open spec fn widen(n: Option<u16>) -> Option<u64> {
    match n {
        Some(x) => Some(x as u64),
        None => None,
    }
}

/// A request as `network.json` holds it: no bodies, ever.
pub open spec fn network_entry_json(e: NetworkEntryV) -> JsonV {
    object_of(
        seq![
            ("request_id"@, JsonV::Str(e.request_id)),
            ("method"@, JsonV::Str(e.method)),
            ("url"@, JsonV::Str(e.url)),
            ("request_headers"@, pairs_json(e.request_headers)),
            ("started_at"@, JsonV::UInt(e.started_at)),
            ("status"@, number_or_null(widen(e.status))),
            ("response_headers"@, pairs_json(e.response_headers)),
            ("completed_at"@, number_or_null(e.completed_at)),
        ],
    )
}

fn pairs_to_json(ps: &Vec<(String, String)>) -> (r: Json)
    ensures
        r@ == pairs_json(pairs_view(ps@)),
{
    let mut out: Vec<Json> = Vec::new();
    let mut i: usize = 0;
    while i < ps.len()
        invariant
            i <= ps.len(),
            json_views(out@) =~= pairs_view(ps@.take(i as int)).map_values(
                |p: (Seq<char>, Seq<char>)| JsonV::Array(seq![JsonV::Str(p.0), JsonV::Str(p.1)]),
            ),
        decreases ps.len() - i,
    {
        let mut pair: Vec<Json> = Vec::new();
        pair.push(Json::Str(ps[i].0.clone()));
        pair.push(Json::Str(ps[i].1.clone()));
        proof {
            lemma_json_views_len(pair@);
            assert(json_views(pair@) =~= seq![JsonV::Str(ps@[i as int].0@), JsonV::Str(ps@[i as int].1@)]);
        }
        let ghost prev = out@;
        let ghost pv = (ps@[i as int].0@, ps@[i as int].1@);
        out.push(Json::Array(pair));
        proof {
            assert(out@.drop_last() =~= prev);
            assert(ps@.take(i + 1) =~= ps@.take(i as int).push(ps@[i as int]));
            assert(pairs_view(ps@.take(i + 1)) =~= pairs_view(ps@.take(i as int)).push(pv));
            let f = |p: (Seq<char>, Seq<char>)| JsonV::Array(seq![JsonV::Str(p.0), JsonV::Str(p.1)]);
            assert(pairs_view(ps@.take(i + 1)).map_values(f) =~= pairs_view(ps@.take(i as int)).map_values(
                f,
            ).push(f(pv)));
            assert(json_view(out@.last()) == f(pv));
            assert(json_views(out@) =~= json_views(prev).push(f(pv)));
        }
        i = i + 1;
    }
    assert(ps@.take(ps.len() as int) =~= ps@);
    Json::Array(out)
}

fn number_json(n: Option<u64>) -> (r: Json)
    ensures
        r@ == number_or_null(n),
{
    match n {
        Some(x) => Json::UInt(x),
        None => Json::Null,
    }
}

impl ConsoleEntry {
    pub fn to_json(&self) -> (r: Json)
        ensures
            r@ == console_entry_json(self@),
    {
        let mut es: Vec<(String, Json)> = Vec::new();
        es.push((owned("level"), Json::Str(self.level.clone())));
        es.push((owned("text"), Json::Str(self.text.clone())));
        es.push((owned("source"), Json::Str(self.source.clone())));
        es.push((owned("timestamp"), Json::UInt(self.timestamp)));
        proof {
            lemma_entry_views_map(es@);
        }
        assert(entry_views(es@) =~= seq![
            ("level"@, JsonV::Str(self.level@)),
            ("text"@, JsonV::Str(self.text@)),
            ("source"@, JsonV::Str(self.source@)),
            ("timestamp"@, JsonV::UInt(self.timestamp)),
        ]);
        object_from(&es)
    }
}

impl NetworkEntry {
    pub fn to_json(&self) -> (r: Json)
        ensures
            r@ == network_entry_json(self@),
    {
        let mut es: Vec<(String, Json)> = Vec::new();
        es.push((owned("request_id"), Json::Str(self.request_id.clone())));
        es.push((owned("method"), Json::Str(self.method.clone())));
        es.push((owned("url"), Json::Str(self.url.clone())));
        es.push((owned("request_headers"), pairs_to_json(&self.request_headers)));
        es.push((owned("started_at"), Json::UInt(self.started_at)));
        let status = match self.status {
            Some(x) => Some(x as u64),
            None => None,
        };
        es.push((owned("status"), number_json(status)));
        es.push((owned("response_headers"), pairs_to_json(&self.response_headers)));
        es.push((owned("completed_at"), number_json(self.completed_at)));
        proof {
            lemma_entry_views_map(es@);
        }
        assert(entry_views(es@) =~= seq![
            ("request_id"@, JsonV::Str(self.request_id@)),
            ("method"@, JsonV::Str(self.method@)),
            ("url"@, JsonV::Str(self.url@)),
            ("request_headers"@, pairs_json(pairs_view(self.request_headers@))),
            ("started_at"@, JsonV::UInt(self.started_at)),
            ("status"@, number_or_null(widen(self.status))),
            ("response_headers"@, pairs_json(pairs_view(self.response_headers@))),
            ("completed_at"@, number_or_null(self.completed_at)),
        ]);
        object_from(&es)
    }
}

impl Buffers {
    /// The console entries as the array `console.json` holds.
    pub fn console_json(&self) -> (r: Json)
        ensures
            r@ == JsonV::Array(self@.console.map_values(|e: ConsoleEntryV| console_entry_json(e))),
    {
        let mut out: Vec<Json> = Vec::new();
        let mut i: usize = 0;
        while i < self.console.len()
            invariant
                i <= self.console.len(),
                json_views(out@) =~= console_view(self.console@.take(i as int)).map_values(
                    |e: ConsoleEntryV| console_entry_json(e),
                ),
            decreases self.console.len() - i,
        {
            let j = self.console[i].to_json();
            let ghost prev = out@;
            out.push(j);
            proof {
                assert(out@.drop_last() =~= prev);
                assert(self.console@.take(i + 1) =~= self.console@.take(i as int).push(self.console@[i as int]));
            }
            i = i + 1;
        }
        assert(self.console@.take(self.console.len() as int) =~= self.console@);
        Json::Array(out)
    }

    /// The requests as the array `network.json` holds.
    pub fn network_json(&self) -> (r: Json)
        ensures
            r@ == JsonV::Array(self@.network.map_values(|e: NetworkEntryV| network_entry_json(e))),
    {
        let mut out: Vec<Json> = Vec::new();
        let mut i: usize = 0;
        while i < self.network.len()
            invariant
                i <= self.network.len(),
                json_views(out@) =~= network_view(self.network@.take(i as int)).map_values(
                    |e: NetworkEntryV| network_entry_json(e),
                ),
            decreases self.network.len() - i,
        {
            let j = self.network[i].to_json();
            let ghost prev = out@;
            out.push(j);
            proof {
                assert(out@.drop_last() =~= prev);
                assert(self.network@.take(i + 1) =~= self.network@.take(i as int).push(self.network@[i as int]));
            }
            i = i + 1;
        }
        assert(self.network@.take(self.network.len() as int) =~= self.network@);
        Json::Array(out)
    }
}

/// The `session.subscribe` command, sent as the first message of a socket.
pub open spec fn subscribe_spec() -> JsonV {
    object_of(
        seq![
            ("id"@, JsonV::UInt(1)),
            ("method"@, JsonV::Str("session.subscribe"@)),
            (
                "params"@,
                object_of(
                    seq![("events"@, JsonV::Array(events_spec().map_values(|e: Seq<char>| JsonV::Str(e))))],
                ),
            ),
        ],
    )
}

pub fn subscribe_message() -> (r: String)
    ensures
        r@ == json_text(subscribe_spec()),
{
    let mut events: Vec<Json> = Vec::new();
    events.push(Json::text("log.entryAdded"));
    events.push(Json::text("network.beforeRequestSent"));
    events.push(Json::text("network.responseCompleted"));
    proof {
        lemma_json_views_len(events@);
    }
    assert(json_views(events@) =~= events_spec().map_values(|e: Seq<char>| JsonV::Str(e)));
    let params = crate::json::object1("events", Json::Array(events));
    let mut es: Vec<(String, Json)> = Vec::new();
    es.push((owned("id"), Json::UInt(1)));
    es.push((owned("method"), Json::text("session.subscribe")));
    es.push((owned("params"), params));
    proof {
        lemma_entry_views_map(es@);
    }
    assert(entry_views(es@) =~= seq![
        ("id"@, JsonV::UInt(1)),
        ("method"@, JsonV::Str("session.subscribe"@)),
        (
            "params"@,
            object_of(seq![("events"@, JsonV::Array(events_spec().map_values(|e: Seq<char>| JsonV::Str(e))))]),
        ),
    ]);
    render(&object_from(&es))
}

/// What one message read while waiting for the subscription's answer
/// means: keep waiting (`Ok(false)`), subscribed (`Ok(true)`), or the
/// reason the socket cannot be used. `parsed` is `text` read as JSON.
pub open spec fn subscribe_answer_spec(
    text: Seq<char>,
    parsed: Result<JsonV, Seq<char>>,
) -> Result<bool, Seq<char>> {
    match parsed {
        Err(e) => Err("BiDi reply is not JSON: "@ + e),
        Ok(v) => if v.at("id"@) == JsonV::UInt(1) {
            if v.at("type"@).as_str() != Some("success"@) {
                Err(
                    "BiDi subscribe refused: "@ + match v.at("message"@).as_str() {
                        Some(m) => m,
                        None => text,
                    },
                )
            } else {
                Ok(true)
            }
        } else {
            Ok(false)
        },
    }
}

/// Reads one message that came while waiting for the subscribe reply: it
/// is read as JSON here. `Ok(true)` is the reply and it succeeded,
/// `Ok(false)` another message.
pub fn subscribe_answer(text: &str) -> (r: Result<bool, String>)
    ensures
        match r {
            Ok(b) => subscribe_answer_spec(text@, json_parse(text@)) == Ok::<bool, Seq<char>>(b),
            Err(e) => subscribe_answer_spec(text@, json_parse(text@)) == Err::<bool, Seq<char>>(e@),
        },
{
    let parsed = parse_json(text);
    subscribe_answer_of(text, parsed)
}

/// The same decision, given `parsed`, the message read as JSON or the
/// reader's complaint.
pub fn subscribe_answer_of(text: &str, parsed: Result<Json, String>) -> (r: Result<bool, String>)
    ensures
        match r {
            Ok(b) => subscribe_answer_spec(text@, crate::webdriver::parsed_view(parsed)) == Ok::<
                bool,
                Seq<char>,
            >(b),
            Err(e) => subscribe_answer_spec(text@, crate::webdriver::parsed_view(parsed)) == Err::<
                bool,
                Seq<char>,
            >(e@),
        },
{
    match parsed {
        Err(e) => {
            let mut m = owned("BiDi reply is not JSON: ");
            push_str(&mut m, e.as_str());
            Err(m)
        },
        Ok(v) => {
            let is_one = match u64_at(&v, "id") {
                Some(n) => n == 1,
                None => false,
            };
            if is_one {
                let success = match str_at(&v, "type") {
                    Some(t) => str_eq(t, "success"),
                    None => false,
                };
                if !success {
                    let mut m = owned("BiDi subscribe refused: ");
                    match str_at(&v, "message") {
                        Some(x) => push_str(&mut m, x),
                        None => push_str(&mut m, text),
                    }
                    Err(m)
                } else {
                    Ok(true)
                }
            } else {
                Ok(false)
            }
        },
    }
}

/// What reading the socket once gave.
pub enum ReadEvent {
    /// A text message.
    Text(String),
    /// The peer closed the socket, or it was closed already.
    Closed,
    /// Nothing arrived within the read timeout.
    TimedOut,
    /// A message that is not text: binary, ping, pong, a raw frame.
    Other,
    /// Any other read error.
    Failed,
}

/// The reader's decision on one read: a text message is read as JSON and,
/// when it is JSON, folded into the buffers; everything else leaves them
/// alone. Reading goes on unless the socket closed or failed.
pub fn on_read(buffers: &mut Buffers, event: ReadEvent) -> (keep_reading: bool)
    ensures
        match event {
            ReadEvent::Text(t) => match json_parse(t@) {
                Ok(v) => final(buffers)@ == apply_spec(old(buffers)@, v),
                Err(_) => final(buffers)@ == old(buffers)@,
            },
            _ => final(buffers)@ == old(buffers)@,
        },
        keep_reading == !(event is Closed || event is Failed),
{
    match event {
        ReadEvent::Text(t) => {
            match parse_json(t.as_str()) {
                Ok(v) => buffers.apply(&v),
                Err(_) => {},
            }
            true
        },
        ReadEvent::Closed => false,
        ReadEvent::TimedOut => true,
        ReadEvent::Other => true,
        ReadEvent::Failed => false,
    }
}

/// A message that is none of the subscribed events (a command reply, any
/// other event) leaves both buffers as they were.
pub proof fn law_other_messages_change_nothing(b: BuffersV, m: JsonV)
    requires
        !(m.at("method"@).as_str() matches Some(x) && events_spec().contains(x)),
    ensures
        apply_spec(b, m) == b,
{
    reveal_strlit("log.entryAdded");
    reveal_strlit("network.beforeRequestSent");
    reveal_strlit("network.responseCompleted");
    match m.at("method"@).as_str() {
        Some(x) => {
            if x == "log.entryAdded"@ {
                assert(events_spec()[0] == x);
            } else if x == "network.beforeRequestSent"@ {
                assert(events_spec()[1] == x);
            } else if x == "network.responseCompleted"@ {
                assert(events_spec()[2] == x);
            }
        },
        None => {},
    }
}

/// A response is joined onto the most recent request with its id: that
/// entry keeps what the request said and takes the response's status,
/// headers and time; no other entry changes and nothing is added.
pub proof fn law_response_joins_its_request(b: BuffersV, m: JsonV, i: int)
    requires
        m.at("method"@).as_str() == Some("network.responseCompleted"@),
        last_with_id(b.network, m.at("params"@).at("request"@).at("request"@).str_or_empty()) == Some(i),
    ensures
        apply_spec(b, m).console == b.console,
        apply_spec(b, m).network.len() == b.network.len(),
        forall|j: int| 0 <= j < b.network.len() && j != i ==> apply_spec(b, m).network[j] == b.network[j],
        apply_spec(b, m).network[i] == completed(b.network[i], m.at("params"@)),
        apply_spec(b, m).network[i].request_id == b.network[i].request_id,
        apply_spec(b, m).network[i].method == b.network[i].method,
        apply_spec(b, m).network[i].url == b.network[i].url,
{
    reveal_strlit("log.entryAdded");
    reveal_strlit("network.beforeRequestSent");
    reveal_strlit("network.responseCompleted");
    assert("network.responseCompleted"@ != "log.entryAdded"@) by {
        assert("network.responseCompleted"@.len() != "log.entryAdded"@.len());
    }
    assert("network.responseCompleted"@ != "network.beforeRequestSent"@) by {
        assert("network.responseCompleted"@[8] != "network.beforeRequestSent"@[8]);
    }
    lemma_last_with_id_range(b.network, m.at("params"@).at("request"@).at("request"@).str_or_empty());
}

proof fn lemma_last_with_id_range(ns: Seq<NetworkEntryV>, id: Seq<char>)
    ensures
        match last_with_id(ns, id) {
            Some(i) => 0 <= i < ns.len() && ns[i].request_id == id,
            None => true,
        },
    decreases ns.len(),
{
    if ns.len() > 0 && ns.last().request_id != id {
        lemma_last_with_id_range(ns.drop_last(), id);
    }
}

/// Every subscribed event that is not a response adds exactly one entry at
/// the end of its buffer and leaves what was there untouched.
pub proof fn law_events_append(b: BuffersV, m: JsonV)
    requires
        m.at("method"@).as_str() == Some("log.entryAdded"@) || m.at("method"@).as_str() == Some(
            "network.beforeRequestSent"@,
        ),
    ensures
        apply_spec(b, m).console.len() + apply_spec(b, m).network.len() == b.console.len()
            + b.network.len() + 1,
        apply_spec(b, m).console.take(b.console.len() as int) == b.console,
        apply_spec(b, m).network.take(b.network.len() as int) == b.network,
{
    reveal_strlit("log.entryAdded");
    reveal_strlit("network.beforeRequestSent");
    let r = apply_spec(b, m);
    assert(r.console.take(b.console.len() as int) =~= b.console);
    assert(r.network.take(b.network.len() as int) =~= b.network);
}

/// The request a path search answers is the most recent one whose URL path
/// starts with the prefix: it matches, and no later request does. When
/// none is answered, no request matches.
pub proof fn law_last_to_is_the_most_recent_match(ns: Seq<NetworkEntryV>, prefix: Seq<char>)
    ensures
        match last_to_spec(ns, prefix) {
            Some(i) => 0 <= i < ns.len() && path_starts_spec(ns[i].url, prefix) && forall|j: int|
                i < j < ns.len() ==> !path_starts_spec(#[trigger] ns[j].url, prefix),
            None => forall|j: int| 0 <= j < ns.len() ==> !path_starts_spec(#[trigger] ns[j].url, prefix),
        },
    decreases ns.len(),
{
    if ns.len() > 0 {
        let t = ns.drop_last();
        law_last_to_is_the_most_recent_match(t, prefix);
        assert forall|j: int| 0 <= j < t.len() implies #[trigger] t[j] == ns[j] by {}
        if !path_starts_spec(ns.last().url, prefix) {
            match last_to_spec(t, prefix) {
                Some(i) => {
                    assert forall|j: int| i < j < ns.len() implies !path_starts_spec(#[trigger] ns[j].url, prefix) by {
                        if j < ns.len() - 1 {
                            assert(t[j] == ns[j]);
                        }
                    }
                },
                None => {
                    assert forall|j: int| 0 <= j < ns.len() implies !path_starts_spec(#[trigger] ns[j].url, prefix) by {
                        if j < ns.len() - 1 {
                            assert(t[j] == ns[j]);
                        }
                    }
                },
            }
        }
    }
}


/// Whether a console entry was logged at level `error`.
pub open spec fn at_error_level() -> spec_fn(ConsoleEntryV) -> bool {
    |e: ConsoleEntryV| e.level == "error"@
}

/// The console errors are exactly the entries logged at level `error`, in
/// the order they were logged: nothing else, none left out.
pub proof fn law_errors_are_the_error_level_entries(cs: Seq<ConsoleEntryV>)
    ensures
        errors_spec(cs) == cs.filter(at_error_level()),
        forall|i: int| 0 <= i < errors_spec(cs).len() ==> #[trigger] errors_spec(cs)[i].level == "error"@,
    decreases cs.len(),
{
    if cs.len() > 0 {
        law_errors_are_the_error_level_entries(cs.drop_last());
        reveal(Seq::filter);
        assert(cs.filter(at_error_level()) == if at_error_level()(cs.last()) {
            cs.drop_last().filter(at_error_level()).push(cs.last())
        } else {
            cs.drop_last().filter(at_error_level())
        });
    }
    cs.filter_lemma(at_error_level());
}

proof fn lemma_last_with_id(ns: Seq<NetworkEntryV>, id: Seq<char>)
    ensures
        match last_with_id(ns, id) {
            Some(i) => 0 <= i < ns.len() && ns[i].request_id == id && forall|j: int|
                i < j < ns.len() ==> #[trigger] ns[j].request_id != id,
            None => forall|j: int| 0 <= j < ns.len() ==> #[trigger] ns[j].request_id != id,
        },
    decreases ns.len(),
{
    if ns.len() > 0 {
        let t = ns.drop_last();
        lemma_last_with_id(t, id);
        assert forall|j: int| 0 <= j < t.len() implies #[trigger] t[j] == ns[j] by {}
        if ns.last().request_id != id {
            assert(ns[ns.len() - 1].request_id != id);
            match last_with_id(t, id) {
                Some(i) => {
                    assert forall|j: int| i < j < ns.len() implies #[trigger] ns[j].request_id != id by {
                        if j < ns.len() - 1 {
                            assert(t[j].request_id != id);
                        }
                    }
                },
                None => {
                    assert forall|j: int| 0 <= j < ns.len() implies #[trigger] ns[j].request_id != id by {
                        if j < ns.len() - 1 {
                            assert(t[j].request_id != id);
                        }
                    }
                },
            }
        }
    }
}

/// Each event records what it says: a console event appends an entry with
/// its level and text; a request event appends a request with its id,
/// method and URL, not yet answered; a response event gives its status to
/// the most recent request with its id, and changes nothing when no request
/// has that id.
pub proof fn law_events_record_what_they_say(b: BuffersV, m: JsonV, k: int)
    ensures
        m.at("method"@) == JsonV::Str("log.entryAdded"@) ==> ({
            let e = apply_spec(b, m).console.last();
            &&& apply_spec(b, m).console.len() == b.console.len() + 1
            &&& (m.at("params"@).at("level"@) matches JsonV::Str(l) ==> e.level == l)
            &&& (m.at("params"@).at("text"@) matches JsonV::Str(t) ==> e.text == t)
        }),
        m.at("method"@) == JsonV::Str("network.beforeRequestSent"@) ==> ({
            let e = apply_spec(b, m).network.last();
            let r = m.at("params"@).at("request"@);
            &&& apply_spec(b, m).network.len() == b.network.len() + 1
            &&& (r.at("request"@) matches JsonV::Str(x) ==> e.request_id == x)
            &&& (r.at("method"@) matches JsonV::Str(x) ==> e.method == x)
            &&& (r.at("url"@) matches JsonV::Str(x) ==> e.url == x)
            &&& e.status is None
        }),
        m.at("method"@) == JsonV::Str("network.responseCompleted"@) && m.at("params"@).at("request"@).at(
            "request"@,
        ) == JsonV::Str(b.network[k].request_id) && 0 <= k < b.network.len() && (forall|j: int|
            k < j < b.network.len() ==> #[trigger] b.network[j].request_id != b.network[k].request_id) ==> ({
            let st = m.at("params"@).at("response"@).at("status"@);
            &&& apply_spec(b, m).network.len() == b.network.len()
            &&& apply_spec(b, m).network[k].method == b.network[k].method
            &&& apply_spec(b, m).network[k].url == b.network[k].url
            &&& match st {
                JsonV::UInt(n) => n <= 0xffff ==> apply_spec(b, m).network[k].status == Some(n as u16),
                _ => true,
            }
        }),
        m.at("method"@) == JsonV::Str("network.responseCompleted"@) ==> match m.at("params"@).at("request"@).at(
            "request"@,
        ) {
            JsonV::Str(id) => (forall|j: int| 0 <= j < b.network.len() ==> #[trigger] b.network[j].request_id != id)
                ==> apply_spec(b, m) == b,
            _ => true,
        },
{
    reveal_strlit("log.entryAdded");
    reveal_strlit("network.beforeRequestSent");
    reveal_strlit("network.responseCompleted");
    let p = m.at("params"@);
    let id = p.at("request"@).at("request"@).str_or_empty();
    assert("network.beforeRequestSent"@.len() != "log.entryAdded"@.len());
    assert("network.responseCompleted"@.len() != "log.entryAdded"@.len());
    assert("network.responseCompleted"@[8] != "network.beforeRequestSent"@[8]);
    if m.at("method"@) == JsonV::Str("network.beforeRequestSent"@) {
        let e = request_event(p);
        assert(apply_spec(b, m).network == b.network.push(e));
        assert(apply_spec(b, m).network.last() == e);
    }
    lemma_last_with_id(b.network, id);
    match last_with_id(b.network, id) {
        Some(i) => {
            if 0 <= k < b.network.len() && id == b.network[k].request_id && (forall|j: int|
                k < j < b.network.len() ==> #[trigger] b.network[j].request_id != b.network[k].request_id) {
                if i < k {
                    assert(b.network[k].request_id == id);
                }
                if k < i {
                    assert(b.network[i].request_id == id);
                }
                assert(i == k);
            }
        },
        None => {},
    }
}

} // verus!
