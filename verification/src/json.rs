//! JSON values as the library reads and builds them. Objects built here
//! behave as serde_json's map: one entry per key, kept in key order, a
//! second value under a key replacing the first. Text is read and written
//! by serde_json.

use vstd::prelude::*;

use crate::text::{owned, str_eq};

verus! {

/// A JSON value. `UInt` and `NegInt` are integers as a JSON reader keeps
/// them (`NegInt` for the negative ones); `Float` holds any other number as
/// its text.
#[derive(Debug)]
pub enum Json {
    Null,
    Bool(bool),
    UInt(u64),
    NegInt(i64),
    Float(String),
    Str(String),
    Array(Vec<Json>),
    Object(Vec<(String, Json)>),
}

/// The mathematical model of a [`Json`] value.
pub enum JsonV {
    Null,
    Bool(bool),
    UInt(u64),
    NegInt(i64),
    Float(Seq<char>),
    Str(Seq<char>),
    Array(Seq<JsonV>),
    Object(Seq<(Seq<char>, JsonV)>),
}

pub open spec fn json_view(j: Json) -> JsonV
    decreases j,
{
    match j {
        Json::Null => JsonV::Null,
        Json::Bool(b) => JsonV::Bool(b),
        Json::UInt(n) => JsonV::UInt(n),
        Json::NegInt(n) => JsonV::NegInt(n),
        Json::Float(t) => JsonV::Float(t@),
        Json::Str(s) => JsonV::Str(s@),
        Json::Array(v) => JsonV::Array(json_views(v@)),
        Json::Object(v) => JsonV::Object(entry_views(v@)),
    }
}

pub open spec fn json_views(s: Seq<Json>) -> Seq<JsonV>
    decreases s,
{
    if s.len() == 0 {
        Seq::empty()
    } else {
        json_views(s.drop_last()).push(json_view(s.last()))
    }
}

pub open spec fn entry_views(s: Seq<(String, Json)>) -> Seq<(Seq<char>, JsonV)>
    decreases s,
{
    if s.len() == 0 {
        Seq::empty()
    } else {
        entry_views(s.drop_last()).push((s.last().0@, json_view(s.last().1)))
    }
}

impl View for Json {
    type V = JsonV;

    open spec fn view(&self) -> JsonV {
        json_view(*self)
    }
}

pub proof fn lemma_json_views_len(s: Seq<Json>)
    ensures
        json_views(s).len() == s.len(),
        forall|i: int| 0 <= i < s.len() ==> #[trigger] json_views(s)[i] == json_view(s[i]),
    decreases s.len(),
{
    if s.len() > 0 {
        lemma_json_views_len(s.drop_last());
    }
}

pub proof fn lemma_entry_views_len(s: Seq<(String, Json)>)
    ensures
        entry_views(s).len() == s.len(),
        forall|i: int|
            0 <= i < s.len() ==> #[trigger] entry_views(s)[i] == (s[i].0@, json_view(s[i].1)),
    decreases s.len(),
{
    if s.len() > 0 {
        lemma_entry_views_len(s.drop_last());
    }
}

pub proof fn lemma_entry_views_map(s: Seq<(String, Json)>)
    ensures
        entry_views(s) == s.map_values(|e: (String, Json)| (e.0@, json_view(e.1))),
    decreases s.len(),
{
    lemma_entry_views_len(s);
    assert(entry_views(s) =~= s.map_values(|e: (String, Json)| (e.0@, json_view(e.1))));
}

/// Object keys in the order a JSON map keeps them: lexicographic by
/// character.
pub open spec fn key_lt(a: Seq<char>, b: Seq<char>) -> bool
    decreases a.len(),
{
    if a.len() == 0 {
        b.len() > 0
    } else if b.len() == 0 {
        false
    } else if a[0] != b[0] {
        (a[0] as u32) < (b[0] as u32)
    } else {
        key_lt(a.drop_first(), b.drop_first())
    }
}

/// Map insertion into entries kept in key order: the value under an
/// existing key is replaced, a new key goes before the first greater one.
pub open spec fn map_insert(es: Seq<(Seq<char>, JsonV)>, k: Seq<char>, v: JsonV) -> Seq<
    (Seq<char>, JsonV),
>
    decreases es.len(),
{
    if es.len() == 0 {
        seq![(k, v)]
    } else if es[0].0 == k {
        es.update(0, (k, v))
    } else if key_lt(k, es[0].0) {
        seq![(k, v)] + es
    } else {
        seq![es[0]] + map_insert(es.drop_first(), k, v)
    }
}

/// The map that inserting `es` in order into an empty one makes.
pub open spec fn map_from(es: Seq<(Seq<char>, JsonV)>) -> Seq<(Seq<char>, JsonV)>
    decreases es.len(),
{
    if es.len() == 0 {
        Seq::empty()
    } else {
        map_insert(map_from(es.drop_last()), es.last().0, es.last().1)
    }
}

pub fn key_less(a: &str, b: &str) -> (r: bool)
    ensures
        r == key_lt(a@, b@),
{
    let va = crate::text::chars_of(a);
    let vb = crate::text::chars_of(b);
    let mut i: usize = 0;
    assert(va@.skip(0) =~= va@);
    assert(vb@.skip(0) =~= vb@);
    while i < va.len() && i < vb.len() && va[i] == vb[i]
        invariant
            i <= va.len(),
            i <= vb.len(),
            key_lt(va@, vb@) == key_lt(va@.skip(i as int), vb@.skip(i as int)),
            va@ == a@,
            vb@ == b@,
        decreases va.len() - i,
    {
        assert(va@.skip(i as int).drop_first() =~= va@.skip(i + 1));
        assert(vb@.skip(i as int).drop_first() =~= vb@.skip(i + 1));
        i = i + 1;
    }
    if i == va.len() {
        i < vb.len()
    } else if i == vb.len() {
        false
    } else {
        assert(va@.skip(i as int)[0] == va@[i as int]);
        assert(vb@.skip(i as int)[0] == vb@[i as int]);
        (va[i] as u32) < (vb[i] as u32)
    }
}

proof fn lemma_map_insert_skip(es: Seq<(Seq<char>, JsonV)>, k: Seq<char>, v: JsonV, i: int)
    requires
        0 <= i <= es.len(),
        forall|j: int| 0 <= j < i ==> #[trigger] es[j].0 != k && !key_lt(k, es[j].0),
    ensures
        map_insert(es, k, v) == es.take(i) + map_insert(es.skip(i), k, v),
    decreases i,
{
    if i == 0 {
        assert(es.skip(0) =~= es);
        assert(es.take(0) + map_insert(es, k, v) =~= map_insert(es, k, v));
    } else {
        let t = es.drop_first();
        assert forall|j: int| 0 <= j < i - 1 implies #[trigger] t[j].0 != k && !key_lt(k, t[j].0) by {
            assert(t[j] == es[j + 1]);
        }
        lemma_map_insert_skip(t, k, v, i - 1);
        assert(t.skip(i - 1) =~= es.skip(i));
        assert(es[0].0 != k && !key_lt(k, es[0].0));
        assert(seq![es[0]] + t.take(i - 1) =~= es.take(i));
        assert(map_insert(es, k, v) == seq![es[0]] + map_insert(t, k, v));
    }
}

/// Looking a key up after an insertion finds the inserted value under that
/// key and what was there before under any other.
pub proof fn lemma_map_insert_get(
    es: Seq<(Seq<char>, JsonV)>,
    k: Seq<char>,
    v: JsonV,
    k2: Seq<char>,
)
    ensures
        entry_get(map_insert(es, k, v), k2) == (if k2 == k {
            Some(v)
        } else {
            entry_get(es, k2)
        }),
    decreases es.len(),
{
    if es.len() == 0 {
        let r = seq![(k, v)];
        assert(r.drop_first() =~= es);
    } else if es[0].0 == k {
        let r = es.update(0, (k, v));
        assert(r.drop_first() =~= es.drop_first());
    } else if key_lt(k, es[0].0) {
        let r = seq![(k, v)] + es;
        assert(r.drop_first() =~= es);
    } else {
        lemma_map_insert_get(es.drop_first(), k, v, k2);
        let r = seq![es[0]] + map_insert(es.drop_first(), k, v);
        assert(r.drop_first() =~= map_insert(es.drop_first(), k, v));
    }
}

/// The index of the first entry under `k`.
pub open spec fn key_index(es: Seq<(Seq<char>, JsonV)>, k: Seq<char>) -> Option<int>
    decreases es.len(),
{
    if es.len() == 0 {
        None
    } else if es[0].0 == k {
        Some(0)
    } else {
        match key_index(es.drop_first(), k) {
            Some(i) => Some(i + 1),
            None => None,
        }
    }
}

proof fn lemma_key_index_at(es: Seq<(Seq<char>, JsonV)>, k: Seq<char>, i: int)
    requires
        0 <= i <= es.len(),
        forall|j: int| 0 <= j < i ==> #[trigger] es[j].0 != k,
        i < es.len() ==> es[i].0 == k,
    ensures
        key_index(es, k) == (if i < es.len() {
            Some(i)
        } else {
            None::<int>
        }),
    decreases es.len(),
{
    if es.len() > 0 && i > 0 {
        let t = es.drop_first();
        assert forall|j: int| 0 <= j < i - 1 implies #[trigger] t[j].0 != k by {
            assert(t[j] == es[j + 1]);
        }
        if i < es.len() {
            assert(t[i - 1] == es[i]);
        }
        lemma_key_index_at(t, k, i - 1);
        assert(es[0].0 != k);
    }
}

/// What `key_index` finds is an entry under the key, and nothing earlier is.
pub proof fn lemma_key_index_some(es: Seq<(Seq<char>, JsonV)>, k: Seq<char>)
    ensures
        match key_index(es, k) {
            Some(i) => 0 <= i < es.len() && es[i].0 == k && forall|j: int|
                0 <= j < i ==> #[trigger] es[j].0 != k,
            None => forall|j: int| 0 <= j < es.len() ==> #[trigger] es[j].0 != k,
        },
    decreases es.len(),
{
    if es.len() > 0 && es[0].0 != k {
        let t = es.drop_first();
        lemma_key_index_some(t, k);
        assert forall|j: int| 1 <= j < es.len() implies es[j] == #[trigger] t[j - 1] by {}
        match key_index(t, k) {
            Some(i) => {
                assert forall|j: int| 0 <= j < i + 1 implies #[trigger] es[j].0 != k by {
                    if j > 0 {
                        assert(es[j] == t[j - 1]);
                    }
                }
            },
            None => {
                assert forall|j: int| 0 <= j < es.len() implies #[trigger] es[j].0 != k by {
                    if j > 0 {
                        assert(es[j] == t[j - 1]);
                    }
                }
            },
        }
    }
}

/// The position of the first entry under `k`.
pub fn find_key(entries: &Vec<(String, Json)>, k: &str) -> (r: Option<usize>)
    ensures
        match r {
            Some(i) => key_index(entry_views(entries@), k@) == Some(i as int) && i < entries@.len(),
            None => key_index(entry_views(entries@), k@) is None,
        },
{
    proof {
        lemma_entry_views_len(entries@);
    }
    let ghost es = entry_views(entries@);
    let mut i: usize = 0;
    while i < entries.len()
        invariant
            i <= entries.len(),
            es == entry_views(entries@),
            es.len() == entries@.len(),
            forall|j: int|
                0 <= j < entries@.len() ==> #[trigger] es[j] == (entries@[j].0@, json_view(
                    entries@[j].1,
                )),
            forall|j: int| 0 <= j < i ==> #[trigger] es[j].0 != k@,
        decreases entries.len() - i,
    {
        if str_eq(entries[i].0.as_str(), k) {
            proof {
                lemma_key_index_at(es, k@, i as int);
            }
            return Some(i);
        }
        i = i + 1;
    }
    proof {
        lemma_key_index_at(es, k@, i as int);
    }
    None
}

fn stops_at(e: &str, k: &str) -> (r: bool)
    ensures
        r == (e@ == k@ || key_lt(k@, e@)),
{
    crate::text::str_eq(e, k) || key_less(k, e)
}

/// `Map::insert` on entries kept in key order.
pub fn obj_insert(entries: &mut Vec<(String, Json)>, k: String, v: Json)
    ensures
        entry_views(final(entries)@) == map_insert(entry_views(old(entries)@), k@, v@),
{
    let ghost es = entry_views(entries@);
    proof {
        lemma_entry_views_len(entries@);
    }
    let mut i: usize = 0;
    while i < entries.len() && !stops_at(entries[i].0.as_str(), k.as_str())
        invariant
            i <= entries.len(),
            es == entry_views(entries@),
            es.len() == entries@.len(),
            forall|j: int| 0 <= j < entries@.len() ==> #[trigger] es[j] == (entries@[j].0@, json_view(entries@[j].1)),
            forall|j: int| 0 <= j < i ==> #[trigger] es[j].0 != k@ && !key_lt(k@, es[j].0),
        decreases entries.len() - i,
    {
        i = i + 1;
    }
    proof {
        lemma_map_insert_skip(es, k@, v@, i as int);
        lemma_entry_views_map(entries@);
    }
    let ghost old_entries = entries@;
    if i < entries.len() && crate::text::str_eq(entries[i].0.as_str(), k.as_str()) {
        let ghost kv = k@;
        let ghost vv = v@;
        entries.set(i, (k, v));
        proof {
            lemma_entry_views_map(entries@);
            assert(es.skip(i as int)[0].0 == kv);
            assert(map_insert(es.skip(i as int), kv, vv) == es.skip(i as int).update(0, (kv, vv)));
            assert(entry_views(entries@) =~= es.take(i as int) + es.skip(i as int).update(0, (kv, vv)));
        }
    } else {
        let ghost kv = k@;
        let ghost vv = v@;
        entries.insert(i, (k, v));
        proof {
            lemma_entry_views_map(entries@);
            if i < old_entries.len() {
                assert(es.skip(i as int)[0] == es[i as int]);
                assert(map_insert(es.skip(i as int), kv, vv) == seq![(kv, vv)] + es.skip(i as int));
            } else {
                assert(es.skip(i as int) =~= Seq::<(Seq<char>, JsonV)>::empty());
            }
            assert(entry_views(entries@) =~= es.take(i as int) + (seq![(kv, vv)] + es.skip(i as int)));
        }
    }
}

/// An object of the given entries, inserted in order.
pub open spec fn object_of(es: Seq<(Seq<char>, JsonV)>) -> JsonV {
    JsonV::Object(map_from(es))
}

pub fn object1(k: &str, v: Json) -> (r: Json)
    ensures
        r@ == object_of(seq![(k@, v@)]),
{
    let mut e: Vec<(String, Json)> = Vec::new();
    let ghost a = v@;
    assert(entry_views(e@) =~= Seq::<(Seq<char>, JsonV)>::empty());
    obj_insert(&mut e, owned(k), v);
    proof {
        let es = seq![(k@, a)];
        assert(es.drop_last() =~= Seq::<(Seq<char>, JsonV)>::empty());
        assert(map_from(es.drop_last()) =~= Seq::<(Seq<char>, JsonV)>::empty());
    }
    Json::Object(e)
}

pub fn object2(k1: &str, v1: Json, k2: &str, v2: Json) -> (r: Json)
    ensures
        r@ == object_of(seq![(k1@, v1@), (k2@, v2@)]),
{
    let mut e: Vec<(String, Json)> = Vec::new();
    let ghost a = v1@;
    let ghost b = v2@;
    assert(entry_views(e@) =~= Seq::<(Seq<char>, JsonV)>::empty());
    obj_insert(&mut e, owned(k1), v1);
    obj_insert(&mut e, owned(k2), v2);
    proof {
        let es = seq![(k1@, a), (k2@, b)];
        assert(es.drop_last() =~= seq![(k1@, a)]);
        assert(es.drop_last().drop_last() =~= Seq::<(Seq<char>, JsonV)>::empty());
        assert(map_from(es.drop_last().drop_last()) =~= Seq::<(Seq<char>, JsonV)>::empty());
        assert(map_from(es.drop_last()) == map_insert(Seq::empty(), k1@, a));
    }
    Json::Object(e)
}

pub fn empty_object() -> (r: Json)
    ensures
        r@ == object_of(Seq::empty()),
{
    Json::Object(Vec::new())
}

/// An object holding `entries` inserted in order.
pub fn object_from(entries: &Vec<(String, Json)>) -> (r: Json)
    ensures
        r@ == object_of(entry_views(entries@)),
{
    let ghost ev = entry_views(entries@);
    proof {
        lemma_entry_views_len(entries@);
    }
    let mut out: Vec<(String, Json)> = Vec::new();
    assert(entry_views(out@) =~= Seq::<(Seq<char>, JsonV)>::empty());
    assert(ev.take(0) =~= Seq::<(Seq<char>, JsonV)>::empty());
    let mut i: usize = 0;
    while i < entries.len()
        invariant
            i <= entries.len(),
            ev == entry_views(entries@),
            ev.len() == entries@.len(),
            forall|j: int|
                0 <= j < entries@.len() ==> #[trigger] ev[j] == (entries@[j].0@, json_view(
                    entries@[j].1,
                )),
            entry_views(out@) == map_from(ev.take(i as int)),
        decreases entries.len() - i,
    {
        assert(ev.take(i + 1).drop_last() =~= ev.take(i as int));
        assert(ev.take(i + 1).last() == ev[i as int]);
        let k = entries[i].0.clone();
        let v = entries[i].1.deep_clone();
        obj_insert(&mut out, k, v);
        i = i + 1;
    }
    assert(ev.take(entries.len() as int) =~= ev);
    Json::Object(out)
}

/// The value stored under `key` in a list of entries, the first one if the
/// key repeats.
pub open spec fn entry_get(entries: Seq<(Seq<char>, JsonV)>, key: Seq<char>) -> Option<JsonV>
    decreases entries.len(),
{
    if entries.len() == 0 {
        None
    } else if entries[0].0 == key {
        Some(entries[0].1)
    } else {
        entry_get(entries.drop_first(), key)
    }
}

impl JsonV {
    /// `Value::get`: the value under `key` when this is an object holding it.
    pub open spec fn get(self, key: Seq<char>) -> Option<JsonV> {
        match self {
            JsonV::Object(entries) => entry_get(entries, key),
            _ => None,
        }
    }

    /// `value[key]`: the value under `key`, `Null` when there is none.
    pub open spec fn at(self, key: Seq<char>) -> JsonV {
        match self.get(key) {
            Some(v) => v,
            None => JsonV::Null,
        }
    }

    pub open spec fn as_str(self) -> Option<Seq<char>> {
        match self {
            JsonV::Str(s) => Some(s),
            _ => None,
        }
    }

    pub open spec fn as_u64(self) -> Option<u64> {
        match self {
            JsonV::UInt(n) => Some(n),
            _ => None,
        }
    }

    pub open spec fn as_bool(self) -> Option<bool> {
        match self {
            JsonV::Bool(b) => Some(b),
            _ => None,
        }
    }

    /// A string's characters, or `""` for anything else: `as_str().unwrap_or("")`.
    pub open spec fn str_or_empty(self) -> Seq<char> {
        match self {
            JsonV::Str(s) => s,
            _ => Seq::empty(),
        }
    }
}

impl Json {
    /// `Value::get`.
    pub fn get(&self, key: &str) -> (r: Option<&Json>)
        ensures
            match r {
                Some(v) => self@.get(key@) == Some(v@),
                None => self@.get(key@) is None,
            },
    {
        match self {
            Json::Object(entries) => {
                let mut i: usize = 0;
                proof {
                    lemma_entry_views_len(entries@);
                    assert(entry_views(entries@).skip(0) =~= entry_views(entries@));
                }
                while i < entries.len()
                    invariant
                        i <= entries.len(),
                        self@ == JsonV::Object(entry_views(entries@)),
                        entry_views(entries@).len() == entries@.len(),
                        forall|k: int|
                            0 <= k < entries@.len() ==> #[trigger] entry_views(entries@)[k] == (
                            entries@[k].0@, json_view(entries@[k].1)),
                        entry_get(entry_views(entries@), key@) == entry_get(
                            entry_views(entries@).skip(i as int),
                            key@,
                        ),
                    decreases entries.len() - i,
                {
                    let ghost rest = entry_views(entries@).skip(i as int);
                    assert(rest[0] == entry_views(entries@)[i as int]);
                    if str_eq(entries[i].0.as_str(), key) {
                        assert(rest.len() > 0);
                        assert(entry_get(rest, key@) == Some(rest[0].1));
                        return Some(&entries[i].1);
                    }
                    assert(rest.drop_first() =~= entry_views(entries@).skip(i + 1));
                    i = i + 1;
                }
                None
            },
            _ => None,
        }
    }

    /// A copy of the whole value.
    pub fn deep_clone(&self) -> (r: Json)
        ensures
            r@ == self@,
        decreases self,
    {
        match self {
            Json::Null => Json::Null,
            Json::Bool(b) => Json::Bool(*b),
            Json::UInt(n) => Json::UInt(*n),
            Json::NegInt(n) => Json::NegInt(*n),
            Json::Float(t) => Json::Float(t.clone()),
            Json::Str(t) => Json::Str(t.clone()),
            Json::Array(items) => {
                let mut out: Vec<Json> = Vec::new();
                let mut i: usize = 0;
                while i < items.len()
                    invariant
                        i <= items.len(),
                        forall|k: int| 0 <= k < items.len() ==> decreases_to!(*self => #[trigger] items@[k]),
                        json_views(out@) == json_views(items@.take(i as int)),
                        out@.len() == i,
                    decreases items.len() - i,
                {
                    let c = items[i].deep_clone();
                    proof {
                        assert(items@.take(i + 1).drop_last() =~= items@.take(i as int));
                    }
                    let ghost prev = out@;
                    out.push(c);
                    assert(out@.drop_last() =~= prev);
                    i = i + 1;
                }
                assert(items@.take(items.len() as int) =~= items@);
                Json::Array(out)
            },
            Json::Object(entries) => {
                let mut out: Vec<(String, Json)> = Vec::new();
                let mut i: usize = 0;
                while i < entries.len()
                    invariant
                        i <= entries.len(),
                        forall|k: int| 0 <= k < entries.len() ==> decreases_to!(*self => #[trigger] entries@[k].1),
                        entry_views(out@) == entry_views(entries@.take(i as int)),
                        out@.len() == i,
                    decreases entries.len() - i,
                {
                    let c = entries[i].1.deep_clone();
                    let k = entries[i].0.clone();
                    proof {
                        assert(entries@.take(i + 1).drop_last() =~= entries@.take(i as int));
                    }
                    let ghost prev = out@;
                    out.push((k, c));
                    assert(out@.drop_last() =~= prev);
                    i = i + 1;
                }
                assert(entries@.take(entries.len() as int) =~= entries@);
                Json::Object(out)
            },
        }
    }

    pub fn as_str(&self) -> (r: Option<&str>)
        ensures
            match r {
                Some(s) => self@.as_str() == Some(s@),
                None => self@.as_str() is None,
            },
    {
        match self {
            Json::Str(s) => Some(s.as_str()),
            _ => None,
        }
    }

    pub fn as_u64(&self) -> (r: Option<u64>)
        ensures
            r == self@.as_u64(),
    {
        match self {
            Json::UInt(n) => Some(*n),
            _ => None,
        }
    }

    pub fn as_bool(&self) -> (r: Option<bool>)
        ensures
            r == self@.as_bool(),
    {
        match self {
            Json::Bool(b) => Some(*b),
            _ => None,
        }
    }

    pub fn is_null(&self) -> (r: bool)
        ensures
            r == (self@ == JsonV::Null),
    {
        match self {
            Json::Null => true,
            _ => false,
        }
    }

    /// A string value holding `s`.
    pub fn text(s: &str) -> (r: Json)
        ensures
            r@ == JsonV::Str(s@),
    {
        Json::Str(crate::text::owned(s))
    }
}

/// The value under `key`, or `Null`: `value[key]`.
pub fn at<'a>(v: &'a Json, key: &str) -> (r: Option<&'a Json>)
    ensures
        match r {
            Some(x) => v@.at(key@) == x@ && x@ != JsonV::Null,
            None => v@.at(key@) == JsonV::Null,
        },
{
    match v.get(key) {
        Some(x) => if x.is_null() {
            None
        } else {
            Some(x)
        },
        None => None,
    }
}

/// A copy of the value under `key`, or `Null`.
pub fn at_or_null(v: &Json, key: &str) -> (r: Json)
    ensures
        r@ == v@.at(key@),
{
    match at(v, key) {
        Some(x) => x.deep_clone(),
        None => Json::Null,
    }
}

/// `value[key].as_str()`.
pub fn str_at<'a>(v: &'a Json, key: &str) -> (r: Option<&'a str>)
    ensures
        match r {
            Some(s) => v@.at(key@).as_str() == Some(s@),
            None => v@.at(key@).as_str() is None,
        },
{
    match v.get(key) {
        Some(x) => x.as_str(),
        None => None,
    }
}

/// `value[key].as_str().unwrap_or("").to_string()`.
pub fn string_at(v: &Json, key: &str) -> (r: String)
    ensures
        r@ == v@.at(key@).str_or_empty(),
{
    match str_at(v, key) {
        Some(s) => crate::text::owned(s),
        None => String::new(),
    }
}

/// `value[key].as_u64()`.
pub fn u64_at(v: &Json, key: &str) -> (r: Option<u64>)
    ensures
        r == v@.at(key@).as_u64(),
{
    match v.get(key) {
        Some(x) => x.as_u64(),
        None => None,
    }
}

/// `value[key].as_bool()`.
pub fn bool_at(v: &Json, key: &str) -> (r: Option<bool>)
    ensures
        r == v@.at(key@).as_bool(),
{
    match v.get(key) {
        Some(x) => x.as_bool(),
        None => None,
    }
}


// ----- writing JSON text -----

/// The compact text `serde_json` writes for a value: what `Display` of the
/// `serde_json::Value` the value moves into gives. Named, not restated.
pub uninterp spec fn json_text(j: JsonV) -> Seq<char>;

/// The pretty text `serde_json` writes for a value (`{:#}`, the text of
/// `serde_json::to_string_pretty` too). Named, not restated.
pub uninterp spec fn json_pretty(j: JsonV) -> Seq<char>;

/// `j` written by serde_json, compact: `Display` of `serde_json::Value`.
/// The value is moved into a `Value` one for one first (see `json_value`).
#[verifier::external_body]
pub fn render(j: &Json) -> (r: String)
    ensures
        r@ == json_text(j@),
{
    json_value(j).to_string()
}

/// `j` written by serde_json, pretty: `Display` of `serde_json::Value` with
/// `{:#}`, two-space indentation.
#[verifier::external_body]
pub fn render_pretty(j: &Json) -> (r: String)
    ensures
        r@ == json_pretty(j@),
{
    format!("{:#}", json_value(j))
}

/// The one-for-one move of a `Json` into the `serde_json::Value` that
/// `render` and `render_pretty` write: each variant into its namesake, an
/// object's entries into a `serde_json::Map`, a `Float` by parsing its text
/// as a `serde_json::Number` (`null` when the text is not a JSON number).
/// Part of those two, and only called there.
#[verifier::external_body]
fn json_value(j: &Json) -> serde_json::Value {
    match j {
        Json::Null => serde_json::Value::Null,
        Json::Bool(b) => serde_json::Value::Bool(*b),
        Json::UInt(u) => serde_json::Value::from(*u),
        Json::NegInt(i) => serde_json::Value::from(*i),
        Json::Float(t) => t.parse::<serde_json::Number>().map_or(serde_json::Value::Null, serde_json::Value::Number),
        Json::Str(s) => serde_json::Value::String(s.clone()),
        Json::Array(a) => serde_json::Value::Array(a.iter().map(json_value).collect()),
        Json::Object(es) => serde_json::Value::Object(es.iter().map(|(k, v)| (k.clone(), json_value(v))).collect()),
    }
}

// ----- reading JSON text -----

#[verifier::external_type_specification]
#[verifier::external_body]
pub struct ExJsonValue(serde_json::Value);

/// What `serde_json::from_str::<serde_json::Value>` makes of `text`, taken
/// one for one into `JsonV`, or the text of its error. The grammar and the
/// number handling are serde_json's; this library names the result and
/// states nothing more of it.
pub uninterp spec fn json_parse(text: Seq<char>) -> Result<JsonV, Seq<char>>;

/// Reads `text` as JSON with `serde_json::from_str::<serde_json::Value>`:
/// the value it makes, taken into `Json` one for one, or its error's text.
/// The result is named `json_parse` of the text.
#[verifier::external_body]
pub fn parse_json(text: &str) -> (r: Result<Json, String>)
    ensures
        crate::webdriver::parsed_view(r) == json_parse(text@),
{
    match serde_json::from_str::<serde_json::Value>(text) {
        Ok(v) => Ok(value_json(v)),
        Err(e) => Err(e.to_string()),
    }
}

/// The one-for-one move of a `serde_json::Value` into `Json` that
/// `parse_json` hands back: each variant into its namesake, a number into
/// `UInt` when it is a `u64`, else `NegInt` when it is an `i64`, else
/// `Float` with its text. Part of `parse_json`, and only called there.
#[verifier::external_body]
fn value_json(v: serde_json::Value) -> Json {
    match v {
        serde_json::Value::Null => Json::Null,
        serde_json::Value::Bool(b) => Json::Bool(b),
        serde_json::Value::Number(n) => match (n.as_u64(), n.as_i64()) {
            (Some(u), _) => Json::UInt(u),
            (None, Some(i)) => Json::NegInt(i),
            _ => Json::Float(n.to_string()),
        },
        serde_json::Value::String(t) => Json::Str(t),
        serde_json::Value::Array(a) => Json::Array(a.into_iter().map(value_json).collect()),
        serde_json::Value::Object(m) => Json::Object(m.into_iter().map(|(k, x)| (k, value_json(x))).collect()),
    }
}

} // verus!
