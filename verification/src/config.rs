//! The instance body from `resources.browser.<name>`. The host has no schema
//! for it and never looks inside, so every check a typo could trip is here.

use vstd::prelude::*;

use crate::json::{
    entry_views, find_key, json_view, json_views, key_index, lemma_entry_views_len,
    lemma_entry_views_map, lemma_map_insert_get, map_insert, obj_insert, render, json_text, Json, JsonV,
};
use crate::text::{debug_quoted, debug_str, owned, push_char, push_str, str_eq};
use crate::weburl::{opt_view, whatwg_parse, UrlV, WebUrl};

verus! {

#[derive(Debug, Clone, Copy, PartialEq, Eq, Structural)]
pub enum Browser {
    Chrome,
    Firefox,
    Edge,
}

impl Browser {
    pub open spec fn parse_spec(s: Seq<char>) -> Option<Browser> {
        if s == "chrome"@ {
            Some(Browser::Chrome)
        } else if s == "firefox"@ {
            Some(Browser::Firefox)
        } else if s == "edge"@ {
            Some(Browser::Edge)
        } else {
            None
        }
    }

    pub fn parse(s: &str) -> (r: Option<Browser>)
        ensures
            r == Browser::parse_spec(s@),
    {
        if str_eq(s, "chrome") {
            Some(Browser::Chrome)
        } else if str_eq(s, "firefox") {
            Some(Browser::Firefox)
        } else if str_eq(s, "edge") {
            Some(Browser::Edge)
        } else {
            None
        }
    }

    /// The W3C `browserName` value.
    pub open spec fn browser_name_spec(self) -> Seq<char> {
        match self {
            Browser::Chrome => "chrome"@,
            Browser::Firefox => "firefox"@,
            Browser::Edge => "MicrosoftEdge"@,
        }
    }

    pub fn browser_name(self) -> (r: &'static str)
        ensures
            r@ == self.browser_name_spec(),
    {
        match self {
            Browser::Chrome => "chrome",
            Browser::Firefox => "firefox",
            Browser::Edge => "MicrosoftEdge",
        }
    }

    /// The vendor capability that carries `args` and `binary`.
    pub open spec fn options_key_spec(self) -> Seq<char> {
        match self {
            Browser::Chrome => "goog:chromeOptions"@,
            Browser::Firefox => "moz:firefoxOptions"@,
            Browser::Edge => "ms:edgeOptions"@,
        }
    }

    pub fn options_key(self) -> (r: &'static str)
        ensures
            r@ == self.options_key_spec(),
    {
        match self {
            Browser::Chrome => "goog:chromeOptions",
            Browser::Firefox => "moz:firefoxOptions",
            Browser::Edge => "ms:edgeOptions",
        }
    }

    /// The command-line flag for a headless run.
    pub open spec fn headless_arg_spec(self) -> Seq<char> {
        match self {
            Browser::Chrome | Browser::Edge => "--headless=new"@,
            Browser::Firefox => "-headless"@,
        }
    }

    pub fn headless_arg(self) -> (r: &'static str)
        ensures
            r@ == self.headless_arg_spec(),
    {
        match self {
            Browser::Chrome | Browser::Edge => "--headless=new",
            Browser::Firefox => "-headless",
        }
    }

    /// What `selenium-manager --browser` takes.
    pub open spec fn manager_name_spec(self) -> Seq<char> {
        match self {
            Browser::Chrome => "chrome"@,
            Browser::Firefox => "firefox"@,
            Browser::Edge => "edge"@,
        }
    }

    pub fn manager_name(self) -> (r: &'static str)
        ensures
            r@ == self.manager_name_spec(),
    {
        match self {
            Browser::Chrome => "chrome",
            Browser::Firefox => "firefox",
            Browser::Edge => "edge",
        }
    }
}

/// `Path::new(base).join(p)` on Unix: an absolute `p` replaces the base, a
/// relative one is appended with a `/` between unless the base is empty or
/// already ends with one.
pub open spec fn path_join(base: Seq<char>, p: Seq<char>) -> Seq<char> {
    if p.len() > 0 && p[0] == '/' {
        p
    } else if base.len() == 0 {
        p
    } else if base.last() == '/' {
        base + p
    } else {
        base + seq!['/'] + p
    }
}

pub fn join_path(base: &str, p: &str) -> (r: String)
    ensures
        r@ == path_join(base@, p@),
{
    let pv = crate::text::chars_of(p);
    let bv = crate::text::chars_of(base);
    if pv.len() > 0 && pv[0] == '/' {
        owned(p)
    } else if bv.len() == 0 {
        owned(p)
    } else if bv[bv.len() - 1] == '/' {
        let mut r = owned(base);
        push_str(&mut r, p);
        r
    } else {
        let mut r = owned(base);
        crate::text::push_char(&mut r, '/');
        push_str(&mut r, p);
        r
    }
}

/// `~/x` becomes `home` joined with `x`; anything else is kept as it is.
pub open spec fn expand_home_spec(home: Seq<char>, s: Seq<char>) -> Seq<char> {
    if "~/"@.is_prefix_of(s) {
        path_join(home, s.skip(2))
    } else {
        s
    }
}

/// `~/x` → `$HOME/x`; anything else untouched. `home` is `$HOME` as the
/// caller read it, empty when unset.
pub fn expand_home(home: &str, s: &str) -> (r: String)
    ensures
        r@ == expand_home_spec(home@, s@),
{
    let v = crate::text::chars_of(s);
    let pre = crate::text::chars_of("~/");
    proof {
        reveal_strlit("~/");
    }
    if crate::text::starts_with(&v, &pre) {
        let rest = crate::text::string_of(&crate::text::suffix_from(&v, 2));
        join_path(home, rest.as_str())
    } else {
        owned(s)
    }
}

/// What a failed step writes beside the URL/title and the last WebDriver
/// exchange that are always attached.
#[derive(Debug, Clone, Copy, PartialEq, Eq, Structural)]
pub struct OnFailure {
    pub screenshot: bool,
    pub console: bool,
    pub network: bool,
}

/// `split(',').map(str::trim).filter(|t| !t.is_empty())`.
pub open spec fn nonempty_trimmed(ps: Seq<Seq<char>>) -> Seq<Seq<char>>
    decreases ps.len(),
{
    if ps.len() == 0 {
        Seq::empty()
    } else {
        let rest = nonempty_trimmed(ps.drop_last());
        let t = crate::text::trim(ps.last());
        if t.len() == 0 {
            rest
        } else {
            rest.push(t)
        }
    }
}

pub open spec fn on_failure_token_error(t: Seq<char>) -> Seq<char> {
    "\"on_failure\" token "@ + debug_quoted(t) + " is not one of screenshot, console, network, none"@
}

pub open spec fn apply_token(on: OnFailure, t: Seq<char>) -> Result<OnFailure, Seq<char>> {
    if t == "screenshot"@ {
        Ok(OnFailure { screenshot: true, ..on })
    } else if t == "console"@ {
        Ok(OnFailure { console: true, ..on })
    } else if t == "network"@ {
        Ok(OnFailure { network: true, ..on })
    } else if t == "none"@ {
        Ok(on)
    } else {
        Err(on_failure_token_error(t))
    }
}

/// The tokens applied in order from all-off; the first unknown one is refused.
pub open spec fn apply_tokens(ts: Seq<Seq<char>>) -> Result<OnFailure, Seq<char>>
    decreases ts.len(),
{
    if ts.len() == 0 {
        Ok(OnFailure { screenshot: false, console: false, network: false })
    } else {
        match apply_tokens(ts.drop_last()) {
            Ok(on) => apply_token(on, ts.last()),
            Err(e) => Err(e),
        }
    }
}

pub open spec fn on_failure_spec(s: Seq<char>) -> Result<OnFailure, Seq<char>> {
    apply_tokens(nonempty_trimmed(crate::text::split_char(s, ',')))
}

impl OnFailure {
    /// A comma-separated subset of `screenshot`, `console`, `network`, or
    /// `none`; blanks are ignored.
    pub fn parse(s: &str) -> (r: Result<OnFailure, String>)
        ensures
            match r {
                Ok(on) => on_failure_spec(s@) == Ok::<OnFailure, Seq<char>>(on),
                Err(e) => on_failure_spec(s@) == Err::<OnFailure, Seq<char>>(e@),
            },
    {
        let parts = crate::text::split_on(s, ',');
        let ghost ps = crate::text::views(parts@);
        let mut on = OnFailure { screenshot: false, console: false, network: false };
        let mut i: usize = 0;
        while i < parts.len()
            invariant
                i <= parts.len(),
                ps == crate::text::views(parts@),
                ps == crate::text::split_char(s@, ','),
                apply_tokens(nonempty_trimmed(ps.take(i as int))) == Ok::<OnFailure, Seq<char>>(on),
            decreases parts.len() - i,
        {
            let t = crate::text::trim_str(parts[i].as_str());
            assert(ps.take(i + 1).drop_last() =~= ps.take(i as int));
            assert(ps.take(i + 1).last() == parts@[i as int]@);
            let ghost ts = nonempty_trimmed(ps.take(i as int));
            if !t.as_str().is_empty() {
                assert(nonempty_trimmed(ps.take(i + 1)) == ts.push(t@));
                assert(ts.push(t@).drop_last() =~= ts);
                if str_eq(t.as_str(), "screenshot") {
                    on = OnFailure { screenshot: true, ..on };
                } else if str_eq(t.as_str(), "console") {
                    on = OnFailure { console: true, ..on };
                } else if str_eq(t.as_str(), "network") {
                    on = OnFailure { network: true, ..on };
                } else if str_eq(t.as_str(), "none") {
                } else {
                    let mut e = owned("\"on_failure\" token ");
                    let q = debug_str(t.as_str());
                    push_str(&mut e, q.as_str());
                    push_str(&mut e, " is not one of screenshot, console, network, none");
                    assert(e@ =~= on_failure_token_error(t@));
                    proof {
                        assert(crate::text::split_char(s@, ',').len() >= 0);
                        lemma_apply_tokens_err(ps, i as int, e@);
                    }
                    return Err(e);
                }
            } else {
                proof {
                    if t@.len() != 0 {
                        assert(false);
                    }
                }
            }
            i = i + 1;
        }
        assert(ps.take(parts.len() as int) =~= ps);
        Ok(on)
    }
}

/// Once a prefix of the pieces is refused, the whole is refused the same way.
proof fn lemma_apply_tokens_err(ps: Seq<Seq<char>>, i: int, e: Seq<char>)
    requires
        0 <= i < ps.len(),
        apply_tokens(nonempty_trimmed(ps.take(i + 1))) == Err::<OnFailure, Seq<char>>(e),
    ensures
        apply_tokens(nonempty_trimmed(ps)) == Err::<OnFailure, Seq<char>>(e),
    decreases ps.len() - i,
{
    if i + 1 == ps.len() {
        assert(ps.take(i + 1) =~= ps);
    } else {
        let n = ps.len() - 1;
        let q = ps.take(n);
        assert(q.take(i + 1) =~= ps.take(i + 1));
        lemma_apply_tokens_err(q, i, e);
        assert(ps.drop_last() =~= q);
        let rest = nonempty_trimmed(q);
        let t = crate::text::trim(ps.last());
        assert(rest.push(t).drop_last() =~= rest);
    }
}


/// `<width>x<height>`, each side trimmed and read as a `u32`.
pub open spec fn window_spec(s: Seq<char>) -> Option<(u32, u32)> {
    match crate::text::split_once(s, 'x') {
        Some((w, h)) => match (
            crate::text::parse_u32(crate::text::trim(w)),
            crate::text::parse_u32(crate::text::trim(h)),
        ) {
            (Some(a), Some(b)) => Some((a, b)),
            _ => None,
        },
        None => None,
    }
}

pub fn parse_window(s: &str) -> (r: Option<(u32, u32)>)
    ensures
        r == window_spec(s@),
{
    let v = crate::text::chars_of(s);
    match crate::text::split_once_chars(&v, 'x') {
        Some((w, h)) => {
            let wt = crate::text::trim_chars(&w);
            let ht = crate::text::trim_chars(&h);
            match crate::text::parse_u32_chars(&wt) {
                Some(a) => match crate::text::parse_u32_chars(&ht) {
                    Some(b) => Some((a, b)),
                    None => None,
                },
                None => None,
            }
        },
        None => None,
    }
}

/// One key of an instance body, as `InstanceConfig::parse` enforces it and
/// as the manifest describes it.
#[derive(Clone, Copy)]
pub struct Field {
    pub name: &'static str,
    pub required: bool,
    /// `None` means `string`, the host's default.
    pub value_type: Option<&'static str>,
    pub description: &'static str,
    pub example: Option<&'static str>,
}

/// **The single list.** `parse` accepts a key because it is here and the
/// manifest describes it because it is here.
pub open spec fn field_table() -> Seq<Field> {
    seq![
        Field {
            name: "browser",
            required: true,
            value_type: None,
            description: "chrome, firefox or edge",
            example: Some("chrome"),
        },
        Field {
            name: "url",
            required: false,
            value_type: None,
            description: "WebDriver endpoint to connect to (remote mode): a Selenium Grid, a selenium/standalone-* container, a vendor cloud. Omit it for managed mode, where the plugin brings the browser through Selenium Manager",
            example: Some("http://localhost:4444"),
        },
        Field {
            name: "version",
            required: false,
            value_type: None,
            description: "managed mode: stable (default), beta, nightly, esr or a major version such as 131; exclusive with browser_path",
            example: Some("stable"),
        },
        Field {
            name: "browser_path",
            required: false,
            value_type: None,
            description: "managed mode: use this installed browser and download only its driver; exclusive with version",
            example: Some("/usr/bin/google-chrome"),
        },
        Field {
            name: "offline",
            required: false,
            value_type: Some("boolean"),
            description: "managed mode: never download; fail if the cache does not hold the browser and driver",
            example: Some("true"),
        },
        Field {
            name: "cache_dir",
            required: false,
            value_type: None,
            description: "managed mode: where browsers and drivers are cached; defaults to ~/.cache/bddkit/plugins/browser",
            example: Some("~/.cache/bddkit/plugins/browser"),
        },
        Field {
            name: "proxy",
            required: false,
            value_type: None,
            description: "managed mode: proxy URL for the downloads",
            example: Some("http://proxy:3128"),
        },
        Field {
            name: "mirror_url",
            required: false,
            value_type: None,
            description: "managed mode: mirror for browser and driver downloads, for networks that cannot reach Google, Mozilla and GitHub",
            example: None,
        },
        Field {
            name: "base_url",
            required: false,
            value_type: None,
            description: "what a relative path in `I am on` and `I should be on` resolves against",
            example: Some("http://localhost:3000"),
        },
        Field {
            name: "headless",
            required: false,
            value_type: Some("boolean"),
            description: "run without a window; defaults to true. Set false in a *.local.yaml layer to watch the browser",
            example: Some("false"),
        },
        Field {
            name: "window",
            required: false,
            value_type: None,
            description: "window size as <width>x<height>; defaults to 1280x800",
            example: Some("1280x800"),
        },
        Field {
            name: "find_timeout_secs",
            required: false,
            value_type: Some("number"),
            description: "how long an action waits for its element before failing; defaults to 5, 0 disables the wait. Assertions never wait: arm them with the host's eventual assertion",
            example: Some("5"),
        },
        Field {
            name: "on_failure",
            required: false,
            value_type: None,
            description: "comma-separated subset of screenshot, console, network to write on a failed step, or none; defaults to all three",
            example: Some("screenshot,console"),
        },
        Field {
            name: "capabilities",
            required: false,
            value_type: Some("nonscalar"),
            description: "raw WebDriver capabilities merged on top of what the plugin builds; objects merge, arrays concatenate, scalars replace",
            example: None,
        },
    ]
}

/// The table of [`field_table`].
pub fn fields() -> (r: Vec<Field>)
    ensures
        r@ == field_table(),
{
    let mut v: Vec<Field> = Vec::new();
    v.push(Field {
        name: "browser",
        required: true,
        value_type: None,
        description: "chrome, firefox or edge",
        example: Some("chrome"),
    });
    v.push(Field {
        name: "url",
        required: false,
        value_type: None,
        description: "WebDriver endpoint to connect to (remote mode): a Selenium Grid, a selenium/standalone-* container, a vendor cloud. Omit it for managed mode, where the plugin brings the browser through Selenium Manager",
        example: Some("http://localhost:4444"),
    });
    v.push(Field {
        name: "version",
        required: false,
        value_type: None,
        description: "managed mode: stable (default), beta, nightly, esr or a major version such as 131; exclusive with browser_path",
        example: Some("stable"),
    });
    v.push(Field {
        name: "browser_path",
        required: false,
        value_type: None,
        description: "managed mode: use this installed browser and download only its driver; exclusive with version",
        example: Some("/usr/bin/google-chrome"),
    });
    v.push(Field {
        name: "offline",
        required: false,
        value_type: Some("boolean"),
        description: "managed mode: never download; fail if the cache does not hold the browser and driver",
        example: Some("true"),
    });
    v.push(Field {
        name: "cache_dir",
        required: false,
        value_type: None,
        description: "managed mode: where browsers and drivers are cached; defaults to ~/.cache/bddkit/plugins/browser",
        example: Some("~/.cache/bddkit/plugins/browser"),
    });
    v.push(Field {
        name: "proxy",
        required: false,
        value_type: None,
        description: "managed mode: proxy URL for the downloads",
        example: Some("http://proxy:3128"),
    });
    v.push(Field {
        name: "mirror_url",
        required: false,
        value_type: None,
        description: "managed mode: mirror for browser and driver downloads, for networks that cannot reach Google, Mozilla and GitHub",
        example: None,
    });
    v.push(Field {
        name: "base_url",
        required: false,
        value_type: None,
        description: "what a relative path in `I am on` and `I should be on` resolves against",
        example: Some("http://localhost:3000"),
    });
    v.push(Field {
        name: "headless",
        required: false,
        value_type: Some("boolean"),
        description: "run without a window; defaults to true. Set false in a *.local.yaml layer to watch the browser",
        example: Some("false"),
    });
    v.push(Field {
        name: "window",
        required: false,
        value_type: None,
        description: "window size as <width>x<height>; defaults to 1280x800",
        example: Some("1280x800"),
    });
    v.push(Field {
        name: "find_timeout_secs",
        required: false,
        value_type: Some("number"),
        description: "how long an action waits for its element before failing; defaults to 5, 0 disables the wait. Assertions never wait: arm them with the host's eventual assertion",
        example: Some("5"),
    });
    v.push(Field {
        name: "on_failure",
        required: false,
        value_type: None,
        description: "comma-separated subset of screenshot, console, network to write on a failed step, or none; defaults to all three",
        example: Some("screenshot,console"),
    });
    v.push(Field {
        name: "capabilities",
        required: false,
        value_type: Some("nonscalar"),
        description: "raw WebDriver capabilities merged on top of what the plugin builds; objects merge, arrays concatenate, scalars replace",
        example: None,
    });
    assert(v@ =~= field_table());
    v
}

/// The names of the keys an instance body may hold, in table order.
pub open spec fn known_keys_spec() -> Seq<Seq<char>> {
    field_table().map_values(|f: Field| f.name@)
}

pub fn known_keys() -> (r: Vec<&'static str>)
    ensures
        r@.map_values(|k: &'static str| k@) == known_keys_spec(),
{
    let table = fields();
    let mut out: Vec<&'static str> = Vec::new();
    let mut i: usize = 0;
    while i < table.len()
        invariant
            i <= table.len(),
            table@ == field_table(),
            out@.map_values(|k: &'static str| k@) =~= table@.take(i as int).map_values(
                |f: Field| f.name@,
            ),
        decreases table.len() - i,
    {
        let ghost prev = out@;
        out.push(table[i].name);
        proof {
            assert(out@ =~= prev.push(table@[i as int].name));
            assert(table@.take(i + 1) =~= table@.take(i as int).push(table@[i as int]));
            assert(out@.map_values(|k: &'static str| k@) =~= prev.map_values(
                |k: &'static str| k@,
            ).push(table@[i as int].name@));
            assert(table@.take(i + 1).map_values(|f: Field| f.name@) =~= table@.take(
                i as int,
            ).map_values(|f: Field| f.name@).push(table@[i as int].name@));
        }
        i = i + 1;
    }
    assert(table@.take(table.len() as int) =~= table@);
    out
}

/// One manifest entry: `name`, `required`, `description`, then `type` and
/// `example` where the field has them.
pub open spec fn field_json(f: Field) -> JsonV {
    let base = map_insert(
        map_insert(
            map_insert(Seq::empty(), "name"@, JsonV::Str(f.name@)),
            "required"@,
            JsonV::Bool(f.required),
        ),
        "description"@,
        JsonV::Str(f.description@),
    );
    let typed = match f.value_type {
        Some(t) => map_insert(base, "type"@, JsonV::Str(t@)),
        None => base,
    };
    let full = match f.example {
        Some(x) => map_insert(typed, "example"@, JsonV::Str(x@)),
        None => typed,
    };
    JsonV::Object(full)
}

fn field_entry(f: &Field) -> (r: Json)
    ensures
        r@ == field_json(*f),
{
    let mut e: Vec<(String, Json)> = Vec::new();
    obj_insert(&mut e, owned("name"), Json::text(f.name));
    obj_insert(&mut e, owned("required"), Json::Bool(f.required));
    obj_insert(&mut e, owned("description"), Json::text(f.description));
    match f.value_type {
        Some(t) => obj_insert(&mut e, owned("type"), Json::text(t)),
        None => {},
    }
    match f.example {
        Some(x) => obj_insert(&mut e, owned("example"), Json::text(x)),
        None => {},
    }
    Json::Object(e)
}

/// The manifest's description of the instance body: one entry per field.
pub fn fields_json() -> (r: Json)
    ensures
        r@ == JsonV::Array(field_table().map_values(|f: Field| field_json(f))),
{
    let table = fields();
    let mut out: Vec<Json> = Vec::new();
    let mut i: usize = 0;
    while i < table.len()
        invariant
            i <= table.len(),
            table@ == field_table(),
            json_views(out@) =~= table@.take(i as int).map_values(|f: Field| field_json(f)),
        decreases table.len() - i,
    {
        let e = field_entry(&table[i]);
        let ghost prev = out@;
        out.push(e);
        proof {
            assert(out@.drop_last() =~= prev);
            assert(table@.take(i + 1) =~= table@.take(i as int).push(table@[i as int]));
        }
        i = i + 1;
    }
    assert(table@.take(table.len() as int) =~= table@);
    Json::Array(out)
}

/// The manifest describes exactly the keys the parser accepts: entry `i` of
/// `fields_json` is named by key `i` of `known_keys`, and there are as many
/// entries as keys.
pub proof fn lemma_manifest_names_the_known_keys()
    ensures
        ({
            let entries = field_table().map_values(|f: Field| field_json(f));
            &&& entries.len() == known_keys_spec().len()
            &&& forall|i: int|
                0 <= i < entries.len() ==> #[trigger] entries[i].get("name"@) == Some(
                    JsonV::Str(known_keys_spec()[i]),
                )
        }),
{
    let entries = field_table().map_values(|f: Field| field_json(f));
    assert forall|i: int| 0 <= i < entries.len() implies #[trigger] entries[i].get("name"@) == Some(
        JsonV::Str(known_keys_spec()[i]),
    ) by {
        let f = field_table()[i];
        let e0 = map_insert(Seq::empty(), "name"@, JsonV::Str(f.name@));
        let e1 = map_insert(e0, "required"@, JsonV::Bool(f.required));
        let e2 = map_insert(e1, "description"@, JsonV::Str(f.description@));
        reveal_strlit("name");
        reveal_strlit("required");
        reveal_strlit("description");
        reveal_strlit("type");
        reveal_strlit("example");
        lemma_map_insert_get(Seq::empty(), "name"@, JsonV::Str(f.name@), "name"@);
        lemma_map_insert_get(e0, "required"@, JsonV::Bool(f.required), "name"@);
        lemma_map_insert_get(e1, "description"@, JsonV::Str(f.description@), "name"@);
        let typed = match f.value_type {
            Some(t) => map_insert(e2, "type"@, JsonV::Str(t@)),
            None => e2,
        };
        match f.value_type {
            Some(t) => lemma_map_insert_get(e2, "type"@, JsonV::Str(t@), "name"@),
            None => {},
        }
        match f.example {
            Some(x) => lemma_map_insert_get(typed, "example"@, JsonV::Str(x@), "name"@),
            None => {},
        }
    }
}

/// Objects merge key by key, arrays concatenate, anything else is replaced
/// by the overriding value.
pub open spec fn merged(b: JsonV, o: JsonV) -> JsonV
    decreases o,
{
    match o {
        JsonV::Object(oe) => match b {
            JsonV::Object(be) => JsonV::Object(merged_entries(be, oe)),
            _ => o,
        },
        JsonV::Array(oi) => match b {
            JsonV::Array(bi) => JsonV::Array(bi + oi),
            _ => o,
        },
        _ => o,
    }
}

/// The entries of `oe` merged in order into `be`: an existing key keeps its
/// place and takes the merge of both values, a new key is inserted.
pub open spec fn merged_entries(
    be: Seq<(Seq<char>, JsonV)>,
    oe: Seq<(Seq<char>, JsonV)>,
) -> Seq<(Seq<char>, JsonV)>
    decreases oe,
{
    if oe.len() == 0 {
        be
    } else {
        let acc = merged_entries(be, oe.drop_last());
        let k = oe.last().0;
        let v = oe.last().1;
        match key_index(acc, k) {
            Some(i) => acc.update(i, (k, merged(acc[i].1, v))),
            None => map_insert(acc, k, v),
        }
    }
}

proof fn lemma_update_get(
    acc: Seq<(Seq<char>, JsonV)>,
    i: int,
    kk: Seq<char>,
    v: JsonV,
    k: Seq<char>,
)
    requires
        0 <= i < acc.len(),
        acc[i].0 == kk,
        kk != k,
    ensures
        crate::json::entry_get(acc.update(i, (kk, v)), k) == crate::json::entry_get(acc, k),
    decreases acc.len(),
{
    if i == 0 {
        assert(acc.update(0, (kk, v)).drop_first() =~= acc.drop_first());
    } else {
        lemma_update_get(acc.drop_first(), i - 1, kk, v, k);
        assert(acc.update(i, (kk, v)).drop_first() =~= acc.drop_first().update(i - 1, (kk, v)));
    }
}

/// What the override does not name survives the merge untouched: a key of
/// the base that no entry of the override carries keeps its value.
pub proof fn law_merge_keeps_what_the_override_does_not_name(
    be: Seq<(Seq<char>, JsonV)>,
    oe: Seq<(Seq<char>, JsonV)>,
    k: Seq<char>,
)
    requires
        forall|j: int| 0 <= j < oe.len() ==> #[trigger] oe[j].0 != k,
    ensures
        crate::json::entry_get(merged_entries(be, oe), k) == crate::json::entry_get(be, k),
    decreases oe.len(),
{
    if oe.len() > 0 {
        let rest = oe.drop_last();
        assert forall|j: int| 0 <= j < rest.len() implies #[trigger] rest[j].0 != k by {
            assert(rest[j] == oe[j]);
        }
        law_merge_keeps_what_the_override_does_not_name(be, rest, k);
        let acc = merged_entries(be, rest);
        let kk = oe.last().0;
        let v = oe.last().1;
        assert(oe[oe.len() - 1].0 != k);
        crate::json::lemma_key_index_some(acc, kk);
        match key_index(acc, kk) {
            Some(i) => lemma_update_get(acc, i, kk, merged(acc[i].1, v), k),
            None => lemma_map_insert_get(acc, kk, v, k),
        }
    }
}

proof fn lemma_index_get(es: Seq<(Seq<char>, JsonV)>, k: Seq<char>, i: int, x: JsonV)
    requires
        0 <= i < es.len(),
        es[i].0 == k,
        forall|j: int| 0 <= j < i ==> #[trigger] es[j].0 != k,
    ensures
        crate::json::entry_get(es, k) == Some(es[i].1),
        crate::json::entry_get(es.update(i, (k, x)), k) == Some(x),
    decreases i,
{
    if i > 0 {
        let t = es.drop_first();
        assert forall|j: int| 0 <= j < i - 1 implies #[trigger] t[j].0 != k by {
            assert(t[j] == es[j + 1]);
        }
        assert(es[0].0 != k);
        lemma_index_get(t, k, i - 1, x);
        assert(es.update(i, (k, x)).drop_first() =~= t.update(i - 1, (k, x)));
    }
}

proof fn lemma_get_none(es: Seq<(Seq<char>, JsonV)>, k: Seq<char>)
    requires
        forall|j: int| 0 <= j < es.len() ==> #[trigger] es[j].0 != k,
    ensures
        crate::json::entry_get(es, k) is None,
    decreases es.len(),
{
    if es.len() > 0 {
        let t = es.drop_first();
        assert forall|j: int| 0 <= j < t.len() implies #[trigger] t[j].0 != k by {
            assert(t[j] == es[j + 1]);
        }
        assert(es[0].0 != k);
        lemma_get_none(t, k);
    }
}

proof fn lemma_get_push(es: Seq<(Seq<char>, JsonV)>, e: (Seq<char>, JsonV), k: Seq<char>)
    ensures
        crate::json::entry_get(es.push(e), k) == match crate::json::entry_get(es, k) {
            Some(v) => Some(v),
            None => if e.0 == k {
                Some(e.1)
            } else {
                None
            },
        },
    decreases es.len(),
{
    if es.len() > 0 {
        assert(es.push(e).drop_first() =~= es.drop_first().push(e));
        lemma_get_push(es.drop_first(), e, k);
    } else {
        assert(es.push(e).drop_first() =~= es);
    }
}

/// No key occurs twice: the entries of a JSON map.
pub open spec fn distinct_entry_keys(es: Seq<(Seq<char>, JsonV)>) -> bool {
    forall|i: int, j: int| 0 <= i < j < es.len() ==> #[trigger] es[i].0 != #[trigger] es[j].0
}

proof fn lemma_merged_entries_get(be: Seq<(Seq<char>, JsonV)>, oe: Seq<(Seq<char>, JsonV)>, k: Seq<char>)
    requires
        distinct_entry_keys(oe),
    ensures
        crate::json::entry_get(merged_entries(be, oe), k) == match crate::json::entry_get(oe, k) {
            Some(ov) => match crate::json::entry_get(be, k) {
                Some(bv) => Some(merged(bv, ov)),
                None => Some(ov),
            },
            None => crate::json::entry_get(be, k),
        },
    decreases oe.len(),
{
    if oe.len() > 0 {
        let rest = oe.drop_last();
        assert(distinct_entry_keys(rest)) by {
            assert forall|i: int, j: int| 0 <= i < j < rest.len() implies #[trigger] rest[i].0 != #[trigger] rest[j].0 by {
                assert(rest[i] == oe[i] && rest[j] == oe[j]);
            }
        }
        lemma_merged_entries_get(be, rest, k);
        let acc = merged_entries(be, rest);
        let kk = oe.last().0;
        let v = oe.last().1;
        assert(oe =~= rest.push(oe.last()));
        lemma_get_push(rest, oe.last(), k);
        crate::json::lemma_key_index_some(acc, kk);
        if k != kk {
            match key_index(acc, kk) {
                Some(i) => lemma_update_get(acc, i, kk, merged(acc[i].1, v), k),
                None => lemma_map_insert_get(acc, kk, v, k),
            }
        } else {
            assert forall|j: int| 0 <= j < rest.len() implies #[trigger] rest[j].0 != k by {
                assert(rest[j] == oe[j]);
                assert(oe[j].0 != oe[oe.len() - 1].0);
            }
            lemma_get_none(rest, k);
            match key_index(acc, kk) {
                Some(i) => lemma_index_get(acc, k, i, merged(acc[i].1, v)),
                None => {
                    lemma_get_none(acc, k);
                    lemma_map_insert_get(acc, kk, v, k);
                },
            }
        }
    }
}

/// What the entries of `oe` under `k`, taken in order, make of `b`, the
/// value the base holds under `k`: each merged onto what came before, the
/// first one taken as it is when the base holds nothing.
pub open spec fn merged_under(b: Option<JsonV>, oe: Seq<(Seq<char>, JsonV)>, k: Seq<char>) -> Option<JsonV>
    decreases oe.len(),
{
    if oe.len() == 0 {
        b
    } else {
        let r = merged_under(b, oe.drop_last(), k);
        if oe.last().0 == k {
            Some(
                match r {
                    Some(x) => merged(x, oe.last().1),
                    None => oe.last().1,
                },
            )
        } else {
            r
        }
    }
}

/// Two objects merge key by key for any override, repeated keys included:
/// each entry of the override under `k`, in order, is merged onto what the
/// base and the earlier entries left there.
pub proof fn law_deep_merge_in_override_order(be: Seq<(Seq<char>, JsonV)>, oe: Seq<(Seq<char>, JsonV)>, k: Seq<char>)
    ensures
        merged(JsonV::Object(be), JsonV::Object(oe)).get(k) == merged_under(crate::json::entry_get(be, k), oe, k),
    decreases oe.len(),
{
    if oe.len() > 0 {
        let rest = oe.drop_last();
        law_deep_merge_in_override_order(be, rest, k);
        let acc = merged_entries(be, rest);
        let kk = oe.last().0;
        let v = oe.last().1;
        crate::json::lemma_key_index_some(acc, kk);
        if k != kk {
            match key_index(acc, kk) {
                Some(i) => lemma_update_get(acc, i, kk, merged(acc[i].1, v), k),
                None => lemma_map_insert_get(acc, kk, v, k),
            }
        } else {
            match key_index(acc, kk) {
                Some(i) => lemma_index_get(acc, k, i, merged(acc[i].1, v)),
                None => {
                    lemma_get_none(acc, k);
                    lemma_map_insert_get(acc, kk, v, k);
                },
            }
        }
    }
}

/// `deep_merge`, key by key: two objects merge per key (a key on one side
/// only keeps that side's value, a key on both takes the merge of the two
/// values); two arrays concatenate; anything else is replaced by the
/// override. So an empty object as override leaves an object as it was.
pub proof fn law_deep_merge(b: JsonV, o: JsonV, k: Seq<char>)
    requires
        o matches JsonV::Object(oe) ==> distinct_entry_keys(oe),
    ensures
        match (b, o) {
            (JsonV::Object(be), JsonV::Object(oe)) => merged(b, o).get(k) == match crate::json::entry_get(oe, k) {
                Some(ov) => match crate::json::entry_get(be, k) {
                    Some(bv) => Some(merged(bv, ov)),
                    None => Some(ov),
                },
                None => crate::json::entry_get(be, k),
            },
            (JsonV::Array(bi), JsonV::Array(oi)) => merged(b, o) == JsonV::Array(bi + oi),
            (JsonV::Object(_), _) => merged(b, o) == o,
            (JsonV::Array(_), _) => merged(b, o) == o,
            (_, _) => merged(b, o) == o,
        },
        b is Object && o == JsonV::Object(Seq::empty()) ==> merged(b, o) == b,
{
    match (b, o) {
        (JsonV::Object(be), JsonV::Object(oe)) => lemma_merged_entries_get(be, oe, k),
        _ => {},
    }
}

fn merge_into(base: Json, over: &Json) -> (r: Json)
    ensures
        r@ == merged(base@, over@),
    decreases over,
{
    match over {
        Json::Object(oe) => match base {
            Json::Object(be) => {
                let ghost bv = entry_views(be@);
                let mut acc = be;
                let mut i: usize = 0;
                while i < oe.len()
                    invariant
                        i <= oe.len(),
                        over@ == JsonV::Object(entry_views(oe@)),
                        forall|k: int|
                            0 <= k < oe.len() ==> decreases_to!(*over => #[trigger] oe@[k].1),
                        entry_views(acc@) == merged_entries(bv, entry_views(oe@.take(i as int))),
                    decreases oe.len() - i,
                {
                    let ghost prev = entry_views(acc@);
                    proof {
                        assert(oe@.take(i + 1).drop_last() =~= oe@.take(i as int));
                        let ov = entry_views(oe@.take(i + 1));
                        assert(ov.drop_last() == entry_views(oe@.take(i as int)));
                        assert(ov.last() == (oe@[i as int].0@, json_view(oe@[i as int].1)));
                    }
                    let k = &oe[i].0;
                    let v = &oe[i].1;
                    match find_key(&acc, k.as_str()) {
                        Some(j) => {
                            let ghost before = acc@;
                            proof {
                                lemma_entry_views_len(acc@);
                                lemma_entry_views_map(before);
                                crate::json::lemma_key_index_some(prev, k@);
                            }
                            let (key, existing) = acc.remove(j);
                            let m = merge_into(existing, v);
                            let ghost removed = acc@;
                            acc.insert(j, (key, m));
                            proof {
                                assert(acc@ =~= before.update(j as int, (key, m)));
                                lemma_entry_views_map(acc@);
                                assert(prev[j as int].0 == k@);
                                assert(entry_views(acc@) =~= prev.update(
                                    j as int,
                                    (k@, merged(prev[j as int].1, v@)),
                                ));
                            }
                        },
                        None => {
                            obj_insert(&mut acc, k.clone(), v.deep_clone());
                        },
                    }
                    i = i + 1;
                }
                assert(oe@.take(oe.len() as int) =~= oe@);
                Json::Object(acc)
            },
            _ => over.deep_clone(),
        },
        Json::Array(oi) => match base {
            Json::Array(bi) => {
                let mut acc = bi;
                let ghost start = json_views(acc@);
                let mut i: usize = 0;
                while i < oi.len()
                    invariant
                        i <= oi.len(),
                        json_views(acc@) == start + json_views(oi@.take(i as int)),
                    decreases oi.len() - i,
                {
                    let c = oi[i].deep_clone();
                    let ghost prev = acc@;
                    acc.push(c);
                    proof {
                        assert(acc@.drop_last() =~= prev);
                        assert(oi@.take(i + 1).drop_last() =~= oi@.take(i as int));
                    }
                    i = i + 1;
                }
                assert(oi@.take(oi.len() as int) =~= oi@);
                Json::Array(acc)
            },
            _ => over.deep_clone(),
        },
        _ => over.deep_clone(),
    }
}

/// Objects merge recursively, arrays concatenate, scalars replace.
pub fn deep_merge(base: &mut Json, over: &Json)
    ensures
        final(base)@ == merged(old(base)@, over@),
{
    let mut b = Json::Null;
    std::mem::swap(&mut b, base);
    *base = merge_into(b, over);
}


/// Managed mode: the plugin brings the browser via Selenium Manager.
#[derive(Debug)]
pub struct Managed {
    pub version: String,
    /// Already expanded against `$HOME`.
    pub browser_path: Option<String>,
    pub offline: bool,
    pub cache_dir: String,
    pub proxy: Option<WebUrl>,
    pub mirror_url: Option<WebUrl>,
}

pub struct ManagedV {
    pub version: Seq<char>,
    pub browser_path: Option<Seq<char>>,
    pub offline: bool,
    pub cache_dir: Seq<char>,
    pub proxy: Option<UrlV>,
    pub mirror_url: Option<UrlV>,
}

pub open spec fn opt_url(o: Option<WebUrl>) -> Option<UrlV> {
    match o {
        Some(u) => Some(u@),
        None => None,
    }
}

impl View for Managed {
    type V = ManagedV;

    open spec fn view(&self) -> ManagedV {
        ManagedV {
            version: self.version@,
            browser_path: opt_view(self.browser_path),
            offline: self.offline,
            cache_dir: self.cache_dir@,
            proxy: opt_url(self.proxy),
            mirror_url: opt_url(self.mirror_url),
        }
    }
}

/// Where the browser comes from.
#[derive(Debug)]
pub enum Mode {
    Remote { url: WebUrl },
    Managed(Managed),
}

pub enum ModeV {
    Remote { url: UrlV },
    Managed(ManagedV),
}

impl View for Mode {
    type V = ModeV;

    open spec fn view(&self) -> ModeV {
        match self {
            Mode::Remote { url } => ModeV::Remote { url: url@ },
            Mode::Managed(m) => ModeV::Managed(m@),
        }
    }
}

#[derive(Debug)]
pub struct InstanceConfig {
    pub browser: Browser,
    pub mode: Mode,
    pub base_url: Option<WebUrl>,
    pub headless: bool,
    pub window: (u32, u32),
    /// How long an action waits for its element, in seconds.
    pub find_timeout_secs: u64,
    pub on_failure: OnFailure,
    /// Raw passthrough, merged last over what the plugin builds.
    pub capabilities: Json,
}

pub struct ConfigV {
    pub browser: Browser,
    pub mode: ModeV,
    pub base_url: Option<UrlV>,
    pub headless: bool,
    pub window: (u32, u32),
    pub find_timeout_secs: u64,
    pub on_failure: OnFailure,
    pub capabilities: JsonV,
}

impl View for InstanceConfig {
    type V = ConfigV;

    open spec fn view(&self) -> ConfigV {
        ConfigV {
            browser: self.browser,
            mode: self.mode@,
            base_url: opt_url(self.base_url),
            headless: self.headless,
            window: self.window,
            find_timeout_secs: self.find_timeout_secs,
            on_failure: self.on_failure,
            capabilities: self.capabilities@,
        }
    }
}

pub open spec fn quote_key(key: Seq<char>) -> Seq<char> {
    seq!['"'] + key + seq!['"']
}

pub open spec fn str_res(r: Result<String, String>) -> Result<Seq<char>, Seq<char>> {
    match r {
        Ok(s) => Ok(s@),
        Err(e) => Err(e@),
    }
}

pub open spec fn opt_str_res(r: Result<Option<String>, String>) -> Result<Option<Seq<char>>, Seq<char>> {
    match r {
        Ok(s) => Ok(opt_view(s)),
        Err(e) => Err(e@),
    }
}

pub open spec fn opt_url_res(r: Result<Option<WebUrl>, String>) -> Result<Option<UrlV>, Seq<char>> {
    match r {
        Ok(u) => Ok(opt_url(u)),
        Err(e) => Err(e@),
    }
}

pub open spec fn bool_res(r: Result<bool, String>) -> Result<bool, Seq<char>> {
    match r {
        Ok(b) => Ok(b),
        Err(e) => Err(e@),
    }
}

pub open spec fn required_string_spec(v: JsonV, key: Seq<char>) -> Result<Seq<char>, Seq<char>> {
    match v.get(key) {
        Some(JsonV::Str(s)) => if s.len() > 0 {
            Ok(s)
        } else {
            Err(quote_key(key) + " must not be empty"@)
        },
        Some(_) => Err(quote_key(key) + " must be a string"@),
        None => Err("requires a string "@ + quote_key(key)),
    }
}

pub open spec fn optional_string_spec(v: JsonV, key: Seq<char>) -> Result<Option<Seq<char>>, Seq<char>> {
    match v.get(key) {
        None => Ok(None),
        Some(JsonV::Null) => Ok(None),
        Some(JsonV::Str(s)) => Ok(Some(s)),
        Some(_) => Err(quote_key(key) + " must be a string"@),
    }
}

pub open spec fn optional_bool_spec(v: JsonV, key: Seq<char>, default: bool) -> Result<bool, Seq<char>> {
    match v.get(key) {
        None => Ok(default),
        Some(JsonV::Null) => Ok(default),
        Some(JsonV::Bool(b)) => Ok(b),
        Some(_) => Err(quote_key(key) + " must be true or false"@),
    }
}

pub open spec fn url_error(key: Seq<char>, s: Seq<char>, e: Seq<char>) -> Seq<char> {
    quote_key(key) + " "@ + debug_quoted(s) + " is not an absolute URL: "@ + e
}

/// An absolute URL with a host, or nothing when the key is absent or null.
pub open spec fn optional_url_spec(v: JsonV, key: Seq<char>) -> Result<Option<UrlV>, Seq<char>> {
    match optional_string_spec(v, key) {
        Err(e) => Err(e),
        Ok(None) => Ok(None),
        Ok(Some(s)) => match whatwg_parse(s) {
            Err(e) => Err(url_error(key, s, e)),
            Ok(u) => if u.host is None {
                Err(url_error(key, s, "missing host"@))
            } else {
                Ok(Some(u))
            },
        },
    }
}

fn quote(key: &str) -> (r: String)
    ensures
        r@ == quote_key(key@),
{
    let mut r = String::new();
    push_char(&mut r, '"');
    push_str(&mut r, key);
    push_char(&mut r, '"');
    r
}

fn key_message(key: &str, tail: &str) -> (r: String)
    ensures
        r@ == quote_key(key@) + tail@,
{
    let mut r = quote(key);
    push_str(&mut r, tail);
    r
}

fn required_string(v: &Json, key: &str) -> (r: Result<String, String>)
    ensures
        str_res(r) == required_string_spec(v@, key@),
{
    match v.get(key) {
        Some(Json::Str(s)) => if !s.as_str().is_empty() {
            Ok(s.clone())
        } else {
            Err(key_message(key, " must not be empty"))
        },
        Some(_) => Err(key_message(key, " must be a string")),
        None => {
            let mut r = owned("requires a string ");
            let q = quote(key);
            push_str(&mut r, q.as_str());
            Err(r)
        },
    }
}

pub fn optional_string(v: &Json, key: &str) -> (r: Result<Option<String>, String>)
    ensures
        opt_str_res(r) == optional_string_spec(v@, key@),
{
    match v.get(key) {
        None => Ok(None),
        Some(Json::Null) => Ok(None),
        Some(Json::Str(s)) => Ok(Some(s.clone())),
        Some(_) => Err(key_message(key, " must be a string")),
    }
}

pub fn optional_bool(v: &Json, key: &str, default: bool) -> (r: Result<bool, String>)
    ensures
        bool_res(r) == optional_bool_spec(v@, key@, default),
{
    match v.get(key) {
        None => Ok(default),
        Some(Json::Null) => Ok(default),
        Some(Json::Bool(b)) => Ok(*b),
        Some(_) => Err(key_message(key, " must be true or false")),
    }
}

fn url_message(key: &str, s: &str, e: &str) -> (r: String)
    ensures
        r@ == url_error(key@, s@, e@),
{
    let mut r = key_message(key, " ");
    let q = debug_str(s);
    push_str(&mut r, q.as_str());
    push_str(&mut r, " is not an absolute URL: ");
    push_str(&mut r, e);
    r
}

fn optional_url(v: &Json, key: &str) -> (r: Result<Option<WebUrl>, String>)
    ensures
        opt_url_res(r) == optional_url_spec(v@, key@),
{
    match optional_string(v, key) {
        Err(e) => Err(e),
        Ok(None) => Ok(None),
        Ok(Some(s)) => match WebUrl::parse(s.as_str()) {
            Err(e) => Err(url_message(key, s.as_str(), e.as_str())),
            Ok(u) => if !u.has_host() {
                Err(url_message(key, s.as_str(), "missing host"))
            } else {
                Ok(Some(u))
            },
        },
    }
}

/// The first key of `es`, in order, that the table does not know.
pub open spec fn first_unknown(es: Seq<(Seq<char>, JsonV)>) -> Option<Seq<char>>
    decreases es.len(),
{
    if es.len() == 0 {
        None
    } else if !known_keys_spec().contains(es[0].0) {
        Some(es[0].0)
    } else {
        first_unknown(es.drop_first())
    }
}

pub open spec fn unknown_key_error(k: Seq<char>) -> Seq<char> {
    "unknown key \""@ + k + "\"; known keys are "@ + crate::text::join(known_keys_spec(), ", "@)
}

fn is_known(k: &str) -> (r: bool)
    ensures
        r == known_keys_spec().contains(k@),
{
    let keys = known_keys();
    let ghost ks = keys@.map_values(|x: &'static str| x@);
    let mut i: usize = 0;
    while i < keys.len()
        invariant
            i <= keys.len(),
            ks == keys@.map_values(|x: &'static str| x@),
            ks == known_keys_spec(),
            forall|j: int| 0 <= j < i ==> #[trigger] ks[j] != k@,
        decreases keys.len() - i,
    {
        if str_eq(keys[i], k) {
            assert(ks[i as int] == k@);
            return true;
        }
        i = i + 1;
    }
    proof {
        if ks.contains(k@) {
            let j = choose|j: int| 0 <= j < ks.len() && ks[j] == k@;
            assert(ks[j] != k@);
        }
    }
    false
}

fn known_keys_text() -> (r: String)
    ensures
        r@ == crate::text::join(known_keys_spec(), ", "@),
{
    let keys = known_keys();
    let ghost ks = keys@.map_values(|x: &'static str| x@);
    let mut out = String::new();
    let mut i: usize = 0;
    while i < keys.len()
        invariant
            i <= keys.len(),
            ks == keys@.map_values(|x: &'static str| x@),
            out@ == crate::text::join(ks.take(i as int), ", "@),
        decreases keys.len() - i,
    {
        proof {
            assert(ks.take(i + 1) =~= ks.take(i as int).push(ks[i as int]));
            crate::text::lemma_join_push(ks.take(i as int), ", "@, ks[i as int]);
        }
        if i > 0 {
            push_str(&mut out, ", ");
        }
        push_str(&mut out, keys[i]);
        i = i + 1;
    }
    assert(ks.take(keys.len() as int) =~= ks);
    out
}

fn find_unknown(entries: &Vec<(String, Json)>) -> (r: Option<String>)
    ensures
        opt_view(r) == first_unknown(entry_views(entries@)),
{
    let ghost es = entry_views(entries@);
    proof {
        lemma_entry_views_len(entries@);
        assert(es.skip(0) =~= es);
    }
    let mut i: usize = 0;
    while i < entries.len()
        invariant
            i <= entries.len(),
            es == entry_views(entries@),
            es.len() == entries@.len(),
            forall|j: int|
                0 <= j < entries@.len() ==> #[trigger] es[j] == (entries@[j].0@, json_view(
                    entries@[j].1,
                )),
            first_unknown(es) == first_unknown(es.skip(i as int)),
        decreases entries.len() - i,
    {
        assert(es.skip(i as int)[0] == es[i as int]);
        if !is_known(entries[i].0.as_str()) {
            return Some(entries[i].0.clone());
        }
        assert(es.skip(i as int).drop_first() =~= es.skip(i + 1));
        i = i + 1;
    }
    assert(es.skip(i as int) =~= Seq::<(Seq<char>, JsonV)>::empty());
    None
}

/// The keys that only managed mode reads.
pub open spec fn managed_keys_spec() -> Seq<Seq<char>> {
    seq!["version"@, "browser_path"@, "offline"@, "cache_dir"@, "proxy"@, "mirror_url"@]
}

fn managed_keys() -> (r: Vec<&'static str>)
    ensures
        r@.map_values(|k: &'static str| k@) == managed_keys_spec(),
{
    let mut v: Vec<&'static str> = Vec::new();
    v.push("version");
    v.push("browser_path");
    v.push("offline");
    v.push("cache_dir");
    v.push("proxy");
    v.push("mirror_url");
    assert(v@.map_values(|k: &'static str| k@) =~= managed_keys_spec());
    v
}

/// A key holding anything but `null`.
pub open spec fn is_set(v: JsonV, key: Seq<char>) -> bool {
    match v.get(key) {
        Some(x) => x != JsonV::Null,
        None => false,
    }
}

/// The first of `keys`, in order, that `v` sets.
pub open spec fn first_set(v: JsonV, keys: Seq<Seq<char>>) -> Option<Seq<char>>
    decreases keys.len(),
{
    if keys.len() == 0 {
        None
    } else if is_set(v, keys[0]) {
        Some(keys[0])
    } else {
        first_set(v, keys.drop_first())
    }
}

fn first_managed_key(v: &Json) -> (r: Option<&'static str>)
    ensures
        match r {
            Some(k) => first_set(v@, managed_keys_spec()) == Some(k@),
            None => first_set(v@, managed_keys_spec()) is None,
        },
{
    let keys = managed_keys();
    let ghost ks = keys@.map_values(|x: &'static str| x@);
    assert(ks.skip(0) =~= ks);
    let mut i: usize = 0;
    while i < keys.len()
        invariant
            i <= keys.len(),
            ks == keys@.map_values(|x: &'static str| x@),
            ks == managed_keys_spec(),
            first_set(v@, ks) == first_set(v@, ks.skip(i as int)),
        decreases keys.len() - i,
    {
        assert(ks.skip(i as int)[0] == ks[i as int]);
        let set = match v.get(keys[i]) {
            Some(x) => !x.is_null(),
            None => false,
        };
        if set {
            return Some(keys[i]);
        }
        assert(ks.skip(i as int).drop_first() =~= ks.skip(i + 1));
        i = i + 1;
    }
    assert(ks.skip(i as int) =~= Seq::<Seq<char>>::empty());
    None
}

/// `browser_path` as managed mode reads it, expanded against `home`: the
/// path whose being a file `InstanceConfig::parse` is told.
pub open spec fn browser_path_spec(v: JsonV, home: Seq<char>) -> Option<Seq<char>> {
    match v.get("browser_path"@) {
        Some(JsonV::Str(p)) => Some(expand_home_spec(home, p)),
        _ => None,
    }
}

pub fn browser_path_of(config: &Json, home: &str) -> (r: Option<String>)
    ensures
        opt_view(r) == browser_path_spec(config@, home@),
{
    match config.get("browser_path") {
        Some(Json::Str(p)) => Some(expand_home(home, p.as_str())),
        _ => None,
    }
}

pub open spec fn default_cache_dir() -> Seq<char> {
    "~/.cache/bddkit/plugins/browser"@
}

pub open spec fn managed_spec(v: JsonV, home: Seq<char>, is_file: bool) -> Result<ModeV, Seq<char>> {
    match optional_string_spec(v, "version"@) {
        Err(e) => Err(e),
        Ok(version) => match optional_string_spec(v, "browser_path"@) {
            Err(e) => Err(e),
            Ok(raw) => {
                let bp = match raw {
                    Some(p) => Some(expand_home_spec(home, p)),
                    None => None,
                };
                if version is Some && bp is Some {
                    Err(
                        "\"version\" and \"browser_path\" are exclusive: name a version to download, or a path to use"@,
                    )
                } else if bp is Some && !is_file {
                    Err("\"browser_path\" "@ + bp->0 + " is not a file"@)
                } else {
                    match optional_bool_spec(v, "offline"@, false) {
                        Err(e) => Err(e),
                        Ok(offline) => match optional_string_spec(v, "cache_dir"@) {
                            Err(e) => Err(e),
                            Ok(cd) => match optional_url_spec(v, "proxy"@) {
                                Err(e) => Err(e),
                                Ok(proxy) => match optional_url_spec(v, "mirror_url"@) {
                                    Err(e) => Err(e),
                                    Ok(mirror_url) => Ok(
                                        ModeV::Managed(
                                            ManagedV {
                                                version: match version {
                                                    Some(s) => s,
                                                    None => "stable"@,
                                                },
                                                browser_path: bp,
                                                offline,
                                                cache_dir: match cd {
                                                    Some(c) => expand_home_spec(home, c),
                                                    None => expand_home_spec(home, default_cache_dir()),
                                                },
                                                proxy,
                                                mirror_url,
                                            },
                                        ),
                                    ),
                                },
                            },
                        },
                    }
                }
            },
        },
    }
}

/// Remote mode when `url` is set, managed mode otherwise.
pub open spec fn mode_spec(v: JsonV, home: Seq<char>, is_file: bool) -> Result<ModeV, Seq<char>> {
    match optional_string_spec(v, "url"@) {
        Err(e) => Err(e),
        Ok(Some(u)) => if u.len() == 0 {
            Err("\"url\" must not be empty; omit it for managed mode"@)
        } else {
            match first_set(v, managed_keys_spec()) {
                Some(k) => Err(
                    quote_key(k)
                        + " is a managed-mode key and cannot be set beside \"url\": a remote endpoint owns its own browsers"@,
                ),
                None => match whatwg_parse(u) {
                    Ok(url) => Ok(ModeV::Remote { url }),
                    Err(e) => Err(url_error("url"@, u, e)),
                },
            }
        },
        Ok(None) => managed_spec(v, home, is_file),
    }
}

pub open spec fn mode_res(r: Result<Mode, String>) -> Result<ModeV, Seq<char>> {
    match r {
        Ok(m) => Ok(m@),
        Err(e) => Err(e@),
    }
}

fn parse_managed(config: &Json, home: &str, browser_path_is_file: bool) -> (r: Result<Mode, String>)
    ensures
        mode_res(r) == managed_spec(config@, home@, browser_path_is_file),
{
    let version = match optional_string(config, "version") {
        Err(e) => return Err(e),
        Ok(v) => v,
    };
    let raw = match optional_string(config, "browser_path") {
        Err(e) => return Err(e),
        Ok(p) => p,
    };
    let browser_path = match raw {
        Some(p) => Some(expand_home(home, p.as_str())),
        None => None,
    };
    if version.is_some() && browser_path.is_some() {
        return Err(
            owned(
                "\"version\" and \"browser_path\" are exclusive: name a version to download, or a path to use",
            ),
        );
    }
    match &browser_path {
        Some(p) => if !browser_path_is_file {
            let mut e = owned("\"browser_path\" ");
            push_str(&mut e, p.as_str());
            push_str(&mut e, " is not a file");
            return Err(e);
        },
        None => {},
    }
    let offline = match optional_bool(config, "offline", false) {
        Err(e) => return Err(e),
        Ok(b) => b,
    };
    let cache_dir = match optional_string(config, "cache_dir") {
        Err(e) => return Err(e),
        Ok(Some(c)) => expand_home(home, c.as_str()),
        Ok(None) => expand_home(home, "~/.cache/bddkit/plugins/browser"),
    };
    let proxy = match optional_url(config, "proxy") {
        Err(e) => return Err(e),
        Ok(u) => u,
    };
    let mirror_url = match optional_url(config, "mirror_url") {
        Err(e) => return Err(e),
        Ok(u) => u,
    };
    let version = match version {
        Some(s) => s,
        None => owned("stable"),
    };
    Ok(Mode::Managed(Managed { version, browser_path, offline, cache_dir, proxy, mirror_url }))
}

fn parse_mode(config: &Json, home: &str, browser_path_is_file: bool) -> (r: Result<Mode, String>)
    ensures
        mode_res(r) == mode_spec(config@, home@, browser_path_is_file),
{
    match optional_string(config, "url") {
        Err(e) => Err(e),
        Ok(Some(u)) => {
            if u.as_str().is_empty() {
                return Err(owned("\"url\" must not be empty; omit it for managed mode"));
            }
            match first_managed_key(config) {
                Some(k) => Err(
                    key_message(
                        k,
                        " is a managed-mode key and cannot be set beside \"url\": a remote endpoint owns its own browsers",
                    ),
                ),
                None => match WebUrl::parse(u.as_str()) {
                    Ok(url) => Ok(Mode::Remote { url }),
                    Err(e) => Err(url_message("url", u.as_str(), e.as_str())),
                },
            }
        },
        Ok(None) => parse_managed(config, home, browser_path_is_file),
    }
}

pub open spec fn browser_spec(v: JsonV) -> Result<Browser, Seq<char>> {
    match required_string_spec(v, "browser"@) {
        Err(e) => Err(e),
        Ok(raw) => match Browser::parse_spec(raw) {
            Some(b) => Ok(b),
            None => Err("\"browser\" must be chrome, firefox or edge, got "@ + debug_quoted(raw)),
        },
    }
}

pub open spec fn window_key_spec(v: JsonV) -> Result<(u32, u32), Seq<char>> {
    match optional_string_spec(v, "window"@) {
        Err(e) => Err(e),
        Ok(None) => Ok((1280, 800)),
        Ok(Some(s)) => match window_spec(s) {
            Some(w) => Ok(w),
            None => Err("\"window\" must be <width>x<height>, got "@ + debug_quoted(s)),
        },
    }
}

pub open spec fn find_timeout_spec(v: JsonV) -> Result<u64, Seq<char>> {
    match v.get("find_timeout_secs"@) {
        None => Ok(5),
        Some(JsonV::Null) => Ok(5),
        Some(JsonV::UInt(n)) => Ok(n),
        Some(JsonV::NegInt(_)) => Err("\"find_timeout_secs\" must be a non-negative integer"@),
        Some(JsonV::Float(_)) => Err("\"find_timeout_secs\" must be a non-negative integer"@),
        Some(other) => Err(
            "\"find_timeout_secs\" must be a non-negative integer, got "@ + json_text(other),
        ),
    }
}

pub open spec fn on_failure_key_spec(v: JsonV) -> Result<OnFailure, Seq<char>> {
    match optional_string_spec(v, "on_failure"@) {
        Err(e) => Err(e),
        Ok(None) => Ok(OnFailure { screenshot: true, console: true, network: true }),
        Ok(Some(s)) => on_failure_spec(s),
    }
}

pub open spec fn capabilities_spec(v: JsonV) -> Result<JsonV, Seq<char>> {
    match v.get("capabilities"@) {
        None => Ok(JsonV::Object(Seq::empty())),
        Some(JsonV::Null) => Ok(JsonV::Object(Seq::empty())),
        Some(JsonV::Object(e)) => Ok(JsonV::Object(e)),
        Some(_) => Err("\"capabilities\" must be a mapping"@),
    }
}

/// What `InstanceConfig::parse` makes of an instance body: each check in
/// turn, the first that fails giving the error.
pub open spec fn config_spec(v: JsonV, home: Seq<char>, is_file: bool) -> Result<ConfigV, Seq<char>> {
    match v {
        JsonV::Object(entries) => match first_unknown(entries) {
            Some(k) => Err(unknown_key_error(k)),
            None => known_config_spec(v, home, is_file),
        },
        _ => Err("the instance body must be a mapping"@),
    }
}

/// The checks after the key check, in order; the first that fails is the
/// error.
pub open spec fn known_config_spec(v: JsonV, home: Seq<char>, is_file: bool) -> Result<ConfigV, Seq<char>> {
    match browser_spec(v) {
        Err(e) => Err(e),
        Ok(browser) => match mode_spec(v, home, is_file) {
            Err(e) => Err(e),
            Ok(mode) => match optional_url_spec(v, "base_url"@) {
                Err(e) => Err(e),
                Ok(base_url) => match optional_bool_spec(v, "headless"@, true) {
                    Err(e) => Err(e),
                    Ok(headless) => match window_key_spec(v) {
                        Err(e) => Err(e),
                        Ok(window) => match find_timeout_spec(v) {
                            Err(e) => Err(e),
                            Ok(find_timeout_secs) => match on_failure_key_spec(v) {
                                Err(e) => Err(e),
                                Ok(on_failure) => match capabilities_spec(v) {
                                    Err(e) => Err(e),
                                    Ok(capabilities) => Ok(
                                        ConfigV {
                                            browser,
                                            mode,
                                            base_url,
                                            headless,
                                            window,
                                            find_timeout_secs,
                                            on_failure,
                                            capabilities,
                                        },
                                    ),
                                },
                            },
                        },
                    },
                },
            },
        },
    }
}

pub open spec fn config_res(r: Result<InstanceConfig, String>) -> Result<ConfigV, Seq<char>> {
    match r {
        Ok(c) => Ok(c@),
        Err(e) => Err(e@),
    }
}

fn parse_browser(config: &Json) -> (r: Result<Browser, String>)
    ensures
        match r {
            Ok(b) => browser_spec(config@) == Ok::<Browser, Seq<char>>(b),
            Err(e) => browser_spec(config@) == Err::<Browser, Seq<char>>(e@),
        },
{
    let raw = match required_string(config, "browser") {
        Err(e) => return Err(e),
        Ok(s) => s,
    };
    match Browser::parse(raw.as_str()) {
        Some(b) => Ok(b),
        None => {
            let mut e = owned("\"browser\" must be chrome, firefox or edge, got ");
            let q = debug_str(raw.as_str());
            push_str(&mut e, q.as_str());
            Err(e)
        },
    }
}

fn parse_window_key(config: &Json) -> (r: Result<(u32, u32), String>)
    ensures
        match r {
            Ok(w) => window_key_spec(config@) == Ok::<(u32, u32), Seq<char>>(w),
            Err(e) => window_key_spec(config@) == Err::<(u32, u32), Seq<char>>(e@),
        },
{
    match optional_string(config, "window") {
        Err(e) => Err(e),
        Ok(None) => Ok((1280, 800)),
        Ok(Some(s)) => match parse_window(s.as_str()) {
            Some(w) => Ok(w),
            None => {
                let mut e = owned("\"window\" must be <width>x<height>, got ");
                let q = debug_str(s.as_str());
                push_str(&mut e, q.as_str());
                Err(e)
            },
        },
    }
}

fn parse_find_timeout(config: &Json) -> (r: Result<u64, String>)
    ensures
        match r {
            Ok(n) => find_timeout_spec(config@) == Ok::<u64, Seq<char>>(n),
            Err(e) => find_timeout_spec(config@) == Err::<u64, Seq<char>>(e@),
        },
{
    match config.get("find_timeout_secs") {
        None => Ok(5),
        Some(Json::Null) => Ok(5),
        Some(Json::UInt(n)) => Ok(*n),
        Some(Json::NegInt(_)) => Err(owned("\"find_timeout_secs\" must be a non-negative integer")),
        Some(Json::Float(_)) => Err(owned("\"find_timeout_secs\" must be a non-negative integer")),
        Some(other) => {
            let mut e = owned("\"find_timeout_secs\" must be a non-negative integer, got ");
            let t = render(other);
            push_str(&mut e, t.as_str());
            Err(e)
        },
    }
}

fn parse_on_failure_key(config: &Json) -> (r: Result<OnFailure, String>)
    ensures
        match r {
            Ok(o) => on_failure_key_spec(config@) == Ok::<OnFailure, Seq<char>>(o),
            Err(e) => on_failure_key_spec(config@) == Err::<OnFailure, Seq<char>>(e@),
        },
{
    match optional_string(config, "on_failure") {
        Err(e) => Err(e),
        Ok(None) => Ok(OnFailure { screenshot: true, console: true, network: true }),
        Ok(Some(s)) => OnFailure::parse(s.as_str()),
    }
}

fn parse_capabilities(config: &Json) -> (r: Result<Json, String>)
    ensures
        match r {
            Ok(c) => capabilities_spec(config@) == Ok::<JsonV, Seq<char>>(c@),
            Err(e) => capabilities_spec(config@) == Err::<JsonV, Seq<char>>(e@),
        },
{
    match config.get("capabilities") {
        None => Ok(Json::Object(Vec::new())),
        Some(Json::Null) => Ok(Json::Object(Vec::new())),
        Some(c) => match c {
            Json::Object(_) => Ok(c.deep_clone()),
            _ => Err(owned("\"capabilities\" must be a mapping")),
        },
    }
}

impl InstanceConfig {
    /// Every check a typo could trip, in order; the first that fails is the
    /// error. `home` is `$HOME` (empty when unset); `browser_path_is_file`
    /// is whether `browser_path_of(config, home)` names a file, which only
    /// matters when that is `Some`.
    pub fn parse(config: &Json, home: &str, browser_path_is_file: bool) -> (r: Result<InstanceConfig, String>)
        ensures
            config_res(r) == config_spec(config@, home@, browser_path_is_file),
    {
        let entries = match config {
            Json::Object(e) => e,
            _ => return Err(owned("the instance body must be a mapping")),
        };
        match find_unknown(entries) {
            Some(k) => {
                let mut e = owned("unknown key \"");
                push_str(&mut e, k.as_str());
                push_str(&mut e, "\"; known keys are ");
                let all = known_keys_text();
                push_str(&mut e, all.as_str());
                return Err(e);
            },
            None => {},
        }
        let browser = match parse_browser(config) {
            Err(e) => return Err(e),
            Ok(b) => b,
        };
        let mode = match parse_mode(config, home, browser_path_is_file) {
            Err(e) => return Err(e),
            Ok(m) => m,
        };
        let base_url = match optional_url(config, "base_url") {
            Err(e) => return Err(e),
            Ok(u) => u,
        };
        let headless = match optional_bool(config, "headless", true) {
            Err(e) => return Err(e),
            Ok(b) => b,
        };
        let window = match parse_window_key(config) {
            Err(e) => return Err(e),
            Ok(w) => w,
        };
        let find_timeout_secs = match parse_find_timeout(config) {
            Err(e) => return Err(e),
            Ok(n) => n,
        };
        let on_failure = match parse_on_failure_key(config) {
            Err(e) => return Err(e),
            Ok(o) => o,
        };
        let capabilities = match parse_capabilities(config) {
            Err(e) => return Err(e),
            Ok(c) => c,
        };
        Ok(
            InstanceConfig {
                browser,
                mode,
                base_url,
                headless,
                window,
                find_timeout_secs,
                on_failure,
                capabilities,
            },
        )
    }
}

/// The vendor options object: `args` (the headless flag when asked for)
/// and `binary` when there is one.
pub open spec fn vendor_options(b: Browser, headless: bool, binary: Option<Seq<char>>) -> JsonV {
    let args = if headless {
        seq![JsonV::Str(b.headless_arg_spec())]
    } else {
        Seq::empty()
    };
    let o = map_insert(Seq::empty(), "args"@, JsonV::Array(args));
    JsonV::Object(
        match binary {
            Some(p) => map_insert(o, "binary"@, JsonV::Str(p)),
            None => o,
        },
    )
}

/// The `POST /session` body: `browserName`, `webSocketUrl: true` and the
/// vendor options, with the user's capabilities merged over them.
pub open spec fn session_body(c: ConfigV, binary: Option<Seq<char>>) -> JsonV {
    let always = map_insert(
        map_insert(
            map_insert(Seq::empty(), "browserName"@, JsonV::Str(c.browser.browser_name_spec())),
            "webSocketUrl"@,
            JsonV::Bool(true),
        ),
        c.browser.options_key_spec(),
        vendor_options(c.browser, c.headless, binary),
    );
    JsonV::Object(
        seq![
            (
                "capabilities"@,
                JsonV::Object(seq![("alwaysMatch"@, merged(JsonV::Object(always), c.capabilities))]),
            ),
        ],
    )
}

pub open spec fn opt_str(o: Option<&str>) -> Option<Seq<char>> {
    match o {
        Some(s) => Some(s@),
        None => None,
    }
}

impl Managed {
    pub fn duplicate(&self) -> (r: Managed)
        ensures
            r@ == self@,
    {
        Managed {
            version: self.version.clone(),
            browser_path: match &self.browser_path {
                Some(p) => Some(p.clone()),
                None => None,
            },
            offline: self.offline,
            cache_dir: self.cache_dir.clone(),
            proxy: match &self.proxy {
                Some(u) => Some(u.duplicate()),
                None => None,
            },
            mirror_url: match &self.mirror_url {
                Some(u) => Some(u.duplicate()),
                None => None,
            },
        }
    }
}

impl InstanceConfig {
    /// A copy of this configuration.
    pub fn duplicate(&self) -> (r: InstanceConfig)
        ensures
            r@ == self@,
    {
        InstanceConfig {
            browser: self.browser,
            mode: match &self.mode {
                Mode::Remote { url } => Mode::Remote { url: url.duplicate() },
                Mode::Managed(m) => Mode::Managed(m.duplicate()),
            },
            base_url: match &self.base_url {
                Some(u) => Some(u.duplicate()),
                None => None,
            },
            headless: self.headless,
            window: self.window,
            find_timeout_secs: self.find_timeout_secs,
            on_failure: self.on_failure,
            capabilities: self.capabilities.deep_clone(),
        }
    }

    /// The whole `POST /session` body. `binary` is the managed-mode browser
    /// executable; remote mode passes `None`.
    pub fn session_capabilities(&self, binary: Option<&str>) -> (r: Json)
        ensures
            r@ == session_body(self@, opt_str(binary)),
    {
        let mut args: Vec<Json> = Vec::new();
        if self.headless {
            args.push(Json::text(self.browser.headless_arg()));
        }
        let ghost av = json_views(args@);
        assert(av =~= (if self.headless {
            seq![JsonV::Str(self.browser.headless_arg_spec())]
        } else {
            Seq::<JsonV>::empty()
        })) by {
            assert(json_views(Seq::<Json>::empty()) =~= Seq::<JsonV>::empty());
            if self.headless {
                assert(args@.drop_last() =~= Seq::<Json>::empty());
                assert(json_view(args@.last()) == JsonV::Str(self.browser.headless_arg_spec()));
            } else {
                assert(args@ =~= Seq::<Json>::empty());
            }
        }
        let mut options: Vec<(String, Json)> = Vec::new();
        obj_insert(&mut options, owned("args"), Json::Array(args));
        match binary {
            Some(b) => obj_insert(&mut options, owned("binary"), Json::text(b)),
            None => {},
        }
        let mut always: Vec<(String, Json)> = Vec::new();
        obj_insert(&mut always, owned("browserName"), Json::text(self.browser.browser_name()));
        obj_insert(&mut always, owned("webSocketUrl"), Json::Bool(true));
        obj_insert(&mut always, owned(self.browser.options_key()), Json::Object(options));
        let mut always = Json::Object(always);
        deep_merge(&mut always, &self.capabilities);
        let mut inner: Vec<(String, Json)> = Vec::new();
        obj_insert(&mut inner, owned("alwaysMatch"), always);
        let mut outer: Vec<(String, Json)> = Vec::new();
        obj_insert(&mut outer, owned("capabilities"), Json::Object(inner));
        Json::Object(outer)
    }
}

proof fn lemma_first_unknown(es: Seq<(Seq<char>, JsonV)>)
    ensures
        (first_unknown(es) is None) <==> (forall|i: int| 0 <= i < es.len() ==> known_keys_spec().contains(#[trigger] es[i].0)),
        first_unknown(es) matches Some(k) ==> exists|i: int|
            0 <= i < es.len() && #[trigger] es[i].0 == k && !known_keys_spec().contains(k),
    decreases es.len(),
{
    if es.len() > 0 {
        lemma_first_unknown(es.drop_first());
        if first_unknown(es) is None {
            assert forall|i: int| 0 <= i < es.len() implies known_keys_spec().contains(#[trigger] es[i].0) by {
                if i > 0 {
                    assert(es[i] == es.drop_first()[i - 1]);
                }
            }
        } else if known_keys_spec().contains(es[0].0) {
            let k = first_unknown(es)->0;
            let j = choose|j: int| 0 <= j < es.drop_first().len() && #[trigger] es.drop_first()[j].0 == k
                && !known_keys_spec().contains(k);
            assert(es[j + 1].0 == k);
        } else {
            assert(es[0].0 == first_unknown(es)->0);
        }
        if forall|i: int| 0 <= i < es.len() ==> known_keys_spec().contains(#[trigger] es[i].0) {
            assert(known_keys_spec().contains(es[0].0));
            assert forall|i: int| 0 <= i < es.drop_first().len() implies known_keys_spec().contains(
                #[trigger] es.drop_first()[i].0,
            ) by {
                assert(es.drop_first()[i] == es[i + 1]);
            }
        }
    }
}

/// A key outside the known keys refuses the whole body, naming a key it
/// carries that is not known and listing every known key; a body whose
/// keys are all known is never refused for a key: it gets what the checks
/// of the values give.
pub proof fn law_unknown_keys_are_refused(es: Seq<(Seq<char>, JsonV)>, home: Seq<char>, is_file: bool)
    ensures
        (exists|i: int| 0 <= i < es.len() && !known_keys_spec().contains(#[trigger] es[i].0)) ==> exists|k: Seq<char>|
            #![trigger unknown_key_error(k)]
            config_spec(JsonV::Object(es), home, is_file) == Err::<ConfigV, Seq<char>>(unknown_key_error(k))
                && !known_keys_spec().contains(k) && exists|i: int| 0 <= i < es.len() && #[trigger] es[i].0 == k,
        (forall|i: int| 0 <= i < es.len() ==> known_keys_spec().contains(#[trigger] es[i].0)) ==> config_spec(
            JsonV::Object(es),
            home,
            is_file,
        ) == known_config_spec(JsonV::Object(es), home, is_file),
{
    lemma_first_unknown(es);
    if first_unknown(es) is Some {
        let k = first_unknown(es)->0;
        assert(config_spec(JsonV::Object(es), home, is_file) == Err::<ConfigV, Seq<char>>(unknown_key_error(k)));
    }
}

/// `find_timeout_secs`: absent or `null` is 5 seconds, a non-negative
/// integer is that many (0: no wait), anything else refuses the body with
/// an error that names the key.
pub proof fn law_find_timeout(v: JsonV, home: Seq<char>, is_file: bool)
    ensures
        known_config_spec(v, home, is_file) matches Ok(c) ==> match v.get("find_timeout_secs"@) {
            None => c.find_timeout_secs == 5,
            Some(JsonV::Null) => c.find_timeout_secs == 5,
            Some(JsonV::UInt(n)) => c.find_timeout_secs == n,
            Some(_) => false,
        },
        match v.get("find_timeout_secs"@) {
            None => true,
            Some(JsonV::Null) => true,
            Some(JsonV::UInt(_)) => true,
            Some(_) => find_timeout_spec(v) matches Err(e) && (
            "\"find_timeout_secs\" must be a non-negative integer"@).is_prefix_of(e),
        },
        find_timeout_spec(v) is Err ==> known_config_spec(v, home, is_file) is Err,
{
    let p = "\"find_timeout_secs\" must be a non-negative integer"@;
    match v.get("find_timeout_secs"@) {
        Some(other) => match other {
            JsonV::Null => {},
            JsonV::UInt(_) => {},
            JsonV::NegInt(_) => {
                assert(p.subrange(0, p.len() as int) =~= p);
            },
            JsonV::Float(_) => {
                assert(p.subrange(0, p.len() as int) =~= p);
            },
            _ => {
                reveal_strlit("\"find_timeout_secs\" must be a non-negative integer");
                reveal_strlit("\"find_timeout_secs\" must be a non-negative integer, got ");
                let e = "\"find_timeout_secs\" must be a non-negative integer, got "@ + json_text(other);
                assert(e.subrange(0, p.len() as int) =~= p);
                assert(p.is_prefix_of(e));
            },
        },
        None => {},
    }
}

/// Whether `key` is set to a string.
pub open spec fn string_given(v: JsonV, key: Seq<char>) -> bool {
    optional_string_spec(v, key) matches Ok(Some(_))
}

/// The string `key` is set to, when it is.
pub open spec fn given_string(v: JsonV, key: Seq<char>) -> Seq<char> {
    match optional_string_spec(v, key) {
        Ok(Some(s)) => s,
        _ => Seq::empty(),
    }
}

/// Remote mode exactly when `url` is set to a string: an empty one is
/// refused, and so is one beside a managed-mode key, which the error names;
/// without `url`, `version` and `browser_path` together are refused.
pub proof fn law_mode_follows_url(v: JsonV, home: Seq<char>, is_file: bool)
    ensures
        mode_spec(v, home, is_file) matches Ok(m) ==> ((m is Remote) <==> (optional_string_spec(v, "url"@) matches Ok(
            Some(_),
        ))),
        optional_string_spec(v, "url"@) == Ok::<Option<Seq<char>>, Seq<char>>(Some(Seq::empty())) ==> mode_spec(
            v,
            home,
            is_file,
        ) == Err::<ModeV, Seq<char>>("\"url\" must not be empty; omit it for managed mode"@),
        string_given(v, "url"@) && given_string(v, "url"@).len() > 0 && first_set(v, managed_keys_spec()) is Some
            ==> mode_spec(v, home, is_file) == Err::<ModeV, Seq<char>>(
            quote_key(first_set(v, managed_keys_spec())->0)
                + " is a managed-mode key and cannot be set beside \"url\": a remote endpoint owns its own browsers"@,
        ),
        optional_string_spec(v, "url"@) == Ok::<Option<Seq<char>>, Seq<char>>(None) && string_given(v, "version"@)
            && string_given(v, "browser_path"@) ==> mode_spec(v, home, is_file) == Err::<ModeV, Seq<char>>(
            "\"version\" and \"browser_path\" are exclusive: name a version to download, or a path to use"@,
        ),
{
}

proof fn lemma_field_json_get(f: Field)
    ensures
        field_json(f).get("required"@) == Some(JsonV::Bool(f.required)),
        field_json(f).get("type"@) == match f.value_type {
            Some(t) => Some(JsonV::Str(t@)),
            None => None::<JsonV>,
        },
        field_json(f).get("example"@) == match f.example {
            Some(x) => Some(JsonV::Str(x@)),
            None => None::<JsonV>,
        },
{
    reveal_strlit("name");
    reveal_strlit("required");
    reveal_strlit("description");
    reveal_strlit("type");
    reveal_strlit("example");
    let e0 = map_insert(Seq::empty(), "name"@, JsonV::Str(f.name@));
    let e1 = map_insert(e0, "required"@, JsonV::Bool(f.required));
    let e2 = map_insert(e1, "description"@, JsonV::Str(f.description@));
    let typed = match f.value_type {
        Some(t) => map_insert(e2, "type"@, JsonV::Str(t@)),
        None => e2,
    };
    let keys = seq!["required"@, "type"@, "example"@];
    assert forall|n: int| 0 <= n < 3 implies #[trigger] keys[n] == keys[n] by {}
    lemma_map_insert_get(Seq::empty(), "name"@, JsonV::Str(f.name@), "required"@);
    lemma_map_insert_get(Seq::empty(), "name"@, JsonV::Str(f.name@), "type"@);
    lemma_map_insert_get(Seq::empty(), "name"@, JsonV::Str(f.name@), "example"@);
    lemma_map_insert_get(e0, "required"@, JsonV::Bool(f.required), "required"@);
    lemma_map_insert_get(e0, "required"@, JsonV::Bool(f.required), "type"@);
    lemma_map_insert_get(e0, "required"@, JsonV::Bool(f.required), "example"@);
    lemma_map_insert_get(e1, "description"@, JsonV::Str(f.description@), "required"@);
    lemma_map_insert_get(e1, "description"@, JsonV::Str(f.description@), "type"@);
    lemma_map_insert_get(e1, "description"@, JsonV::Str(f.description@), "example"@);
    match f.value_type {
        Some(t) => {
            lemma_map_insert_get(e2, "type"@, JsonV::Str(t@), "required"@);
            lemma_map_insert_get(e2, "type"@, JsonV::Str(t@), "type"@);
            lemma_map_insert_get(e2, "type"@, JsonV::Str(t@), "example"@);
        },
        None => {},
    }
    match f.example {
        Some(x) => {
            lemma_map_insert_get(typed, "example"@, JsonV::Str(x@), "required"@);
            lemma_map_insert_get(typed, "example"@, JsonV::Str(x@), "type"@);
            lemma_map_insert_get(typed, "example"@, JsonV::Str(x@), "example"@);
        },
        None => {},
    }
}

/// What the manifest says of each key: `required` is true for `browser`
/// alone, a `type` when given is `boolean`, `number` or `nonscalar` (the
/// host's default, `string`, is left out), and an `example` when given is a
/// string.
pub proof fn law_manifest_fields(i: int)
    requires
        0 <= i < field_table().len(),
    ensures
        field_json(field_table()[i]).get("required"@) == Some(JsonV::Bool(field_table()[i].name@ == "browser"@)),
        match field_json(field_table()[i]).get("type"@) {
            Some(t) => t == JsonV::Str("boolean"@) || t == JsonV::Str("number"@) || t == JsonV::Str("nonscalar"@),
            None => true,
        },
        match field_json(field_table()[i]).get("example"@) {
            Some(x) => x is Str,
            None => true,
        },
{
    lemma_field_json_get(field_table()[i]);
    reveal_strlit("browser");
    reveal_strlit("url");
    reveal_strlit("version");
    reveal_strlit("browser_path");
    reveal_strlit("offline");
    reveal_strlit("cache_dir");
    reveal_strlit("proxy");
    reveal_strlit("mirror_url");
    reveal_strlit("base_url");
    reveal_strlit("headless");
    reveal_strlit("window");
    reveal_strlit("find_timeout_secs");
    reveal_strlit("on_failure");
    reveal_strlit("capabilities");
    let t = field_table();
    assert(t.len() == 14);
    if i == 0 {
    } else {
        assert(t[i].name@ != "browser"@) by {
            if i == 1 || i == 5 || i == 6 || i == 9 || i == 10 || i == 12 {
                assert(t[i].name@[0] != "browser"@[0]);
            } else if i == 2 || i == 8 || i == 13 || i == 11 || i == 7 || i == 4 {
                assert(t[i].name@[0] != "browser"@[0] || t[i].name@.len() != 7);
            } else {
                assert(t[i].name@.len() != "browser"@.len());
            }
        }
    }
}

/// The first character of every error a value check gives: a double quote
/// (the key it names) or the `r` of "requires a string".
pub open spec fn value_error(e: Seq<char>) -> bool {
    e.len() > 0 && (e[0] == '"' || e[0] == 'r')
}

pub open spec fn err_is_value_error<T>(r: Result<T, Seq<char>>) -> bool {
    match r {
        Err(e) => value_error(e),
        Ok(_) => true,
    }
}

proof fn lemma_quoted_error(key: Seq<char>, rest: Seq<char>)
    ensures
        value_error(quote_key(key) + rest),
{
    assert((quote_key(key) + rest)[0] == '"');
}

proof fn lemma_literal_error(e: Seq<char>, rest: Seq<char>)
    requires
        e.len() > 0,
        e[0] == '"',
    ensures
        value_error(e + rest),
        value_error(e),
{
    assert((e + rest)[0] == e[0]);
}

proof fn lemma_optional_string_error(v: JsonV, key: Seq<char>)
    ensures
        err_is_value_error(optional_string_spec(v, key)),
{
    lemma_quoted_error(key, " must be a string"@);
}

proof fn lemma_optional_url_error(v: JsonV, key: Seq<char>)
    ensures
        err_is_value_error(optional_url_spec(v, key)),
{
    lemma_optional_string_error(v, key);
    match optional_string_spec(v, key) {
        Ok(Some(s)) => {
            match whatwg_parse(s) {
                Err(e) => lemma_quoted_error(key, " "@ + debug_quoted(s) + " is not an absolute URL: "@ + e),
                Ok(_) => lemma_quoted_error(key, " "@ + debug_quoted(s) + " is not an absolute URL: "@ + "missing host"@),
            }
            assert(url_error(key, s, "missing host"@) == quote_key(key) + (" "@ + debug_quoted(s) + " is not an absolute URL: "@ + "missing host"@));
            match whatwg_parse(s) {
                Err(e) => assert(url_error(key, s, e) == quote_key(key) + (" "@ + debug_quoted(s) + " is not an absolute URL: "@ + e)),
                Ok(_) => {},
            }
        },
        _ => {},
    }
}

proof fn lemma_apply_tokens_error(ts: Seq<Seq<char>>)
    ensures
        err_is_value_error(apply_tokens(ts)),
    decreases ts.len(),
{
    if ts.len() > 0 {
        lemma_apply_tokens_error(ts.drop_last());
        reveal_strlit("\"on_failure\" token ");
        let t = ts.last();
        lemma_literal_error("\"on_failure\" token "@, debug_quoted(t) + " is not one of screenshot, console, network, none"@);
        assert(on_failure_token_error(t) == "\"on_failure\" token "@ + (debug_quoted(t)
            + " is not one of screenshot, console, network, none"@));
    }
}

proof fn lemma_managed_error(v: JsonV, home: Seq<char>, is_file: bool)
    ensures
        err_is_value_error(managed_spec(v, home, is_file)),
{
    lemma_optional_string_error(v, "version"@);
    lemma_optional_string_error(v, "browser_path"@);
    lemma_optional_string_error(v, "cache_dir"@);
    lemma_optional_url_error(v, "proxy"@);
    lemma_optional_url_error(v, "mirror_url"@);
    lemma_quoted_error("offline"@, " must be true or false"@);
    reveal_strlit("\"version\" and \"browser_path\" are exclusive: name a version to download, or a path to use");
    reveal_strlit("\"browser_path\" ");
    lemma_literal_error(
        "\"version\" and \"browser_path\" are exclusive: name a version to download, or a path to use"@,
        Seq::empty(),
    );
    match optional_string_spec(v, "browser_path"@) {
        Ok(Some(p)) => {
            let bp = expand_home_spec(home, p);
            lemma_literal_error("\"browser_path\" "@, bp + " is not a file"@);
            assert("\"browser_path\" "@ + bp + " is not a file"@ == "\"browser_path\" "@ + (bp + " is not a file"@));
        },
        _ => {},
    }
}

proof fn lemma_mode_error(v: JsonV, home: Seq<char>, is_file: bool)
    ensures
        err_is_value_error(mode_spec(v, home, is_file)),
{
    lemma_optional_string_error(v, "url"@);
    lemma_managed_error(v, home, is_file);
    reveal_strlit("\"url\" must not be empty; omit it for managed mode");
    lemma_literal_error("\"url\" must not be empty; omit it for managed mode"@, Seq::empty());
    match first_set(v, managed_keys_spec()) {
        Some(k) => lemma_quoted_error(
            k,
            " is a managed-mode key and cannot be set beside \"url\": a remote endpoint owns its own browsers"@,
        ),
        None => {},
    }
    match optional_string_spec(v, "url"@) {
        Ok(Some(u)) => match whatwg_parse(u) {
            Err(e) => {
                lemma_quoted_error("url"@, " "@ + debug_quoted(u) + " is not an absolute URL: "@ + e);
                assert(url_error("url"@, u, e) == quote_key("url"@) + (" "@ + debug_quoted(u) + " is not an absolute URL: "@ + e));
            },
            Ok(_) => {},
        },
        _ => {},
    }
}

proof fn lemma_known_config_error(v: JsonV, home: Seq<char>, is_file: bool)
    ensures
        err_is_value_error(known_config_spec(v, home, is_file)),
{
    reveal_strlit("requires a string ");
    reveal_strlit("\"browser\" must be chrome, firefox or edge, got ");
    reveal_strlit("\"window\" must be <width>x<height>, got ");
    reveal_strlit("\"find_timeout_secs\" must be a non-negative integer");
    reveal_strlit("\"find_timeout_secs\" must be a non-negative integer, got ");
    reveal_strlit("\"capabilities\" must be a mapping");
    lemma_quoted_error("browser"@, " must not be empty"@);
    lemma_quoted_error("browser"@, " must be a string"@);
    assert(("requires a string "@ + quote_key("browser"@))[0] == 'r');
    match required_string_spec(v, "browser"@) {
        Ok(raw) => {
            lemma_literal_error("\"browser\" must be chrome, firefox or edge, got "@, debug_quoted(raw));
        },
        _ => {},
    }
    lemma_mode_error(v, home, is_file);
    lemma_optional_url_error(v, "base_url"@);
    lemma_quoted_error("headless"@, " must be true or false"@);
    lemma_optional_string_error(v, "window"@);
    match optional_string_spec(v, "window"@) {
        Ok(Some(w)) => lemma_literal_error("\"window\" must be <width>x<height>, got "@, debug_quoted(w)),
        _ => {},
    }
    lemma_literal_error("\"find_timeout_secs\" must be a non-negative integer"@, Seq::empty());
    match v.get("find_timeout_secs"@) {
        Some(other) => lemma_literal_error(
            "\"find_timeout_secs\" must be a non-negative integer, got "@,
            json_text(other),
        ),
        None => {},
    }
    lemma_optional_string_error(v, "on_failure"@);
    match optional_string_spec(v, "on_failure"@) {
        Ok(Some(s)) => lemma_apply_tokens_error(nonempty_trimmed(crate::text::split_char(s, ','))),
        _ => {},
    }
    lemma_literal_error("\"capabilities\" must be a mapping"@, Seq::empty());
}

/// The unknown-key error comes from an unknown key and from nothing else:
/// when the parse answers it for `k`, `k` is a key of the body that is not
/// known. Every other refusal starts with a double quote or with
/// "requires".
pub proof fn law_only_an_unknown_key_gives_the_unknown_key_error(
    es: Seq<(Seq<char>, JsonV)>,
    home: Seq<char>,
    is_file: bool,
    k: Seq<char>,
)
    requires
        config_spec(JsonV::Object(es), home, is_file) == Err::<ConfigV, Seq<char>>(unknown_key_error(k)),
    ensures
        !known_keys_spec().contains(k),
        exists|i: int| 0 <= i < es.len() && #[trigger] es[i].0 == k,
{
    reveal_strlit("unknown key \"");
    reveal_strlit("\"; known keys are ");
    lemma_first_unknown(es);
    let e = unknown_key_error(k);
    assert(e[0] == 'u');
    match first_unknown(es) {
        Some(k2) => {
            let tail = "\"; known keys are "@ + crate::text::join(known_keys_spec(), ", "@);
            assert(unknown_key_error(k2) =~= "unknown key \""@ + k2 + tail);
            assert(e =~= "unknown key \""@ + k + tail);
            assert(k2.len() == k.len());
            assert(k2 =~= e.subrange(13, 13 + k.len() as int));
            assert(k =~= e.subrange(13, 13 + k.len() as int));
        },
        None => {
            lemma_known_config_error(JsonV::Object(es), home, is_file);
        },
    }
}

/// Managed mode asks Selenium Manager for the version the body names, and
/// for `stable` only when it names none: a parsed body in managed mode
/// holds the `version` string as given, and offline exactly when `offline`
/// is `true`.
pub proof fn law_managed_keeps_the_version(v: JsonV, home: Seq<char>, is_file: bool)
    ensures
        match config_spec(v, home, is_file) {
            Ok(c) => match c.mode {
                ModeV::Managed(m) => m.version == (match v.get("version"@) {
                    Some(JsonV::Str(s)) => s,
                    _ => "stable"@,
                }) && m.offline == (v.get("offline"@) == Some(JsonV::Bool(true))),
                _ => true,
            },
            Err(_) => true,
        },
        match mode_spec(v, home, is_file) {
            Ok(ModeV::Managed(m)) => m.version == (match v.get("version"@) {
                Some(JsonV::Str(s)) => s,
                _ => "stable"@,
            }) && (v.get("url"@) is None || v.get("url"@) == Some(JsonV::Null)),
            _ => true,
        },
{
}

/// A token `on_failure` understands.
pub open spec fn known_token(t: Seq<char>) -> bool {
    t == "screenshot"@ || t == "console"@ || t == "network"@ || t == "none"@
}

/// `on_failure` is a set of tokens: it is accepted exactly when every token
/// is `screenshot`, `console`, `network` or `none`, and then each kind of
/// evidence is on exactly when some token names it (`none` names nothing,
/// so alone it switches everything off); the order and repeats of tokens do
/// not matter.
pub proof fn law_on_failure_is_the_set_of_tokens(ts: Seq<Seq<char>>)
    ensures
        (apply_tokens(ts) is Ok) <==> (forall|i: int| 0 <= i < ts.len() ==> known_token(#[trigger] ts[i])),
        apply_tokens(ts) matches Ok(on) ==> {
            &&& on.screenshot == (exists|i: int| 0 <= i < ts.len() && #[trigger] ts[i] == "screenshot"@)
            &&& on.console == (exists|i: int| 0 <= i < ts.len() && #[trigger] ts[i] == "console"@)
            &&& on.network == (exists|i: int| 0 <= i < ts.len() && #[trigger] ts[i] == "network"@)
        },
    decreases ts.len(),
{
    reveal_strlit("screenshot");
    reveal_strlit("console");
    reveal_strlit("network");
    reveal_strlit("none");
    assert("screenshot"@.len() == 10 && "console"@.len() == 7 && "network"@.len() == 7 && "none"@.len() == 4);
    assert("console"@[0] != "network"@[0]);
    if ts.len() > 0 {
        let r = ts.drop_last();
        law_on_failure_is_the_set_of_tokens(r);
        assert(apply_tokens(ts) == match apply_tokens(r) {
            Ok(on) => apply_token(on, ts.last()),
            Err(e) => Err(e),
        });
        assert forall|i: int| 0 <= i < r.len() implies #[trigger] r[i] == ts[i] by {}
        let t = ts.last();
        assert(ts[ts.len() - 1] == t);
        if forall|i: int| 0 <= i < ts.len() ==> known_token(#[trigger] ts[i]) {
            assert forall|i: int| 0 <= i < r.len() implies known_token(#[trigger] r[i]) by {
                assert(known_token(ts[i]));
            }
        }
        if apply_tokens(r) is Ok && !known_token(t) {
            assert(!known_token(ts[ts.len() - 1]));
        }
        if apply_tokens(r) is Err {
            let j = choose|j: int| 0 <= j < r.len() && !known_token(#[trigger] r[j]);
            assert(!known_token(ts[j]));
        }
        match apply_tokens(ts) {
            Ok(on) => {
                let prev = apply_tokens(r)->Ok_0;
                assert(apply_token(prev, t) == Ok::<OnFailure, Seq<char>>(on));
                assert(known_token(t));
                assert forall|i: int| 0 <= i < ts.len() implies known_token(#[trigger] ts[i]) by {
                    if i < r.len() {
                        assert(r[i] == ts[i]);
                    }
                }
                assert(on.screenshot == (prev.screenshot || t == "screenshot"@));
                assert(on.console == (prev.console || t == "console"@));
                assert(on.network == (prev.network || t == "network"@));
                if exists|i: int| 0 <= i < ts.len() && #[trigger] ts[i] == "screenshot"@ {
                    let i = choose|i: int| 0 <= i < ts.len() && #[trigger] ts[i] == "screenshot"@;
                    if i < r.len() {
                        assert(r[i] == "screenshot"@);
                    }
                }
                if exists|i: int| 0 <= i < r.len() && #[trigger] r[i] == "screenshot"@ {
                    let i = choose|i: int| 0 <= i < r.len() && #[trigger] r[i] == "screenshot"@;
                    assert(ts[i] == "screenshot"@);
                }
                if exists|i: int| 0 <= i < ts.len() && #[trigger] ts[i] == "console"@ {
                    let i = choose|i: int| 0 <= i < ts.len() && #[trigger] ts[i] == "console"@;
                    if i < r.len() {
                        assert(r[i] == "console"@);
                    }
                }
                if exists|i: int| 0 <= i < r.len() && #[trigger] r[i] == "console"@ {
                    let i = choose|i: int| 0 <= i < r.len() && #[trigger] r[i] == "console"@;
                    assert(ts[i] == "console"@);
                }
                if exists|i: int| 0 <= i < ts.len() && #[trigger] ts[i] == "network"@ {
                    let i = choose|i: int| 0 <= i < ts.len() && #[trigger] ts[i] == "network"@;
                    if i < r.len() {
                        assert(r[i] == "network"@);
                    }
                }
                if exists|i: int| 0 <= i < r.len() && #[trigger] r[i] == "network"@ {
                    let i = choose|i: int| 0 <= i < r.len() && #[trigger] r[i] == "network"@;
                    assert(ts[i] == "network"@);
                }
            },
            Err(_) => {},
        }
    }
}

/// The capabilities a session is opened with: under
/// `capabilities.alwaysMatch`, the browser's W3C name, `webSocketUrl: true`
/// (BiDi), and the vendor options whose `args` hold the headless flag
/// exactly when headless, with the browser binary when one is given. The
/// user's `capabilities` merge over them, so what they do not name stays
/// as built.
pub proof fn law_session_capabilities(c: ConfigV, binary: Option<Seq<char>>, ue: Seq<(Seq<char>, JsonV)>)
    requires
        c.capabilities == JsonV::Object(ue),
    ensures
        (forall|j: int| 0 <= j < ue.len() ==> #[trigger] ue[j].0 != "browserName"@) ==> session_body(c, binary).at(
            "capabilities"@,
        ).at("alwaysMatch"@).get("browserName"@) == Some(JsonV::Str(c.browser.browser_name_spec())),
        (forall|j: int| 0 <= j < ue.len() ==> #[trigger] ue[j].0 != "webSocketUrl"@) ==> session_body(c, binary).at(
            "capabilities"@,
        ).at("alwaysMatch"@).get("webSocketUrl"@) == Some(JsonV::Bool(true)),
        (forall|j: int| 0 <= j < ue.len() ==> #[trigger] ue[j].0 != c.browser.options_key_spec()) ==> session_body(
            c,
            binary,
        ).at("capabilities"@).at("alwaysMatch"@).get(c.browser.options_key_spec()) == Some(
            vendor_options(c.browser, c.headless, binary),
        ),
        vendor_options(c.browser, c.headless, binary).get("args"@) == Some(
            JsonV::Array(
                if c.headless {
                    seq![JsonV::Str(c.browser.headless_arg_spec())]
                } else {
                    Seq::empty()
                },
            ),
        ),
        vendor_options(c.browser, c.headless, binary).get("binary"@) == match binary {
            Some(p) => Some(JsonV::Str(p)),
            None => None::<JsonV>,
        },
{
    reveal_strlit("browserName");
    reveal_strlit("webSocketUrl");
    reveal_strlit("goog:chromeOptions");
    reveal_strlit("moz:firefoxOptions");
    reveal_strlit("ms:edgeOptions");
    reveal_strlit("args");
    reveal_strlit("binary");
    reveal_strlit("capabilities");
    reveal_strlit("alwaysMatch");
    let ok = c.browser.options_key_spec();
    assert(ok.len() >= 14);
    let a0 = map_insert(Seq::empty(), "browserName"@, JsonV::Str(c.browser.browser_name_spec()));
    let a1 = map_insert(a0, "webSocketUrl"@, JsonV::Bool(true));
    let vo = vendor_options(c.browser, c.headless, binary);
    let always = map_insert(a1, ok, vo);
    let am = merged(JsonV::Object(always), c.capabilities);
    assert(session_body(c, binary).at("capabilities"@).at("alwaysMatch"@) == am);
    assert(am == JsonV::Object(merged_entries(always, ue)));
    lemma_map_insert_get(Seq::empty(), "browserName"@, JsonV::Str(c.browser.browser_name_spec()), "browserName"@);
    lemma_map_insert_get(Seq::empty(), "browserName"@, JsonV::Str(c.browser.browser_name_spec()), "webSocketUrl"@);
    lemma_map_insert_get(a0, "webSocketUrl"@, JsonV::Bool(true), "browserName"@);
    lemma_map_insert_get(a0, "webSocketUrl"@, JsonV::Bool(true), "webSocketUrl"@);
    lemma_map_insert_get(a1, ok, vo, "browserName"@);
    lemma_map_insert_get(a1, ok, vo, "webSocketUrl"@);
    lemma_map_insert_get(a1, ok, vo, ok);
    if forall|j: int| 0 <= j < ue.len() ==> #[trigger] ue[j].0 != "browserName"@ {
        law_merge_keeps_what_the_override_does_not_name(always, ue, "browserName"@);
    }
    if forall|j: int| 0 <= j < ue.len() ==> #[trigger] ue[j].0 != "webSocketUrl"@ {
        law_merge_keeps_what_the_override_does_not_name(always, ue, "webSocketUrl"@);
    }
    if forall|j: int| 0 <= j < ue.len() ==> #[trigger] ue[j].0 != ok {
        law_merge_keeps_what_the_override_does_not_name(always, ue, ok);
    }
    let args = if c.headless {
        seq![JsonV::Str(c.browser.headless_arg_spec())]
    } else {
        Seq::empty()
    };
    let o = map_insert(Seq::empty(), "args"@, JsonV::Array(args));
    lemma_map_insert_get(Seq::empty(), "args"@, JsonV::Array(args), "args"@);
    lemma_map_insert_get(Seq::empty(), "args"@, JsonV::Array(args), "binary"@);
    assert("args"@.len() != "binary"@.len());
    assert(vo == JsonV::Object(match binary {
        Some(p) => map_insert(o, "binary"@, JsonV::Str(p)),
        None => o,
    }));
    match binary {
        Some(p) => {
            lemma_map_insert_get(o, "binary"@, JsonV::Str(p), "args"@);
            lemma_map_insert_get(o, "binary"@, JsonV::Str(p), "binary"@);
        },
        None => {},
    }
}

/// Joining a path: an absolute path stands as it is; a relative one goes
/// under a non-empty base, with exactly one `/` between the two.
pub proof fn law_path_join(base: Seq<char>, p: Seq<char>)
    ensures
        p.len() > 0 && p[0] == '/' ==> path_join(base, p) == p,
        !(p.len() > 0 && p[0] == '/') && base.len() > 0 ==> ({
            let r = path_join(base, p);
            let cut = r.len() - p.len();
            &&& base.is_prefix_of(r)
            &&& r.subrange(cut, r.len() as int) == p
            &&& cut >= 1 && r[cut - 1] == '/'
            &&& cut == base.len() || (cut == base.len() + 1 && base.last() != '/')
        }),
        base.len() == 0 ==> path_join(base, p) == p,
{
    if !(p.len() > 0 && p[0] == '/') && base.len() > 0 {
        let r = path_join(base, p);
        assert(r.subrange(0, base.len() as int) =~= base);
        assert(r.subrange(r.len() - p.len(), r.len() as int) =~= p);
    }
}

/// `~/` at the start of a path is the home directory; nothing else is
/// expanded, `~` alone or inside a path included.
pub proof fn law_expand_home(home: Seq<char>, s: Seq<char>)
    ensures
        s.len() >= 2 && s[0] == '~' && s[1] == '/' ==> expand_home_spec(home, s) == path_join(
            home,
            s.subrange(2, s.len() as int),
        ),
        !(s.len() >= 2 && s[0] == '~' && s[1] == '/') ==> expand_home_spec(home, s) == s,
{
    reveal_strlit("~/");
    if s.len() >= 2 && s[0] == '~' && s[1] == '/' {
        assert(s.subrange(0, 2) =~= "~/"@);
        assert(s.skip(2) =~= s.subrange(2, s.len() as int));
    } else if "~/"@.is_prefix_of(s) {
        assert(s[0] == "~/"@[0] && s[1] == "~/"@[1]);
    }
}

/// The three browsers are named `chrome`, `firefox` and `edge`, and no
/// other name is a browser.
pub proof fn law_browser_names(s: Seq<char>)
    ensures
        Browser::parse_spec("chrome"@) == Some(Browser::Chrome),
        Browser::parse_spec("firefox"@) == Some(Browser::Firefox),
        Browser::parse_spec("edge"@) == Some(Browser::Edge),
        Browser::parse_spec(s) is Some ==> s == "chrome"@ || s == "firefox"@ || s == "edge"@,
{
    reveal_strlit("chrome");
    reveal_strlit("firefox");
    reveal_strlit("edge");
    assert("chrome"@.len() == 6 && "firefox"@.len() == 7 && "edge"@.len() == 4);
}

} // verus!
