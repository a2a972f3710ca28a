//! Mink-style element lookup: what `I follow "Sign in"` means in XPath.
//! Every lookup is a list of strategies tried in order; the first non-empty
//! answer wins.

use vstd::prelude::*;

use crate::text::{chars_of, debug_quoted, debug_str, expand, has_char, push_char, push_str};
use crate::webdriver::Strategy;

verus! {

/// How a single quote is spelled inside the `concat(...)` form.
pub open spec fn concat_piece(c: char) -> Seq<char> {
    if c == '\'' {
        "', \"'\", '"@
    } else {
        seq![c]
    }
}

/// An XPath string literal for `s`, whatever quotes it contains: single
/// quotes around it when it has none, else double quotes when it has none of
/// those, else `concat(...)` of its single-quote-free runs and `"'"`.
pub open spec fn xpath_literal_spec(s: Seq<char>) -> Seq<char> {
    if !s.contains('\'') {
        seq!['\''] + s + seq!['\'']
    } else if !s.contains('"') {
        seq!['"'] + s + seq!['"']
    } else {
        "concat('"@ + expand(s, |c: char| concat_piece(c)) + "')"@
    }
}

pub fn xpath_literal(s: &str) -> (r: String)
    ensures
        r@ == xpath_literal_spec(s@),
{
    let v = chars_of(s);
    let mut out = String::new();
    if !has_char(&v, '\'') {
        push_char(&mut out, '\'');
        push_str(&mut out, s);
        push_char(&mut out, '\'');
        assert(out@ =~= xpath_literal_spec(s@));
    } else if !has_char(&v, '"') {
        push_char(&mut out, '"');
        push_str(&mut out, s);
        push_char(&mut out, '"');
        assert(out@ =~= xpath_literal_spec(s@));
    } else {
        push_str(&mut out, "concat('");
        let ghost open = out@;
        let mut i: usize = 0;
        while i < v.len()
            invariant
                i <= v.len(),
                v@ == s@,
                out@ == open + expand(v@.take(i as int), |c: char| concat_piece(c)),
            decreases v.len() - i,
        {
            proof {
                crate::text::lemma_expand_push(v@.take(i as int), v@[i as int], |c: char| concat_piece(c));
                assert(v@.take(i as int).push(v@[i as int]) =~= v@.take(i + 1));
            }
            if v[i] == '\'' {
                push_str(&mut out, "', \"'\", '");
            } else {
                push_char(&mut out, v[i]);
            }
            assert(out@ =~= open + expand(v@.take(i + 1), |c: char| concat_piece(c)));
            i = i + 1;
        }
        push_str(&mut out, "')");
        assert(v@.take(v.len() as int) =~= v@);
        assert(out@ =~= xpath_literal_spec(s@));
    }
    out
}


/// Input types that make an `input` a button.
pub const BUTTON_INPUT: &'static str = "(@type='submit' or @type='button' or @type='reset' or @type='image')";

/// `input` (not a button), `textarea` or `select`.
pub const FIELD: &'static str = "//*[(self::input and not(@type='submit' or @type='button' or @type='reset' or @type='image')) or self::textarea or self::select]";

/// A form control anywhere under a `label`, as a path step from the label.
pub const FIELD_INSIDE_LABEL: &'static str = "//*[self::input or self::select or self::textarea]";

/// A lookup: what it is called in messages, and its strategies in order.
#[derive(Debug, PartialEq, Eq)]
pub struct Lookup {
    /// For messages: `link "Sign in"`, `element "#cart"`.
    pub what: String,
    pub strategies: Vec<(Strategy, String)>,
}

pub struct LookupV {
    pub what: Seq<char>,
    pub strategies: Seq<(Strategy, Seq<char>)>,
}

impl View for Lookup {
    type V = LookupV;

    open spec fn view(&self) -> LookupV {
        LookupV {
            what: self.what@,
            strategies: self.strategies@.map_values(|p: (Strategy, String)| (p.0, p.1@)),
        }
    }
}

/// The text-node search behind a `text=` selector: only inside `<body>`,
/// so a `<title>` holding the text never matches.
pub open spec fn text_xpath(x: Seq<char>) -> Seq<char> {
    "//body//*[text()[contains(normalize-space(.), "@ + x + ")]]"@
}

/// The strategy a `<selector>` argument stands for: `xpath=` and `text=`
/// prefixes, CSS otherwise.
pub open spec fn selector_strategy(raw: Seq<char>) -> (Strategy, Seq<char>) {
    if "xpath="@.is_prefix_of(raw) {
        (Strategy::XPath, raw.skip(6))
    } else if "text="@.is_prefix_of(raw) {
        (Strategy::XPath, text_xpath(xpath_literal_spec(raw.skip(5))))
    } else {
        (Strategy::Css, raw)
    }
}

pub open spec fn link_exact(x: Seq<char>) -> Seq<char> {
    "//a[normalize-space(.)="@ + x + " or @title="@ + x + " or @id="@ + x + " or .//img[@alt="@
        + x + "]]"@
}

pub open spec fn link_partial(x: Seq<char>) -> Seq<char> {
    "//a[contains(normalize-space(.), "@ + x + ")]"@
}

pub open spec fn button_exact(x: Seq<char>) -> Seq<char> {
    "//button[normalize-space(.)="@ + x + " or @value="@ + x + " or @id="@ + x + " or @name="@ + x
        + " or @title="@ + x + "] | //input["@ + BUTTON_INPUT@ + " and (@value="@ + x + " or @id="@
        + x + " or @name="@ + x + " or @title="@ + x + ")]"@
}

pub open spec fn button_partial(x: Seq<char>) -> Seq<char> {
    "//button[contains(normalize-space(.), "@ + x + ")] | //input["@ + BUTTON_INPUT@
        + " and contains(@value, "@ + x + ")]"@
}

pub open spec fn field_attr(x: Seq<char>) -> Seq<char> {
    FIELD@ + "[@id="@ + x + " or @name="@ + x + " or @placeholder="@ + x + "]"@
}

pub open spec fn field_label_exact(x: Seq<char>) -> Seq<char> {
    FIELD@ + "[@id=//label[normalize-space(.)="@ + x + "]/@for] | //label[normalize-space(.)="@ + x
        + "]"@ + FIELD_INSIDE_LABEL@
}

pub open spec fn field_label_partial(x: Seq<char>) -> Seq<char> {
    FIELD@ + "[@id=//label[contains(normalize-space(.), "@ + x
        + ")]/@for] | //label[contains(normalize-space(.), "@ + x + ")]"@ + FIELD_INSIDE_LABEL@
}

pub open spec fn option_xpath_spec(x: Seq<char>) -> Seq<char> {
    ".//option[normalize-space(.)="@ + x + " or @value="@ + x + "]"@
}

fn lookup_of(what: String, strategies: Vec<(Strategy, String)>) -> (r: Lookup)
    ensures
        r.what == what,
        r.strategies == strategies,
{
    Lookup { what, strategies }
}

fn named(kind: &str, raw: &str) -> (r: String)
    ensures
        r@ == kind@ + debug_quoted(raw@),
{
    let mut w = crate::text::owned(kind);
    let q = debug_str(raw);
    push_str(&mut w, q.as_str());
    w
}

/// A `<selector>` argument: CSS by default, `xpath=...`, or `text=...` for
/// an element whose own text nodes contain the string.
pub fn selector(raw: &str) -> (r: Lookup)
    ensures
        r@.what == "element "@ + debug_quoted(raw@),
        r@.strategies == seq![selector_strategy(raw@)],
{
    let v = chars_of(raw);
    let xp = chars_of("xpath=");
    let tx = chars_of("text=");
    proof {
        reveal_strlit("xpath=");
        reveal_strlit("text=");
    }
    let strategy = if crate::text::starts_with(&v, &xp) {
        let rest = crate::text::string_of(&crate::text::suffix_from(&v, xp.len()));
        (Strategy::XPath, rest)
    } else if crate::text::starts_with(&v, &tx) {
        let rest = crate::text::string_of(&crate::text::suffix_from(&v, tx.len()));
        let lit = xpath_literal(rest.as_str());
        let mut x = String::new();
        push_str(&mut x, "//body//*[text()[contains(normalize-space(.), ");
        push_str(&mut x, lit.as_str());
        push_str(&mut x, ")]]");
        assert(x@ =~= text_xpath(lit@));
        (Strategy::XPath, x)
    } else {
        (Strategy::Css, crate::text::owned(raw))
    };
    let mut strategies = Vec::new();
    strategies.push(strategy);
    let r = lookup_of(named("element ", raw), strategies);
    assert(r@.strategies =~= seq![selector_strategy(raw@)]);
    r
}

fn link_exact_text(x: &str) -> (r: String)
    ensures
        r@ == link_exact(x@),
{
    let mut out = String::new();
    push_str(&mut out, "//a[normalize-space(.)=");
    push_str(&mut out, x);
    push_str(&mut out, " or @title=");
    push_str(&mut out, x);
    push_str(&mut out, " or @id=");
    push_str(&mut out, x);
    push_str(&mut out, " or .//img[@alt=");
    push_str(&mut out, x);
    push_str(&mut out, "]]");
    assert(out@ =~= link_exact(x@));
    out
}

fn link_partial_text(x: &str) -> (r: String)
    ensures
        r@ == link_partial(x@),
{
    let mut out = String::new();
    push_str(&mut out, "//a[contains(normalize-space(.), ");
    push_str(&mut out, x);
    push_str(&mut out, ")]");
    assert(out@ =~= link_partial(x@));
    out
}

fn button_exact_text(x: &str) -> (r: String)
    ensures
        r@ == button_exact(x@),
{
    let mut out = String::new();
    push_str(&mut out, "//button[normalize-space(.)=");
    push_str(&mut out, x);
    push_str(&mut out, " or @value=");
    push_str(&mut out, x);
    push_str(&mut out, " or @id=");
    push_str(&mut out, x);
    push_str(&mut out, " or @name=");
    push_str(&mut out, x);
    push_str(&mut out, " or @title=");
    push_str(&mut out, x);
    push_str(&mut out, "] | //input[");
    push_str(&mut out, BUTTON_INPUT);
    push_str(&mut out, " and (@value=");
    push_str(&mut out, x);
    push_str(&mut out, " or @id=");
    push_str(&mut out, x);
    push_str(&mut out, " or @name=");
    push_str(&mut out, x);
    push_str(&mut out, " or @title=");
    push_str(&mut out, x);
    push_str(&mut out, ")]");
    assert(out@ =~= button_exact(x@));
    out
}

fn button_partial_text(x: &str) -> (r: String)
    ensures
        r@ == button_partial(x@),
{
    let mut out = String::new();
    push_str(&mut out, "//button[contains(normalize-space(.), ");
    push_str(&mut out, x);
    push_str(&mut out, ")] | //input[");
    push_str(&mut out, BUTTON_INPUT);
    push_str(&mut out, " and contains(@value, ");
    push_str(&mut out, x);
    push_str(&mut out, ")]");
    assert(out@ =~= button_partial(x@));
    out
}

fn field_attr_text(x: &str) -> (r: String)
    ensures
        r@ == field_attr(x@),
{
    let mut out = String::new();
    push_str(&mut out, FIELD);
    push_str(&mut out, "[@id=");
    push_str(&mut out, x);
    push_str(&mut out, " or @name=");
    push_str(&mut out, x);
    push_str(&mut out, " or @placeholder=");
    push_str(&mut out, x);
    push_str(&mut out, "]");
    assert(out@ =~= field_attr(x@));
    out
}

fn field_label_exact_text(x: &str) -> (r: String)
    ensures
        r@ == field_label_exact(x@),
{
    let mut out = String::new();
    push_str(&mut out, FIELD);
    push_str(&mut out, "[@id=//label[normalize-space(.)=");
    push_str(&mut out, x);
    push_str(&mut out, "]/@for] | //label[normalize-space(.)=");
    push_str(&mut out, x);
    push_str(&mut out, "]");
    push_str(&mut out, FIELD_INSIDE_LABEL);
    assert(out@ =~= field_label_exact(x@));
    out
}

fn field_label_partial_text(x: &str) -> (r: String)
    ensures
        r@ == field_label_partial(x@),
{
    let mut out = String::new();
    push_str(&mut out, FIELD);
    push_str(&mut out, "[@id=//label[contains(normalize-space(.), ");
    push_str(&mut out, x);
    push_str(&mut out, ")]/@for] | //label[contains(normalize-space(.), ");
    push_str(&mut out, x);
    push_str(&mut out, ")]");
    push_str(&mut out, FIELD_INSIDE_LABEL);
    assert(out@ =~= field_label_partial(x@));
    out
}

fn option_text(x: &str) -> (r: String)
    ensures
        r@ == option_xpath_spec(x@),
{
    let mut out = String::new();
    push_str(&mut out, ".//option[normalize-space(.)=");
    push_str(&mut out, x);
    push_str(&mut out, " or @value=");
    push_str(&mut out, x);
    push_str(&mut out, "]");
    assert(out@ =~= option_xpath_spec(x@));
    out
}

/// `link "text"`: exact text, title, id or image alt; then partial text; then CSS.
pub open spec fn link_strategies(t: Seq<char>) -> Seq<(Strategy, Seq<char>)> {
    let x = xpath_literal_spec(t);
    seq![(Strategy::XPath, link_exact(x)), (Strategy::XPath, link_partial(x)), (Strategy::Css, t)]
}

/// `button "text"`: exact text, value, id, name or title of a button or a
/// button-typed input; then partial text or value; then CSS.
pub open spec fn button_strategies(t: Seq<char>) -> Seq<(Strategy, Seq<char>)> {
    let x = xpath_literal_spec(t);
    seq![(Strategy::XPath, button_exact(x)), (Strategy::XPath, button_partial(x)), (Strategy::Css, t)]
}

/// `field "text"`: id, name or placeholder; then the exact label; then a
/// partial label; then CSS.
pub open spec fn field_strategies(t: Seq<char>) -> Seq<(Strategy, Seq<char>)> {
    let x = xpath_literal_spec(t);
    seq![
        (Strategy::XPath, field_attr(x)),
        (Strategy::XPath, field_label_exact(x)),
        (Strategy::XPath, field_label_partial(x)),
        (Strategy::Css, t),
    ]
}

pub fn link(text: &str) -> (r: Lookup)
    ensures
        r@.what == "link "@ + debug_quoted(text@),
        r@.strategies == link_strategies(text@),
{
    let x = xpath_literal(text);
    let mut strategies = Vec::new();
    strategies.push((Strategy::XPath, link_exact_text(x.as_str())));
    strategies.push((Strategy::XPath, link_partial_text(x.as_str())));
    strategies.push((Strategy::Css, crate::text::owned(text)));
    let r = lookup_of(named("link ", text), strategies);
    assert(r@.strategies =~= link_strategies(text@));
    r
}

pub fn button(text: &str) -> (r: Lookup)
    ensures
        r@.what == "button "@ + debug_quoted(text@),
        r@.strategies == button_strategies(text@),
{
    let x = xpath_literal(text);
    let mut strategies = Vec::new();
    strategies.push((Strategy::XPath, button_exact_text(x.as_str())));
    strategies.push((Strategy::XPath, button_partial_text(x.as_str())));
    strategies.push((Strategy::Css, crate::text::owned(text)));
    let r = lookup_of(named("button ", text), strategies);
    assert(r@.strategies =~= button_strategies(text@));
    r
}

pub fn field(text: &str) -> (r: Lookup)
    ensures
        r@.what == "field "@ + debug_quoted(text@),
        r@.strategies == field_strategies(text@),
{
    let x = xpath_literal(text);
    let mut strategies = Vec::new();
    strategies.push((Strategy::XPath, field_attr_text(x.as_str())));
    strategies.push((Strategy::XPath, field_label_exact_text(x.as_str())));
    strategies.push((Strategy::XPath, field_label_partial_text(x.as_str())));
    strategies.push((Strategy::Css, crate::text::owned(text)));
    let r = lookup_of(named("field ", text), strategies);
    assert(r@.strategies =~= field_strategies(text@));
    r
}

/// An option of a found `select`, by its text or value, relative to it.
pub fn option_xpath(text: &str) -> (r: String)
    ensures
        r@ == option_xpath_spec(xpath_literal_spec(text@)),
{
    let x = xpath_literal(text);
    option_text(x.as_str())
}

/// A run of `s` between single quotes, as an XPath literal.
pub open spec fn quoted_run(p: Seq<char>) -> Seq<char> {
    seq!['\''] + p + seq!['\'']
}

/// What separates two quoted runs inside `concat(...)`: the single quote
/// itself, as a double-quoted literal.
pub open spec fn quote_sep() -> Seq<char> {
    ", \"'\", "@
}

/// The runs quoted so far, up to the last run's opening quote.
pub open spec fn quoted_prefix(parts: Seq<Seq<char>>) -> Seq<char> {
    if parts.len() <= 1 {
        Seq::empty()
    } else {
        crate::text::join(parts.drop_last().map_values(|p: Seq<char>| quoted_run(p)), quote_sep()) + quote_sep()
    }
}

proof fn lemma_join_quoted(parts: Seq<Seq<char>>)
    requires
        parts.len() >= 1,
    ensures
        crate::text::join(parts.map_values(|p: Seq<char>| quoted_run(p)), quote_sep()) == quoted_prefix(parts)
            + quoted_run(parts.last()),
{
    let q = parts.map_values(|p: Seq<char>| quoted_run(p));
    assert(q.drop_last() =~= parts.drop_last().map_values(|p: Seq<char>| quoted_run(p)));
    if parts.len() == 1 {
        assert(quoted_prefix(parts) + quoted_run(parts.last()) =~= quoted_run(parts.last()));
    } else {
        assert(q.last() == quoted_run(parts.last()));
        assert(crate::text::join(q, quote_sep()) =~= crate::text::join(q.drop_last(), quote_sep()) + quote_sep()
            + q.last());
        assert(crate::text::join(q, quote_sep()) =~= quoted_prefix(parts) + quoted_run(parts.last()));
    }
}

proof fn lemma_expand_runs(s: Seq<char>)
    ensures
        crate::text::split_char(s, '\'').len() >= 1,
        seq!['\''] + expand(s, |c: char| concat_piece(c)) == quoted_prefix(crate::text::split_char(s, '\''))
            + seq!['\''] + crate::text::split_char(s, '\'').last(),
    decreases s.len(),
{
    reveal_strlit("', \"'\", '");
    reveal_strlit(", \"'\", ");
    let f = |c: char| concat_piece(c);
    if s.len() == 0 {
        assert(expand(s, f) =~= Seq::<char>::empty());
        assert(seq!['\''] + expand(s, f) =~= quoted_prefix(crate::text::split_char(s, '\'')) + seq!['\'']
            + crate::text::split_char(s, '\'').last());
    } else {
        let t = s.drop_last();
        let c = s.last();
        lemma_expand_runs(t);
        assert(t.push(c) =~= s);
        crate::text::lemma_expand_push(t, c, f);
        let pt = crate::text::split_char(t, '\'');
        let ps = crate::text::split_char(s, '\'');
        if c == '\'' {
            assert(ps == pt.push(Seq::<char>::empty()));
            assert(ps.drop_last() =~= pt);
            lemma_join_quoted(pt);
            assert(concat_piece(c) =~= seq!['\''] + quote_sep() + seq!['\'']);
            let a0 = seq!['\''] + expand(t, f);
            let jq = crate::text::join(pt.map_values(|p: Seq<char>| quoted_run(p)), quote_sep());
            assert(a0 + seq!['\''] =~= quoted_prefix(pt) + quoted_run(pt.last()));
            assert(seq!['\''] + expand(s, f) =~= a0 + concat_piece(c));
            assert(a0 + concat_piece(c) =~= (a0 + seq!['\'']) + quote_sep() + seq!['\'']);
            assert(ps.len() >= 2);
            assert(quoted_prefix(ps) == jq + quote_sep());
            assert(ps.last() =~= Seq::<char>::empty());
            assert(seq!['\''] + expand(s, f) =~= quoted_prefix(ps) + seq!['\''] + ps.last());
        } else {
            assert(ps == pt.update(pt.len() - 1, pt.last().push(c)));
            assert(ps.drop_last() =~= pt.drop_last());
            assert(quoted_prefix(ps) == quoted_prefix(pt));
            assert(concat_piece(c) =~= seq![c]);
            assert(ps.last() =~= pt.last().push(c));
            assert(seq!['\''] + expand(s, f) =~= (seq!['\''] + expand(t, f)) + seq![c]);
            assert(seq!['\''] + expand(s, f) =~= quoted_prefix(ps) + seq!['\''] + ps.last());
        }
    }
}

/// The `concat(...)` form of a literal is `s` split at its single quotes,
/// each run single-quoted, joined by `, "'", `.
pub proof fn law_xpath_literal_splits_at_single_quotes(s: Seq<char>)
    requires
        s.contains('\''),
        s.contains('"'),
    ensures
        xpath_literal_spec(s) == "concat("@ + crate::text::join(
            crate::text::split_char(s, '\'').map_values(|p: Seq<char>| quoted_run(p)),
            quote_sep(),
        ) + ")"@,
{
    lemma_expand_runs(s);
    lemma_join_quoted(crate::text::split_char(s, '\''));
    reveal_strlit("concat('");
    reveal_strlit("concat(");
    reveal_strlit("')");
    reveal_strlit(")");
    let ps = crate::text::split_char(s, '\'');
    let e = expand(s, |c: char| concat_piece(c));
    assert("concat('"@ + e + "')"@ =~= "concat("@ + (seq!['\''] + e) + seq!['\''] + ")"@);
    assert("concat("@ + (quoted_prefix(ps) + seq!['\''] + ps.last()) + seq!['\''] + ")"@ =~= "concat("@ + (
    quoted_prefix(ps) + quoted_run(ps.last())) + ")"@);
}

proof fn lemma_contains_middle(a: Seq<char>, b: Seq<char>, c: Seq<char>)
    ensures
        crate::text::contains_seq(a + b + c, b),
{
    assert((a + b + c).subrange(a.len() as int, (a.len() + b.len()) as int) =~= b);
}

/// `field "t"` looks first at form controls (`FIELD`) whose `id`, `name`
/// or `placeholder` attribute equals `t`, then at the controls of a label
/// whose text is `t`, then of a label whose text contains it, then at `t`
/// as CSS.
pub proof fn law_field_looks_at_id_name_placeholder_then_labels(t: Seq<char>)
    ensures
        ({
            let x = xpath_literal_spec(t);
            let s = field_strategies(t);
            &&& s.len() == 4
            &&& s[0].0 == Strategy::XPath && s[1].0 == Strategy::XPath && s[2].0 == Strategy::XPath
            &&& FIELD@.is_prefix_of(s[0].1)
            &&& crate::text::contains_seq(s[0].1, "@id="@ + x)
            &&& crate::text::contains_seq(s[0].1, "@name="@ + x)
            &&& crate::text::contains_seq(s[0].1, "@placeholder="@ + x)
            &&& crate::text::contains_seq(s[1].1, "//label[normalize-space(.)="@ + x + "]"@)
            &&& crate::text::contains_seq(s[2].1, "//label[contains(normalize-space(.), "@ + x + ")]"@)
            &&& s[3] == (Strategy::Css, t)
        }),
{
    let x = xpath_literal_spec(t);
    let f = FIELD@;
    reveal_strlit("[@id=");
    reveal_strlit("[");
    reveal_strlit("@id=");
    reveal_strlit(" or @name=");
    reveal_strlit(" or ");
    reveal_strlit("@name=");
    reveal_strlit(" or @placeholder=");
    reveal_strlit("@placeholder=");
    reveal_strlit("]");
    let s0 = field_attr(x);
    assert(f.is_prefix_of(s0)) by {
        assert(s0.subrange(0, f.len() as int) =~= f);
    }
    let tail_name = " or @placeholder="@ + x + "]"@;
    assert(s0 =~= (f + "["@) + ("@id="@ + x) + (" or @name="@ + x + tail_name));
    lemma_contains_middle(f + "["@, "@id="@ + x, " or @name="@ + x + tail_name);
    assert(s0 =~= (f + "[@id="@ + x + " or "@) + ("@name="@ + x) + tail_name);
    lemma_contains_middle(f + "[@id="@ + x + " or "@, "@name="@ + x, tail_name);
    assert(s0 =~= (f + "[@id="@ + x + " or @name="@ + x + " or "@) + ("@placeholder="@ + x) + "]"@);
    lemma_contains_middle(f + "[@id="@ + x + " or @name="@ + x + " or "@, "@placeholder="@ + x, "]"@);
    reveal_strlit("[@id=//label[normalize-space(.)=");
    reveal_strlit("]/@for] | //label[normalize-space(.)=");
    reveal_strlit("[@id=//label[normalize-space(.)=");
    reveal_strlit("//label[normalize-space(.)=");
    reveal_strlit("]/@for] | ");
    let s1 = field_label_exact(x);
    assert(s1 =~= (f + "[@id=//label[normalize-space(.)="@ + x + "]/@for] | "@) + ("//label[normalize-space(.)="@
        + x + "]"@) + FIELD_INSIDE_LABEL@);
    lemma_contains_middle(
        f + "[@id=//label[normalize-space(.)="@ + x + "]/@for] | "@,
        "//label[normalize-space(.)="@ + x + "]"@,
        FIELD_INSIDE_LABEL@,
    );
    reveal_strlit("[@id=//label[contains(normalize-space(.), ");
    reveal_strlit(")]/@for] | //label[contains(normalize-space(.), ");
    reveal_strlit(")]/@for] | ");
    reveal_strlit("//label[contains(normalize-space(.), ");
    reveal_strlit(")]");
    let s2 = field_label_partial(x);
    assert(s2 =~= (f + "[@id=//label[contains(normalize-space(.), "@ + x + ")]/@for] | "@) + (
    "//label[contains(normalize-space(.), "@ + x + ")]"@) + FIELD_INSIDE_LABEL@);
    lemma_contains_middle(
        f + "[@id=//label[contains(normalize-space(.), "@ + x + ")]/@for] | "@,
        "//label[contains(normalize-space(.), "@ + x + ")]"@,
        FIELD_INSIDE_LABEL@,
    );
}


proof fn lemma_prefix_of(a: Seq<char>, b: Seq<char>)
    ensures
        a.is_prefix_of(a + b),
{
    assert((a + b).subrange(0, a.len() as int) =~= a);
}

/// `link "t"` looks first at anchors whose text, `title` or `id` equals
/// `t` or that hold an image whose `alt` does, then at anchors whose text
/// contains `t`, then at `t` as CSS.
pub proof fn law_link_looks_at_text_title_id_and_image_alt(t: Seq<char>)
    ensures
        ({
            let x = xpath_literal_spec(t);
            let s = link_strategies(t);
            &&& s.len() == 3
            &&& s[0].0 == Strategy::XPath && s[1].0 == Strategy::XPath
            &&& ("//a[normalize-space(.)="@ + x).is_prefix_of(s[0].1)
            &&& crate::text::contains_seq(s[0].1, " or @title="@ + x)
            &&& crate::text::contains_seq(s[0].1, " or @id="@ + x)
            &&& crate::text::contains_seq(s[0].1, " or .//img[@alt="@ + x)
            &&& ("//a[contains(normalize-space(.), "@ + x).is_prefix_of(s[1].1)
            &&& s[2] == (Strategy::Css, t)
        }),
{
    let x = xpath_literal_spec(t);
    let a0 = "//a[normalize-space(.)="@ + x;
    let t1 = " or @title="@ + x;
    let t2 = " or @id="@ + x;
    let t3 = " or .//img[@alt="@ + x;
    let e = "]]"@;
    assert(link_exact(x) =~= a0 + t1 + t2 + t3 + e);
    lemma_prefix_of(a0, t1 + t2 + t3 + e);
    assert(link_exact(x) =~= a0 + t1 + (t2 + t3 + e));
    lemma_contains_middle(a0, t1, t2 + t3 + e);
    assert(link_exact(x) =~= (a0 + t1) + t2 + (t3 + e));
    lemma_contains_middle(a0 + t1, t2, t3 + e);
    assert(link_exact(x) =~= (a0 + t1 + t2) + t3 + e);
    lemma_contains_middle(a0 + t1 + t2, t3, e);
    assert(link_partial(x) =~= ("//a[contains(normalize-space(.), "@ + x) + ")]"@);
    lemma_prefix_of("//a[contains(normalize-space(.), "@ + x, ")]"@);
}

/// `button "t"` looks first at buttons whose text, `value`, `id`, `name` or
/// `title` equals `t`, or button-typed inputs whose `value` (or `id`,
/// `name`, `title`) does; then at buttons whose text contains `t` and such
/// inputs whose `value` does; then at `t` as CSS.
#[verifier::rlimit(100)]
pub proof fn law_button_looks_at_text_value_id_name_title(t: Seq<char>)
    ensures
        ({
            let x = xpath_literal_spec(t);
            let s = button_strategies(t);
            &&& s.len() == 3
            &&& s[0].0 == Strategy::XPath && s[1].0 == Strategy::XPath
            &&& ("//button[normalize-space(.)="@ + x).is_prefix_of(s[0].1)
            &&& crate::text::contains_seq(s[0].1, " or @value="@ + x)
            &&& crate::text::contains_seq(s[0].1, " or @id="@ + x)
            &&& crate::text::contains_seq(s[0].1, " or @name="@ + x)
            &&& crate::text::contains_seq(s[0].1, " or @title="@ + x)
            &&& crate::text::contains_seq(s[0].1, "] | //input["@ + BUTTON_INPUT@ + " and (@value="@ + x)
            &&& ("//button[contains(normalize-space(.), "@ + x).is_prefix_of(s[1].1)
            &&& crate::text::contains_seq(s[1].1, " and contains(@value, "@ + x)
            &&& s[2] == (Strategy::Css, t)
        }),
{
    let x = xpath_literal_spec(t);
    let bi = BUTTON_INPUT@;
    let a0 = "//button[normalize-space(.)="@ + x;
    let v = " or @value="@ + x;
    let i = " or @id="@ + x;
    let n = " or @name="@ + x;
    let ti = " or @title="@ + x;
    let inp = "] | //input["@ + bi + " and (@value="@ + x;
    let tail = i + n + ti + ")]"@;
    let s0 = button_exact(x);
    assert(s0 =~= a0 + v + i + n + ti + inp + tail);
    assert(a0.is_prefix_of(s0)) by {
        lemma_prefix_of(a0, v + i + n + ti + inp + tail);
        assert(a0 + (v + i + n + ti + inp + tail) =~= s0);
    }
    assert(crate::text::contains_seq(s0, v)) by {
        lemma_contains_middle(a0, v, i + n + ti + inp + tail);
        assert(a0 + v + (i + n + ti + inp + tail) =~= s0);
    }
    assert(crate::text::contains_seq(s0, i)) by {
        lemma_contains_middle(a0 + v, i, n + ti + inp + tail);
        assert((a0 + v) + i + (n + ti + inp + tail) =~= s0);
    }
    assert(crate::text::contains_seq(s0, n)) by {
        lemma_contains_middle(a0 + v + i, n, ti + inp + tail);
        assert((a0 + v + i) + n + (ti + inp + tail) =~= s0);
    }
    assert(crate::text::contains_seq(s0, ti)) by {
        lemma_contains_middle(a0 + v + i + n, ti, inp + tail);
        assert((a0 + v + i + n) + ti + (inp + tail) =~= s0);
    }
    assert(crate::text::contains_seq(s0, inp)) by {
        lemma_contains_middle(a0 + v + i + n + ti, inp, tail);
        assert((a0 + v + i + n + ti) + inp + tail =~= s0);
    }
    let b0 = "//button[contains(normalize-space(.), "@ + x;
    let mid = ")] | //input["@ + bi;
    let cv = " and contains(@value, "@ + x;
    let s1 = button_partial(x);
    assert(s1 =~= b0 + (mid + cv + ")]"@));
    lemma_prefix_of(b0, mid + cv + ")]"@);
    assert(s1 =~= (b0 + mid) + cv + ")]"@);
    lemma_contains_middle(b0 + mid, cv, ")]"@);
}

/// An option of a select is found by its own text or by its `value`,
/// relative to the select.
pub proof fn law_option_looks_at_text_and_value(t: Seq<char>)
    ensures
        ({
            let x = xpath_literal_spec(t);
            let o = option_xpath_spec(x);
            &&& (".//option[normalize-space(.)="@ + x).is_prefix_of(o)
            &&& crate::text::contains_seq(o, " or @value="@ + x)
        }),
{
    let x = xpath_literal_spec(t);
    let a = ".//option[normalize-space(.)="@ + x;
    let b = " or @value="@ + x;
    assert(option_xpath_spec(x) =~= a + b + "]"@);
    lemma_prefix_of(a, b + "]"@);
    assert(a + (b + "]"@) =~= option_xpath_spec(x));
    lemma_contains_middle(a, b, "]"@);
}

/// A selector is CSS unless it says otherwise: `xpath=` hands the rest over
/// as XPath unchanged, and `text=` becomes an XPath search, inside `<body>`
/// only, for an element whose own text contains the rest.
pub proof fn law_selector_prefixes(raw: Seq<char>)
    ensures
        "xpath="@.is_prefix_of(raw) ==> selector_strategy(raw) == (Strategy::XPath, raw.subrange(6, raw.len() as int)),
        !"xpath="@.is_prefix_of(raw) && "text="@.is_prefix_of(raw) ==> ({
            let x = xpath_literal_spec(raw.subrange(5, raw.len() as int));
            &&& selector_strategy(raw).0 == Strategy::XPath
            &&& ("//body//"@).is_prefix_of(selector_strategy(raw).1)
            &&& crate::text::contains_seq(selector_strategy(raw).1, "text()[contains(normalize-space(.), "@ + x + ")]"@)
        }),
        !"xpath="@.is_prefix_of(raw) && !"text="@.is_prefix_of(raw) ==> selector_strategy(raw) == (Strategy::Css, raw),
{
    reveal_strlit("xpath=");
    reveal_strlit("text=");
    if "xpath="@.is_prefix_of(raw) {
        assert(raw.skip(6) =~= raw.subrange(6, raw.len() as int));
    } else if "text="@.is_prefix_of(raw) {
        let x = xpath_literal_spec(raw.skip(5));
        assert(raw.skip(5) =~= raw.subrange(5, raw.len() as int));
        reveal_strlit("//body//*[text()[contains(normalize-space(.), ");
        reveal_strlit("//body//");
        reveal_strlit("*[");
        reveal_strlit("text()[contains(normalize-space(.), ");
        reveal_strlit(")]]");
        reveal_strlit(")]");
        reveal_strlit("]");
        let p = "//body//"@;
        let m = "text()[contains(normalize-space(.), "@ + x + ")]"@;
        assert(text_xpath(x) =~= p + "*["@ + m + "]"@);
        lemma_prefix_of(p, "*["@ + m + "]"@);
        assert(p + ("*["@ + m + "]"@) =~= text_xpath(x));
        lemma_contains_middle(p + "*["@, m, "]"@);
    }
}

/// An XPath literal for text that lacks one kind of quote is that text
/// between two quotes of a kind it lacks, single quotes when it can: the
/// text itself, unescaped, since XPath 1.0 has no escapes.
pub proof fn law_xpath_literal_quotes_with_a_quote_the_text_lacks(s: Seq<char>)
    ensures
        !s.contains('\'') ==> xpath_literal_spec(s) == seq!['\''] + s + seq!['\''],
        s.contains('\'') && !s.contains('"') ==> xpath_literal_spec(s) == seq!['"'] + s + seq!['"'],
        !s.contains('\'') || !s.contains('"') ==> exists|q: char|
            (q == '\'' || q == '"') && !s.contains(q) && #[trigger] xpath_literal_spec(s).len() == s.len() + 2
                && xpath_literal_spec(s)[0] == q && xpath_literal_spec(s).last() == q
                && xpath_literal_spec(s).subrange(1, (s.len() + 1) as int) == s,
{
    let r = xpath_literal_spec(s);
    if !s.contains('\'') {
        assert(r.subrange(1, (s.len() + 1) as int) =~= s);
        assert(r[0] == '\'' && r.last() == '\'');
    } else if !s.contains('"') {
        assert(r.subrange(1, (s.len() + 1) as int) =~= s);
        assert(r[0] == '"' && r.last() == '"');
    }
}

} // verus!
