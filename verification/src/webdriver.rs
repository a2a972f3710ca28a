//! WebDriver classic: the wire shape of commands and replies. The HTTP
//! exchange itself is made by the caller; this module says what to send and
//! what an answer means.

use base64::Engine;
use vstd::prelude::*;

use crate::json::{
    at, empty_object, json_parse, json_text, parse_json, object1, object2, object_of, render, str_at, Json, JsonV,
};
use crate::text::{chars_of, decimal, owned, push_char, push_decimal, push_str, string_of};
use crate::weburl::{opt_view, whatwg_join, whatwg_with_path, UrlV, WebUrl};

verus! {

/// How an element is looked for.
#[derive(Debug, Clone, Copy, PartialEq, Eq, Structural)]
pub enum Strategy {
    Css,
    XPath,
}

impl Strategy {
    /// The `using` value on the wire.
    pub open spec fn wire_spec(self) -> Seq<char> {
        match self {
            Strategy::Css => "css selector"@,
            Strategy::XPath => "xpath"@,
        }
    }

    pub fn wire(self) -> (r: &'static str)
        ensures
            r@ == self.wire_spec(),
    {
        match self {
            Strategy::Css => "css selector",
            Strategy::XPath => "xpath",
        }
    }
}


/// The W3C element identifier key.
pub const ELEMENT_KEY: &'static str = "element-6066-11e4-a52e-4f735466cecf";

/// Bodies are cut at this many bytes in evidence: enough to read an error,
/// small enough that a dump stays readable.
pub const MAX_BODY: usize = 4 * 1024;

/// The number of bytes UTF-8 spends on `c`.
pub open spec fn utf8_width(c: char) -> nat {
    if (c as u32) < 0x80 {
        1
    } else if (c as u32) < 0x800 {
        2
    } else if (c as u32) < 0x10000 {
        3
    } else {
        4
    }
}

/// The length of `s` in UTF-8 bytes, `str::len`.
pub open spec fn byte_len(s: Seq<char>) -> nat
    decreases s.len(),
{
    if s.len() == 0 {
        0
    } else {
        byte_len(s.drop_last()) + utf8_width(s.last())
    }
}

/// The longest prefix of `s` that fits in `n` bytes: `s` cut at the last
/// character boundary not past byte `n`.
pub open spec fn fit_prefix(s: Seq<char>, n: nat) -> Seq<char>
    decreases s.len(),
{
    if byte_len(s) <= n {
        s
    } else {
        fit_prefix(s.drop_last(), n)
    }
}

/// A body as evidence shows it: whole when it fits in `MAX_BODY` bytes,
/// else cut there and marked.
pub open spec fn truncate_spec(s: Seq<char>) -> Seq<char> {
    if byte_len(s) <= MAX_BODY {
        s
    } else {
        fit_prefix(s, MAX_BODY as nat) + "… truncated"@
    }
}

proof fn lemma_byte_len_prefix(s: Seq<char>, j: int)
    requires
        0 <= j <= s.len(),
    ensures
        byte_len(s.take(j)) <= byte_len(s),
    decreases s.len(),
{
    if j < s.len() {
        assert(s.drop_last().take(j) =~= s.take(j));
        lemma_byte_len_prefix(s.drop_last(), j);
    } else {
        assert(s.take(j) =~= s);
    }
}

proof fn lemma_fit_prefix(s: Seq<char>, n: nat, k: int)
    requires
        0 <= k <= s.len(),
        byte_len(s.take(k)) <= n,
        k < s.len() ==> byte_len(s.take(k + 1)) > n,
    ensures
        fit_prefix(s, n) == s.take(k),
    decreases s.len(),
{
    if k == s.len() {
        assert(s.take(k) =~= s);
    } else {
        lemma_byte_len_prefix(s, k + 1);
        let t = s.drop_last();
        assert(t.take(k) =~= s.take(k));
        if k + 1 < s.len() {
            assert(t.take(k + 1) =~= s.take(k + 1));
        }
        lemma_fit_prefix(t, n, k);
    }
}

/// What evidence keeps of a body is a prefix of it that fits in the
/// budget.
pub proof fn law_truncation_keeps_a_fitting_prefix(s: Seq<char>, n: nat)
    ensures
        fit_prefix(s, n).is_prefix_of(s),
        byte_len(fit_prefix(s, n)) <= n,
    decreases s.len(),
{
    if byte_len(s) > n {
        if s.len() == 0 {
            assert(false);
        }
        let t = s.drop_last();
        law_truncation_keeps_a_fitting_prefix(t, n);
        let p = fit_prefix(t, n);
        assert(p.is_prefix_of(s)) by {
            assert forall|i: int| 0 <= i < p.len() implies p[i] == s[i] by {
                assert(p[i] == t[i]);
            }
        }
    }
}

fn utf8_len(c: char) -> (r: usize)
    ensures
        r == utf8_width(c),
{
    let u = c as u32;
    if u < 0x80 {
        1
    } else if u < 0x800 {
        2
    } else if u < 0x10000 {
        3
    } else {
        4
    }
}

/// `s` whole when it fits in `MAX_BODY` bytes, else its longest prefix
/// that does followed by `… truncated`.
pub fn truncate(s: &str) -> (r: String)
    ensures
        r@ == truncate_spec(s@),
{
    let v = chars_of(s);
    let mut i: usize = 0;
    let mut used: usize = 0;
    while i < v.len() && used + utf8_len(v[i]) <= MAX_BODY
        invariant
            i <= v.len(),
            v@ == s@,
            used == byte_len(v@.take(i as int)),
            used <= MAX_BODY,
        decreases v.len() - i,
    {
        assert(v@.take(i + 1).drop_last() =~= v@.take(i as int));
        used = used + utf8_len(v[i]);
        i = i + 1;
    }
    if i == v.len() {
        assert(v@.take(i as int) =~= v@);
        return owned(s);
    }
    assert(v@.take(i + 1).drop_last() =~= v@.take(i as int));
    proof {
        lemma_byte_len_prefix(v@, i + 1);
        lemma_fit_prefix(v@, MAX_BODY as nat, i as int);
    }
    let mut kept: Vec<char> = Vec::new();
    let mut k: usize = 0;
    while k < i
        invariant
            k <= i < v.len(),
            kept@ =~= v@.take(k as int),
        decreases i - k,
    {
        kept.push(v[k]);
        k = k + 1;
    }
    let mut out = string_of(&kept);
    push_str(&mut out, "… truncated");
    out
}

/// One request and its answer, as evidence shows it.
#[derive(Debug)]
pub struct Exchange {
    /// `METHOD path`, path relative to the endpoint.
    pub request: String,
    pub request_body: String,
    pub status: u16,
    pub response_body: String,
}

pub struct ExchangeV {
    pub request: Seq<char>,
    pub request_body: Seq<char>,
    pub status: u16,
    pub response_body: Seq<char>,
}

impl View for Exchange {
    type V = ExchangeV;

    open spec fn view(&self) -> ExchangeV {
        ExchangeV {
            request: self.request@,
            request_body: self.request_body@,
            status: self.status,
            response_body: self.response_body@,
        }
    }
}

/// The request line, its body, the status and the answer's body, each body
/// cut to `MAX_BODY` bytes.
pub open spec fn render_exchange(e: ExchangeV) -> Seq<char> {
    e.request + seq!['\n'] + truncate_spec(e.request_body) + seq!['\n', '\n'] + "status: "@
        + decimal(e.status as nat) + seq!['\n'] + truncate_spec(e.response_body)
}

impl Exchange {
    pub fn render(&self) -> (r: String)
        ensures
            r@ == render_exchange(self@),
    {
        let mut out = self.request.clone();
        push_char(&mut out, '\n');
        let a = truncate(self.request_body.as_str());
        push_str(&mut out, a.as_str());
        push_char(&mut out, '\n');
        push_char(&mut out, '\n');
        push_str(&mut out, "status: ");
        push_decimal(&mut out, self.status as u64);
        push_char(&mut out, '\n');
        let b = truncate(self.response_body.as_str());
        push_str(&mut out, b.as_str());
        out
    }

    pub fn duplicate(&self) -> (r: Exchange)
        ensures
            r@ == self@,
    {
        Exchange {
            request: self.request.clone(),
            request_body: self.request_body.clone(),
            status: self.status,
            response_body: self.response_body.clone(),
        }
    }
}

/// Why a WebDriver command did not give a value.
#[derive(Debug)]
pub enum Error {
    /// The request never got a WebDriver reply: refused, timed out, not JSON.
    Transport(String),
    /// The driver answered with an error document.
    Protocol { status: u16, error: String, message: String },
}

pub enum ErrorV {
    Transport(Seq<char>),
    Protocol { status: u16, error: Seq<char>, message: Seq<char> },
}

impl View for Error {
    type V = ErrorV;

    open spec fn view(&self) -> ErrorV {
        match self {
            Error::Transport(m) => ErrorV::Transport(m@),
            Error::Protocol { status, error, message } => ErrorV::Protocol {
                status: *status,
                error: error@,
                message: message@,
            },
        }
    }
}

/// How an error reads in a message.
pub open spec fn error_text(e: ErrorV) -> Seq<char> {
    match e {
        ErrorV::Transport(m) => m,
        ErrorV::Protocol { status, error, message } => error + " ("@ + decimal(status as nat)
            + "): "@ + message,
    }
}

impl Error {
    pub open spec fn is_no_such_element_spec(self) -> bool {
        match self@ {
            ErrorV::Protocol { error, .. } => error == "no such element"@,
            _ => false,
        }
    }

    pub fn is_no_such_element(&self) -> (r: bool)
        ensures
            r == self.is_no_such_element_spec(),
    {
        match self {
            Error::Protocol { error, .. } => crate::text::str_eq(error.as_str(), "no such element"),
            _ => false,
        }
    }

    /// The error as a message: the transport's text, or
    /// `<error> (<status>): <message>`.
    pub fn to_string(&self) -> (r: String)
        ensures
            r@ == error_text(self@),
    {
        match self {
            Error::Transport(m) => m.clone(),
            Error::Protocol { status, error, message } => {
                let mut out = error.clone();
                push_str(&mut out, " (");
                push_decimal(&mut out, *status as u64);
                push_str(&mut out, "): ");
                push_str(&mut out, message.as_str());
                out
            },
        }
    }
}

pub open spec fn json_res(r: Result<Json, Error>) -> Result<JsonV, ErrorV> {
    match r {
        Ok(v) => Ok(v@),
        Err(e) => Err(e@),
    }
}

pub open spec fn parsed_view(p: Result<Json, String>) -> Result<JsonV, Seq<char>> {
    match p {
        Ok(v) => Ok(v@),
        Err(e) => Err(e@),
    }
}

/// What a reply means: a body that is not JSON is a transport failure, a
/// status other than 200 an error document, and 200 the `value` it carries.
pub open spec fn decode_spec(
    method: Seq<char>,
    path: Seq<char>,
    status: u16,
    parsed: Result<JsonV, Seq<char>>,
) -> Result<JsonV, ErrorV> {
    match parsed {
        Err(e) => Err(
            ErrorV::Transport(
                method + seq![' '] + path + ": status "@ + decimal(status as nat)
                    + " with a non-JSON body: "@ + e,
            ),
        ),
        Ok(v) => if status != 200 {
            Err(
                ErrorV::Protocol {
                    status,
                    error: match v.at("value"@).at("error"@).as_str() {
                        Some(s) => s,
                        None => "unknown error"@,
                    },
                    message: v.at("value"@).at("message"@).str_or_empty(),
                },
            )
        } else {
            Ok(v.at("value"@))
        },
    }
}

/// A method of the WebDriver protocol.
#[derive(Debug, Clone, Copy, PartialEq, Eq, Structural)]
pub enum Method {
    Get,
    Post,
    Delete,
}

impl Method {
    pub open spec fn name_spec(self) -> Seq<char> {
        match self {
            Method::Get => "GET"@,
            Method::Post => "POST"@,
            Method::Delete => "DELETE"@,
        }
    }

    pub fn name(self) -> (r: &'static str)
        ensures
            r@ == self.name_spec(),
    {
        match self {
            Method::Get => "GET",
            Method::Post => "POST",
            Method::Delete => "DELETE",
        }
    }
}

/// Interprets one reply whose body is `body`: it is read as JSON here.
pub fn decode(method: &str, path: &str, status: u16, body: &str) -> (r: Result<Json, Error>)
    ensures
        json_res(r) == decode_spec(method@, path@, status, json_parse(body@)),
{
    let parsed = parse_json(body);
    decode_parsed(method, path, status, parsed)
}

/// Interprets one reply. `parsed` is the reply body read as JSON, or the
/// reader's complaint when it is not JSON.
pub fn decode_parsed(method: &str, path: &str, status: u16, parsed: Result<Json, String>) -> (r: Result<Json, Error>)
    ensures
        json_res(r) == decode_spec(method@, path@, status, parsed_view(parsed)),
{
    match parsed {
        Err(e) => {
            let mut m = owned(method);
            push_char(&mut m, ' ');
            push_str(&mut m, path);
            push_str(&mut m, ": status ");
            push_decimal(&mut m, status as u64);
            push_str(&mut m, " with a non-JSON body: ");
            push_str(&mut m, e.as_str());
            assert(m@ =~= method@ + seq![' '] + path@ + ": status "@ + decimal(status as nat)
                + " with a non-JSON body: "@ + e@);
            Err(Error::Transport(m))
        },
        Ok(v) => {
            if status != 200 {
                let (error, message) = match at(&v, "value") {
                    Some(inner) => {
                        let error = match str_at(inner, "error") {
                            Some(s) => owned(s),
                            None => owned("unknown error"),
                        };
                        let message = match str_at(inner, "message") {
                            Some(s) => owned(s),
                            None => String::new(),
                        };
                        (error, message)
                    },
                    None => (owned("unknown error"), String::new()),
                };
                Err(Error::Protocol { status, error, message })
            } else {
                match at(&v, "value") {
                    Some(inner) => Ok(inner.deep_clone()),
                    None => Ok(Json::Null),
                }
            }
        },
    }
}

/// One WebDriver command: a method, a path under the endpoint, and the
/// JSON body a `POST` carries.
#[derive(Debug)]
pub struct Command {
    pub method: Method,
    pub path: String,
    pub body: Option<Json>,
}

pub struct CommandV {
    pub method: Method,
    pub path: Seq<char>,
    pub body: Option<JsonV>,
}

pub open spec fn opt_json(o: Option<Json>) -> Option<JsonV> {
    match o {
        Some(j) => Some(j@),
        None => None,
    }
}

impl View for Command {
    type V = CommandV;

    open spec fn view(&self) -> CommandV {
        CommandV { method: self.method, path: self.path@, body: opt_json(self.body) }
    }
}

/// What is sent for a command: its method and full URL, the body recorded
/// as evidence (empty without one), and the bytes a `POST` puts on the
/// wire (`{}` when it has no body).
#[derive(Debug)]
pub struct Call {
    pub method: Method,
    pub path: String,
    pub url: String,
    pub request_body: String,
    pub wire_body: Option<String>,
}

pub struct CallV {
    pub method: Method,
    pub path: Seq<char>,
    pub url: Seq<char>,
    pub request_body: Seq<char>,
    pub wire_body: Option<Seq<char>>,
}

impl View for Call {
    type V = CallV;

    open spec fn view(&self) -> CallV {
        CallV {
            method: self.method,
            path: self.path@,
            url: self.url@,
            request_body: self.request_body@,
            wire_body: opt_view(self.wire_body),
        }
    }
}

/// How the transport fared with a call.
pub enum Outcome {
    /// The request could not be sent or got no answer.
    SendFailed(String),
    /// An answer came but its body could not be read.
    ReadFailed(String),
    /// An answer came: its status and its body.
    Received { status: u16, body: String },
}

/// The client side of one WebDriver endpoint.
pub struct Driver {
    base: WebUrl,
    last: Option<Exchange>,
    debug: bool,
}

pub struct DriverV {
    pub base: UrlV,
    pub last: Option<ExchangeV>,
    pub debug: bool,
}

pub open spec fn opt_exchange(o: Option<Exchange>) -> Option<ExchangeV> {
    match o {
        Some(e) => Some(e@),
        None => None,
    }
}

impl View for Driver {
    type V = DriverV;

    closed spec fn view(&self) -> DriverV {
        DriverV { base: self.base@, last: opt_exchange(self.last), debug: self.debug }
    }
}

/// The endpoint with a path that ends in `/`, so that joining a relative
/// path keeps its last segment.
pub open spec fn with_slash(b: UrlV) -> UrlV {
    if b.path.len() > 0 && b.path.last() == '/' {
        b
    } else {
        whatwg_with_path(b, b.path.push('/'))
    }
}

/// A path resolved against the endpoint, or the endpoint itself when it
/// does not resolve.
pub open spec fn endpoint_spec(base: UrlV, path: Seq<char>) -> UrlV {
    match whatwg_join(base, path) {
        Ok(u) => u,
        Err(_) => base,
    }
}

pub open spec fn request_line(method: Method, path: Seq<char>) -> Seq<char> {
    method.name_spec() + seq![' '] + path
}

/// The call for `cmd` against the endpoint `base`.
pub open spec fn call_spec(base: UrlV, cmd: CommandV) -> CallV {
    CallV {
        method: cmd.method,
        path: cmd.path,
        url: endpoint_spec(base, cmd.path).href,
        request_body: match cmd.body {
            Some(b) => json_text(b),
            None => Seq::empty(),
        },
        wire_body: if cmd.method == Method::Post {
            Some(
                match cmd.body {
                    Some(b) => json_text(b),
                    None => "{}"@,
                },
            )
        } else {
            None
        },
    }
}

/// What a finished call records as the last exchange.
pub open spec fn recorded(last: Option<ExchangeV>, call: CallV, outcome: Outcome) -> Option<ExchangeV> {
    match outcome {
        Outcome::SendFailed(e) => Some(
            ExchangeV {
                request: request_line(call.method, call.path),
                request_body: call.request_body,
                status: 0,
                response_body: send_failure(call, e@),
            },
        ),
        Outcome::ReadFailed(_) => last,
        Outcome::Received { status, body, .. } => Some(
            ExchangeV {
                request: request_line(call.method, call.path),
                request_body: call.request_body,
                status,
                response_body: body@,
            },
        ),
    }
}

pub open spec fn send_failure(call: CallV, e: Seq<char>) -> Seq<char> {
    call.method.name_spec() + seq![' '] + call.url + ": "@ + e
}

/// What a finished call answers.
pub open spec fn answer(call: CallV, outcome: Outcome) -> Result<JsonV, ErrorV> {
    match outcome {
        Outcome::SendFailed(e) => Err(ErrorV::Transport(send_failure(call, e@))),
        Outcome::ReadFailed(e) => Err(
            ErrorV::Transport(
                call.method.name_spec() + seq![' '] + call.url + ": reading the reply: "@ + e@,
            ),
        ),
        Outcome::Received { status, body } => decode_spec(
            call.method.name_spec(),
            call.path,
            status,
            json_parse(body@),
        ),
    }
}

impl Driver {
    pub fn new(base: WebUrl, debug: bool) -> (r: Driver)
        ensures
            r@ == (DriverV { base: with_slash(base@), last: None, debug }),
    {
        let path = chars_of(base.path());
        let base = if path.len() > 0 && path[path.len() - 1] == '/' {
            base
        } else {
            let mut p = owned(base.path());
            push_char(&mut p, '/');
            base.with_path(p.as_str())
        };
        Driver { base, last: None, debug }
    }

    /// `debug` follows the request, not the init.
    pub fn set_debug(&mut self, on: bool)
        ensures
            final(self)@ == (DriverV { debug: on, ..old(self)@ }),
    {
        self.debug = on;
    }

    pub fn debug(&self) -> (r: bool)
        ensures
            r == self@.debug,
    {
        self.debug
    }

    pub fn endpoint(&self, path: &str) -> (r: WebUrl)
        ensures
            r@ == endpoint_spec(self@.base, path@),
    {
        match self.base.join(path) {
            Ok(u) => u,
            Err(_) => self.base.duplicate(),
        }
    }

    pub fn last_exchange(&self) -> (r: Option<Exchange>)
        ensures
            opt_exchange(r) == self@.last,
    {
        match &self.last {
            Some(e) => Some(e.duplicate()),
            None => None,
        }
    }

    /// What to send for `cmd`.
    pub fn prepare(&self, cmd: &Command) -> (r: Call)
        ensures
            r@ == call_spec(self@.base, cmd@),
    {
        let url = self.endpoint(cmd.path.as_str());
        let request_body = match &cmd.body {
            Some(b) => render(b),
            None => String::new(),
        };
        let wire_body = match cmd.method {
            Method::Post => match &cmd.body {
                Some(b) => Some(render(b)),
                None => Some(owned("{}")),
            },
            _ => None,
        };
        Call {
            method: cmd.method,
            path: cmd.path.clone(),
            url: owned(url.as_str()),
            request_body,
            wire_body,
        }
    }

    /// Records the exchange of a finished call and says what it answered.
    pub fn finish(&mut self, call: &Call, outcome: Outcome) -> (r: Result<Json, Error>)
        ensures
            final(self)@ == (DriverV { last: recorded(old(self)@.last, call@, outcome), ..old(self)@ }),
            json_res(r) == answer(call@, outcome),
    {
        let ghost o = outcome;
        let mut line = owned(call.method.name());
        push_char(&mut line, ' ');
        push_str(&mut line, call.path.as_str());
        assert(line@ =~= request_line(call.method, call.path@));
        match outcome {
            Outcome::SendFailed(e) => {
                let mut m = owned(call.method.name());
                push_char(&mut m, ' ');
                push_str(&mut m, call.url.as_str());
                push_str(&mut m, ": ");
                push_str(&mut m, e.as_str());
                assert(m@ =~= send_failure(call@, e@));
                self.last = Some(
                    Exchange {
                        request: line,
                        request_body: call.request_body.clone(),
                        status: 0,
                        response_body: m.clone(),
                    },
                );
                Err(Error::Transport(m))
            },
            Outcome::ReadFailed(e) => {
                let mut m = owned(call.method.name());
                push_char(&mut m, ' ');
                push_str(&mut m, call.url.as_str());
                push_str(&mut m, ": reading the reply: ");
                push_str(&mut m, e.as_str());
                assert(m@ =~= call.method.name_spec() + seq![' '] + call@.url + ": reading the reply: "@
                    + e@);
                Err(Error::Transport(m))
            },
            Outcome::Received { status, body } => {
                let r = decode(call.method.name(), call.path.as_str(), status, body.as_str());
                self.last = Some(
                    Exchange {
                        request: line,
                        request_body: call.request_body.clone(),
                        status,
                        response_body: body,
                    },
                );
                r
            },
        }
    }

    /// `GET /status`.
    pub fn status() -> (r: Command)
        ensures
            r@ == (CommandV { method: Method::Get, path: "status"@, body: None }),
    {
        Command { method: Method::Get, path: owned("status"), body: None }
    }

    /// `POST /session` with the capabilities `body`.
    pub fn new_session(body: &Json) -> (r: Command)
        ensures
            r@ == (CommandV { method: Method::Post, path: "session"@, body: Some(body@) }),
    {
        Command { method: Method::Post, path: owned("session"), body: Some(body.deep_clone()) }
    }
}

/// What the driver reported of a new session.
#[derive(Debug)]
pub struct SessionInfo {
    pub browser_name: String,
    pub browser_version: String,
    pub websocket_url: Option<String>,
}

pub struct SessionInfoV {
    pub browser_name: Seq<char>,
    pub browser_version: Seq<char>,
    pub websocket_url: Option<Seq<char>>,
}

impl View for SessionInfo {
    type V = SessionInfoV;

    open spec fn view(&self) -> SessionInfoV {
        SessionInfoV {
            browser_name: self.browser_name@,
            browser_version: self.browser_version@,
            websocket_url: opt_view(self.websocket_url),
        }
    }
}

/// One open session, by its id.
#[derive(Debug)]
pub struct Session {
    pub id: String,
}

/// One element of a session, by its id.
#[derive(Debug)]
pub struct Element {
    pub session: String,
    pub id: String,
}

pub struct ElementV {
    pub session: Seq<char>,
    pub id: Seq<char>,
}

impl View for Element {
    type V = ElementV;

    open spec fn view(&self) -> ElementV {
        ElementV { session: self.session@, id: self.id@ }
    }
}

impl Element {
    pub fn duplicate(&self) -> (r: Element)
        ensures
            r@ == self@,
    {
        Element { session: self.session.clone(), id: self.id.clone() }
    }
}

impl Session {
    pub fn duplicate(&self) -> (r: Session)
        ensures
            r.id@ == self.id@,
    {
        Session { id: self.id.clone() }
    }
}

/// Whether a reply is the `no such element` error.
pub open spec fn no_such(r: Result<JsonV, ErrorV>) -> bool {
    match r {
        Err(ErrorV::Protocol { error, .. }) => error == "no such element"@,
        _ => false,
    }
}

/// The session a `POST /session` reply opened: its id and what the driver
/// said of the browser.
pub open spec fn opened_spec(v: JsonV) -> Result<(Seq<char>, SessionInfoV), ErrorV> {
    match v.at("sessionId"@).as_str() {
        None => Err(ErrorV::Transport("POST session: the reply carries no sessionId"@)),
        Some(id) => Ok(
            (
                id,
                SessionInfoV {
                    browser_name: v.at("capabilities"@).at("browserName"@).str_or_empty(),
                    browser_version: v.at("capabilities"@).at("browserVersion"@).str_or_empty(),
                    websocket_url: v.at("capabilities"@).at("webSocketUrl"@).as_str(),
                },
            ),
        ),
    }
}

fn opt_text(v: &Json, key: &str) -> (r: Option<String>)
    ensures
        opt_view(r) == v@.at(key@).as_str(),
{
    match str_at(v, key) {
        Some(s) => Some(owned(s)),
        None => None,
    }
}

impl Session {
    /// The session a `POST /session` reply opened.
    pub fn opened(value: &Json) -> (r: Result<(Session, SessionInfo), Error>)
        ensures
            match r {
                Ok((s, info)) => opened_spec(value@) == Ok::<(Seq<char>, SessionInfoV), ErrorV>(
                    (s.id@, info@),
                ),
                Err(e) => opened_spec(value@) == Err::<(Seq<char>, SessionInfoV), ErrorV>(e@),
            },
    {
        let id = match str_at(value, "sessionId") {
            Some(s) => owned(s),
            None => {
                return Err(Error::Transport(owned("POST session: the reply carries no sessionId")));
            },
        };
        let caps = crate::json::at_or_null(value, "capabilities");
        let info = SessionInfo {
            browser_name: crate::json::string_at(&caps, "browserName"),
            browser_version: crate::json::string_at(&caps, "browserVersion"),
            websocket_url: opt_text(&caps, "webSocketUrl"),
        };
        Ok((Session { id }, info))
    }
}


pub open spec fn session_path(id: Seq<char>, tail: Seq<char>) -> Seq<char> {
    "session/"@ + id + seq!['/'] + tail
}

pub open spec fn element_path(session: Seq<char>, id: Seq<char>, what: Seq<char>) -> Seq<char> {
    session_path(session, "element/"@ + id + seq!['/'] + what)
}

pub open spec fn command(method: Method, path: Seq<char>, body: Option<JsonV>) -> CommandV {
    CommandV { method, path, body }
}

/// The string a reply carries, or `""`.
pub fn text_reply(v: &Json) -> (r: String)
    ensures
        r@ == v@.str_or_empty(),
{
    match v.as_str() {
        Some(s) => owned(s),
        None => String::new(),
    }
}

/// The boolean a reply carries, or `false`.
pub fn bool_reply(v: &Json) -> (r: bool)
    ensures
        r == match v@.as_bool() {
            Some(b) => b,
            None => false,
        },
{
    match v.as_bool() {
        Some(b) => b,
        None => false,
    }
}

/// The string a reply carries, if it carries one.
pub fn optional_text_reply(v: &Json) -> (r: Option<String>)
    ensures
        opt_view(r) == v@.as_str(),
{
    match v.as_str() {
        Some(s) => Some(owned(s)),
        None => None,
    }
}

pub open spec fn element_id_spec(v: JsonV) -> Result<Seq<char>, ErrorV> {
    match v.at(ELEMENT_KEY@).as_str() {
        Some(id) => Ok(id),
        None => Err(ErrorV::Transport("an element reply without "@ + ELEMENT_KEY@ + ": "@ + json_text(v))),
    }
}

/// The element id an element reply carries.
pub fn element_id(value: &Json) -> (r: Result<String, Error>)
    ensures
        match r {
            Ok(id) => element_id_spec(value@) == Ok::<Seq<char>, ErrorV>(id@),
            Err(e) => element_id_spec(value@) == Err::<Seq<char>, ErrorV>(e@),
        },
{
    match str_at(value, ELEMENT_KEY) {
        Some(s) => Ok(owned(s)),
        None => {
            let mut m = owned("an element reply without ");
            push_str(&mut m, ELEMENT_KEY);
            push_str(&mut m, ": ");
            let t = render(value);
            push_str(&mut m, t.as_str());
            Err(Error::Transport(m))
        },
    }
}

/// What a find answered: the element, `None` on `no such element`, or the
/// error.
pub open spec fn found_spec(reply: Result<JsonV, ErrorV>, no_such: bool) -> Result<Option<Seq<char>>, ErrorV> {
    match reply {
        Ok(v) => match element_id_spec(v) {
            Ok(id) => Ok(Some(id)),
            Err(e) => Err(e),
        },
        Err(e) => if no_such {
            Ok(None)
        } else {
            Err(e)
        },
    }
}

pub open spec fn is_no_such(r: Result<Json, Error>) -> bool {
    match r {
        Err(e) => e.is_no_such_element_spec(),
        Ok(_) => false,
    }
}

pub open spec fn found_res(r: Result<Option<Element>, Error>) -> Result<Option<Seq<char>>, ErrorV> {
    match r {
        Ok(Some(e)) => Ok(Some(e.id@)),
        Ok(None) => Ok(None),
        Err(e) => Err(e@),
    }
}

/// What base64 (standard alphabet, padded) decoding makes of `text`: the
/// bytes, or the decoder's complaint.
pub uninterp spec fn base64_standard_decode(text: Seq<char>) -> Result<Seq<u8>, Seq<char>>;

/// `base64::engine::general_purpose::STANDARD.decode`, its error as text.
#[verifier::external_body]
fn base64_decode(text: &str) -> (r: Result<Vec<u8>, String>)
    ensures
        match r {
            Ok(b) => base64_standard_decode(text@) == Ok::<Seq<u8>, Seq<char>>(b@),
            Err(e) => base64_standard_decode(text@) == Err::<Seq<u8>, Seq<char>>(e@),
        },
{
    match base64::engine::general_purpose::STANDARD.decode(text) {
        Ok(bytes) => Ok(bytes),
        Err(e) => Err(e.to_string()),
    }
}

pub open spec fn screenshot_spec(v: JsonV) -> Result<Seq<u8>, ErrorV> {
    match base64_standard_decode(v.str_or_empty()) {
        Ok(b) => Ok(b),
        Err(e) => Err(ErrorV::Transport("the screenshot is not base64: "@ + e)),
    }
}

/// The PNG bytes of a screenshot reply.
pub fn screenshot_reply(v: &Json) -> (r: Result<Vec<u8>, Error>)
    ensures
        match r {
            Ok(b) => screenshot_spec(v@) == Ok::<Seq<u8>, ErrorV>(b@),
            Err(e) => screenshot_spec(v@) == Err::<Seq<u8>, ErrorV>(e@),
        },
{
    let encoded = text_reply(v);
    match base64_decode(encoded.as_str()) {
        Ok(b) => Ok(b),
        Err(e) => {
            let mut m = owned("the screenshot is not base64: ");
            push_str(&mut m, e.as_str());
            Err(Error::Transport(m))
        },
    }
}

impl Session {
    fn path(&self, tail: &str) -> (r: String)
        ensures
            r@ == session_path(self.id@, tail@),
    {
        let mut p = owned("session/");
        push_str(&mut p, self.id.as_str());
        push_char(&mut p, '/');
        push_str(&mut p, tail);
        assert(p@ =~= session_path(self.id@, tail@));
        p
    }

    pub fn navigate(&self, url: &str) -> (r: Command)
        ensures
            r@ == command(
                Method::Post,
                session_path(self.id@, "url"@),
                Some(object_of(seq![("url"@, JsonV::Str(url@))])),
            ),
    {
        Command { method: Method::Post, path: self.path("url"), body: Some(object1("url", Json::text(url))) }
    }

    pub fn current_url(&self) -> (r: Command)
        ensures
            r@ == command(Method::Get, session_path(self.id@, "url"@), None),
    {
        Command { method: Method::Get, path: self.path("url"), body: None }
    }

    pub fn title(&self) -> (r: Command)
        ensures
            r@ == command(Method::Get, session_path(self.id@, "title"@), None),
    {
        Command { method: Method::Get, path: self.path("title"), body: None }
    }

    pub fn refresh(&self) -> (r: Command)
        ensures
            r@ == command(Method::Post, session_path(self.id@, "refresh"@), Some(object_of(Seq::empty()))),
    {
        Command { method: Method::Post, path: self.path("refresh"), body: Some(empty_object()) }
    }

    pub fn set_window_rect(&self, width: u32, height: u32) -> (r: Command)
        ensures
            r@ == command(
                Method::Post,
                session_path(self.id@, "window/rect"@),
                Some(
                    object_of(
                        seq![("width"@, JsonV::UInt(width as u64)), ("height"@, JsonV::UInt(height as u64))],
                    ),
                ),
            ),
    {
        Command {
            method: Method::Post,
            path: self.path("window/rect"),
            body: Some(object2("width", Json::UInt(width as u64), "height", Json::UInt(height as u64))),
        }
    }

    pub fn find(&self, using: Strategy, value: &str) -> (r: Command)
        ensures
            r@ == command(
                Method::Post,
                session_path(self.id@, "element"@),
                Some(
                    object_of(
                        seq![("using"@, JsonV::Str(using.wire_spec())), ("value"@, JsonV::Str(value@))],
                    ),
                ),
            ),
    {
        Command {
            method: Method::Post,
            path: self.path("element"),
            body: Some(object2("using", Json::text(using.wire()), "value", Json::text(value))),
        }
    }

    /// What a find under this session answered.
    pub fn found(&self, reply: Result<Json, Error>) -> (r: Result<Option<Element>, Error>)
        ensures
            found_res(r) == found_spec(json_res(reply), is_no_such(reply)),
            match r {
                Ok(Some(e)) => e.session@ == self.id@,
                _ => true,
            },
    {
        match reply {
            Ok(v) => match element_id(&v) {
                Ok(id) => Ok(Some(Element { session: self.id.clone(), id })),
                Err(e) => Err(e),
            },
            Err(e) => if e.is_no_such_element() {
                Ok(None)
            } else {
                Err(e)
            },
        }
    }

    pub fn execute(&self, script: &str, args: Vec<Json>) -> (r: Command)
        ensures
            r@ == command(
                Method::Post,
                session_path(self.id@, "execute/sync"@),
                Some(
                    object_of(
                        seq![
                            ("script"@, JsonV::Str(script@)),
                            ("args"@, JsonV::Array(crate::json::json_views(args@))),
                        ],
                    ),
                ),
            ),
    {
        Command {
            method: Method::Post,
            path: self.path("execute/sync"),
            body: Some(object2("script", Json::text(script), "args", Json::Array(args))),
        }
    }

    pub fn screenshot(&self) -> (r: Command)
        ensures
            r@ == command(Method::Get, session_path(self.id@, "screenshot"@), None),
    {
        Command { method: Method::Get, path: self.path("screenshot"), body: None }
    }

    pub fn delete_all_cookies(&self) -> (r: Command)
        ensures
            r@ == command(Method::Delete, session_path(self.id@, "cookie"@), None),
    {
        Command { method: Method::Delete, path: self.path("cookie"), body: None }
    }

    pub fn delete(&self) -> (r: Command)
        ensures
            r@ == command(Method::Delete, "session/"@ + self.id@, None),
    {
        let mut p = owned("session/");
        push_str(&mut p, self.id.as_str());
        Command { method: Method::Delete, path: p, body: None }
    }
}

impl Element {
    fn path(&self, what: &str) -> (r: String)
        ensures
            r@ == element_path(self.session@, self.id@, what@),
    {
        let mut p = owned("session/");
        push_str(&mut p, self.session.as_str());
        push_str(&mut p, "/element/");
        push_str(&mut p, self.id.as_str());
        push_char(&mut p, '/');
        push_str(&mut p, what);
        proof {
            reveal_strlit("/element/");
            reveal_strlit("element/");
        }
        assert(p@ =~= element_path(self.session@, self.id@, what@));
        p
    }

    pub fn click(&self) -> (r: Command)
        ensures
            r@ == command(Method::Post, element_path(self.session@, self.id@, "click"@), Some(object_of(Seq::empty()))),
    {
        Command { method: Method::Post, path: self.path("click"), body: Some(empty_object()) }
    }

    pub fn clear(&self) -> (r: Command)
        ensures
            r@ == command(Method::Post, element_path(self.session@, self.id@, "clear"@), Some(object_of(Seq::empty()))),
    {
        Command { method: Method::Post, path: self.path("clear"), body: Some(empty_object()) }
    }

    pub fn send_keys(&self, text: &str) -> (r: Command)
        ensures
            r@ == command(
                Method::Post,
                element_path(self.session@, self.id@, "value"@),
                Some(object_of(seq![("text"@, JsonV::Str(text@))])),
            ),
    {
        Command { method: Method::Post, path: self.path("value"), body: Some(object1("text", Json::text(text))) }
    }

    pub fn text(&self) -> (r: Command)
        ensures
            r@ == command(Method::Get, element_path(self.session@, self.id@, "text"@), None),
    {
        Command { method: Method::Get, path: self.path("text"), body: None }
    }

    pub fn attribute(&self, name: &str) -> (r: Command)
        ensures
            r@ == command(Method::Get, element_path(self.session@, self.id@, "attribute/"@ + name@), None),
    {
        let mut what = owned("attribute/");
        push_str(&mut what, name);
        Command { method: Method::Get, path: self.path(what.as_str()), body: None }
    }

    pub fn property(&self, name: &str) -> (r: Command)
        ensures
            r@ == command(Method::Get, element_path(self.session@, self.id@, "property/"@ + name@), None),
    {
        let mut what = owned("property/");
        push_str(&mut what, name);
        Command { method: Method::Get, path: self.path(what.as_str()), body: None }
    }

    pub fn displayed(&self) -> (r: Command)
        ensures
            r@ == command(Method::Get, element_path(self.session@, self.id@, "displayed"@), None),
    {
        Command { method: Method::Get, path: self.path("displayed"), body: None }
    }

    pub fn selected(&self) -> (r: Command)
        ensures
            r@ == command(Method::Get, element_path(self.session@, self.id@, "selected"@), None),
    {
        Command { method: Method::Get, path: self.path("selected"), body: None }
    }

    pub fn find(&self, using: Strategy, value: &str) -> (r: Command)
        ensures
            r@ == command(
                Method::Post,
                element_path(self.session@, self.id@, "element"@),
                Some(
                    object_of(
                        seq![("using"@, JsonV::Str(using.wire_spec())), ("value"@, JsonV::Str(value@))],
                    ),
                ),
            ),
    {
        Command {
            method: Method::Post,
            path: self.path("element"),
            body: Some(object2("using", Json::text(using.wire()), "value", Json::text(value))),
        }
    }

    /// What a find under this element answered.
    pub fn found(&self, reply: Result<Json, Error>) -> (r: Result<Option<Element>, Error>)
        ensures
            found_res(r) == found_spec(json_res(reply), is_no_such(reply)),
            match r {
                Ok(Some(e)) => e.session@ == self.session@,
                _ => true,
            },
    {
        match reply {
            Ok(v) => match element_id(&v) {
                Ok(id) => Ok(Some(Element { session: self.session.clone(), id })),
                Err(e) => Err(e),
            },
            Err(e) => if e.is_no_such_element() {
                Ok(None)
            } else {
                Err(e)
            },
        }
    }
}

/// A reply is a success exactly when its body is JSON and its status is
/// 200, and then it answers the body's `value`; a JSON body with another
/// status is the driver's error, carrying that status and the `error` and
/// `message` the body names; a body that is not JSON is a transport
/// failure whose text names the request and the status.
pub proof fn law_a_reply_succeeds_only_on_200_json(method: Seq<char>, path: Seq<char>, status: u16, parsed: Result<JsonV, Seq<char>>)
    ensures
        (decode_spec(method, path, status, parsed) is Ok) <==> (parsed is Ok && status == 200),
        match parsed {
            Ok(v) => if status == 200 {
                decode_spec(method, path, status, parsed) == Ok::<JsonV, ErrorV>(
                    v.get("value"@).unwrap_or(JsonV::Null),
                )
            } else {
                match decode_spec(method, path, status, parsed) {
                    Err(ErrorV::Protocol { status: st, error: er, message: me }) => st == status && (match v.at(
                        "value"@,
                    ).at("error"@) {
                        JsonV::Str(x) => er == x,
                        _ => er == "unknown error"@,
                    }) && (match v.at("value"@).at("message"@) {
                        JsonV::Str(x) => me == x,
                        _ => me.len() == 0,
                    }),
                    _ => false,
                }
            },
            Err(_) => match decode_spec(method, path, status, parsed) {
                Err(ErrorV::Transport(t)) => (method + seq![' '] + path).is_prefix_of(t),
                _ => false,
            },
        },
{
    match parsed {
        Err(e) => {
            let a = method + seq![' '] + path;
            let t = a + ": status "@ + decimal(status as nat) + " with a non-JSON body: "@ + e;
            assert(t.subrange(0, a.len() as int) =~= a);
        },
        Ok(v) => {},
    }
}

} // verus!
