//! One browser session for one feature file: opened on the file's first
//! browser step, reset between its scenarios, closed when the file ends.
//! The waiting on processes, sockets and HTTP is the caller's; the order of
//! things and what each failure is called are decided here.

use vstd::prelude::*;

use crate::config::{session_body, ConfigV, InstanceConfig, Mode, ModeV};
use crate::json::{json_views, object_of, Json, JsonV};
use crate::managed::{Resolved, ResolvedV};
use crate::text::{decimal, owned, push_char, push_decimal, push_str};
use crate::webdriver::{
    command, error_text, json_res, opened_spec, session_path, Command, CommandV, Error,
    ErrorV, Method, Session, SessionInfo, SessionInfoV,
};
use crate::weburl::{opt_view, UrlV, WebUrl};

verus! {

/// Storage is cleared while the page is still on the application's origin:
/// on `about:blank` the access throws, and a scenario that never navigated
/// is on `about:blank` — hence the try/catch, so a reset is never failed by
/// a page that had nothing to clear.
pub const CLEAR_STORAGE: &'static str = "try { window.localStorage.clear(); window.sessionStorage.clear(); } catch (e) {}";

/// What opening an instance asks of its caller.
pub enum OpenAction {
    /// Managed mode: let Selenium Manager find or fetch the browser and
    /// driver; answer `Resolved`.
    Resolve,
    /// Managed mode: start this driver on a free port and wait for it to be
    /// ready; answer `DriverStarted` with its endpoint.
    StartDriver(String),
    /// Make the WebDriver client for `endpoint` and send it this
    /// `POST /session`; answer `Reply`.
    NewSession { endpoint: WebUrl, command: Command },
    /// Send this command through the client; answer `Reply`.
    Send(Command),
    /// Dial the BiDi socket and subscribe; answer `Connected`.
    ConnectBidi(String),
}

pub enum OpenActionV {
    Resolve,
    StartDriver(Seq<char>),
    NewSession { endpoint: UrlV, command: CommandV },
    Send(CommandV),
    ConnectBidi(Seq<char>),
}

impl View for OpenAction {
    type V = OpenActionV;

    open spec fn view(&self) -> OpenActionV {
        match self {
            OpenAction::Resolve => OpenActionV::Resolve,
            OpenAction::StartDriver(p) => OpenActionV::StartDriver(p@),
            OpenAction::NewSession { endpoint, command } => OpenActionV::NewSession {
                endpoint: endpoint@,
                command: command@,
            },
            OpenAction::Send(c) => OpenActionV::Send(c@),
            OpenAction::ConnectBidi(w) => OpenActionV::ConnectBidi(w@),
        }
    }
}

/// The caller's answer to an open action.
pub enum OpenEvent {
    Resolved(Result<Resolved, String>),
    DriverStarted(Result<WebUrl, String>),
    Reply(Result<Json, Error>),
    Connected(Result<(), String>),
}

pub enum OpenEventV {
    Resolved(Result<ResolvedV, Seq<char>>),
    DriverStarted(Result<UrlV, Seq<char>>),
    Reply(Result<JsonV, ErrorV>),
    Connected(Result<(), Seq<char>>),
}

impl View for OpenEvent {
    type V = OpenEventV;

    open spec fn view(&self) -> OpenEventV {
        match self {
            OpenEvent::Resolved(Ok(r)) => OpenEventV::Resolved(Ok(r@)),
            OpenEvent::Resolved(Err(e)) => OpenEventV::Resolved(Err(e@)),
            OpenEvent::DriverStarted(Ok(u)) => OpenEventV::DriverStarted(Ok(u@)),
            OpenEvent::DriverStarted(Err(e)) => OpenEventV::DriverStarted(Err(e@)),
            OpenEvent::Reply(r) => OpenEventV::Reply(json_res(*r)),
            OpenEvent::Connected(Ok(())) => OpenEventV::Connected(Ok(())),
            OpenEvent::Connected(Err(e)) => OpenEventV::Connected(Err(e@)),
        }
    }
}

/// What comes next while opening.
pub enum OpenNext {
    Do(OpenAction),
    /// The session is open; `bidi` says whether its event socket is up.
    Opened { session: Session, info: SessionInfo, bidi: bool },
    Failed(String),
}

pub enum OpenNextV {
    Do(OpenActionV),
    Opened { session: Seq<char>, info: SessionInfoV, bidi: bool },
    Failed(Seq<char>),
}

impl View for OpenNext {
    type V = OpenNextV;

    open spec fn view(&self) -> OpenNextV {
        match self {
            OpenNext::Do(a) => OpenNextV::Do(a@),
            OpenNext::Opened { session, info, bidi } => OpenNextV::Opened {
                session: session.id@,
                info: info@,
                bidi: *bidi,
            },
            OpenNext::Failed(e) => OpenNextV::Failed(e@),
        }
    }
}

/// Where opening has got to.
pub enum OpenStage {
    Resolving,
    /// The driver is starting; the browser binary Selenium Manager named.
    Starting(Option<String>),
    /// `POST /session` was sent to this endpoint.
    Creating(WebUrl),
    /// The window is being sized.
    Sizing(Session, SessionInfo),
    /// The BiDi socket at this URL is being dialled.
    Connecting(Session, SessionInfo, String),
    /// The session is being deleted after this failure.
    Deleting(String),
    Over,
}

pub enum OpenStageV {
    Resolving,
    Starting(Option<Seq<char>>),
    Creating(UrlV),
    Sizing(Seq<char>, SessionInfoV),
    Connecting(Seq<char>, SessionInfoV, Seq<char>),
    Deleting(Seq<char>),
    Over,
}

impl View for OpenStage {
    type V = OpenStageV;

    open spec fn view(&self) -> OpenStageV {
        match self {
            OpenStage::Resolving => OpenStageV::Resolving,
            OpenStage::Starting(b) => OpenStageV::Starting(opt_view(*b)),
            OpenStage::Creating(u) => OpenStageV::Creating(u@),
            OpenStage::Sizing(s, i) => OpenStageV::Sizing(s.id@, i@),
            OpenStage::Connecting(s, i, w) => OpenStageV::Connecting(s.id@, i@, w@),
            OpenStage::Deleting(e) => OpenStageV::Deleting(e@),
            OpenStage::Over => OpenStageV::Over,
        }
    }
}

/// Opening one instance.
pub struct Opening {
    config: InstanceConfig,
    stage: OpenStage,
}

pub struct OpeningV {
    pub config: ConfigV,
    pub stage: OpenStageV,
}

impl View for Opening {
    type V = OpeningV;

    closed spec fn view(&self) -> OpeningV {
        OpeningV { config: self.config@, stage: self.stage@ }
    }
}

/// `POST /session` with the capabilities for `binary`, to `endpoint`.
pub open spec fn create(o: OpeningV, endpoint: UrlV, binary: Option<Seq<char>>) -> (OpeningV, OpenNextV) {
    (
        OpeningV { stage: OpenStageV::Creating(endpoint), ..o },
        OpenNextV::Do(
            OpenActionV::NewSession {
                endpoint,
                command: command(Method::Post, "session"@, Some(session_body(o.config, binary))),
            },
        ),
    )
}

/// Remote mode creates the session at once; managed mode first resolves
/// the browser and its driver.
pub open spec fn open_start_spec(c: ConfigV) -> (OpeningV, OpenNextV) {
    let o = OpeningV { config: c, stage: OpenStageV::Resolving };
    match c.mode {
        ModeV::Remote { url } => create(o, url, None),
        ModeV::Managed(_) => (o, OpenNextV::Do(OpenActionV::Resolve)),
    }
}

pub open spec fn fail_open(o: OpeningV, e: Seq<char>) -> (OpeningV, OpenNextV) {
    (OpeningV { stage: OpenStageV::Over, ..o }, OpenNextV::Failed(e))
}

/// A failure after the session exists: delete it first, then fail.
pub open spec fn delete_then_fail(o: OpeningV, sid: Seq<char>, e: Seq<char>) -> (OpeningV, OpenNextV) {
    (
        OpeningV { stage: OpenStageV::Deleting(e), ..o },
        OpenNextV::Do(OpenActionV::Send(command(Method::Delete, "session/"@ + sid, None))),
    )
}

pub open spec fn window_rect(sid: Seq<char>, w: u32, h: u32) -> CommandV {
    command(
        Method::Post,
        session_path(sid, "window/rect"@),
        Some(object_of(seq![("width"@, JsonV::UInt(w as u64)), ("height"@, JsonV::UInt(h as u64))])),
    )
}

/// What opening does with the answer to its last action.
pub open spec fn open_advance_spec(o: OpeningV, e: OpenEventV) -> (OpeningV, OpenNextV) {
    match (o.stage, e) {
        (OpenStageV::Resolving, OpenEventV::Resolved(Err(x))) => fail_open(o, x),
        (OpenStageV::Resolving, OpenEventV::Resolved(Ok(r))) => (
            OpeningV { stage: OpenStageV::Starting(r.browser_path), ..o },
            OpenNextV::Do(OpenActionV::StartDriver(r.driver_path)),
        ),
        (OpenStageV::Starting(_), OpenEventV::DriverStarted(Err(x))) => fail_open(o, x),
        (OpenStageV::Starting(b), OpenEventV::DriverStarted(Ok(u))) => create(o, u, b),
        (OpenStageV::Creating(u), OpenEventV::Reply(r)) => {
            let opened = match r {
                Err(x) => Err(x),
                Ok(v) => opened_spec(v),
            };
            match opened {
                Err(x) => fail_open(
                    o,
                    "cannot open a "@ + o.config.browser.browser_name_spec() + " session at "@ + u.href
                        + ": "@ + error_text(x),
                ),
                Ok((sid, info)) => (
                    OpeningV { stage: OpenStageV::Sizing(sid, info), ..o },
                    OpenNextV::Do(OpenActionV::Send(window_rect(sid, o.config.window.0, o.config.window.1))),
                ),
            }
        },
        (OpenStageV::Sizing(sid, info), OpenEventV::Reply(Err(x))) => delete_then_fail(
            o,
            sid,
            "cannot size the window to "@ + decimal(o.config.window.0 as nat) + seq!['x'] + decimal(
                o.config.window.1 as nat,
            ) + ": "@ + error_text(x),
        ),
        (OpenStageV::Sizing(sid, info), OpenEventV::Reply(Ok(_))) => match info.websocket_url {
            Some(ws) => (
                OpeningV { stage: OpenStageV::Connecting(sid, info, ws), ..o },
                OpenNextV::Do(OpenActionV::ConnectBidi(ws)),
            ),
            None => (
                OpeningV { stage: OpenStageV::Over, ..o },
                OpenNextV::Opened { session: sid, info, bidi: false },
            ),
        },
        (OpenStageV::Connecting(sid, info, ws), OpenEventV::Connected(Err(x))) => delete_then_fail(
            o,
            sid,
            "the session advertised BiDi at "@ + ws + " but it cannot be used: "@ + x,
        ),
        (OpenStageV::Connecting(sid, info, ws), OpenEventV::Connected(Ok(()))) => (
            OpeningV { stage: OpenStageV::Over, ..o },
            OpenNextV::Opened { session: sid, info, bidi: true },
        ),
        (OpenStageV::Deleting(x), OpenEventV::Reply(_)) => fail_open(o, x),
        _ => (o, OpenNextV::Failed(Seq::empty())),
    }
}

/// Whether `e` answers the action opening asked for last.
pub open spec fn open_answers(stage: OpenStageV, e: OpenEventV) -> bool {
    match stage {
        OpenStageV::Resolving => e is Resolved,
        OpenStageV::Starting(_) => e is DriverStarted,
        OpenStageV::Creating(_) => e is Reply,
        OpenStageV::Sizing(..) => e is Reply,
        OpenStageV::Connecting(..) => e is Connected,
        OpenStageV::Deleting(_) => e is Reply,
        OpenStageV::Over => false,
    }
}

impl Opening {
    fn create(&mut self, endpoint: WebUrl, binary: Option<String>) -> (r: OpenNext)
        ensures
            (final(self)@, r@) == create(old(self)@, endpoint@, opt_view(binary)),
    {
        let body = match &binary {
            Some(b) => self.config.session_capabilities(Some(b.as_str())),
            None => self.config.session_capabilities(None),
        };
        let command = crate::webdriver::Driver::new_session(&body);
        let e2 = endpoint.duplicate();
        self.stage = OpenStage::Creating(e2);
        OpenNext::Do(OpenAction::NewSession { endpoint, command })
    }

    fn fail(&mut self, e: String) -> (r: OpenNext)
        ensures
            (final(self)@, r@) == fail_open(old(self)@, e@),
    {
        self.stage = OpenStage::Over;
        OpenNext::Failed(e)
    }

    fn delete_then_fail(&mut self, session: &Session, e: String) -> (r: OpenNext)
        ensures
            (final(self)@, r@) == delete_then_fail(old(self)@, session.id@, e@),
    {
        let c = session.delete();
        self.stage = OpenStage::Deleting(e);
        OpenNext::Do(OpenAction::Send(c))
    }

    /// Starts opening an instance configured as `config`.
    pub fn start(config: &InstanceConfig) -> (r: (Opening, OpenNext))
        ensures
            (r.0@, r.1@) == open_start_spec(config@),
    {
        let mut o = Opening { config: config.duplicate(), stage: OpenStage::Resolving };
        match &config.mode {
            Mode::Remote { url } => {
                let n = o.create(url.duplicate(), None);
                (o, n)
            },
            Mode::Managed(_) => (o, OpenNext::Do(OpenAction::Resolve)),
        }
    }

    /// Whether `e` answers the action opening asked for last.
    pub fn accepts(&self, e: &OpenEvent) -> (r: bool)
        ensures
            r == open_answers(self@.stage, e@),
    {
        match &self.stage {
            OpenStage::Resolving => matches!(e, OpenEvent::Resolved(_)),
            OpenStage::Starting(_) => matches!(e, OpenEvent::DriverStarted(_)),
            OpenStage::Creating(_) => matches!(e, OpenEvent::Reply(_)),
            OpenStage::Sizing(..) => matches!(e, OpenEvent::Reply(_)),
            OpenStage::Connecting(..) => matches!(e, OpenEvent::Connected(_)),
            OpenStage::Deleting(_) => matches!(e, OpenEvent::Reply(_)),
            OpenStage::Over => false,
        }
    }

    /// The next step of opening, given the answer to the last action.
    pub fn advance(&mut self, event: OpenEvent) -> (r: OpenNext)
        requires
            open_answers(old(self)@.stage, event@),
        ensures
            (final(self)@, r@) == open_advance_spec(old(self)@, event@),
    {
        let mut stage = OpenStage::Over;
        std::mem::swap(&mut stage, &mut self.stage);
        let ghost before = OpeningV { stage: stage@, ..self@ };
        assert(before == old(self)@);
        match stage {
            OpenStage::Resolving => match event {
                OpenEvent::Resolved(Err(x)) => self.fail(x),
                OpenEvent::Resolved(Ok(r)) => {
                    self.stage = OpenStage::Starting(r.browser_path);
                    OpenNext::Do(OpenAction::StartDriver(r.driver_path))
                },
                _ => {
                    self.stage = OpenStage::Resolving;
                    OpenNext::Failed(String::new())
                },
            },
            OpenStage::Starting(b) => match event {
                OpenEvent::DriverStarted(Err(x)) => self.fail(x),
                OpenEvent::DriverStarted(Ok(u)) => self.create(u, b),
                _ => {
                    self.stage = OpenStage::Starting(b);
                    OpenNext::Failed(String::new())
                },
            },
            OpenStage::Creating(u) => match event {
                OpenEvent::Reply(r) => {
                    let opened = match r {
                        Err(x) => Err(x),
                        Ok(v) => Session::opened(&v),
                    };
                    match opened {
                        Err(x) => {
                            let mut m = owned("cannot open a ");
                            push_str(&mut m, self.config.browser.browser_name());
                            push_str(&mut m, " session at ");
                            push_str(&mut m, u.as_str());
                            push_str(&mut m, ": ");
                            let t = x.to_string();
                            push_str(&mut m, t.as_str());
                            self.fail(m)
                        },
                        Ok((session, info)) => {
                            let c = session.set_window_rect(self.config.window.0, self.config.window.1);
                            self.stage = OpenStage::Sizing(session, info);
                            OpenNext::Do(OpenAction::Send(c))
                        },
                    }
                },
                _ => {
                    self.stage = OpenStage::Creating(u);
                    OpenNext::Failed(String::new())
                },
            },
            OpenStage::Sizing(session, info) => match event {
                OpenEvent::Reply(Err(x)) => {
                    let mut m = owned("cannot size the window to ");
                    push_decimal(&mut m, self.config.window.0 as u64);
                    push_char(&mut m, 'x');
                    push_decimal(&mut m, self.config.window.1 as u64);
                    push_str(&mut m, ": ");
                    let t = x.to_string();
                    push_str(&mut m, t.as_str());
                    assert(m@ =~= "cannot size the window to "@ + decimal(self.config.window.0 as nat)
                        + seq!['x'] + decimal(self.config.window.1 as nat) + ": "@ + error_text(x@));
                    self.delete_then_fail(&session, m)
                },
                OpenEvent::Reply(Ok(_)) => match &info.websocket_url {
                    Some(ws) => {
                        let w = ws.clone();
                        let w2 = ws.clone();
                        self.stage = OpenStage::Connecting(session, info, w);
                        OpenNext::Do(OpenAction::ConnectBidi(w2))
                    },
                    None => {
                        self.stage = OpenStage::Over;
                        OpenNext::Opened { session, info, bidi: false }
                    },
                },
                _ => {
                    self.stage = OpenStage::Sizing(session, info);
                    OpenNext::Failed(String::new())
                },
            },
            OpenStage::Connecting(session, info, ws) => match event {
                OpenEvent::Connected(Err(x)) => {
                    let mut m = owned("the session advertised BiDi at ");
                    push_str(&mut m, ws.as_str());
                    push_str(&mut m, " but it cannot be used: ");
                    push_str(&mut m, x.as_str());
                    self.delete_then_fail(&session, m)
                },
                OpenEvent::Connected(Ok(())) => {
                    self.stage = OpenStage::Over;
                    OpenNext::Opened { session, info, bidi: true }
                },
                _ => {
                    self.stage = OpenStage::Connecting(session, info, ws);
                    OpenNext::Failed(String::new())
                },
            },
            OpenStage::Deleting(x) => match event {
                OpenEvent::Reply(_) => self.fail(x),
                _ => {
                    self.stage = OpenStage::Deleting(x);
                    OpenNext::Failed(String::new())
                },
            },
            OpenStage::Over => OpenNext::Failed(String::new()),
        }
    }
}

/// The debug line of a freshly opened session.
pub fn session_trace(session: &Session, info: &SessionInfo) -> (r: String)
    ensures
        r@ == "[browser] session "@ + session.id@ + " on "@ + info.browser_name@ + seq![' ']
            + info.browser_version@,
{
    let mut m = owned("[browser] session ");
    push_str(&mut m, session.id.as_str());
    push_str(&mut m, " on ");
    push_str(&mut m, info.browser_name.as_str());
    push_char(&mut m, ' ');
    push_str(&mut m, info.browser_version.as_str());
    m
}

/// The commands of a reset, in order, each with what its failure is
/// called: web storage first (while the page is still on the application's
/// origin), then cookies, then `about:blank`.
pub open spec fn reset_plan(sid: Seq<char>) -> Seq<(CommandV, Seq<char>)> {
    seq![
        (
            command(
                Method::Post,
                session_path(sid, "execute/sync"@),
                Some(object_of(seq![("script"@, JsonV::Str(CLEAR_STORAGE@)), ("args"@, JsonV::Array(Seq::empty()))])),
            ),
            "clearing web storage: "@,
        ),
        (command(Method::Delete, session_path(sid, "cookie"@), None), "deleting cookies: "@),
        (
            command(
                Method::Post,
                session_path(sid, "url"@),
                Some(object_of(seq![("url"@, JsonV::Str("about:blank"@))])),
            ),
            "leaving the page: "@,
        ),
    ]
}

/// What a reset does next.
pub enum ResetNext {
    /// Send this command; answer with its reply.
    Send(Command),
    /// All three commands went through: empty the event buffers, and the
    /// reset is done.
    ClearBuffers,
    Failed(String),
}

pub enum ResetNextV {
    Send(CommandV),
    ClearBuffers,
    Failed(Seq<char>),
}

impl View for ResetNext {
    type V = ResetNextV;

    open spec fn view(&self) -> ResetNextV {
        match self {
            ResetNext::Send(c) => ResetNextV::Send(c@),
            ResetNext::ClearBuffers => ResetNextV::ClearBuffers,
            ResetNext::Failed(e) => ResetNextV::Failed(e@),
        }
    }
}

/// The reset of one scenario's state: `done` commands of the plan went
/// through.
pub struct Reset {
    session: Session,
    done: usize,
}

pub open spec fn reset_next_spec(sid: Seq<char>, done: int, r: Result<JsonV, ErrorV>) -> ResetNextV {
    match r {
        Err(x) => ResetNextV::Failed(reset_plan(sid)[done].1 + error_text(x)),
        Ok(_) => if done + 1 < 3 {
            ResetNextV::Send(reset_plan(sid)[done + 1].0)
        } else {
            ResetNextV::ClearBuffers
        },
    }
}

impl Reset {
    pub closed spec fn done_spec(&self) -> int {
        self.done as int
    }

    pub closed spec fn sid(&self) -> Seq<char> {
        self.session.id@
    }

    fn step(&self, k: usize) -> (r: Command)
        requires
            k < 3,
        ensures
            r@ == reset_plan(self.session.id@)[k as int].0,
    {
        if k == 0 {
            let c = self.session.execute(CLEAR_STORAGE, Vec::new());
            assert(json_views(Seq::<Json>::empty()) =~= Seq::<JsonV>::empty());
            c
        } else if k == 1 {
            self.session.delete_all_cookies()
        } else {
            self.session.navigate("about:blank")
        }
    }

    /// Starts the reset of `session`: its first command.
    pub fn start(session: &Session) -> (r: (Reset, Command))
        ensures
            r.0.sid() == session.id@,
            r.0.done_spec() == 0,
            r.1@ == reset_plan(session.id@)[0].0,
    {
        let rs = Reset { session: session.duplicate(), done: 0 };
        let c = rs.step(0);
        (rs, c)
    }

    /// The next step, given the reply to the last command.
    pub fn advance(&mut self, reply: Result<Json, Error>) -> (r: ResetNext)
        requires
            old(self).done_spec() < 3,
        ensures
            final(self).sid() == old(self).sid(),
            final(self).done_spec() == old(self).done_spec() + 1,
            r@ == reset_next_spec(old(self).sid(), old(self).done_spec(), json_res(reply)),
    {
        let k = self.done;
        self.done = k + 1;
        match reply {
            Err(x) => {
                let mut m = if k == 0 {
                    owned("clearing web storage: ")
                } else if k == 1 {
                    owned("deleting cookies: ")
                } else {
                    owned("leaving the page: ")
                };
                let t = x.to_string();
                push_str(&mut m, t.as_str());
                ResetNext::Failed(m)
            },
            Ok(_) => if k + 1 < 3 {
                ResetNext::Send(self.step(k + 1))
            } else {
                ResetNext::ClearBuffers
            },
        }
    }
}

/// `close`: the session's delete, its failure named.
pub fn close_outcome(reply: Result<Json, Error>) -> (r: Result<(), String>)
    ensures
        match r {
            Ok(()) => reply is Ok,
            Err(e) => match reply {
                Err(x) => e@ == "closing the session: "@ + error_text(x@),
                Ok(_) => false,
            },
        },
{
    match reply {
        Ok(_) => Ok(()),
        Err(x) => {
            let mut m = owned("closing the session: ");
            let t = x.to_string();
            push_str(&mut m, t.as_str());
            Err(m)
        },
    }
}

/// `doctor --live`: after opening and closing, a failed close wins; else a
/// session that reported no `browserName` is refused.
pub fn probe_outcome(info: &SessionInfo, closed: Result<(), String>) -> (r: Result<(), String>)
    ensures
        match closed {
            Err(e) => r == Err::<(), String>(e),
            Ok(()) => if info.browser_name@.len() == 0 {
                r matches Err(m) && m@ == "the session opened but reported no browserName"@
            } else {
                r is Ok
            },
        },
{
    match closed {
        Err(e) => Err(e),
        Ok(()) => if info.browser_name.as_str().is_empty() {
            Err(owned("the session opened but reported no browserName"))
        } else {
            Ok(())
        },
    }
}

/// A reset whose commands all go through sends, in this order, the script
/// that empties web storage, the delete of every cookie and the navigation
/// to `about:blank`, and then empties the event buffers; a reset whose
/// `k`-th command fails sends nothing after it and names that command.
pub proof fn law_reset_leaves_a_blank_page(sid: Seq<char>, v: JsonV, x: ErrorV, k: int)
    requires
        0 <= k < 3,
    ensures
        reset_plan(sid).len() == 3,
        reset_plan(sid)[0].0 == command(
            Method::Post,
            session_path(sid, "execute/sync"@),
            Some(object_of(seq![("script"@, JsonV::Str(CLEAR_STORAGE@)), ("args"@, JsonV::Array(Seq::empty()))])),
        ),
        reset_plan(sid)[1].0 == command(Method::Delete, session_path(sid, "cookie"@), None),
        reset_plan(sid)[2].0 == command(
            Method::Post,
            session_path(sid, "url"@),
            Some(object_of(seq![("url"@, JsonV::Str("about:blank"@))])),
        ),
        reset_next_spec(sid, 0, Ok(v)) == ResetNextV::Send(reset_plan(sid)[1].0),
        reset_next_spec(sid, 1, Ok(v)) == ResetNextV::Send(reset_plan(sid)[2].0),
        reset_next_spec(sid, 2, Ok(v)) == ResetNextV::ClearBuffers,
        reset_next_spec(sid, k, Err(x)) == ResetNextV::Failed(reset_plan(sid)[k].1 + error_text(x)),
{
}

/// Opening an instance in remote mode sends, first and at once, a
/// `POST session` to the configured endpoint with the session body for
/// this configuration and no browser binary; in managed mode nothing is
/// sent before Selenium Manager has resolved the browser and its driver.
pub proof fn law_remote_opens_at_once_managed_resolves_first(c: ConfigV)
    ensures
        match c.mode {
            ModeV::Remote { url } => open_start_spec(c).1 == OpenNextV::Do(
                OpenActionV::NewSession {
                    endpoint: url,
                    command: CommandV {
                        method: Method::Post,
                        path: "session"@,
                        body: Some(session_body(c, None)),
                    },
                },
            ),
            ModeV::Managed(_) => open_start_spec(c).1 == OpenNextV::Do(OpenActionV::Resolve),
        },
{
}

} // verus!
