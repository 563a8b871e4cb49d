//! The host mode of a managed device: staying registered, accepting connections one after the
//! other, and choosing the password for each.

use crate::bytes;
use crate::connection;
use crate::json;
use crate::json::Json;
use crate::signal;
use crate::signal::{ClientMsg, ServerMsg};
use crate::text;
use crate::time;
use crate::time::Duration;
use vstd::prelude::*;
use vstd::string::*;

verus! {

/// What the host tells the person at the device.
#[derive(Debug)]
pub enum HostEvent {
    /// A new one-time code to show.
    OneTime(String),
    /// Someone wants to connect: ask, and answer with the same number.
    Confirm { request_id: u64, password_kind: String },
}

/// What the owner's settings and switches say at the moment.
#[derive(Debug)]
pub struct HostOptions {
    /// The owner's password. Without it only one-time codes are taken.
    pub permanent_password: Option<Vec<u8>>,
    /// A new code is asked for.
    pub rotate: bool,
    /// The host mode is to end. An active session goes on.
    pub stop: bool,
    /// A person has to agree to every connection.
    pub confirm_incoming: bool,
    /// The device is to be locked after a session.
    pub lock_on_end: bool,
}

impl HostOptions {
    pub open spec fn permanent(&self) -> Option<Seq<u8>> {
        match self.permanent_password {
            Some(p) => Some(p@),
            None => None,
        }
    }
}

/// Why a session did not come about or could not be kept.
#[derive(Clone, Copy, Debug, PartialEq, Eq, Structural)]
pub enum ServeErr {
    /// The signalling socket is broken.
    Ws,
    /// This attempt failed; the socket is fine.
    Session,
}

/// A request to connect.
#[derive(Debug)]
pub struct Request {
    pub session_id: String,
    pub password_kind: Option<String>,
}

/// What a request holds.
pub struct Asked {
    pub session: Seq<char>,
    pub kind: Option<Seq<char>>,
}

impl View for Request {
    type V = Asked;

    open spec fn view(&self) -> Asked {
        Asked { session: self.session_id@, kind: text::opt_view(self.password_kind) }
    }
}

/// What reading from the signalling socket gave.
#[derive(Debug)]
pub enum Recv {
    Message(ServerMsg),
    /// Nothing in time.
    Nothing,
    Broken,
}

/// What a read means to the host.
pub enum Heard {
    Incoming(Asked),
    Wake(Seq<char>),
    Other,
    Broken,
}

pub open spec fn heard(r: Recv) -> Heard {
    match r {
        Recv::Message(ServerMsg::IncomingRequest { session_id, password_kind, .. }) => {
            Heard::Incoming(
                Asked { session: session_id@, kind: text::opt_view(password_kind) },
            )
        },
        Recv::Message(ServerMsg::WakeDispatch { mac }) => Heard::Wake(mac@),
        Recv::Broken => Heard::Broken,
        _ => Heard::Other,
    }
}

/// How long a person has to agree, in nanoseconds.
pub const DECISION_NANOS: u128 = 30_000_000_000;

enum Phase {
    Offline,
    Idle,
    Polling,
    Rejecting,
    Asking { session_id: String, password: Vec<u8>, one_time_used: bool, password_kind: String },
    Confirming {
        session_id: String,
        password: Vec<u8>,
        one_time_used: bool,
        request_id: u64,
        deadline: Duration,
    },
    Serving { one_time_used: bool },
    Stopped,
}

/// Where the host stands.
pub enum Stage {
    /// Not registered.
    Offline,
    /// Registered, at the start of a turn.
    Idle,
    /// Waiting for a message.
    Polling,
    /// A refusal is on its way.
    Rejecting,
    /// A person is about to be asked.
    Asking { session: Seq<char>, password: Seq<u8>, one_time: bool, kind: Seq<char> },
    /// Waiting for a person.
    Confirming {
        session: Seq<char>,
        password: Seq<u8>,
        one_time: bool,
        request: u64,
        deadline: int,
    },
    /// A session is set up or active.
    Serving { one_time: bool },
    Stopped,
}

/// The state of the host.
pub struct Host {
    /// The code that is shown.
    pub code: Seq<char>,
    /// Whether a session was established with it: it is good for no other one.
    pub burnt: bool,
    /// The number of the last question to a person.
    pub asked: u64,
    /// A request that came at the very end of a session.
    pub pending: Option<Asked>,
    pub stage: Stage,
}

/// What happened to the host.
#[derive(Debug)]
pub enum ServeEvent {
    /// Not registered: a new attempt is due.
    Begin,
    /// Whether the registration went through.
    Registered(bool),
    /// A new turn.
    Turn,
    /// What reading gave.
    Received(Recv),
    /// Whether the refusal went out.
    Sent(bool),
    /// The answers that were given so far are thrown away.
    Forgotten,
    /// What a person has said since the question, with its number.
    Decision(Option<(u64, bool)>),
    /// Whether the session was established, and how it ended; with it, a request that came at its
    /// very end.
    Over { established: bool, result: Result<Option<Request>, ServeErr> },
    /// The new code.
    Code(String),
}

/// What the host does next.
#[derive(Debug)]
pub enum ServeAction {
    /// Nothing: the event does not belong here.
    Nothing,
    /// Connect and register; report `Registered`.
    Register,
    /// Wait a while, then report `Begin`.
    Pause,
    /// Report `Begin`.
    Begin,
    /// Report `Turn`.
    Turn,
    /// Read from the socket; report `Received`.
    Poll,
    /// Send this refusal; report `Sent`.
    Reject(ClientMsg),
    /// Wake the device with this address; then report `Turn`.
    Wake(String),
    /// Make a new code; report `Code`.
    MakeCode,
    /// Throw away the answers that were given so far; report `Forgotten`.
    ForgetAnswers,
    /// Tell the person; after a new code report `Turn`, after a question report `Decision`, with
    /// an answer that was given since `ForgetAnswers` or none.
    Tell(HostEvent),
    /// Report `Decision`.
    AwaitDecision,
    /// Accept the request and hold the session; report `Over`.
    Serve { session_id: String, password: Vec<u8> },
    /// The host mode has ended.
    Finish,
}

/// What the host does next.
pub enum Act {
    Nothing,
    Register,
    Pause,
    Begin,
    Turn,
    Poll,
    Reject(Seq<char>, Seq<char>),
    Wake(Seq<char>),
    MakeCode,
    ForgetAnswers,
    TellCode(Seq<char>),
    TellConfirm(u64, Seq<char>),
    AwaitDecision,
    Serve(Seq<char>, Seq<u8>),
    Finish,
}

impl ServeAction {
    pub open spec fn is(&self, a: Act) -> bool {
        match (self, a) {
            (ServeAction::Nothing, Act::Nothing) => true,
            (ServeAction::Register, Act::Register) => true,
            (ServeAction::Pause, Act::Pause) => true,
            (ServeAction::Begin, Act::Begin) => true,
            (ServeAction::Turn, Act::Turn) => true,
            (ServeAction::Poll, Act::Poll) => true,
            (ServeAction::Reject(m), Act::Reject(session, why)) => signal::is_reject(
                *m,
                session,
                Some(why),
            ),
            (ServeAction::Wake(mac), Act::Wake(t)) => mac@ == t,
            (ServeAction::MakeCode, Act::MakeCode) => true,
            (ServeAction::ForgetAnswers, Act::ForgetAnswers) => true,
            (ServeAction::Tell(HostEvent::OneTime(c)), Act::TellCode(t)) => c@ == t,
            (
                ServeAction::Tell(HostEvent::Confirm { request_id, password_kind }),
                Act::TellConfirm(n, kind),
            ) => request_id == n && password_kind@ == kind,
            (ServeAction::AwaitDecision, Act::AwaitDecision) => true,
            (ServeAction::Serve { session_id, password }, Act::Serve(s, p)) => session_id@ == s
                && password@ == p,
            (ServeAction::Finish, Act::Finish) => true,
            _ => false,
        }
    }
}

/// The secret for a request: the shown code when it says so, else the owner's password, if there
/// is one.
pub open spec fn secret_for(h: Host, permanent: Option<Seq<u8>>, r: Asked) -> Option<Seq<u8>> {
    if r.kind == Some("one_time"@) {
        Some(vstd::utf8::encode_utf8(h.code))
    } else {
        permanent
    }
}

/// The host takes up a request: refuses it for want of a password, asks a person, or serves it.
pub open spec fn take_up(h: Host, o: HostOptions, r: Asked) -> (Host, Act) {
    let one_time = r.kind == Some("one_time"@);
    match secret_for(h, o.permanent(), r) {
        None => (
            Host { stage: Stage::Rejecting, ..h },
            Act::Reject(r.session, "no_permanent"@),
        ),
        Some(password) => if o.confirm_incoming {
            let kind = match r.kind {
                Some(k) => k,
                None => "permanent"@,
            };
            (
                Host {
                    stage: Stage::Asking { session: r.session, password, one_time, kind },
                    ..h
                },
                Act::ForgetAnswers,
            )
        } else {
            (
                Host { stage: Stage::Serving { one_time }, ..h },
                Act::Serve(r.session, password),
            )
        },
    }
}

/// What the host does when `e` happens.
pub open spec fn serve_step(h: Host, o: HostOptions, now: int, e: ServeEvent) -> (Host, Act) {
    match (h.stage, e) {
        (_, ServeEvent::Code(code)) => (
            Host { code: code@, burnt: false, ..h },
            Act::TellCode(code@),
        ),
        (Stage::Offline, ServeEvent::Begin) => if o.stop {
            (Host { stage: Stage::Stopped, ..h }, Act::Finish)
        } else {
            (Host { pending: None, ..h }, Act::Register)
        },
        (Stage::Offline, ServeEvent::Registered(ok)) => if ok {
            (Host { stage: Stage::Idle, ..h }, Act::Turn)
        } else {
            (h, Act::Pause)
        },
        (Stage::Offline, ServeEvent::Turn) => (h, Act::Begin),
        (Stage::Idle, ServeEvent::Turn) => if o.stop {
            (Host { stage: Stage::Stopped, ..h }, Act::Finish)
        } else if o.rotate || h.burnt {
            (h, Act::MakeCode)
        } else {
            match h.pending {
                Some(r) => take_up(Host { pending: None, ..h }, o, r),
                None => (Host { stage: Stage::Polling, ..h }, Act::Poll),
            }
        },
        (Stage::Polling, ServeEvent::Received(recv)) => match heard(recv) {
            Heard::Incoming(r) => take_up(h, o, r),
            Heard::Wake(mac) => (Host { stage: Stage::Idle, ..h }, Act::Wake(mac)),
            Heard::Other => (Host { stage: Stage::Idle, ..h }, Act::Turn),
            Heard::Broken => (Host { stage: Stage::Offline, ..h }, Act::Begin),
        },
        (Stage::Rejecting, ServeEvent::Sent(ok)) => if ok {
            (Host { stage: Stage::Idle, ..h }, Act::Turn)
        } else {
            (Host { stage: Stage::Offline, ..h }, Act::Begin)
        },
        (Stage::Asking { session, password, one_time, kind }, ServeEvent::Forgotten) => {
            let request = (h.asked + 1) as u64;
            (
                Host {
                    asked: request,
                    stage: Stage::Confirming {
                        session,
                        password,
                        one_time,
                        request,
                        deadline: time::later(now, DECISION_NANOS as int),
                    },
                    ..h
                },
                Act::TellConfirm(request, kind),
            )
        },
        (
            Stage::Confirming { session, password, one_time, request, deadline },
            ServeEvent::Decision(d),
        ) => if o.stop || now > deadline {
            (Host { stage: Stage::Rejecting, ..h }, Act::Reject(session, "denied"@))
        } else {
            match d {
                Some((id, allow)) => if id == request {
                    if allow {
                        (
                            Host { stage: Stage::Serving { one_time }, ..h },
                            Act::Serve(session, password),
                        )
                    } else {
                        (Host { stage: Stage::Rejecting, ..h }, Act::Reject(session, "denied"@))
                    }
                } else {
                    (h, Act::Poll)
                },
                None => (h, Act::Poll),
            }
        },
        (Stage::Confirming { .. }, ServeEvent::Received(recv)) => match heard(recv) {
            Heard::Incoming(r) => (h, Act::Reject(r.session, "busy"@)),
            Heard::Broken => (Host { stage: Stage::Offline, ..h }, Act::Begin),
            _ => (h, Act::AwaitDecision),
        },
        (Stage::Confirming { .. }, ServeEvent::Sent(ok)) => if ok {
            (h, Act::AwaitDecision)
        } else {
            (Host { stage: Stage::Offline, ..h }, Act::Begin)
        },
        (Stage::Serving { one_time }, ServeEvent::Over { established, result }) => {
            let burnt = one_time && established;
            let after = Host {
                burnt: h.burnt || burnt,
                stage: match result {
                    Err(ServeErr::Ws) => Stage::Offline,
                    _ => Stage::Idle,
                },
                pending: match result {
                    Ok(Some(r)) => Some(r@),
                    Ok(None) => None,
                    Err(_) => h.pending,
                },
                ..h
            };
            (
                after,
                if burnt {
                    Act::MakeCode
                } else if after.stage is Offline {
                    Act::Begin
                } else {
                    Act::Turn
                },
            )
        },
        _ => (h, Act::Nothing),
    }
}

/// A managed device in host mode.
pub struct Managed {
    one_time: String,
    burnt: bool,
    next_request_id: u64,
    pending: Option<Request>,
    phase: Phase,
}

impl View for Managed {
    type V = Host;

    closed spec fn view(&self) -> Host {
        Host {
            code: self.one_time@,
            burnt: self.burnt,
            asked: self.next_request_id,
            pending: match self.pending {
                Some(r) => Some(r@),
                None => None,
            },
            stage: match self.phase {
                Phase::Offline => Stage::Offline,
                Phase::Idle => Stage::Idle,
                Phase::Polling => Stage::Polling,
                Phase::Rejecting => Stage::Rejecting,
                Phase::Asking { session_id, password, one_time_used, password_kind } => {
                    Stage::Asking {
                        session: session_id@,
                        password: password@,
                        one_time: one_time_used,
                        kind: password_kind@,
                    }
                },
                Phase::Confirming {
                    session_id,
                    password,
                    one_time_used,
                    request_id,
                    deadline,
                } => Stage::Confirming {
                    session: session_id@,
                    password: password@,
                    one_time: one_time_used,
                    request: request_id,
                    deadline: deadline.ns(),
                },
                Phase::Serving { one_time_used } => Stage::Serving { one_time: one_time_used },
                Phase::Stopped => Stage::Stopped,
            },
        }
    }
}

impl Managed {
    /// The host mode with its first one-time code, which is to be shown.
    pub fn new(code: String) -> (r: (Managed, HostEvent))
        ensures
            r.0@ == (Host {
                code: code@,
                burnt: false,
                asked: 0,
                pending: None,
                stage: Stage::Offline,
            }),
            r.1 matches HostEvent::OneTime(c) && c@ == code@,
    {
        let shown: String = code.clone();
        (
            Managed {
                one_time: code,
                burnt: false,
                next_request_id: 0,
                pending: None,
                phase: Phase::Offline,
            },
            HostEvent::OneTime(shown),
        )
    }

    /// How many questions were put to a person so far.
    pub fn asked(&self) -> (n: u64)
        ensures
            n == self@.asked,
    {
        self.next_request_id
    }

    fn take_up(&mut self, opts: &HostOptions, r: Request) -> (a: ServeAction)
        ensures
            final(self)@ == take_up(old(self)@, *opts, r@).0,
            a.is(take_up(old(self)@, *opts, r@).1),
    {
        let one_time_used: bool = match &r.password_kind {
            Some(k) => text::same(k.as_str(), "one_time"),
            None => false,
        };
        let password: Vec<u8> = if one_time_used {
            bytes::copy_bytes(self.one_time.as_str().as_bytes())
        } else {
            match &opts.permanent_password {
                Some(p) => bytes::copy_bytes(p.as_slice()),
                None => {
                    self.phase = Phase::Rejecting;
                    return ServeAction::Reject(
                        ClientMsg::connect_reject(r.session_id.as_str(), Some("no_permanent")),
                    );
                },
            }
        };
        if opts.confirm_incoming {
            let password_kind: String = match r.password_kind {
                Some(k) => k,
                None => "permanent".to_owned(),
            };
            self.phase = Phase::Asking {
                session_id: r.session_id,
                password,
                one_time_used,
                password_kind,
            };
            ServeAction::ForgetAnswers
        } else {
            self.phase = Phase::Serving { one_time_used };
            ServeAction::Serve { session_id: r.session_id, password }
        }
    }

    /// Puts the question to a person.
    fn ask(&mut self, opts: &HostOptions, now: Duration) -> (a: ServeAction)
        requires
            old(self)@.stage is Asking,
            old(self)@.asked < u64::MAX,
        ensures
            final(self)@ == serve_step(old(self)@, *opts, now.ns(), ServeEvent::Forgotten).0,
            a.is(serve_step(old(self)@, *opts, now.ns(), ServeEvent::Forgotten).1),
    {
        let mut phase: Phase = Phase::Idle;
        std::mem::swap(&mut phase, &mut self.phase);
        match phase {
            Phase::Asking { session_id, password, one_time_used, password_kind } => {
                self.next_request_id = self.next_request_id + 1;
                let request_id: u64 = self.next_request_id;
                self.phase = Phase::Confirming {
                    session_id,
                    password,
                    one_time_used,
                    request_id,
                    deadline: now.plus(Duration { nanos: DECISION_NANOS }),
                };
                ServeAction::Tell(HostEvent::Confirm { request_id, password_kind })
            },
            other => {
                self.phase = other;
                ServeAction::Nothing
            },
        }
    }

    fn heard_polling(&mut self, opts: &HostOptions, now: Duration, recv: Recv) -> (a: ServeAction)
        requires
            old(self)@.stage is Polling,
        ensures
            final(self)@ == serve_step(
                old(self)@,
                *opts,
                now.ns(),
                ServeEvent::Received(recv),
            ).0,
            a.is(serve_step(old(self)@, *opts, now.ns(), ServeEvent::Received(recv)).1),
    {
        match recv {
            Recv::Message(ServerMsg::IncomingRequest { session_id, password_kind, .. }) => {
                self.take_up(opts, Request { session_id, password_kind })
            },
            Recv::Message(ServerMsg::WakeDispatch { mac }) => {
                self.phase = Phase::Idle;
                ServeAction::Wake(mac)
            },
            Recv::Broken => {
                self.phase = Phase::Offline;
                ServeAction::Begin
            },
            _ => {
                self.phase = Phase::Idle;
                ServeAction::Turn
            },
        }
    }

    fn decide(&mut self, opts: &HostOptions, now: Duration, d: Option<(u64, bool)>) -> (a:
        ServeAction)
        requires
            old(self)@.stage is Confirming,
        ensures
            final(self)@ == serve_step(old(self)@, *opts, now.ns(), ServeEvent::Decision(d)).0,
            a.is(serve_step(old(self)@, *opts, now.ns(), ServeEvent::Decision(d)).1),
    {
        let mut phase: Phase = Phase::Rejecting;
        std::mem::swap(&mut phase, &mut self.phase);
        match phase {
            Phase::Confirming { session_id, password, one_time_used, request_id, deadline } => {
                if opts.stop || now.exceeds(deadline) {
                    return ServeAction::Reject(
                        ClientMsg::connect_reject(session_id.as_str(), Some("denied")),
                    );
                }
                if let Some((id, allow)) = d {
                    if id == request_id {
                        if allow {
                            self.phase = Phase::Serving { one_time_used };
                            return ServeAction::Serve { session_id, password };
                        }
                        return ServeAction::Reject(
                            ClientMsg::connect_reject(session_id.as_str(), Some("denied")),
                        );
                    }
                }
                self.phase = Phase::Confirming {
                    session_id,
                    password,
                    one_time_used,
                    request_id,
                    deadline,
                };
                ServeAction::Poll
            },
            other => {
                self.phase = other;
                ServeAction::Nothing
            },
        }
    }

    /// One step of the host mode: takes what happened and says what to do next.
    pub fn serve(&mut self, opts: &HostOptions, now: Duration, event: ServeEvent) -> (a:
        ServeAction)
        requires
            event is Forgotten ==> old(self)@.asked < u64::MAX,
        ensures
            final(self)@ == serve_step(old(self)@, *opts, now.ns(), event).0,
            a.is(serve_step(old(self)@, *opts, now.ns(), event).1),
    {
        match event {
            ServeEvent::Code(code) => {
                let shown: String = code.clone();
                self.one_time = code;
                self.burnt = false;
                return ServeAction::Tell(HostEvent::OneTime(shown));
            },
            ServeEvent::Begin => {
                if let Phase::Offline = self.phase {
                    if opts.stop {
                        self.phase = Phase::Stopped;
                        return ServeAction::Finish;
                    }
                    self.pending = None;
                    return ServeAction::Register;
                }
            },
            ServeEvent::Registered(ok) => {
                if let Phase::Offline = self.phase {
                    if ok {
                        self.phase = Phase::Idle;
                        return ServeAction::Turn;
                    }
                    return ServeAction::Pause;
                }
            },
            ServeEvent::Turn => {
                if let Phase::Offline = self.phase {
                    return ServeAction::Begin;
                }
                if let Phase::Idle = self.phase {
                    if opts.stop {
                        self.phase = Phase::Stopped;
                        return ServeAction::Finish;
                    }
                    if opts.rotate || self.burnt {
                        return ServeAction::MakeCode;
                    }
                    let mut pending: Option<Request> = None;
                    std::mem::swap(&mut pending, &mut self.pending);
                    match pending {
                        Some(r) => {
                            return self.take_up(opts, r);
                        },
                        None => {
                            self.phase = Phase::Polling;
                            return ServeAction::Poll;
                        },
                    }
                }
            },
            ServeEvent::Received(recv) => {
                let polling: bool = match self.phase {
                    Phase::Polling => true,
                    _ => false,
                };
                if polling {
                    return self.heard_polling(opts, now, recv);
                }
                let confirming: bool = match self.phase {
                    Phase::Confirming { .. } => true,
                    _ => false,
                };
                if confirming {
                    match recv {
                        Recv::Message(ServerMsg::IncomingRequest { session_id, .. }) => {
                            return ServeAction::Reject(
                                ClientMsg::connect_reject(session_id.as_str(), Some("busy")),
                            );
                        },
                        Recv::Broken => {
                            self.phase = Phase::Offline;
                            return ServeAction::Begin;
                        },
                        _ => {
                            return ServeAction::AwaitDecision;
                        },
                    }
                }
            },
            ServeEvent::Sent(ok) => {
                let rejecting: bool = match self.phase {
                    Phase::Rejecting => true,
                    _ => false,
                };
                let confirming: bool = match self.phase {
                    Phase::Confirming { .. } => true,
                    _ => false,
                };
                if rejecting || confirming {
                    if !ok {
                        self.phase = Phase::Offline;
                        return ServeAction::Begin;
                    }
                    if confirming {
                        return ServeAction::AwaitDecision;
                    }
                    self.phase = Phase::Idle;
                    return ServeAction::Turn;
                }
            },
            ServeEvent::Forgotten => {
                let asking: bool = match self.phase {
                    Phase::Asking { .. } => true,
                    _ => false,
                };
                if asking {
                    return self.ask(opts, now);
                }
            },
            ServeEvent::Decision(d) => {
                let confirming: bool = match self.phase {
                    Phase::Confirming { .. } => true,
                    _ => false,
                };
                if confirming {
                    return self.decide(opts, now, d);
                }
            },
            ServeEvent::Over { established, result } => {
                if let Phase::Serving { one_time_used } = self.phase {
                    let burnt: bool = one_time_used && established;
                    if burnt {
                        self.burnt = true;
                    }
                    let online: bool = match result {
                        Ok(next) => {
                            self.pending = next;
                            true
                        },
                        Err(ServeErr::Session) => true,
                        Err(ServeErr::Ws) => false,
                    };
                    self.phase = if online {
                        Phase::Idle
                    } else {
                        Phase::Offline
                    };
                    return if burnt {
                        ServeAction::MakeCode
                    } else if online {
                        ServeAction::Turn
                    } else {
                        ServeAction::Begin
                    };
                }
            },
        }
        ServeAction::Nothing
    }
}

/// What holds of every host: a burnt code is never in use.
pub open spec fn sound(h: Host) -> bool {
    h.burnt ==> h.stage is Offline || h.stage is Idle || h.stage is Stopped
}

/// Something that happened to a host, with the owner's switches and the time at that moment.
pub struct Moment {
    pub options: HostOptions,
    pub now: int,
    pub event: ServeEvent,
}

/// The host after all this has happened to it, in this order.
pub open spec fn host_after(h: Host, run: Seq<Moment>) -> Host
    decreases run.len(),
{
    if run.len() == 0 {
        h
    } else {
        let m = run.last();
        serve_step(host_after(h, run.drop_last()), m.options, m.now, m.event).0
    }
}

/// Every step keeps the host sound.
pub proof fn lemma_step_is_sound(h: Host, o: HostOptions, now: int, e: ServeEvent)
    requires
        sound(h),
    ensures
        sound(serve_step(h, o, now, e).0),
{
}

/// Until a new code comes, a burnt code stays burnt.
proof fn lemma_stays_burnt(h: Host, run: Seq<Moment>)
    requires
        sound(h),
        h.burnt,
        forall|i: int| 0 <= i < run.len() ==> !((#[trigger] run[i]).event is Code),
    ensures
        sound(host_after(h, run)),
        host_after(h, run).burnt,
    decreases run.len(),
{
    if run.len() > 0 {
        lemma_stays_burnt(h, run.drop_last());
        assert(!(run[run.len() - 1].event is Code));
    }
}

/// A code is good for one session. When a session that was established with it has ended, well or
/// with the socket broken, a new code is made at once; and whatever happens before that code has
/// come, nothing is served and nobody is asked. A session that was not established leaves the code
/// as it is.
pub proof fn law_code_burns(
    h: Host,
    o: HostOptions,
    now: int,
    established: bool,
    result: Result<Option<Request>, ServeErr>,
    run: Seq<Moment>,
    next: Moment,
)
    requires
        sound(h),
        h.stage is Serving,
        forall|i: int| 0 <= i < run.len() ==> !((#[trigger] run[i]).event is Code),
    ensures
        ({
            let over = serve_step(h, o, now, ServeEvent::Over { established, result });
            let later = serve_step(host_after(over.0, run), next.options, next.now, next.event).1;
            if h.stage->Serving_one_time && established {
                &&& over.1 == Act::MakeCode
                &&& !(later is Serve) && !(later is ForgetAnswers) && !(later is TellConfirm)
            } else {
                &&& over.0.code == h.code && over.0.burnt == h.burnt
                &&& !(over.1 is MakeCode)
            }
        }),
{
    let over = serve_step(h, o, now, ServeEvent::Over { established, result });
    lemma_step_is_sound(h, o, now, ServeEvent::Over { established, result });
    if h.stage->Serving_one_time && established {
        lemma_stays_burnt(over.0, run);
    }
}

/// A new code is told as it is made, and the next request that asks for a code is served with it.
pub proof fn law_new_code_serves(h: Host, o: HostOptions, now: int, code: String, r: Asked)
    requires
        r.kind == Some("one_time"@),
    ensures
        ({
            let told = serve_step(h, o, now, ServeEvent::Code(code));
            &&& told.1 == Act::TellCode(code@)
            &&& !told.0.burnt
            &&& secret_for(told.0, o.permanent(), r) == Some(vstd::utf8::encode_utf8(code@))
        }),
{
}

/// A session is only ever served with the shown code, for a request that asks for it, or with the
/// owner's password, for one that does not; without such a password the request is refused. With
/// confirmation on, no request is served before a person was asked.
pub proof fn law_right_secret(h: Host, o: HostOptions, r: Asked)
    ensures
        take_up(h, o, r).1 matches Act::Serve(session, password) ==> {
            &&& session == r.session
            &&& !o.confirm_incoming
            &&& secret_for(h, o.permanent(), r) == Some(password)
        },
        take_up(h, o, r).0.stage matches Stage::Asking { session, password, .. } ==> {
            &&& session == r.session
            &&& o.confirm_incoming
            &&& secret_for(h, o.permanent(), r) == Some(password)
        },
        r.kind != Some("one_time"@) && o.permanent() is None ==> take_up(h, o, r).1
            == Act::Reject(r.session, "no_permanent"@),
{
}

/// While a person is asked, a session is served only when the person agrees to this very question
/// in time. A refusal, the end of the time and the end of the host mode have the request refused.
/// An answer to another question counts for nothing.
pub proof fn law_person_decides(h: Host, o: HostOptions, now: int, e: ServeEvent)
    requires
        h.stage is Confirming,
    ensures
        serve_step(h, o, now, e).1 is Serve ==> {
            &&& e == ServeEvent::Decision(Some((h.stage->request, true)))
            &&& !o.stop
            &&& now <= h.stage->deadline
            &&& serve_step(h, o, now, e).1 == Act::Serve(
                h.stage->Confirming_session,
                h.stage->Confirming_password,
            )
        },
        e matches ServeEvent::Decision(d) && (o.stop || now > h.stage->deadline || d == Some(
            (h.stage->request, false),
        )) ==> serve_step(h, o, now, e).1 == Act::Reject(h.stage->Confirming_session, "denied"@),
        e matches ServeEvent::Decision(Some((id, _))) && id != h.stage->request && !o.stop && now
            <= h.stage->deadline ==> serve_step(h, o, now, e) == (h, Act::Poll),
{
}

/// Questions are numbered one after the other. Before one is put, the answers given so far are
/// thrown away, and an answer that comes while no question stands counts for nothing: an answer
/// older than its question is no answer.
pub proof fn law_answers_follow_questions(h: Host, o: HostOptions, now: int, e: ServeEvent)
    requires
        h.asked < u64::MAX,
    ensures
        serve_step(h, o, now, e).1 matches Act::TellConfirm(n, _) ==> {
            &&& n == h.asked + 1
            &&& h.stage is Asking && e is Forgotten
            &&& serve_step(h, o, now, e).0.stage->request == n
            &&& serve_step(h, o, now, e).0.stage->deadline == time::later(
                now,
                DECISION_NANOS as int,
            )
        },
        serve_step(h, o, now, e).0.asked == (if serve_step(h, o, now, e).1 is TellConfirm {
            (h.asked + 1) as u64
        } else {
            h.asked
        }),
        serve_step(h, o, now, e).1 is ForgetAnswers <==> (serve_step(h, o, now, e).0.stage is Asking
            && !(h.stage is Asking)),
        !(h.stage is Confirming) && e is Decision ==> serve_step(h, o, now, e) == (h, Act::Nothing),
{
}

/// Sessions follow one another: while one is served or a person is asked, no other is served, and
/// the stage changes to serving only together with the action to serve.
pub proof fn law_one_session_at_a_time(h: Host, o: HostOptions, now: int, e: ServeEvent)
    ensures
        h.stage is Serving || h.stage is Asking ==> !(serve_step(h, o, now, e).1 is Serve),
        serve_step(h, o, now, e).1 is Serve <==> (serve_step(h, o, now, e).0.stage is Serving && !(
        h.stage is Serving)),
        h.stage is Stopped ==> serve_step(h, o, now, e).0.stage is Stopped,
{
}

/// One registration serves all sessions: the host leaves the server only when the socket breaks or
/// the host mode is to end. A session that has ended, or did not come about, leaves it registered.
pub proof fn law_stays_registered(h: Host, o: HostOptions, now: int, e: ServeEvent)
    requires
        !(h.stage is Offline),
    ensures
        serve_step(h, o, now, e).0.stage is Offline ==> {
            ||| e == ServeEvent::Received(Recv::Broken)
            ||| e == ServeEvent::Sent(false)
            ||| e matches ServeEvent::Over { result, .. } && result == Err::<
                Option<Request>,
                ServeErr,
            >(ServeErr::Ws)
        },
        serve_step(h, o, now, e).0.stage is Stopped && !(h.stage is Stopped) ==> o.stop,
        h.stage is Serving && (e matches ServeEvent::Over { result, .. } && result != Err::<
            Option<Request>,
            ServeErr,
        >(ServeErr::Ws)) ==> serve_step(h, o, now, e).0.stage is Idle,
{
}

/// Whether a host in this state waits for the report on this action.
pub open spec fn awaits(h: Host, a: Act) -> bool {
    match a {
        Act::Register | Act::Pause | Act::Begin => h.stage is Offline,
        Act::Turn | Act::Wake(_) => h.stage is Idle,
        Act::MakeCode | Act::TellCode(_) => h.stage is Idle || h.stage is Offline,
        Act::Poll => h.stage is Polling || h.stage is Confirming,
        Act::Reject(_, _) => h.stage is Rejecting || h.stage is Confirming,
        Act::ForgetAnswers => h.stage is Asking,
        Act::TellConfirm(_, _) | Act::AwaitDecision => h.stage is Confirming,
        Act::Serve(_, _) => h.stage is Serving,
        Act::Finish => h.stage is Stopped,
        Act::Nothing => false,
    }
}

/// Whether this is a report on this action.
pub open spec fn reports(a: Act, e: ServeEvent) -> bool {
    match a {
        Act::Register => e is Registered,
        Act::Pause | Act::Begin => e is Begin,
        Act::Turn | Act::Wake(_) | Act::TellCode(_) => e is Turn,
        Act::MakeCode => e is Code,
        Act::Poll => e is Received,
        Act::Reject(_, _) => e is Sent,
        Act::ForgetAnswers => e is Forgotten,
        Act::TellConfirm(_, _) | Act::AwaitDecision => e is Decision,
        Act::Serve(_, _) => e is Over,
        Act::Finish | Act::Nothing => false,
    }
}

/// The host mode goes on until it is to end: when what the host says is done and reported,
/// whatever came of it, there is a next thing to do; and it finishes only when asked to.
pub proof fn law_host_goes_on(h: Host, a: Act, o: HostOptions, now: int, e: ServeEvent)
    requires
        awaits(h, a),
        reports(a, e),
    ensures
        awaits(serve_step(h, o, now, e).0, serve_step(h, o, now, e).1),
        serve_step(h, o, now, e).1 is Finish ==> o.stop,
{
}

/// While a person is asked, silence is no refusal. As long as the host mode is to go on, the half
/// minute is not over and this very question was not refused, a look for an answer changes nothing
/// and the host goes on waiting; and the agreement to this question serves the session that was
/// asked for, with the password chosen for it.
pub proof fn law_question_stands(
    s: &mut Managed,
    o: &HostOptions,
    now: Duration,
    d: Option<(u64, bool)>,
    a: ServeAction,
)
    requires
        old(s)@.stage is Confirming,
        call_ensures(Managed::serve, (s, o, now, ServeEvent::Decision(d)), a),
        !o.stop,
        now.ns() <= old(s)@.stage->deadline,
        d != Some((old(s)@.stage->request, false)),
    ensures
        if d == Some((old(s)@.stage->request, true)) {
            &&& a matches ServeAction::Serve { session_id, password }
            &&& session_id@ == old(s)@.stage->Confirming_session
            &&& password@ == old(s)@.stage->Confirming_password
            &&& final(s)@ == (Host {
                stage: Stage::Serving { one_time: old(s)@.stage->Confirming_one_time },
                ..old(s)@
            })
        } else {
            a is Poll && final(s)@ == old(s)@
        },
{
}

/// A refusal, the end of the half minute and the end of the host mode refuse the request that was
/// asked for, and no other, and the host goes on from there.
pub proof fn law_refusal_refuses(
    s: &mut Managed,
    o: &HostOptions,
    now: Duration,
    d: Option<(u64, bool)>,
    a: ServeAction,
)
    requires
        old(s)@.stage is Confirming,
        call_ensures(Managed::serve, (s, o, now, ServeEvent::Decision(d)), a),
        o.stop || now.ns() > old(s)@.stage->deadline || d == Some((old(s)@.stage->request, false)),
    ensures
        refuses(a, old(s)@.stage->Confirming_session, "denied"@),
        final(s)@ == (Host { stage: Stage::Rejecting, ..old(s)@ }),
{
}

/// Whether an action sends the refusal of a session, with this reason.
pub open spec fn refuses(a: ServeAction, session: Seq<char>, why: Seq<char>) -> bool {
    &&& a matches ServeAction::Reject(ClientMsg::ConnectReject { v, session_id, reason })
    &&& v == 1
    &&& session_id@ == session
    &&& reason matches Some(r)
    &&& r@ == why
}

/// Whether this was heard while no answer was given: nothing, or another question's answer, or a
/// message that asks for nothing.
pub open spec fn leaves_question(m: Moment, request: u64, deadline: int) -> bool {
    &&& !m.options.stop
    &&& m.now <= deadline
    &&& match m.event {
        ServeEvent::Decision(None) => true,
        ServeEvent::Decision(Some((id, _))) => id != request,
        ServeEvent::Received(Recv::Nothing) => true,
        ServeEvent::Received(Recv::Message(_)) => true,
        ServeEvent::Sent(ok) => ok,
        _ => false,
    }
}

/// However often the host looks for an answer in vain, and whatever the server says meanwhile, the
/// question stands for its half minute: the agreement that comes in time serves the session.
pub proof fn law_late_consent_serves(h: Host, run: Seq<Moment>, o: HostOptions, now: int)
    requires
        h.stage is Confirming,
        forall|i: int|
            0 <= i < run.len() ==> leaves_question(
                #[trigger] run[i],
                h.stage->request,
                h.stage->deadline,
            ),
        !o.stop,
        now <= h.stage->deadline,
    ensures
        host_after(h, run) == h,
        ({
            let agreed = ServeEvent::Decision(Some((h.stage->request, true)));
            let (after, act) = serve_step(host_after(h, run), o, now, agreed);
            &&& act == Act::Serve(h.stage->Confirming_session, h.stage->Confirming_password)
            &&& after.stage is Serving
        }),
    decreases run.len(),
{
    if run.len() > 0 {
        let rest = run.drop_last();
        assert forall|i: int| 0 <= i < rest.len() implies leaves_question(
            #[trigger] rest[i],
            h.stage->request,
            h.stage->deadline,
        ) by {
            assert(rest[i] == run[i]);
        }
        law_late_consent_serves(h, rest, o, now);
        assert(leaves_question(run[run.len() - 1], h.stage->request, h.stage->deadline));
    }
}

/// Whether a request is answered as the owner's settings say: served at once with the shown code or
/// with the owner's password, whichever it asks for; put to a person first, where that is wanted;
/// or refused, where it needs a password that there is none of.
pub open spec fn answered(
    before: Host,
    o: HostOptions,
    session: Seq<char>,
    kind: Option<Seq<char>>,
    after: Host,
    a: ServeAction,
) -> bool {
    let one_time = kind == Some("one_time"@);
    let permanent = o.permanent_password;
    let password = if one_time {
        vstd::utf8::encode_utf8(before.code)
    } else {
        (permanent->0)@
    };
    if !one_time && permanent is None {
        refuses(a, session, "no_permanent"@) && after == (Host { stage: Stage::Rejecting, ..before })
    } else if o.confirm_incoming {
        &&& a is ForgetAnswers
        &&& after == (Host {
            stage: Stage::Asking {
                session,
                password,
                one_time,
                kind: if kind is Some {
                    kind->0
                } else {
                    "permanent"@
                },
            },
            ..before
        })
    } else {
        &&& a matches ServeAction::Serve { session_id, password: p }
        &&& session_id@ == session && p@ == password
        &&& after == (Host { stage: Stage::Serving { one_time }, ..before })
    }
}

/// Every request that comes while the host waits for one is answered.
pub proof fn law_request_is_answered(
    s: &mut Managed,
    o: &HostOptions,
    now: Duration,
    session_id: String,
    from_kind: String,
    password_kind: Option<String>,
    ice_servers: Option<Json>,
    a: ServeAction,
)
    requires
        old(s)@.stage is Polling,
        call_ensures(
            Managed::serve,
            (
                s,
                o,
                now,
                ServeEvent::Received(
                    Recv::Message(
                        ServerMsg::IncomingRequest {
                            session_id,
                            from_kind,
                            password_kind,
                            ice_servers,
                        },
                    ),
                ),
            ),
            a,
        ),
    ensures
        answered(
            old(s)@,
            *o,
            session_id@,
            match password_kind {
                Some(k) => Some(k@),
                None => None,
            },
            final(s)@,
            a,
        ),
{
}

/// At the start of a turn the host ends when it is to end, makes a new code when one is asked for
/// or the last one is used up, and then answers the request that came at the very end of a session,
/// or else waits for one.
pub proof fn law_turn(s: &mut Managed, o: &HostOptions, now: Duration, a: ServeAction)
    requires
        old(s)@.stage is Idle,
        call_ensures(Managed::serve, (s, o, now, ServeEvent::Turn), a),
    ensures
        if o.stop {
            a is Finish && final(s)@.stage is Stopped
        } else if o.rotate || old(s)@.burnt {
            a is MakeCode && final(s)@ == old(s)@
        } else {
            match old(s)@.pending {
                Some(r) => answered(
                    Host { pending: None, ..old(s)@ },
                    *o,
                    r.session,
                    r.kind,
                    final(s)@,
                    a,
                ),
                None => a is Poll && final(s)@ == (Host { stage: Stage::Polling, ..old(s)@ }),
            }
        },
{
}

/// The question that is put to a person has a new number, names the kind of password, and stands
/// for half a minute; what is to be served on agreement is what was asked for.
pub proof fn law_question_is_put(s: &mut Managed, o: &HostOptions, now: Duration, a: ServeAction)
    requires
        old(s)@.stage is Asking,
        old(s)@.asked < u64::MAX,
        now.ns() + 30_000_000_000 <= u128::MAX,
        call_ensures(Managed::serve, (s, o, now, ServeEvent::Forgotten), a),
    ensures
        a matches ServeAction::Tell(HostEvent::Confirm { request_id, password_kind }) && {
            &&& request_id == old(s)@.asked + 1
            &&& password_kind@ == old(s)@.stage->kind
            &&& final(s)@ == (Host {
                asked: request_id,
                stage: Stage::Confirming {
                    session: old(s)@.stage->Asking_session,
                    password: old(s)@.stage->Asking_password,
                    one_time: old(s)@.stage->Asking_one_time,
                    request: request_id,
                    deadline: now.ns() + 30_000_000_000,
                },
                ..old(s)@
            })
        },
{
}

/// Another request that comes while a person is asked is told that the device is busy, and the
/// question stands. A broken socket ends it.
pub proof fn law_busy_while_asking(
    s: &mut Managed,
    o: &HostOptions,
    now: Duration,
    recv: Recv,
    a: ServeAction,
)
    requires
        old(s)@.stage is Confirming,
        call_ensures(Managed::serve, (s, o, now, ServeEvent::Received(recv)), a),
    ensures
        match recv {
            Recv::Message(ServerMsg::IncomingRequest { session_id, .. }) => refuses(
                a,
                session_id@,
                "busy"@,
            ) && final(s)@ == old(s)@,
            Recv::Broken => a is Begin && final(s)@ == (Host { stage: Stage::Offline, ..old(s)@ }),
            _ => a is AwaitDecision && final(s)@ == old(s)@,
        },
{
}

/// A host that is not registered registers, and tries again after a pause for as long as that
/// fails; once registered it takes its turns. It ends when it is to end.
pub proof fn law_host_registers(
    s: &mut Managed,
    o: &HostOptions,
    now: Duration,
    e: ServeEvent,
    a: ServeAction,
)
    requires
        old(s)@.stage is Offline,
        call_ensures(Managed::serve, (s, o, now, e), a),
    ensures
        match e {
            ServeEvent::Begin => if o.stop {
                a is Finish && final(s)@.stage is Stopped
            } else {
                a is Register && final(s)@ == (Host { pending: None, ..old(s)@ })
            },
            ServeEvent::Registered(ok) => if ok {
                a is Turn && final(s)@ == (Host { stage: Stage::Idle, ..old(s)@ })
            } else {
                a is Pause && final(s)@ == old(s)@
            },
            _ => true,
        },
{
}

/// What the server says while the host waits for a request, other than a request: a device to wake
/// is woken, a broken socket is given up, anything else leads to the next turn.
pub proof fn law_server_is_heard(
    s: &mut Managed,
    o: &HostOptions,
    now: Duration,
    recv: Recv,
    a: ServeAction,
)
    requires
        old(s)@.stage is Polling,
        call_ensures(Managed::serve, (s, o, now, ServeEvent::Received(recv)), a),
    ensures
        match recv {
            Recv::Message(ServerMsg::IncomingRequest { .. }) => true,
            Recv::Message(ServerMsg::WakeDispatch { mac }) => {
                &&& a matches ServeAction::Wake(m)
                &&& m@ == mac@
                &&& final(s)@ == (Host { stage: Stage::Idle, ..old(s)@ })
            },
            Recv::Broken => a is Begin && final(s)@ == (Host { stage: Stage::Offline, ..old(s)@ }),
            _ => a is Turn && final(s)@ == (Host { stage: Stage::Idle, ..old(s)@ }),
        },
{
}

/// When a session is over, the request that came at its very end is the next one; a code with which
/// it was established is used up, and a new one is made at once; the host stays registered unless
/// the socket is broken.
pub proof fn law_session_is_over(
    s: &mut Managed,
    o: &HostOptions,
    now: Duration,
    established: bool,
    result: Result<Option<Request>, ServeErr>,
    a: ServeAction,
)
    requires
        old(s)@.stage is Serving,
        call_ensures(Managed::serve, (s, o, now, ServeEvent::Over { established, result }), a),
    ensures
        final(s)@.code == old(s)@.code && final(s)@.asked == old(s)@.asked,
        established && old(s)@.stage->Serving_one_time ==> a is MakeCode && final(s)@.burnt,
        !(established && old(s)@.stage->Serving_one_time) ==> !(a is MakeCode) && final(s)@.burnt == old(
            s,
        )@.burnt,
        result == Err::<Option<Request>, ServeErr>(ServeErr::Ws) <==> final(s)@.stage is Offline,
        !(final(s)@.stage is Offline) ==> final(s)@.stage is Idle,
        result matches Ok(Some(r)) ==> {
            &&& final(s)@.pending matches Some(next)
            &&& next.session == r.session_id@
            &&& next.kind == (match r.password_kind {
                Some(k) => Some(k@),
                None => None,
            })
        },
        result matches Ok(None) ==> final(s)@.pending is None,
        result is Err ==> final(s)@.pending == old(s)@.pending,
{
}

/// A new code replaces the old one wherever the host stands, is shown as it is, and is not used up;
/// nothing else changes.
pub proof fn law_new_code_is_shown(
    s: &mut Managed,
    o: &HostOptions,
    now: Duration,
    code: String,
    a: ServeAction,
)
    requires
        call_ensures(Managed::serve, (s, o, now, ServeEvent::Code(code)), a),
    ensures
        a matches ServeAction::Tell(HostEvent::OneTime(c)) && c@ == code@,
        final(s)@ == (Host { code: code@, burnt: false, ..old(s)@ }),
{
}

/// How long the server may take to bring the peers together, in nanoseconds.
pub const READY_NANOS: u128 = 15_000_000_000;

/// How long the exchange of session descriptions may take, in nanoseconds.
pub const OFFER_NANOS: u128 = 20_000_000_000;

/// A request was accepted; the server is to bring the peers together.
#[derive(Debug)]
pub struct AwaitReady {
    pub deadline: Duration,
}

/// What a message means while the server is waited for.
#[derive(Debug)]
pub enum ReadyStep {
    Ready { session_id: String, ice_servers: Option<Json> },
    /// Send this refusal; where that fails the socket is broken.
    Reject(ClientMsg),
    Wait,
    Fail(ServeErr),
}

impl AwaitReady {
    /// Accepts a request: the message to send.
    pub fn start(session_id: &str, now: Duration) -> (r: (AwaitReady, ClientMsg))
        ensures
            r.0.deadline.ns() == time::later(now.ns(), READY_NANOS as int),
            signal::is_accept(r.1, session_id@),
    {
        (
            AwaitReady { deadline: now.plus(Duration { nanos: READY_NANOS }) },
            ClientMsg::connect_accept(session_id),
        )
    }

    /// Whether to give up: the host mode is to end, or time is up.
    pub fn expired(&self, stop: bool, now: Duration) -> (r: bool)
        ensures
            r == (stop || now.ns() > self.deadline.ns()),
    {
        stop || now.exceeds(self.deadline)
    }

    /// Takes what reading gave. Other requests are told that the device is busy.
    pub fn on_recv(&self, recv: Recv) -> (step: ReadyStep)
        ensures
            match recv {
                Recv::Message(ServerMsg::ConnectReady { session_id, ice_servers, .. }) => step == (
                ReadyStep::Ready { session_id, ice_servers }),
                Recv::Message(ServerMsg::IncomingRequest { session_id, .. }) => step matches
                    ReadyStep::Reject(m) && signal::is_reject(m, session_id@, Some("busy"@)),
                Recv::Broken => step == ReadyStep::Fail(ServeErr::Ws),
                _ => step is Wait,
            },
    {
        match recv {
            Recv::Message(ServerMsg::ConnectReady { session_id, ice_servers, .. }) => {
                ReadyStep::Ready { session_id, ice_servers }
            },
            Recv::Message(ServerMsg::IncomingRequest { session_id, .. }) => ReadyStep::Reject(
                ClientMsg::connect_reject(session_id.as_str(), Some("busy")),
            ),
            Recv::Broken => ReadyStep::Fail(ServeErr::Ws),
            _ => ReadyStep::Wait,
        }
    }
}

/// The offering side of the exchange of session descriptions: the managed one.
#[derive(Debug)]
pub struct Offering {
    pub own_fp: String,
    pub peer_fp: String,
    pub answered: bool,
    pub got_cand: bool,
    pub deadline: Duration,
}

/// What a message to the offering side calls for.
#[derive(Debug)]
pub enum OfferStep {
    /// Accept this answer; where that fails the attempt has failed.
    AcceptAnswer { sdp: String },
    /// Add the peer's candidates; permit its address on the relay.
    AddCandidates { cands: Vec<String>, relayed: Option<String> },
    /// Send this refusal; where that fails the socket is broken.
    Reject(ClientMsg),
    Wait,
    Fail(ServeErr),
}

impl Offering {
    /// Starts the exchange with an offer: the two messages to send, offer and own candidates. The
    /// time is counted from `now`, when they are out.
    pub fn start(
        session_id: &str,
        offer: &str,
        cands: &Vec<String>,
        relayed: Option<&str>,
        now: Duration,
    ) -> (r: (Offering, ClientMsg, ClientMsg))
        ensures
            r.0.own_fp@ == connection::fingerprint_of(offer@),
            r.0.peer_fp@.len() == 0,
            !r.0.answered && !r.0.got_cand,
            r.0.deadline.ns() == time::later(now.ns(), OFFER_NANOS as int),
            signal::is_signal(r.1, session_id@, "offer"@, connection::sdp_value(offer@)),
            signal::is_signal(
                r.2,
                session_id@,
                "ice"@,
                connection::ice_value(
                    text::texts(cands@),
                    match relayed {
                        Some(s) => Some(s@),
                        None => None,
                    },
                ),
            ),
    {
        (
            Offering {
                own_fp: connection::fingerprint(offer),
                peer_fp: String::new(),
                answered: false,
                got_cand: false,
                deadline: now.plus(Duration { nanos: OFFER_NANOS }),
            },
            ClientMsg::signal(session_id, "offer", connection::sdp_payload(offer)),
            ClientMsg::signal(session_id, "ice", connection::ice_payload(cands, relayed)),
        )
    }

    /// Whether answer and candidates have both come.
    pub fn complete(&self) -> (r: bool)
        ensures
            r == (self.answered && self.got_cand),
    {
        self.answered && self.got_cand
    }

    /// Whether time is up.
    pub fn expired(&self, now: Duration) -> (r: bool)
        ensures
            r == (now.ns() > self.deadline.ns()),
    {
        now.exceeds(self.deadline)
    }

    /// Takes what reading gave. An answer without a description, or a second one, fails the
    /// attempt; other requests are told that the device is busy.
    pub fn on_recv(&mut self, recv: &Recv) -> (step: OfferStep)
        ensures
            final(self).own_fp == old(self).own_fp,
            final(self).deadline == old(self).deadline,
            match recv {
                Recv::Message(ServerMsg::Signal { kind, payload, .. }) => {
                    if kind@ == "answer"@ {
                        &&& final(self).got_cand == old(self).got_cand
                        &&& match json::str_field(payload@, "sdp"@) {
                            Some(s) => {
                                &&& final(self).answered
                                &&& final(self).peer_fp@ == connection::fingerprint_of(s)
                                &&& if old(self).answered {
                                    step == OfferStep::Fail(ServeErr::Session)
                                } else {
                                    step matches OfferStep::AcceptAnswer { sdp } && sdp@ == s
                                }
                            },
                            None => {
                                &&& step == OfferStep::Fail(ServeErr::Session)
                                &&& *final(self) == *old(self)
                            },
                        }
                    } else if kind@ == "ice"@ {
                        &&& final(self).got_cand
                        &&& final(self).answered == old(self).answered
                        &&& final(self).peer_fp == old(self).peer_fp
                        &&& step matches OfferStep::AddCandidates { cands, relayed }
                        &&& text::texts(cands@) == connection::candidates_in(payload@)
                        &&& text::opt_view(relayed) == json::str_field(payload@, "relayed"@)
                    } else {
                        step is Wait && *final(self) == *old(self)
                    }
                },
                Recv::Message(ServerMsg::IncomingRequest { session_id, .. }) => {
                    &&& step matches OfferStep::Reject(m)
                    &&& signal::is_reject(m, session_id@, Some("busy"@))
                    &&& *final(self) == *old(self)
                },
                Recv::Broken => step == OfferStep::Fail(ServeErr::Ws) && *final(self) == *old(
                    self,
                ),
                _ => step is Wait && *final(self) == *old(self),
            },
    {
        match recv {
            Recv::Message(ServerMsg::Signal { kind, payload, .. }) => {
                if text::same(kind.as_str(), "answer") {
                    match payload.get_str("sdp") {
                        Some(sdp) => {
                            self.peer_fp = connection::fingerprint(sdp.as_str());
                            if self.answered {
                                return OfferStep::Fail(ServeErr::Session);
                            }
                            self.answered = true;
                            OfferStep::AcceptAnswer { sdp }
                        },
                        None => OfferStep::Fail(ServeErr::Session),
                    }
                } else if text::same(kind.as_str(), "ice") {
                    proof {
                        reveal_strlit("answer");
                        reveal_strlit("ice");
                        assert("answer"@.len() != "ice"@.len());
                    }
                    self.got_cand = true;
                    OfferStep::AddCandidates {
                        cands: connection::peer_candidates(payload),
                        relayed: connection::peer_relayed(payload),
                    }
                } else {
                    OfferStep::Wait
                }
            },
            Recv::Message(ServerMsg::IncomingRequest { session_id, .. }) => OfferStep::Reject(
                ClientMsg::connect_reject(session_id.as_str(), Some("busy")),
            ),
            Recv::Broken => OfferStep::Fail(ServeErr::Ws),
            _ => OfferStep::Wait,
        }
    }
}

/// Keeping the signalling socket alive while a session is active.
#[derive(Debug)]
pub struct Pulse {
    /// A request that came when the session had just ended.
    pub tail: Option<Request>,
    pub ws_ok: bool,
    /// No more messages are read.
    pub over: bool,
}

/// What a message calls for while a session is active.
#[derive(Debug)]
pub enum PulseStep {
    /// Send this refusal; report whether it went out.
    Reject(ClientMsg),
    /// Wake the device with this address.
    Wake(String),
    Continue,
}

/// What is left to do when a session has ended.
#[derive(Debug)]
pub struct SessionEnd {
    /// Lock the device.
    pub lock: bool,
    /// A request that came at the very end, or that the socket is broken.
    pub result: Result<Option<Request>, ServeErr>,
}

impl Pulse {
    pub fn new() -> (p: Pulse)
        ensures
            p.tail is None,
            p.ws_ok,
            !p.over,
    {
        Pulse { tail: None, ws_ok: true, over: false }
    }

    /// Whether to go on reading: until the session is done or the host mode is to end.
    pub fn active(&self, done: bool, stop: bool) -> (r: bool)
        ensures
            r == (!self.over && !done && !stop),
    {
        !self.over && !done && !stop
    }

    /// Takes what reading gave. A request is told that the device is busy, unless the session is
    /// done by now: then it is the next one to serve.
    pub fn on_recv(&mut self, recv: Recv, done: bool) -> (step: PulseStep)
        ensures
            match heard(recv) {
                Heard::Incoming(r) => if done {
                    &&& step is Continue
                    &&& final(self).over
                    &&& final(self).ws_ok == old(self).ws_ok
                    &&& final(self).tail matches Some(t) && t@ == r
                } else {
                    &&& step matches PulseStep::Reject(m)
                    &&& signal::is_reject(m, r.session, Some("busy"@))
                    &&& *final(self) == *old(self)
                },
                Heard::Wake(mac) => {
                    &&& step matches PulseStep::Wake(s)
                    &&& s@ == mac
                    &&& *final(self) == *old(self)
                },
                Heard::Other => step is Continue && *final(self) == *old(self),
                Heard::Broken => {
                    &&& step is Continue
                    &&& final(self).over && !final(self).ws_ok
                    &&& final(self).tail == old(self).tail
                },
            },
    {
        match recv {
            Recv::Message(ServerMsg::IncomingRequest { session_id, password_kind, .. }) => {
                if done {
                    self.tail = Some(Request { session_id, password_kind });
                    self.over = true;
                    PulseStep::Continue
                } else {
                    PulseStep::Reject(
                        ClientMsg::connect_reject(session_id.as_str(), Some("busy")),
                    )
                }
            },
            Recv::Message(ServerMsg::WakeDispatch { mac }) => PulseStep::Wake(mac),
            Recv::Broken => {
                self.ws_ok = false;
                self.over = true;
                PulseStep::Continue
            },
            _ => PulseStep::Continue,
        }
    }

    /// Whether a refusal went out.
    pub fn on_sent(&mut self, ok: bool)
        ensures
            final(self).tail == old(self).tail,
            final(self).ws_ok == (old(self).ws_ok && ok),
            final(self).over == (old(self).over || !ok),
    {
        if !ok {
            self.ws_ok = false;
            self.over = true;
        }
    }

    /// The session has ended: whether the device is to be locked now, which the owner's switch alone
    /// decides, and how it ended for the host.
    pub fn end(self, opts: &HostOptions) -> (e: SessionEnd)
        ensures
            e.lock == opts.lock_on_end,
            e.result == (if self.ws_ok {
                Ok(self.tail)
            } else {
                Err(ServeErr::Ws)
            }),
    {
        SessionEnd {
            lock: opts.lock_on_end,
            result: if self.ws_ok {
                Ok(self.tail)
            } else {
                Err(ServeErr::Ws)
            },
        }
    }
}

/// Accepting a request tells the server so, for that session, and gives it fifteen seconds.
pub proof fn law_accepting(
    session_id: &str,
    now: Duration,
    r: (AwaitReady, ClientMsg),
    at: Duration,
    up: bool,
    ended: bool,
)
    requires
        call_ensures(AwaitReady::expired, (&r.0, true, at), ended),
        call_ensures(AwaitReady::start, (session_id, now), r),
        call_ensures(AwaitReady::expired, (&r.0, false, at), up),
        now.ns() + 15_000_000_000 <= u128::MAX,
    ensures
        r.1 matches ClientMsg::ConnectAccept { v, session_id: sid } && v == 1 && sid@ == session_id@,
        up <==> at.ns() - now.ns() > 15_000_000_000,
        ended,
{
}

/// While the server is waited for, its word that the peers are together is taken as it is, another
/// request is told that the device is busy, and only a broken socket fails the attempt.
pub proof fn law_ready_is_heard(w: &AwaitReady, recv: Recv, step: ReadyStep)
    requires
        call_ensures(AwaitReady::on_recv, (w, recv), step),
    ensures
        step is Fail <==> recv is Broken,
        step matches ReadyStep::Fail(e) ==> e == ServeErr::Ws,
        match recv {
            Recv::Message(ServerMsg::ConnectReady { session_id, ice_servers, .. }) => {
                &&& step matches ReadyStep::Ready { session_id: sid, ice_servers: servers }
                &&& sid == session_id && servers == ice_servers
            },
            Recv::Message(ServerMsg::IncomingRequest { session_id, .. }) => {
                &&& step matches ReadyStep::Reject(m)
                &&& refuses(ServeAction::Reject(m), session_id@, "busy"@)
            },
            Recv::Broken => true,
            _ => step is Wait,
        },
{
}

/// An exchange of descriptions is complete once an answer and candidates have come, in either
/// order, and not before; the fingerprint of the peer is that of its answer, and the own one that
/// of the own offer.
pub proof fn law_exchange_completes(
    session: &str,
    offer: &str,
    own: &Vec<String>,
    relayed: Option<&str>,
    now: Duration,
    r: (Offering, ClientMsg, ClientMsg),
    a: &mut Offering,
    first: Recv,
    step_a: OfferStep,
    b: &mut Offering,
    second: Recv,
    step_b: OfferStep,
    done: bool,
)
    requires
        call_ensures(Offering::start, (session, offer, own, relayed, now), r),
        *old(a) == r.0,
        call_ensures(Offering::on_recv, (a, &first), step_a),
        *old(b) == *final(a),
        call_ensures(Offering::on_recv, (b, &second), step_b),
        call_ensures(Offering::complete, (final(b),), done),
    ensures
        done <==> (step_a is AcceptAnswer && step_b is AddCandidates) || (step_a is AddCandidates
            && step_b is AcceptAnswer),
        final(b).own_fp@ == connection::fingerprint_of(offer@),
        step_a matches OfferStep::AcceptAnswer { sdp } ==> final(a).peer_fp@
            == connection::fingerprint_of(sdp@),
        step_b matches OfferStep::AcceptAnswer { sdp } ==> final(b).peer_fp@
            == connection::fingerprint_of(sdp@),
{
}

/// What a message to the offering side means: an answer is accepted as it is written, once;
/// candidates are taken as they are written; another request is told that the device is busy; a
/// broken socket fails the attempt.
pub proof fn law_offering_hears(o: &mut Offering, recv: Recv, step: OfferStep)
    requires
        call_ensures(Offering::on_recv, (o, &recv), step),
    ensures
        match recv {
            Recv::Message(ServerMsg::Signal { kind, payload, .. }) => {
                &&& kind@ == "answer"@ ==> match json::str_field(payload@, "sdp"@) {
                    Some(t) if !old(o).answered => {
                        &&& step matches OfferStep::AcceptAnswer { sdp }
                        &&& sdp@ == t
                    },
                    _ => step == OfferStep::Fail(ServeErr::Session),
                }
                &&& kind@ == "ice"@ ==> {
                    &&& step matches OfferStep::AddCandidates { cands, relayed }
                    &&& text::texts(cands@) == connection::candidates_in(payload@)
                    &&& match relayed {
                        Some(t) => json::str_field(payload@, "relayed"@) == Some(t@),
                        None => json::str_field(payload@, "relayed"@) is None,
                    }
                }
                &&& step is Wait <==> kind@ != "answer"@ && kind@ != "ice"@
            },
            Recv::Message(ServerMsg::IncomingRequest { session_id, .. }) => {
                &&& step matches OfferStep::Reject(m)
                &&& refuses(ServeAction::Reject(m), session_id@, "busy"@)
            },
            Recv::Broken => step == OfferStep::Fail(ServeErr::Ws),
            _ => step is Wait,
        },
        final(o).answered || final(o).got_cand ==> old(o).answered || old(o).got_cand
            || step is AcceptAnswer || step is AddCandidates,
        old(o).answered ==> final(o).answered,
        old(o).got_cand ==> final(o).got_cand,
{
    reveal_strlit("answer");
    reveal_strlit("ice");
    assert("answer"@.len() != "ice"@.len());
}

/// The offer goes out with the own candidates, both to the session's peer, and has twenty seconds
/// to be answered.
pub proof fn law_offer_goes_out(
    session: &str,
    offer: &str,
    own: &Vec<String>,
    relayed: Option<&str>,
    now: Duration,
    r: (Offering, ClientMsg, ClientMsg),
    at: Duration,
    up: bool,
)
    requires
        call_ensures(Offering::start, (session, offer, own, relayed, now), r),
        call_ensures(Offering::expired, (&r.0, at), up),
        now.ns() + 20_000_000_000 <= u128::MAX,
    ensures
        r.1 matches ClientMsg::Signal { session_id, kind, payload, .. } && session_id@ == session@
            && kind@ == "offer"@ && json::str_field(payload@, "sdp"@) == Some(offer@),
        r.2 matches ClientMsg::Signal { session_id, kind, payload, .. } && session_id@ == session@
            && kind@ == "ice"@ && connection::candidates_in(payload@) == text::texts(own@)
            && json::str_field(payload@, "relayed"@) == (match relayed {
            Some(t) => Some(t@),
            None => None,
        }),
        up <==> at.ns() - now.ns() > 20_000_000_000,
{
    connection::law_payload_roundtrip(
        offer@,
        text::texts(own@),
        match relayed {
            Some(t) => Some(t@),
            None => None,
        },
    );
}

/// While a session is active the device stays reachable: a request is told that the device is busy,
/// or is kept as the next one when the session is done; a device to wake is woken. Reading goes on
/// until the session is done, the host mode is to end, a next request was kept or the socket broke.
pub proof fn law_pulse(p: &mut Pulse, recv: Recv, done: bool, step: PulseStep, stop: bool, on: bool)
    requires
        call_ensures(Pulse::on_recv, (p, recv, done), step),
        call_ensures(Pulse::active, (final(p), done, stop), on),
    ensures
        match recv {
            Recv::Message(ServerMsg::IncomingRequest { session_id, password_kind, .. }) => if done {
                &&& step is Continue
                &&& final(p).tail matches Some(next)
                &&& next.session_id@ == session_id@
                &&& text::opt_view(next.password_kind) == text::opt_view(password_kind)
            } else {
                &&& step matches PulseStep::Reject(m)
                &&& refuses(ServeAction::Reject(m), session_id@, "busy"@)
                &&& *final(p) == *old(p)
            },
            Recv::Message(ServerMsg::WakeDispatch { mac }) => {
                &&& step matches PulseStep::Wake(m)
                &&& m@ == mac@
                &&& *final(p) == *old(p)
            },
            Recv::Broken => step is Continue && !final(p).ws_ok && !on && final(p).tail == old(p).tail,
            _ => step is Continue && *final(p) == *old(p),
        },
        on ==> !done && !stop && !old(p).over,
        !done && !stop && !old(p).over && !(recv is Broken) ==> on,
        recv is Broken || final(p).ws_ok == old(p).ws_ok,
{
}

/// What is left of a session: the owner's switch alone decides whether the device is locked; the
/// request that was kept is handed on unless the socket is broken, which a refusal that could not
/// be sent shows too.
pub proof fn law_pulse_end(p: &mut Pulse, ok: bool, o: &HostOptions, e: SessionEnd)
    requires
        call_ensures(Pulse::on_sent, (p, ok), ()),
        call_ensures(Pulse::end, (*final(p), o), e),
    ensures
        e.lock <==> o.lock_on_end,
        e.result == Err::<Option<Request>, ServeErr>(ServeErr::Ws) <==> !ok || !old(p).ws_ok,
        ok && old(p).ws_ok ==> e.result == Ok::<Option<Request>, ServeErr>(old(p).tail),
{
}

/// A new host shows its first code, and is not registered yet.
pub proof fn law_host_starts(code: String, r: (Managed, HostEvent), n: u64)
    requires
        call_ensures(Managed::new, (code,), r),
        call_ensures(Managed::asked, (&r.0,), n),
    ensures
        r.1 matches HostEvent::OneTime(c) && c@ == code@,
        r.0@.code == code@ && !r.0@.burnt && r.0@.stage is Offline && r.0@.pending is None,
        n == 0,
{
}

/// A refusal that went out leads to the next turn, or back to the question that stands; one that
/// could not be sent shows that the socket is broken.
pub proof fn law_refusal_is_out(
    s: &mut Managed,
    o: &HostOptions,
    now: Duration,
    ok: bool,
    a: ServeAction,
)
    requires
        old(s)@.stage is Rejecting || old(s)@.stage is Confirming,
        call_ensures(Managed::serve, (s, o, now, ServeEvent::Sent(ok)), a),
    ensures
        !ok ==> a is Begin && final(s)@ == (Host { stage: Stage::Offline, ..old(s)@ }),
        ok && old(s)@.stage is Rejecting ==> a is Turn && final(s)@ == (Host {
            stage: Stage::Idle,
            ..old(s)@
        }),
        ok && old(s)@.stage is Confirming ==> a is AwaitDecision && final(s)@ == old(s)@,
{
}

/// Whether a host at this stage waits for an event of this kind.
pub open spec fn belongs(stage: Stage, e: ServeEvent) -> bool {
    match e {
        ServeEvent::Begin => stage is Offline,
        ServeEvent::Registered(_) => stage is Offline,
        ServeEvent::Turn => stage is Idle || stage is Offline,
        ServeEvent::Received(_) => stage is Polling || stage is Confirming,
        ServeEvent::Sent(_) => stage is Rejecting || stage is Confirming,
        ServeEvent::Forgotten => stage is Asking,
        ServeEvent::Decision(_) => stage is Confirming,
        ServeEvent::Over { .. } => stage is Serving,
        ServeEvent::Code(_) => true,
    }
}

/// What does not belong to where the host stands changes nothing and calls for nothing; what does
/// belong there always calls for something.
pub proof fn law_strays_change_nothing(
    s: &mut Managed,
    o: &HostOptions,
    now: Duration,
    e: ServeEvent,
    a: ServeAction,
)
    requires
        call_ensures(Managed::serve, (s, o, now, e), a),
    ensures
        belongs(old(s)@.stage, e) <==> !(a is Nothing),
        a is Nothing ==> final(s)@ == old(s)@,
{
}

/// While a session has just begun, reading goes on; nothing was kept, and the socket is fine.
pub proof fn law_pulse_begins(p: Pulse, on: bool, o: &HostOptions, e: SessionEnd)
    requires
        call_ensures(Pulse::new, (), p),
        call_ensures(Pulse::active, (&p, false, false), on),
        call_ensures(Pulse::end, (p, o), e),
    ensures
        on,
        e.result == Ok::<Option<Request>, ServeErr>(None),
{
}

} // verus!
