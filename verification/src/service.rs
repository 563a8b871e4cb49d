//! The system service: keeping one worker in the active session, and the worker's streaming of the
//! secure desktop.

use crate::bytes;
use crate::capture::MonitorInfo;
use crate::connection;
use crate::connection::{SetupError, SESSION_BYE};
use crate::controller;
use crate::crypto;
use crate::crypto::StreamOpener;
use crate::encode::EncoderConfig;
use crate::host::Recv;
use crate::input;
use crate::input::{InputEvent, Injection};
use crate::json;
use crate::managed;
use crate::managed::Cleanup;
use crate::media;
use crate::outbox;
use crate::outbox::{Outbox, Outgoing};
use crate::signal;
use crate::signal::{ClientMsg, ServerMsg};
use crate::text;
use crate::time;
use crate::time::Duration;
use vstd::prelude::*;
use vstd::string::*;

verus! {

/// The service's name.
pub const SERVICE_NAME: &'static str = "ZortilWatch";

/// Stands for no active session.
pub const NO_SESSION: u32 = 0xFFFF_FFFF;

/// What the program was started for.
#[derive(Debug)]
pub enum Mode {
    Install,
    Uninstall,
    Worker,
    /// By the system, as a service.
    Service,
    Unknown(String),
}

/// What the program was started for, by its first argument.
pub fn mode_of(arg: &str) -> (m: Mode)
    ensures
        if arg@ == "install"@ {
            m is Install
        } else if arg@ == "uninstall"@ {
            m is Uninstall
        } else if arg@ == "--worker"@ {
            m is Worker
        } else if arg@.len() == 0 {
            m is Service
        } else {
            m matches Mode::Unknown(s) && s@ == arg@
        },
{
    proof {
        reveal_strlit("install");
        reveal_strlit("uninstall");
        reveal_strlit("--worker");
    }
    if text::same(arg, "install") {
        Mode::Install
    } else if text::same(arg, "uninstall") {
        Mode::Uninstall
    } else if text::same(arg, "--worker") {
        Mode::Worker
    } else if arg.is_empty() {
        Mode::Service
    } else {
        Mode::Unknown(arg.to_owned())
    }
}

/// A line of the service's log, with the seconds since the epoch.
pub fn log(seconds: u64, msg: &str) -> (line: String)
    ensures
        line@ == "["@ + text::decimal(seconds as nat) + "] "@ + msg@,
{
    let digits: String = text::to_decimal(seconds);
    let mut s: String = text::joined("[", digits.as_str());
    s.append("] ");
    s.append(msg);
    s
}

/// The command that starts the worker.
pub fn worker_command(exe: &str) -> (s: String)
    ensures
        s@ == text::command_line(exe@, "--worker"@),
{
    text::quoted_command(exe, "--worker")
}

/// What to do about the worker.
#[derive(Clone, Copy, Debug, PartialEq, Eq, Structural)]
pub enum Supervision {
    Leave,
    /// Start one in this session.
    Start(u32),
    /// End the old one, and start one in this session.
    Replace(u32),
    /// End it.
    End,
}

/// What to do about the worker, given the active session, the session of the worker, if there is
/// one, and whether it lives.
pub open spec fn supervision(session: u32, worker: Option<u32>, alive: bool) -> Supervision {
    if session == NO_SESSION {
        if worker is Some {
            Supervision::End
        } else {
            Supervision::Leave
        }
    } else {
        match worker {
            None => Supervision::Start(session),
            Some(s) => if alive && s == session {
                Supervision::Leave
            } else {
                Supervision::Replace(session)
            },
        }
    }
}

pub fn supervise(session: u32, worker: Option<u32>, alive: bool) -> (r: Supervision)
    ensures
        r == supervision(session, worker, alive),
{
    if session == NO_SESSION {
        if worker.is_some() {
            Supervision::End
        } else {
            Supervision::Leave
        }
    } else {
        match worker {
            None => Supervision::Start(session),
            Some(s) => if alive && s == session {
                Supervision::Leave
            } else {
                Supervision::Replace(session)
            },
        }
    }
}

/// The session of the worker after a step, given whether a start succeeds.
pub open spec fn worker_after(worker: Option<u32>, s: Supervision, started: bool) -> Option<u32> {
    match s {
        Supervision::Leave => worker,
        Supervision::Start(n) => if started {
            Some(n)
        } else {
            None
        },
        Supervision::Replace(n) => if started {
            Some(n)
        } else {
            None
        },
        Supervision::End => None,
    }
}

/// After a step there is a worker in the active session or none at all; without an active session
/// there is none. A worker is started only where none is left running, and a living one in the
/// right session is left alone.
pub proof fn law_one_worker(session: u32, worker: Option<u32>, alive: bool, started: bool)
    ensures
        ({
            let after = worker_after(worker, supervision(session, worker, alive), started);
            &&& after is None || after == Some(session)
            &&& session == NO_SESSION ==> after is None
            &&& session != NO_SESSION && started ==> after == Some(session)
            &&& supervision(session, worker, alive) is Start ==> worker is None
            &&& worker == Some(session) && alive && session != NO_SESSION ==> supervision(
                session,
                worker,
                alive,
            ) == Supervision::Leave
        }),
{
}

/// What the worker needs to be reached.
#[derive(Debug)]
pub struct DeviceConfig {
    pub server_base: String,
    pub device_id: String,
    pub client_secret: String,
    /// The owner's password.
    pub password: String,
}

/// A configuration's text without a byte order mark.
pub fn config_text(raw: &str) -> (s: String)
    ensures
        s@ == text::without_start(raw@, '\u{feff}'),
{
    text::trim_start_matches(raw, '\u{feff}')
}

/// How many of the bytes are not zero.
pub open spec fn nonzero(s: Seq<u8>) -> nat
    decreases s.len(),
{
    if s.len() == 0 {
        0
    } else {
        nonzero(s.drop_last()) + (if s.last() != 0 {
            1nat
        } else {
            0nat
        })
    }
}

/// A pixel as text: its four bytes.
pub open spec fn pixel_text(s: Seq<u8>, at: int) -> Seq<char> {
    "("@ + text::decimal(s[at] as nat) + ","@ + text::decimal(s[at + 1] as nat) + ","@
        + text::decimal(s[at + 2] as nat) + ","@ + text::decimal(s[at + 3] as nat) + ")"@
}

fn push_pixel(out: &mut String, row: &[u8], at: usize)
    requires
        at + 4 <= row@.len(),
    ensures
        final(out)@ == old(out)@ + pixel_text(row@, at as int),
{
    let a: String = text::to_decimal(row[at] as u64);
    let b: String = text::to_decimal(row[at + 1] as u64);
    let c: String = text::to_decimal(row[at + 2] as u64);
    let d: String = text::to_decimal(row[at + 3] as u64);
    out.append("(");
    out.append(a.as_str());
    out.append(",");
    out.append(b.as_str());
    out.append(",");
    out.append(c.as_str());
    out.append(",");
    out.append(d.as_str());
    out.append(")");
    proof {
        assert(out@ =~= old(out)@ + pixel_text(row@, at as int));
    }
}

/// What the middle row of a frame shows: how many of its bytes are not zero, how many there are,
/// and the pixels at a quarter, a half and three quarters of the width.
pub fn frame_stats(row: &[u8], width: u32) -> (r: (u32, u32, String))
    requires
        1 <= width <= 0x3FFF_FFFF,
        row@.len() == width * 4,
    ensures
        r.0 == nonzero(row@),
        r.1 == width * 4,
        r.2@ == "x¼="@ + pixel_text(row@, (width / 4) * 4) + " x½="@ + pixel_text(
            row@,
            (width / 2) * 4,
        ) + " x¾="@ + pixel_text(row@, (width * 3 / 4) * 4),
{
    let total: u32 = width * 4;
    let mut count: u32 = 0;
    let mut i: usize = 0;
    proof {
        assert(row@.take(0) =~= Seq::empty());
    }
    while i < row.len()
        invariant
            row@.len() == total,
            i <= row@.len(),
            count == nonzero(row@.take(i as int)),
            count <= i,
        decreases row@.len() - i,
    {
        proof {
            assert(row@.take(i + 1).drop_last() =~= row@.take(i as int));
            assert(row@.take(i + 1).last() == row@[i as int]);
        }
        if row[i] != 0 {
            count += 1;
        }
        i += 1;
    }
    proof {
        assert(row@.take(i as int) =~= row@);
    }
    let mut s: String = "x¼=".to_owned();
    push_pixel(&mut s, row, (width / 4) as usize * 4);
    s.append(" x½=");
    push_pixel(&mut s, row, (width / 2) as usize * 4);
    s.append(" x¾=");
    push_pixel(&mut s, row, (width * 3 / 4) as usize * 4);
    (count, total, s)
}

/// How many frames are looked at on a desktop to see whether it shows anything.
pub const PROBES: u32 = 30;

/// Checking, once on each desktop, that the captured frames are not blank.
#[derive(Debug)]
pub struct Probe {
    /// Frames looked at on this desktop.
    pub probes: u32,
    /// The desktop on which content was seen.
    pub proved_on: String,
}

/// What looking at a frame has shown.
#[derive(Clone, Copy, Debug, PartialEq, Eq, Structural)]
pub enum ProbeResult {
    /// The desktop shows something.
    Proved,
    /// All frames looked at were blank.
    Blank,
    /// Not yet known.
    Unknown,
}

impl Probe {
    pub fn new() -> (p: Probe)
        ensures
            p.probes == 0,
            p.proved_on@.len() == 0,
    {
        Probe { probes: 0, proved_on: String::new() }
    }

    /// The desktop has changed.
    pub fn on_switch(&mut self)
        ensures
            final(self).probes == 0,
            final(self).proved_on == old(self).proved_on,
    {
        self.probes = 0;
    }

    /// Whether to look at this frame: on a desktop not yet proved, a frame that was really drawn,
    /// while there are tries left.
    pub fn wanted(&mut self, desktop: &str, drawn: bool) -> (r: bool)
        ensures
            r == (old(self).proved_on@ != desktop@ && drawn && old(self).probes < PROBES),
            final(self).proved_on == old(self).proved_on,
            final(self).probes == old(self).probes + (if r {
                1int
            } else {
                0int
            }),
    {
        if !text::same(self.proved_on.as_str(), desktop) && drawn && self.probes < PROBES {
            self.probes = self.probes + 1;
            true
        } else {
            false
        }
    }

    /// Takes the number of bytes that were not zero.
    pub fn on_stats(&mut self, desktop: &str, nonzero: u32) -> (r: ProbeResult)
        ensures
            final(self).probes == old(self).probes,
            r == (if nonzero > 0 {
                ProbeResult::Proved
            } else if old(self).probes == PROBES {
                ProbeResult::Blank
            } else {
                ProbeResult::Unknown
            }),
            final(self).proved_on@ == (if nonzero > 0 {
                desktop@
            } else {
                old(self).proved_on@
            }),
    {
        if nonzero > 0 {
            self.proved_on = desktop.to_owned();
            ProbeResult::Proved
        } else if self.probes == PROBES {
            ProbeResult::Blank
        } else {
            ProbeResult::Unknown
        }
    }
}

/// Why the worker's session ended early.
#[derive(Debug)]
pub enum StreamErr {
    /// The signalling socket is broken.
    Ws,
    Failed(String),
}

/// What the worker does while no session is active.
#[derive(Debug)]
pub enum WorkerStep {
    /// Accept this request and hold the session.
    Serve(String),
    Wait,
    /// Register anew.
    Reconnect,
}

/// Takes what reading gave while no session is active: every request is taken up.
pub fn worker_step(recv: Recv) -> (step: WorkerStep)
    ensures
        match recv {
            Recv::Message(ServerMsg::IncomingRequest { session_id, .. }) => step
                == WorkerStep::Serve(session_id),
            Recv::Broken => step is Reconnect,
            _ => step is Wait,
        },
{
    match recv {
        Recv::Message(ServerMsg::IncomingRequest { session_id, .. }) => WorkerStep::Serve(
            session_id,
        ),
        Recv::Broken => WorkerStep::Reconnect,
        _ => WorkerStep::Wait,
    }
}

/// What the worker does after a session: a broken socket has it register anew, any other end has it
/// wait for the next request.
pub fn after_session(result: &Result<(), StreamErr>) -> (step: WorkerStep)
    ensures
        match result {
            Err(StreamErr::Ws) => step is Reconnect,
            _ => step is Wait,
        },
{
    match result {
        Err(StreamErr::Ws) => WorkerStep::Reconnect,
        _ => WorkerStep::Wait,
    }
}

/// What the worker says of a handshake that did not come about.
pub fn setup_error_text(e: SetupError) -> (s: &'static str)
    ensures
        s@ == (if e == SetupError::Refused {
            "PAKE FAILED"@
        } else {
            e.text()
        }),
{
    match e {
        SetupError::Refused => "PAKE FAILED",
        other => other.message(),
    }
}

/// The worker's exchange of session descriptions.
#[derive(Debug)]
pub struct StreamOffer {
    pub own_fp: String,
    pub peer_fp: String,
    pub answered: bool,
    pub deadline: Duration,
}

/// How long the answer may take, and how long candidates are taken after it, in nanoseconds.
pub const ANSWER_NANOS: u128 = 20_000_000_000;

pub const TRICKLE_NANOS: u128 = 2_000_000_000;

/// Where the exchange stands.
#[derive(Debug)]
pub enum StreamState {
    Going,
    /// The answer has come, and candidates were waited for.
    Complete,
    Failed(StreamErr),
}

/// What a message calls for.
#[derive(Debug)]
pub enum StreamStep {
    /// Accept this answer, and report back.
    AcceptAnswer { sdp: String },
    AddCandidates { cands: Vec<String> },
    /// Send this refusal, whether or not that works.
    Reject(ClientMsg),
    Wait,
    Fail(StreamErr),
}

/// The payload that carries one candidate.
pub open spec fn one_candidate(cand: Seq<char>) -> json::Value {
    json::Value::Obj(seq![("cands"@, json::text_array(seq![cand]))])
}

impl StreamOffer {
    /// Starts the exchange with an offer and the own candidate: the two messages to send.
    pub fn start(session_id: &str, offer: &str, cand: &str, now: Duration) -> (r: (
        StreamOffer,
        ClientMsg,
        ClientMsg,
    ))
        ensures
            r.0.own_fp@ == connection::fingerprint_of(offer@),
            r.0.peer_fp@.len() == 0,
            !r.0.answered,
            r.0.deadline.ns() == time::later(now.ns(), ANSWER_NANOS as int),
            signal::is_signal(r.1, session_id@, "offer"@, connection::sdp_value(offer@)),
            signal::is_signal(r.2, session_id@, "ice"@, one_candidate(cand@)),
    {
        let mut cands: Vec<String> = Vec::new();
        cands.push(cand.to_owned());
        let payload = json::Json::empty().with("cands", json::Json::texts(&cands));
        proof {
            assert(text::texts(cands@) =~= seq![cand@]);
            assert(payload@->Obj_0 =~= one_candidate(cand@)->Obj_0);
        }
        (
            StreamOffer {
                own_fp: connection::fingerprint(offer),
                peer_fp: String::new(),
                answered: false,
                deadline: now.plus(Duration { nanos: ANSWER_NANOS }),
            },
            ClientMsg::signal(session_id, "offer", connection::sdp_payload(offer)),
            ClientMsg::signal(session_id, "ice", payload),
        )
    }

    /// Where the exchange stands now: when time is up it is complete if the answer has come.
    pub fn state(&self, now: Duration) -> (s: StreamState)
        ensures
            if now.ns() > self.deadline.ns() {
                if self.answered {
                    s is Complete
                } else {
                    s matches StreamState::Failed(StreamErr::Failed(e)) && e@ == "answer timeout"@
                }
            } else {
                s is Going
            },
    {
        if now.exceeds(self.deadline) {
            if self.answered {
                StreamState::Complete
            } else {
                StreamState::Failed(StreamErr::Failed("answer timeout".to_owned()))
            }
        } else {
            StreamState::Going
        }
    }

    /// Takes what reading gave.
    pub fn on_recv(&mut self, recv: &Recv) -> (step: StreamStep)
        ensures
            final(self).own_fp == old(self).own_fp,
            final(self).answered == old(self).answered,
            final(self).deadline == old(self).deadline,
            match recv {
                Recv::Message(ServerMsg::Signal { kind, payload, .. }) => {
                    if kind@ == "answer"@ {
                        match json::str_field(payload@, "sdp"@) {
                            Some(s) => {
                                &&& final(self).peer_fp@ == connection::fingerprint_of(s)
                                &&& if old(self).answered {
                                    step matches StreamStep::Fail(StreamErr::Failed(e)) && e@
                                        == "dbl answer"@
                                } else {
                                    step matches StreamStep::AcceptAnswer { sdp } && sdp@ == s
                                }
                            },
                            None => {
                                &&& step matches StreamStep::Fail(StreamErr::Failed(e))
                                &&& e@ == "no sdp"@
                                &&& final(self).peer_fp == old(self).peer_fp
                            },
                        }
                    } else if kind@ == "ice"@ {
                        &&& step matches StreamStep::AddCandidates { cands }
                        &&& text::texts(cands@) == connection::candidates_in(payload@)
                        &&& final(self).peer_fp == old(self).peer_fp
                    } else {
                        step is Wait && final(self).peer_fp == old(self).peer_fp
                    }
                },
                Recv::Message(ServerMsg::IncomingRequest { session_id, .. }) => {
                    &&& step matches StreamStep::Reject(m)
                    &&& signal::is_reject(m, session_id@, Some("busy"@))
                    &&& final(self).peer_fp == old(self).peer_fp
                },
                Recv::Broken => {
                    &&& step matches StreamStep::Fail(StreamErr::Ws)
                    &&& final(self).peer_fp == old(self).peer_fp
                },
                _ => step is Wait && final(self).peer_fp == old(self).peer_fp,
            },
    {
        match recv {
            Recv::Message(ServerMsg::Signal { kind, payload, .. }) => {
                if text::same(kind.as_str(), "answer") {
                    match payload.get_str("sdp") {
                        Some(sdp) => {
                            self.peer_fp = connection::fingerprint(sdp.as_str());
                            if self.answered {
                                return StreamStep::Fail(
                                    StreamErr::Failed("dbl answer".to_owned()),
                                );
                            }
                            StreamStep::AcceptAnswer { sdp }
                        },
                        None => StreamStep::Fail(StreamErr::Failed("no sdp".to_owned())),
                    }
                } else if text::same(kind.as_str(), "ice") {
                    proof {
                        reveal_strlit("answer");
                        reveal_strlit("ice");
                        assert("answer"@.len() != "ice"@.len());
                    }
                    StreamStep::AddCandidates { cands: connection::peer_candidates(payload) }
                } else {
                    StreamStep::Wait
                }
            },
            Recv::Message(ServerMsg::IncomingRequest { session_id, .. }) => StreamStep::Reject(
                ClientMsg::connect_reject(session_id.as_str(), Some("busy")),
            ),
            Recv::Broken => StreamStep::Fail(StreamErr::Ws),
            _ => StreamStep::Wait,
        }
    }

    /// The answer was accepted: candidates are taken for a while longer.
    pub fn on_accepted(&mut self, now: Duration)
        ensures
            final(self).answered,
            final(self).own_fp == old(self).own_fp,
            final(self).peer_fp == old(self).peer_fp,
            final(self).deadline.ns() == time::later(now.ns(), TRICKLE_NANOS as int),
    {
        self.answered = true;
        self.deadline = now.plus(Duration { nanos: TRICKLE_NANOS });
    }
}

/// The least time between two frames, and between two bindings of the input to the desktop, in
/// nanoseconds.
pub const STREAM_FRAME_NANOS: u128 = 33_000_000;

pub const REBIND_NANOS: u128 = 200_000_000;

/// The state of the worker's session.
#[verifier::ext_equal]
pub struct Stream {
    pub key_in: Seq<u8>,
    pub key_out: Seq<u8>,
    pub counter: u64,
    pub seq: u32,
    pub queue: Seq<Seq<u8>>,
    pub encoder: bool,
    pub encoded_at: int,
    pub rebound_at: int,
    pub monitor: u32,
    pub injected: u64,
    pub blanked: bool,
    pub locked: bool,
}

/// What to do about an event.
#[derive(Debug)]
pub enum StreamAction {
    Nothing,
    /// Capture this monitor, and queue the list of monitors.
    SwitchMonitor(u32),
    ShowBlank,
    HideBlank,
    /// Lock or free mouse and keyboard, and report whether it worked.
    BlockInput(bool),
    /// Inject, on the active monitor where it is known; say so in the log when it is due.
    Inject { what: Vec<Injection>, report: bool },
}

/// The state after a message was sealed, cut into pieces and queued.
pub open spec fn streamed(m: Stream, plain: Seq<u8>) -> Stream {
    let before = Outgoing { key: m.key_out, counter: m.counter, seq: m.seq, queue: m.queue };
    let after = outbox::with_message(before, plain);
    Stream { counter: after.counter, seq: after.seq, queue: after.queue, ..m }
}

/// The state after an event.
pub open spec fn after_stream_event(m: Stream, e: InputEvent) -> Stream {
    match e {
        InputEvent::Monitor { index } => Stream { monitor: index, encoder: false, ..m },
        InputEvent::Blank { enabled } => Stream { blanked: enabled, ..m },
        InputEvent::InputLock { .. } => m,
        _ => Stream { injected: (m.injected + 1) as u64, ..m },
    }
}

/// What an event calls for.
pub open spec fn stream_action_fits(m: Stream, e: InputEvent, a: StreamAction) -> bool {
    match e {
        InputEvent::Monitor { index } => a == StreamAction::SwitchMonitor(index),
        InputEvent::Blank { enabled } => if enabled && !m.blanked {
            a is ShowBlank
        } else if !enabled && m.blanked {
            a is HideBlank
        } else {
            a is Nothing
        },
        InputEvent::InputLock { enabled } => a == StreamAction::BlockInput(enabled),
        _ => {
            &&& a matches StreamAction::Inject { what, report }
            &&& what@ == input::injections(e)
            &&& report == (m.injected == 0 || (m.injected + 1) % 200 == 0)
        },
    }
}

/// What a message from the channel holds for the worker.
#[derive(Debug)]
pub enum StreamInbound {
    /// The controller has ended the session.
    Bye,
    /// Not sealed under the stream's key.
    Dropped,
    /// An event to decode.
    Event(Vec<u8>),
}

/// The worker's side of a session.
pub struct StreamSession {
    outbox: Outbox,
    opener: StreamOpener,
    encoder: bool,
    encoded_at: Duration,
    rebound_at: Duration,
    monitor: u32,
    injected: u64,
    blanked: bool,
    locked: bool,
}

impl View for StreamSession {
    type V = Stream;

    closed spec fn view(&self) -> Stream {
        Stream {
            key_in: self.opener.key(),
            key_out: self.outbox@.key,
            counter: self.outbox@.counter,
            seq: self.outbox@.seq,
            queue: self.outbox@.queue,
            encoder: self.encoder,
            encoded_at: self.encoded_at.ns(),
            rebound_at: self.rebound_at.ns(),
            monitor: self.monitor,
            injected: self.injected,
            blanked: self.blanked,
            locked: self.locked,
        }
    }
}

impl StreamSession {
    pub closed spec fn wf(&self) -> bool {
        self.outbox.wf()
    }

    /// A session with this key, at a time at least a second after the clock's start.
    pub fn new(key: &[u8; 32], now: Duration) -> (s: StreamSession)
        requires
            now.ns() >= 1_000_000_000,
        ensures
            s.wf(),
            s@ == (Stream {
                key_in: crypto::stream_key(key@, crypto::STREAM_LABEL_INPUT_C2H.spec_bytes()),
                key_out: crypto::stream_key(key@, crypto::STREAM_LABEL_MEDIA_H2C.spec_bytes()),
                counter: 0,
                seq: 0,
                queue: Seq::empty(),
                encoder: false,
                encoded_at: now.ns() - 1_000_000_000,
                rebound_at: now.ns() - 1_000_000_000,
                monitor: 0,
                injected: 0,
                blanked: false,
                locked: false,
            }),
    {
        let before = Duration { nanos: now.nanos - 1_000_000_000 };
        StreamSession {
            outbox: Outbox::new(key, crypto::STREAM_LABEL_MEDIA_H2C.as_bytes()),
            opener: StreamOpener::new(key, crypto::STREAM_LABEL_INPUT_C2H.as_bytes()),
            encoder: false,
            encoded_at: before,
            rebound_at: before,
            monitor: 0,
            injected: 0,
            blanked: false,
            locked: false,
        }
    }

    /// How many messages were sealed so far.
    pub fn sealed(&self) -> (n: u64)
        ensures
            n == self@.counter,
    {
        self.outbox.sealed()
    }

    /// Seals a message, cuts it into pieces and queues them. The controller's side delivers it
    /// whole, whatever it received before.
    pub fn queue_message(&mut self, plain: &[u8])
        requires
            old(self).wf(),
            old(self)@.counter < u64::MAX,
            plain@.len() < crypto::SEAL_LIMIT,
        ensures
            final(self).wf(),
            final(self)@ == streamed(old(self)@, plain@),
            plain@.len() + 28 <= 65_535 * 16_384 ==> forall|a: media::Assembly|
                (#[trigger] controller::deliver(
                    old(self)@.key_out,
                    a,
                    final(self)@.queue.skip(old(self)@.queue.len() as int),
                )).frames == seq![plain@],
    {
        self.outbox.queue_message(plain);
    }

    /// Whether to bind the input to the active desktop before messages that have come are handled.
    pub fn rebind_due(&mut self, waiting: usize, now: Duration) -> (due: bool)
        requires
            old(self).wf(),
        ensures
            final(self).wf(),
            due == (waiting > 0 && time::elapsed(now.ns(), old(self)@.rebound_at) >= REBIND_NANOS),
            final(self)@ == (if due {
                Stream { rebound_at: now.ns(), ..old(self)@ }
            } else {
                old(self)@
            }),
    {
        if waiting > 0 && now.since(self.rebound_at).at_least(Duration { nanos: REBIND_NANOS }) {
            self.rebound_at = now;
            true
        } else {
            false
        }
    }

    /// What a message from the channel holds.
    pub fn on_raw(&self, raw: &[u8]) -> (r: StreamInbound)
        ensures
            if raw@ == SESSION_BYE.spec_bytes() {
                r is Bye
            } else {
                match crypto::opened_message(self@.key_in, raw@) {
                    Some(plain) => r matches StreamInbound::Event(p) && p@ == plain,
                    None => r is Dropped,
                }
            },
    {
        if bytes::same_bytes(raw, SESSION_BYE.as_bytes()) {
            return StreamInbound::Bye;
        }
        match self.opener.open(raw) {
            Ok(plain) => StreamInbound::Event(plain),
            Err(_) => StreamInbound::Dropped,
        }
    }

    /// Takes an event from the controller; says what it calls for.
    pub fn on_event(&mut self, event: InputEvent) -> (a: StreamAction)
        requires
            old(self).wf(),
            old(self)@.injected < u64::MAX,
        ensures
            final(self).wf(),
            final(self)@ == after_stream_event(old(self)@, event),
            stream_action_fits(old(self)@, event, a),
    {
        match event {
            InputEvent::Monitor { index } => {
                self.monitor = index;
                self.encoder = false;
                StreamAction::SwitchMonitor(index)
            },
            InputEvent::Blank { enabled } => {
                let was: bool = self.blanked;
                self.blanked = enabled;
                if enabled && !was {
                    StreamAction::ShowBlank
                } else if !enabled && was {
                    StreamAction::HideBlank
                } else {
                    StreamAction::Nothing
                }
            },
            InputEvent::InputLock { enabled } => StreamAction::BlockInput(enabled),
            other => {
                self.injected = self.injected + 1;
                let report: bool = self.injected == 1 || self.injected % 200 == 0;
                StreamAction::Inject { what: input::inject(&other), report }
            },
        }
    }

    /// Locking or freeing mouse and keyboard has worked or not. An attempt that failed changes
    /// nothing: what was locked before it still has to be freed.
    pub fn on_block(&mut self, enabled: bool, worked: bool)
        requires
            old(self).wf(),
        ensures
            final(self).wf(),
            final(self)@ == (Stream {
                locked: managed::lock_after(old(self)@.locked, enabled, worked),
                ..old(self)@
            }),
    {
        self.locked = if enabled {
            self.locked || worked
        } else {
            self.locked && !worked
        };
    }

    /// What to do with a captured frame: nothing when it came too soon, else encode it, with a new
    /// encoder at half the size when none is running.
    pub fn on_frame(&self, w: u32, h: u32, now: Duration) -> (p: managed::FramePlan)
        ensures
            p == (if time::elapsed(now.ns(), self@.encoded_at) < STREAM_FRAME_NANOS {
                managed::FramePlan::Skip
            } else if self@.encoder {
                managed::FramePlan::Encode
            } else {
                managed::FramePlan::EncodeWith(
                    EncoderConfig {
                        in_w: w,
                        in_h: h,
                        out_w: crate::encode::even((w / 2) as u32),
                        out_h: crate::encode::even((h / 2) as u32),
                        fps: 30,
                        bitrate: 4_000_000,
                    },
                )
            }),
    {
        if !now.since(self.encoded_at).at_least(Duration { nanos: STREAM_FRAME_NANOS }) {
            managed::FramePlan::Skip
        } else if self.encoder {
            managed::FramePlan::Encode
        } else {
            managed::FramePlan::EncodeWith(
                EncoderConfig::new_scaled(w, h, w / 2, h / 2, 30, 4_000_000),
            )
        }
    }

    /// The encoder that was asked for is running.
    pub fn encoder_started(&mut self)
        requires
            old(self).wf(),
        ensures
            final(self).wf(),
            final(self)@ == (Stream { encoder: true, ..old(self)@ }),
    {
        self.encoder = true;
    }

    /// Takes what the encoder gave for a frame: an access unit, or nothing yet.
    pub fn on_unit(&mut self, unit: &[u8], now: Duration)
        requires
            old(self).wf(),
            old(self)@.counter < u64::MAX,
            unit@.len() < crypto::SEAL_LIMIT,
        ensures
            final(self).wf(),
            final(self)@ == (if unit@.len() == 0 {
                old(self)@
            } else {
                streamed(Stream { encoded_at: now.ns(), ..old(self)@ }, unit@)
            }),
            0 < unit@.len() && unit@.len() + 28 <= 65_535 * 16_384 ==> forall|a: media::Assembly|
                (#[trigger] controller::deliver(
                    old(self)@.key_out,
                    a,
                    final(self)@.queue.skip(old(self)@.queue.len() as int),
                )).frames == seq![unit@],
    {
        if unit.len() > 0 {
            self.encoded_at = now;
            self.queue_message(unit);
        }
    }

    /// The piece to hand to the channel next.
    pub fn next_piece(&self) -> (r: Option<&Vec<u8>>)
        ensures
            match r {
                Some(p) => self@.queue.len() > 0 && p@ == self@.queue[0],
                None => self@.queue.len() == 0,
            },
    {
        self.outbox.next_piece()
    }

    /// Drops the first piece of the queue, which the channel has taken.
    pub fn piece_taken(&mut self)
        requires
            old(self).wf(),
            old(self)@.queue.len() > 0,
        ensures
            final(self).wf(),
            final(self)@ == (Stream { queue: old(self)@.queue.skip(1), ..old(self)@ }),
    {
        self.outbox.piece_taken();
    }

    /// Ends the session: what has to be undone. A dark screen or a locked keyboard never outlives
    /// the session.
    pub fn finish(&mut self) -> (c: Cleanup)
        requires
            old(self).wf(),
        ensures
            final(self).wf(),
            c == managed::cleanup(old(self)@.blanked, old(self)@.locked),
            final(self)@ == (Stream { blanked: false, locked: false, ..old(self)@ }),
    {
        let c = Cleanup { hide_blank: self.blanked, unblock_input: self.locked };
        self.blanked = false;
        self.locked = false;
        c
    }
}

/// Whether none of the first `n` monitors of the list has this number.
pub open spec fn all_others(v: Seq<MonitorInfo>, number: u32, n: int) -> bool {
    forall|j: int| 0 <= j < n ==> (#[trigger] v[j]).index != number
}

/// The monitor on which to inject: the first of the list with the active one's number.
pub fn active_monitor(v: &Vec<MonitorInfo>, active: u32) -> (r: Option<usize>)
    ensures
        match r {
            Some(i) => {
                &&& i < v@.len()
                &&& v@[i as int].index == active
                &&& all_others(v@, active, i as int)
            },
            None => all_others(v@, active, v@.len() as int),
        },
{
    let mut i: usize = 0;
    while i < v.len()
        invariant
            i <= v@.len(),
            forall|j: int| 0 <= j < i ==> (#[trigger] v@[j]).index != active,
        decreases v@.len() - i,
    {
        if v[i].index == active {
            return Some(i);
        }
        i += 1;
    }
    None
}

/// The worker's session, too, knows whether the screen is dark, and undoes it at its end. Whether
/// mouse and keyboard are locked changes only with what came of an attempt.
pub proof fn law_stream_blank_is_known(m: Stream, e: InputEvent, a: StreamAction)
    requires
        stream_action_fits(m, e, a),
    ensures
        after_stream_event(m, e).blanked == (match a {
            StreamAction::ShowBlank => true,
            StreamAction::HideBlank => false,
            _ => m.blanked,
        }),
        a is ShowBlank ==> !m.blanked,
        a is HideBlank ==> m.blanked,
        after_stream_event(m, e).locked == m.locked,
{
}

/// In the worker's session, too, mouse and keyboard are freed at the end exactly when some lock has
/// worked and no attempt to free them has worked since, whatever was attempted from its start on.
pub proof fn law_stream_lock_is_undone(m: Stream, attempts: Seq<(bool, bool)>)
    requires
        m.locked == managed::lock_after_all(false, attempts),
    ensures
        managed::cleanup(m.blanked, m.locked).unblock_input <==> exists|i: int|
            #![trigger attempts[i]]
            {
                &&& 0 <= i < attempts.len()
                &&& attempts[i] == (true, true)
                &&& forall|j: int| i < j < attempts.len() ==> #[trigger] attempts[j] != (false, true)
            },
{
    managed::law_lock_is_undone(m.blanked, attempts);
}

/// The worker, too, streams a picture that keeps its shape: each side is half of the frame's side,
/// made even downwards, at thirty frames and four million bits a second. It takes a frame every 33
/// milliseconds.
pub proof fn law_stream_picture(
    s: &StreamSession,
    w: u32,
    h: u32,
    now: Duration,
    p: managed::FramePlan,
)
    requires
        call_ensures(StreamSession::on_frame, (s, w, h, now), p),
    ensures
        p is Skip <==> now.ns() < s@.encoded_at + 33_000_000,
        p is Encode ==> s@.encoder,
        p matches managed::FramePlan::EncodeWith(c) ==> {
            &&& !s@.encoder
            &&& c.in_w == w && c.in_h == h
            &&& c.out_w % 2 == 0 && c.out_w * 2 <= w < c.out_w * 2 + 4
            &&& c.out_h % 2 == 0 && c.out_h * 2 <= h < c.out_h * 2 + 4
            &&& c.fps == 30 && c.bitrate == 4_000_000
        },
{
}

/// In the worker's session, too, mouse and keyboard are locked or freed as it was asked for.
pub proof fn law_stream_lock_goes_as_asked(
    s: &mut StreamSession,
    wanted: bool,
    a: StreamAction,
    t: &mut StreamSession,
    worked: bool,
)
    requires
        call_ensures(StreamSession::on_event, (s, InputEvent::InputLock { enabled: wanted }), a),
        old(t)@ == final(s)@,
        a matches StreamAction::BlockInput(attempt) ==> call_ensures(
            StreamSession::on_block,
            (t, attempt, worked),
            (),
        ),
    ensures
        a is BlockInput,
        worked ==> final(t)@.locked == wanted,
        !worked ==> final(t)@.locked == old(s)@.locked,
        final(t)@ == (Stream { locked: final(t)@.locked, ..old(s)@ }),
{
}

/// What the controller asks the worker for is done: it switches to the monitor that was named, with
/// a new encoder; darkens or shows the screen where that changes something; and injects all else,
/// just what the event says, counting it.
pub proof fn law_stream_does_as_asked(
    s: &mut StreamSession,
    e: InputEvent,
    a: StreamAction,
    out: Vec<Injection>,
)
    requires
        old(s)@.injected < u64::MAX,
        call_ensures(StreamSession::on_event, (s, e), a),
        call_ensures(input::inject, (&e,), out),
    ensures
        match e {
            InputEvent::Monitor { index } => {
                &&& a == StreamAction::SwitchMonitor(index)
                &&& final(s)@ == (Stream { monitor: index, encoder: false, ..old(s)@ })
            },
            InputEvent::Blank { enabled } => {
                &&& a is ShowBlank <==> enabled && !old(s)@.blanked
                &&& a is HideBlank <==> !enabled && old(s)@.blanked
                &&& enabled == old(s)@.blanked ==> a is Nothing
                &&& final(s)@ == (Stream { blanked: enabled, ..old(s)@ })
            },
            InputEvent::InputLock { .. } => true,
            _ => {
                &&& a matches StreamAction::Inject { what, .. }
                &&& what@ == out@
                &&& final(s)@.injected == old(s)@.injected + 1
                &&& final(s)@ == (Stream { injected: final(s)@.injected, ..old(s)@ })
            },
        },
        e matches InputEvent::Key { down, .. } ==> a matches StreamAction::Inject { what, .. } && {
            &&& what@.len() == 1
            &&& what@[0] matches Injection::Key { up, .. }
            &&& up != down
        },
{
    input::law_input_is_injected(e, out);
}

/// The first input of a session is noted in the log, and then every two hundredth.
pub proof fn law_input_is_noted(s: &mut StreamSession, code: u32, down: bool, a: StreamAction)
    requires
        old(s)@.injected < u64::MAX,
        call_ensures(StreamSession::on_event, (s, InputEvent::Key { code, down }), a),
    ensures
        a matches StreamAction::Inject { report, .. } && (report <==> final(s)@.injected == 1
            || final(s)@.injected % 200 == 0),
{
}

/// The worker takes the goodbye, and nothing else, for the end; what was sealed under the session's
/// key is an event, and all else counts for nothing.
pub proof fn law_stream_hears(s: &StreamSession, raw: &[u8], r: StreamInbound)
    requires
        call_ensures(StreamSession::on_raw, (s, raw), r),
    ensures
        r is Bye <==> raw@ == SESSION_BYE.spec_bytes(),
        match crypto::opened_message(s@.key_in, raw@) {
            Some(plain) => r matches StreamInbound::Event(p) && p@ == plain,
            None => r is Bye || r is Dropped,
        },
{
    if crypto::opened_message(s@.key_in, raw@) is Some {
        controller::lemma_sealed_is_no_goodbye(s@.key_in, raw@);
    }
}

/// An access unit of the worker goes out whole and counts as the latest frame.
pub proof fn law_stream_unit_goes_out(s: &mut StreamSession, unit: &[u8], now: Duration)
    requires
        old(s)@.counter < u64::MAX,
        0 < unit@.len(),
        unit@.len() + 28 <= 65_535 * 16_384,
        call_ensures(StreamSession::on_unit, (s, unit, now), ()),
    ensures
        final(s)@.encoded_at == now.ns(),
        final(s)@.counter == old(s)@.counter + 1,
        final(s)@.queue.take(old(s)@.queue.len() as int) == old(s)@.queue,
        forall|a: media::Assembly|
            (#[trigger] controller::deliver(
                old(s)@.key_out,
                a,
                final(s)@.queue.skip(old(s)@.queue.len() as int),
            )).frames == seq![unit@],
{
    let m = Stream { encoded_at: now.ns(), ..old(s)@ };
    let sealed = crypto::sealed_message(m.key_out, m.counter, unit@);
    let added = media::messages(m.seq, sealed, media::DEFAULT_MAX_PAYLOAD as nat);
    assert(final(s)@.queue == m.queue + added);
    assert(final(s)@.queue.take(m.queue.len() as int) =~= m.queue);
}

/// The input is bound to the desktop anew before messages are handled, at most five times a second.
pub proof fn law_input_is_bound(s: &mut StreamSession, waiting: usize, now: Duration, due: bool)
    requires
        call_ensures(StreamSession::rebind_due, (s, waiting, now), due),
    ensures
        due <==> waiting > 0 && now.ns() >= old(s)@.rebound_at + 200_000_000,
        due ==> final(s)@ == (Stream { rebound_at: now.ns(), ..old(s)@ }),
        !due ==> final(s)@ == old(s)@,
{
}

/// The worker's session starts with nothing dark and nothing locked, and at its end undoes what is
/// dark or locked, once.
pub proof fn law_stream_end_undoes(
    key: &[u8; 32],
    now: Duration,
    fresh: StreamSession,
    s: &mut StreamSession,
    c: Cleanup,
    t: &mut StreamSession,
    again: Cleanup,
)
    requires
        call_ensures(StreamSession::new, (key, now), fresh),
        call_ensures(StreamSession::finish, (s,), c),
        old(t)@ == final(s)@,
        call_ensures(StreamSession::finish, (t,), again),
    ensures
        !fresh@.blanked && !fresh@.locked && fresh@.queue.len() == 0 && fresh@.counter == 0,
        c.hide_blank == old(s)@.blanked,
        c.unblock_input == old(s)@.locked,
        !again.hide_blank && !again.unblock_input,
{
}

/// The worker takes up every request, for the session that it names, and registers anew only when
/// the socket is broken, before a session or in one.
pub proof fn law_worker_takes_requests(
    recv: Recv,
    step: WorkerStep,
    result: Result<(), StreamErr>,
    next: WorkerStep,
)
    requires
        call_ensures(worker_step, (recv,), step),
        call_ensures(after_session, (&result,), next),
    ensures
        match recv {
            Recv::Message(ServerMsg::IncomingRequest { session_id, .. }) => {
                &&& step matches WorkerStep::Serve(sid)
                &&& sid@ == session_id@
            },
            _ => !(step is Serve),
        },
        step is Reconnect <==> recv is Broken,
        next is Reconnect <==> result == Err::<(), StreamErr>(StreamErr::Ws),
        !(next is Reconnect) ==> next is Wait,
{
}

/// The service runs a worker exactly where there is an active session: one is started when there is
/// none, replaced when it has died or is in another session, ended when no session is active, and
/// left alone otherwise.
pub proof fn law_worker_is_supervised(
    session: u32,
    worker: Option<u32>,
    alive: bool,
    r: Supervision,
)
    requires
        call_ensures(supervise, (session, worker, alive), r),
    ensures
        r is Start <==> session != 0xFFFF_FFFF && worker is None,
        r is End <==> session == 0xFFFF_FFFF && worker is Some,
        r is Replace <==> session != 0xFFFF_FFFF && worker is Some && (!alive || worker->0 != session),
        r matches Supervision::Start(n) ==> n == session,
        r matches Supervision::Replace(n) ==> n == session,
{
}

/// The worker's exchange: the answer has twenty seconds; once it was accepted, candidates are taken
/// for two more, and then the exchange is complete. Without an answer in time it has failed.
pub proof fn law_stream_exchange(
    session: &str,
    offer: &str,
    cand: &str,
    now: Duration,
    r: (StreamOffer, ClientMsg, ClientMsg),
    at: Duration,
    before: StreamState,
    s: &mut StreamOffer,
    accepted: Duration,
    after: StreamState,
)
    requires
        call_ensures(StreamOffer::start, (session, offer, cand, now), r),
        call_ensures(StreamOffer::state, (&r.0, at), before),
        *old(s) == r.0,
        call_ensures(StreamOffer::on_accepted, (s, accepted), ()),
        call_ensures(StreamOffer::state, (final(s), at), after),
        now.ns() + 20_000_000_000 <= u128::MAX,
        accepted.ns() + 2_000_000_000 <= u128::MAX,
    ensures
        before is Failed <==> at.ns() - now.ns() > 20_000_000_000,
        !(before is Failed) ==> before is Going,
        after is Complete <==> at.ns() - accepted.ns() > 2_000_000_000,
        !(after is Complete) ==> after is Going,
        r.1 matches ClientMsg::Signal { session_id, kind, payload, .. } && session_id@ == session@
            && kind@ == "offer"@ && json::str_field(payload@, "sdp"@) == Some(offer@),
        r.2 matches ClientMsg::Signal { session_id, kind, payload, .. } && session_id@ == session@
            && kind@ == "ice"@ && connection::candidates_in(payload@) == seq![cand@],
        final(s).own_fp@ == connection::fingerprint_of(offer@),
{
    connection::law_payload_roundtrip(offer@, seq![cand@], None);
    let one = one_candidate(cand@);
    json::lemma_field_at(one, "cands"@, 0);
    let both = connection::ice_value(seq![cand@], None);
    json::lemma_field_at(both, "cands"@, 0);
    assert(connection::candidates_in(one) == connection::candidates_in(both));
}

/// What a message to the worker means in the exchange: an answer is accepted as it is written,
/// once, and its fingerprint is the peer's; candidates are taken as they are written; another
/// request is told that the device is busy; a broken socket fails the attempt.
pub proof fn law_stream_offer_hears(o: &mut StreamOffer, recv: Recv, step: StreamStep)
    requires
        call_ensures(StreamOffer::on_recv, (o, &recv), step),
    ensures
        match recv {
            Recv::Message(ServerMsg::Signal { kind, payload, .. }) => {
                &&& kind@ == "answer"@ ==> match json::str_field(payload@, "sdp"@) {
                    Some(t) if !old(o).answered => {
                        &&& step matches StreamStep::AcceptAnswer { sdp }
                        &&& sdp@ == t
                        &&& final(o).peer_fp@ == connection::fingerprint_of(t)
                    },
                    _ => step matches StreamStep::Fail(StreamErr::Failed(_)),
                }
                &&& kind@ == "ice"@ ==> {
                    &&& step matches StreamStep::AddCandidates { cands }
                    &&& text::texts(cands@) == connection::candidates_in(payload@)
                }
                &&& step is Wait <==> kind@ != "answer"@ && kind@ != "ice"@
            },
            Recv::Message(ServerMsg::IncomingRequest { session_id, .. }) => {
                &&& step matches StreamStep::Reject(ClientMsg::ConnectReject {
                    v,
                    session_id: sid,
                    reason,
                })
                &&& v == 1 && sid@ == session_id@
                &&& reason matches Some(why)
                &&& why@ == "busy"@
            },
            Recv::Broken => step matches StreamStep::Fail(StreamErr::Ws),
            _ => step is Wait,
        },
        final(o).own_fp == old(o).own_fp && final(o).answered == old(o).answered,
        !(step is AcceptAnswer || step is Fail) ==> final(o).peer_fp == old(o).peer_fp,
{
    reveal_strlit("answer");
    reveal_strlit("ice");
    assert("answer"@.len() != "ice"@.len());
}

/// A desktop is looked at until a frame of it shows something, at most thirty frames long; another
/// desktop is looked at anew.
pub proof fn law_desktop_is_proved(
    p: &mut Probe,
    desktop: &str,
    drawn: bool,
    look: bool,
    q: &mut Probe,
    nonzero: u32,
    r: ProbeResult,
    s: &mut Probe,
    again: bool,
)
    requires
        call_ensures(Probe::wanted, (p, desktop, drawn), look),
        call_ensures(Probe::on_stats, (q, desktop, nonzero), r),
        *old(s) == *final(q),
        call_ensures(Probe::wanted, (s, desktop, true), again),
    ensures
        look ==> drawn && old(p).probes < 30 && final(p).probes == old(p).probes + 1,
        !look ==> final(p).probes == old(p).probes,
        drawn && old(p).probes < 30 && old(p).proved_on@ != desktop@ ==> look,
        nonzero > 0 ==> r == ProbeResult::Proved && !again,
        nonzero == 0 ==> r != ProbeResult::Proved,
        r == ProbeResult::Blank <==> nonzero == 0 && old(q).probes == 30,
        old(q).probes == 30 ==> !again,
{
}

/// The monitor on which to inject has the active one's number, and there is one whenever the list
/// has one.
pub proof fn law_active_monitor(v: &Vec<MonitorInfo>, active: u32, r: Option<usize>, i: int)
    requires
        call_ensures(active_monitor, (v, active), r),
        0 <= i < v@.len(),
    ensures
        r matches Some(k) ==> k < v@.len() && v@[k as int].index == active,
        v@[i].index == active ==> r is Some && r->0 <= i,
{
}

/// The program does what its argument says, and runs as a service without one.
pub proof fn law_mode(arg: &str, m: Mode)
    requires
        call_ensures(mode_of, (arg,), m),
    ensures
        m is Install <==> arg@ == "install"@,
        m is Uninstall <==> arg@ == "uninstall"@,
        m is Worker <==> arg@ == "--worker"@,
        m is Service <==> arg@.len() == 0,
        m matches Mode::Unknown(s) ==> s@ == arg@,
{
    reveal_strlit("install");
    reveal_strlit("uninstall");
    reveal_strlit("--worker");
    assert("install"@.len() == 7 && "uninstall"@.len() == 9 && "--worker"@.len() == 8);
}

/// A row of a frame shows something exactly when some byte of it is not zero; the number of such
/// bytes is never more than all.
pub proof fn law_row_shows_something(row: &[u8], width: u32, r: (u32, u32, String), i: int)
    requires
        1 <= width <= 0x3FFF_FFFF,
        row@.len() == width * 4,
        call_ensures(frame_stats, (row, width), r),
        0 <= i < row@.len(),
    ensures
        row@[i] != 0 ==> r.0 > 0,
        r.0 <= r.1,
        r.1 == row@.len(),
        (forall|k: int| 0 <= k < row@.len() ==> row@[k] == 0) ==> r.0 == 0,
{
    lemma_nonzero(row@, i);
}

proof fn lemma_nonzero(s: Seq<u8>, i: int)
    requires
        0 <= i,
    ensures
        i < s.len() && s[i] != 0 ==> nonzero(s) > 0,
        nonzero(s) <= s.len(),
        (forall|k: int| 0 <= k < s.len() ==> s[k] == 0) ==> nonzero(s) == 0,
    decreases s.len(),
{
    if s.len() > 0 {
        let rest = s.drop_last();
        lemma_nonzero(rest, i);
        if forall|k: int| 0 <= k < s.len() ==> s[k] == 0 {
            assert forall|k: int| 0 <= k < rest.len() implies rest[k] == 0 by {
                assert(s[k] == 0);
            }
            assert(s[s.len() - 1] == 0);
        }
    }
}

/// A configuration is read without the mark at its start, and otherwise as it is.
pub proof fn law_configuration_text(raw: &str, s: String, body: Seq<char>)
    requires
        call_ensures(config_text, (raw,), s),
        body.len() > 0 ==> body[0] != '\u{feff}',
    ensures
        raw@ == body ==> s@ == body,
        raw@ == seq!['\u{feff}'] + body ==> s@ == body,
{
    let marked = seq!['\u{feff}'] + body;
    assert(marked[0] == '\u{feff}');
    assert(marked.skip(1) =~= body);
    reveal_with_fuel(text::without_start, 3);
}

/// Once its encoder runs, the worker goes on with it; and pieces leave in the order in which they
/// were queued.
pub proof fn law_stream_runs_on(
    s: &mut StreamSession,
    w: u32,
    h: u32,
    now: Duration,
    p: managed::FramePlan,
    t: &mut StreamSession,
    first: Option<&Vec<u8>>,
    next: Option<&Vec<u8>>,
)
    requires
        call_ensures(StreamSession::encoder_started, (s,), ()),
        call_ensures(StreamSession::on_frame, (final(s), w, h, now), p),
        old(t)@.queue.len() > 0,
        call_ensures(StreamSession::next_piece, (old(t),), first),
        call_ensures(StreamSession::piece_taken, (t,), ()),
        call_ensures(StreamSession::next_piece, (final(t),), next),
    ensures
        !(p is EncodeWith),
        final(s)@ == (Stream { encoder: true, ..old(s)@ }),
        first matches Some(m) && m@ == old(t)@.queue[0],
        old(t)@.queue.len() == 1 <==> next is None,
        next matches Some(m) ==> m@ == old(t)@.queue[1],
{
}

/// A line of the log names the time and then says what was given.
pub proof fn law_log_line(seconds: u64, msg: &str, line: String)
    requires
        call_ensures(log, (seconds, msg), line),
    ensures
        line@ == seq!['['] + text::decimal(seconds as nat) + seq![']', ' '] + msg@,
{
    reveal_strlit("[");
    reveal_strlit("] ");
    assert("["@ =~= seq!['[']);
    assert("] "@ =~= seq![']', ' ']);
}

/// After the desktop has changed, frames are looked at from the first one again.
pub proof fn law_switch_starts_anew(p: &mut Probe, q: &mut Probe, desktop: &str, look: bool)
    requires
        call_ensures(Probe::on_switch, (p,), ()),
        *old(q) == *final(p),
        call_ensures(Probe::wanted, (q, desktop, true), look),
    ensures
        look <==> old(p).proved_on@ != desktop@,
{
}

/// Of a handshake that was refused the worker says so in its own words, of anything else in the
/// usual ones.
pub proof fn law_setup_error_text(e: SetupError, s: &'static str, usual: &'static str)
    requires
        call_ensures(setup_error_text, (e,), s),
        call_ensures(SetupError::message, (&e,), usual),
    ensures
        e == SetupError::Refused ==> s@ == "PAKE FAILED"@,
        e != SetupError::Refused ==> s@ == usual@,
{
}

/// A message that the worker queues arrives at the controller whole, after all that was queued before,
/// and is counted.
pub proof fn law_stream_message_is_queued(
    s: &mut StreamSession,
    plain: &[u8],
    before: u64,
    after: u64,
)
    requires
        old(s)@.counter < u64::MAX,
        plain@.len() + 28 <= 65_535 * 16_384,
        call_ensures(StreamSession::sealed, (old(s),), before),
        call_ensures(StreamSession::queue_message, (s, plain), ()),
        call_ensures(StreamSession::sealed, (final(s),), after),
    ensures
        after == before + 1,
        final(s)@.queue.take(old(s)@.queue.len() as int) == old(s)@.queue,
        forall|a: media::Assembly|
            (#[trigger] controller::deliver(
                old(s)@.key_out,
                a,
                final(s)@.queue.skip(old(s)@.queue.len() as int),
            )).frames == seq![plain@],
{
    let m = old(s)@;
    let sealed = crypto::sealed_message(m.key_out, m.counter, plain@);
    let added = media::messages(m.seq, sealed, media::DEFAULT_MAX_PAYLOAD as nat);
    assert(final(s)@.queue == m.queue + added);
    assert(final(s)@.queue.take(m.queue.len() as int) =~= m.queue);
}

} // verus!
