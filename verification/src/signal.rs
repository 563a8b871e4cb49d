//! The signalling protocol between a client and the server.
//!
//! The server is a blind broker: what a `signal` message carries is opaque to it.

use crate::json::Json;
use crate::text;
use vstd::prelude::*;
use vstd::string::*;

verus! {

/// The version in every client message.
pub const PROTOCOL_VERSION: u8 = 1;

/// From the client to the server.
#[derive(Debug)]
pub enum ClientMsg {
    Register {
        v: u8,
        device_id: String,
        client_secret: String,
        client_kind: String,
        /// The device's hardware address, so that it can be woken.
        mac: Option<String>,
        /// Whether the device can wake others.
        can_wake: Option<bool>,
        rid: Option<String>,
    },
    /// Asks to wake another device.
    Wake { v: u8, target_id: String },
    ListPresence { v: u8, ids: Vec<String>, rid: Option<String> },
    ConnectRequest {
        v: u8,
        target_id: String,
        /// Which password the controller holds: `one_time` or `permanent`. The managed side takes
        /// its absence for `permanent`.
        password_kind: Option<String>,
        rid: Option<String>,
    },
    ConnectAccept { v: u8, session_id: String },
    ConnectReject { v: u8, session_id: String, reason: Option<String> },
    Signal { v: u8, session_id: String, kind: String, payload: Json },
    SessionClose { v: u8, session_id: String, reason: Option<String> },
}

/// Whether `m` refuses session `session_id` for `why`.
pub open spec fn is_reject(m: ClientMsg, session_id: Seq<char>, why: Option<Seq<char>>) -> bool {
    m matches ClientMsg::ConnectReject { v, session_id: s, reason } && v == PROTOCOL_VERSION && s@
        == session_id && text::opt_view(reason) == why
}

/// Whether `m` accepts session `session_id`.
pub open spec fn is_accept(m: ClientMsg, session_id: Seq<char>) -> bool {
    m matches ClientMsg::ConnectAccept { v, session_id: s } && v == PROTOCOL_VERSION && s@
        == session_id
}

/// Whether `m` asks to connect to `target_id` with a password of kind `kind`.
pub open spec fn is_connect_request(
    m: ClientMsg,
    target_id: Seq<char>,
    kind: Option<Seq<char>>,
) -> bool {
    m matches ClientMsg::ConnectRequest { v, target_id: t, password_kind, rid } && v
        == PROTOCOL_VERSION && t@ == target_id && text::opt_view(password_kind) == kind && rid
        is None
}

/// Whether `m` carries `payload` of kind `kind` to the peer of session `session_id`.
pub open spec fn is_signal(
    m: ClientMsg,
    session_id: Seq<char>,
    kind: Seq<char>,
    payload: crate::json::Value,
) -> bool {
    m matches ClientMsg::Signal { v, session_id: s, kind: k, payload: p } && v == PROTOCOL_VERSION
        && s@ == session_id && k@ == kind && p@ == payload
}

/// Whether `m` registers a device.
pub open spec fn is_register(
    m: ClientMsg,
    id: Seq<char>,
    secret: Seq<char>,
    kind: Seq<char>,
    own_mac: Option<Seq<char>>,
    wakes: Option<bool>,
) -> bool {
    m matches ClientMsg::Register {
        v,
        device_id,
        client_secret,
        client_kind,
        mac,
        can_wake,
        rid,
    } && v == PROTOCOL_VERSION && device_id@ == id && client_secret@ == secret && client_kind@
        == kind && text::opt_view(mac) == own_mac && can_wake == wakes && rid is None
}

impl ClientMsg {
    pub fn register(device_id: &str, client_secret: &str, client_kind: &str) -> (m: ClientMsg)
        ensures
            is_register(m, device_id@, client_secret@, client_kind@, None, None),
    {
        ClientMsg::Register {
            v: PROTOCOL_VERSION,
            device_id: device_id.to_owned(),
            client_secret: client_secret.to_owned(),
            client_kind: client_kind.to_owned(),
            mac: None,
            can_wake: None,
            rid: None,
        }
    }

    /// Registers with what waking needs: the own hardware address, and whether the device wakes
    /// others.
    pub fn register_wol(
        device_id: &str,
        client_secret: &str,
        client_kind: &str,
        mac: Option<&str>,
        can_wake: bool,
    ) -> (m: ClientMsg)
        ensures
            is_register(
                m,
                device_id@,
                client_secret@,
                client_kind@,
                match mac {
                    Some(s) => Some(s@),
                    None => None,
                },
                Some(can_wake),
            ),
    {
        ClientMsg::Register {
            v: PROTOCOL_VERSION,
            device_id: device_id.to_owned(),
            client_secret: client_secret.to_owned(),
            client_kind: client_kind.to_owned(),
            mac: text::owned_opt(mac),
            can_wake: Some(can_wake),
            rid: None,
        }
    }

    pub fn wake(target_id: &str) -> (m: ClientMsg)
        ensures
            m matches ClientMsg::Wake { v, target_id: t } && v == PROTOCOL_VERSION && t@
                == target_id@,
    {
        ClientMsg::Wake { v: PROTOCOL_VERSION, target_id: target_id.to_owned() }
    }

    pub fn connect_request(target_id: &str) -> (m: ClientMsg)
        ensures
            is_connect_request(m, target_id@, None),
    {
        ClientMsg::ConnectRequest {
            v: PROTOCOL_VERSION,
            target_id: target_id.to_owned(),
            password_kind: None,
            rid: None,
        }
    }

    pub fn connect_request_kind(target_id: &str, password_kind: &str) -> (m: ClientMsg)
        ensures
            is_connect_request(m, target_id@, Some(password_kind@)),
    {
        ClientMsg::ConnectRequest {
            v: PROTOCOL_VERSION,
            target_id: target_id.to_owned(),
            password_kind: Some(password_kind.to_owned()),
            rid: None,
        }
    }

    pub fn connect_accept(session_id: &str) -> (m: ClientMsg)
        ensures
            is_accept(m, session_id@),
    {
        ClientMsg::ConnectAccept { v: PROTOCOL_VERSION, session_id: session_id.to_owned() }
    }

    pub fn connect_reject(session_id: &str, reason: Option<&str>) -> (m: ClientMsg)
        ensures
            is_reject(
                m,
                session_id@,
                match reason {
                    Some(s) => Some(s@),
                    None => None,
                },
            ),
    {
        ClientMsg::ConnectReject {
            v: PROTOCOL_VERSION,
            session_id: session_id.to_owned(),
            reason: text::owned_opt(reason),
        }
    }

    pub fn list_presence(ids: Vec<String>) -> (m: ClientMsg)
        ensures
            m == (ClientMsg::ListPresence { v: PROTOCOL_VERSION, ids, rid: None }),
    {
        ClientMsg::ListPresence { v: PROTOCOL_VERSION, ids, rid: None }
    }

    pub fn signal(session_id: &str, kind: &str, payload: Json) -> (m: ClientMsg)
        ensures
            is_signal(m, session_id@, kind@, payload@),
    {
        ClientMsg::Signal {
            v: PROTOCOL_VERSION,
            session_id: session_id.to_owned(),
            kind: kind.to_owned(),
            payload,
        }
    }

    pub fn session_close(session_id: &str, reason: Option<&str>) -> (m: ClientMsg)
        ensures
            m matches ClientMsg::SessionClose { v, session_id: s, reason: r } && v
                == PROTOCOL_VERSION && s@ == session_id@ && text::opt_view(r) == (match reason {
                Some(t) => Some(t@),
                None => None,
            }),
    {
        ClientMsg::SessionClose {
            v: PROTOCOL_VERSION,
            session_id: session_id.to_owned(),
            reason: text::owned_opt(reason),
        }
    }
}

/// From the server to the client. Fields that the server leaves out are `None`.
#[allow(inconsistent_fields)]
#[derive(Debug)]
pub enum ServerMsg {
    RegisterOk { device_id: String, server_time: i64, rid: Option<String> },
    RegisterErr { code: String, reason: String, rid: Option<String> },
    PresenceState { entries: Json, rid: Option<String> },
    PresenceUpdate { id: String, online: bool, busy: Option<bool> },
    ConnectErr { code: String, rid: Option<String>, retry_after: Option<u64> },
    IncomingRequest {
        session_id: String,
        from_kind: String,
        password_kind: Option<String>,
        ice_servers: Option<Json>,
    },
    ConnectReady {
        session_id: String,
        role: String,
        peer_kind: String,
        ice_servers: Option<Json>,
    },
    Signal { session_id: String, kind: String, payload: Json },
    SessionClose { session_id: String, reason: Option<String> },
    /// Asks this device to wake the one with this hardware address.
    WakeDispatch { mac: String },
    /// What became of a request to wake a device.
    WakeResult { status: String, helpers: u32 },
    Error { code: String, reason: String, rid: Option<String> },
    /// A type of message that this client does not know.
    Unknown,
}

#[derive(Debug)]
pub struct SignalError(pub String);

impl SignalError {
    pub fn message(&self) -> (s: String)
        ensures
            s@ == "signal error: "@ + self.0@,
    {
        text::joined("signal error: ", self.0.as_str())
    }
}

/// Whether a registration went through. `shown` is the reply as it is shown to people.
pub fn register_outcome(reply: &ServerMsg, shown: &str) -> (r: Result<(), SignalError>)
    ensures
        match reply {
            ServerMsg::RegisterOk { .. } => r is Ok,
            ServerMsg::RegisterErr { code, reason, .. } => r matches Err(e) && e.0@
                == "register_err "@ + code@ + ": "@ + reason@,
            _ => r matches Err(e) && e.0@ == "unexpected after register: "@ + shown@,
        },
{
    match reply {
        ServerMsg::RegisterOk { .. } => Ok(()),
        ServerMsg::RegisterErr { code, reason, .. } => {
            let mut s: String = text::joined("register_err ", code.as_str());
            s.append(": ");
            s.append(reason.as_str());
            Err(SignalError(s))
        },
        _ => Err(SignalError(text::joined("unexpected after register: ", shown))),
    }
}

/// What reading from the socket gave.
#[derive(Debug)]
pub enum WsRead {
    Text(String),
    Close,
    /// A ping, a pong or binary data.
    Other,
    /// Nothing came in time.
    Timeout(String),
    Failed(String),
}

/// What follows a read.
#[derive(Debug)]
pub enum ReadStep {
    /// Decode this text and give it out.
    Decode(String),
    /// Nothing has come.
    Nothing,
    /// Read again.
    Again,
    Fail(SignalError),
}

/// What follows a read that waits for a message.
pub fn recv_step(read: WsRead) -> (step: ReadStep)
    ensures
        match read {
            WsRead::Text(s) => step == ReadStep::Decode(s),
            WsRead::Close => step matches ReadStep::Fail(e) && e.0@ == "connection closed"@,
            WsRead::Other => step is Again,
            WsRead::Timeout(why) => step matches ReadStep::Fail(e) && e.0 == why,
            WsRead::Failed(why) => step matches ReadStep::Fail(e) && e.0 == why,
        },
{
    match read {
        WsRead::Text(s) => ReadStep::Decode(s),
        WsRead::Close => ReadStep::Fail(SignalError("connection closed".to_owned())),
        WsRead::Other => ReadStep::Again,
        WsRead::Timeout(why) => ReadStep::Fail(SignalError(why)),
        WsRead::Failed(why) => ReadStep::Fail(SignalError(why)),
    }
}

/// What follows a read that gives up after a while: no message in time is no failure.
pub fn try_recv_step(read: WsRead) -> (step: ReadStep)
    ensures
        match read {
            WsRead::Text(s) => step == ReadStep::Decode(s),
            WsRead::Close => step matches ReadStep::Fail(e) && e.0@ == "connection closed"@,
            WsRead::Other => step is Again,
            WsRead::Timeout(_) => step is Nothing,
            WsRead::Failed(why) => step matches ReadStep::Fail(e) && e.0 == why,
        },
{
    match read {
        WsRead::Timeout(_) => ReadStep::Nothing,
        other => recv_step(other),
    }
}

/// What a text that cannot be decoded is reported as.
pub fn decode_error(why: &str, text: &str) -> (e: SignalError)
    ensures
        e.0@ == "decode "@ + why@ + ": "@ + text@,
{
    let mut s: String = text::joined("decode ", why);
    s.append(": ");
    s.append(text);
    SignalError(s)
}

/// A registration tells the server who registers, with which secret, as what, and, where waking is
/// concerned, the own hardware address and whether the device wakes others.
pub proof fn law_registration_says_who(
    id: &str,
    secret: &str,
    kind: &str,
    plain: ClientMsg,
    own: Option<&str>,
    wakes: bool,
    full: ClientMsg,
)
    requires
        call_ensures(ClientMsg::register, (id, secret, kind), plain),
        call_ensures(ClientMsg::register_wol, (id, secret, kind, own, wakes), full),
    ensures
        plain matches ClientMsg::Register {
            v,
            device_id,
            client_secret,
            client_kind,
            mac,
            can_wake,
            rid,
        } && v == 1 && device_id@ == id@ && client_secret@ == secret@ && client_kind@ == kind@ && mac
            is None && can_wake is None && rid is None,
        full matches ClientMsg::Register {
            v,
            device_id,
            client_secret,
            client_kind,
            mac,
            can_wake,
            rid,
        } && v == 1 && device_id@ == id@ && client_secret@ == secret@ && client_kind@ == kind@
            && can_wake == Some(wakes) && rid is None && (match own {
            Some(m) => mac is Some && (mac->0)@ == m@,
            None => mac is None,
        }),
{
}

/// A request names whom it is for, and the kind of password that the controller holds, if it says
/// so; the answers to it, the close and what is passed on name the session, and carry what was
/// given.
pub proof fn law_messages_carry_what_was_given(
    target: &str,
    kind: &str,
    plain: ClientMsg,
    with_kind: ClientMsg,
    wake: ClientMsg,
    session: &str,
    why: Option<&str>,
    accept: ClientMsg,
    reject: ClientMsg,
    close: ClientMsg,
    payload: Json,
    passed: ClientMsg,
)
    requires
        call_ensures(ClientMsg::connect_request, (target,), plain),
        call_ensures(ClientMsg::connect_request_kind, (target, kind), with_kind),
        call_ensures(ClientMsg::wake, (target,), wake),
        call_ensures(ClientMsg::connect_accept, (session,), accept),
        call_ensures(ClientMsg::connect_reject, (session, why), reject),
        call_ensures(ClientMsg::session_close, (session, why), close),
        call_ensures(ClientMsg::signal, (session, kind, payload), passed),
    ensures
        plain matches ClientMsg::ConnectRequest { v, target_id, password_kind, rid } && v == 1
            && target_id@ == target@ && password_kind is None && rid is None,
        with_kind matches ClientMsg::ConnectRequest { v, target_id, password_kind, rid } && v == 1
            && target_id@ == target@ && password_kind is Some && (password_kind->0)@ == kind@ && rid
            is None,
        wake matches ClientMsg::Wake { v, target_id } && v == 1 && target_id@ == target@,
        accept matches ClientMsg::ConnectAccept { v, session_id } && v == 1 && session_id@ == session@,
        reject matches ClientMsg::ConnectReject { v, session_id, reason } && v == 1 && session_id@
            == session@ && (match why {
            Some(t) => reason is Some && (reason->0)@ == t@,
            None => reason is None,
        }),
        close matches ClientMsg::SessionClose { v, session_id, reason } && v == 1 && session_id@
            == session@ && (match why {
            Some(t) => reason is Some && (reason->0)@ == t@,
            None => reason is None,
        }),
        passed matches ClientMsg::Signal { v, session_id, kind: k, payload: p } && v == 1 && session_id@
            == session@ && k@ == kind@ && p@ == payload@,
{
}

/// A registration has gone through exactly when the server says so.
pub proof fn law_registration_outcome(reply: ServerMsg, shown: &str, r: Result<(), SignalError>)
    requires
        call_ensures(register_outcome, (&reply, shown), r),
    ensures
        r is Ok <==> reply is RegisterOk,
        reply matches ServerMsg::RegisterErr { code, reason, .. } ==> r matches Err(e) && text::occurs(
            e.0@,
            code@,
        ) && text::occurs(e.0@, reason@),
{
    if let ServerMsg::RegisterErr { code, reason, .. } = reply {
        let whole = "register_err "@ + code@ + ": "@ + reason@;
        let at = "register_err "@.len() as int;
        assert(text::holds_at(whole, at, code@)) by {
            assert(whole.subrange(at, at + code@.len()) =~= code@);
        }
        let end = (whole.len() - reason@.len()) as int;
        assert(text::holds_at(whole, end, reason@)) by {
            assert(whole.subrange(end, end + reason@.len()) =~= reason@);
        }
    }
}

/// A text from the server is taken as it came; a closed or broken socket is a failure; control
/// frames of the socket are passed over. That nothing came in time is a failure only for who must
/// have an answer.
pub proof fn law_reads_are_told_apart(read: WsRead, must: ReadStep, may: ReadStep)
    requires
        call_ensures(recv_step, (read,), must),
        call_ensures(try_recv_step, (read,), may),
    ensures
        read matches WsRead::Text(t) ==> must == ReadStep::Decode(t) && may == ReadStep::Decode(t),
        must is Fail <==> read is Close || read is Failed || read is Timeout,
        may is Fail <==> read is Close || read is Failed,
        may is Nothing <==> read is Timeout,
        must is Again <==> read is Other,
        may is Again <==> read is Other,
        !(must is Nothing),
        read matches WsRead::Failed(why) ==> must matches ReadStep::Fail(e) && e.0@ == why@,
{
}

/// Asking who is there names just the devices that were given.
pub proof fn law_presence_is_asked(ids: Vec<String>, m: ClientMsg)
    requires
        call_ensures(ClientMsg::list_presence, (ids,), m),
    ensures
        m matches ClientMsg::ListPresence { v, ids: i, rid } && v == 1 && i == ids && rid is None,
{
}

} // verus!
