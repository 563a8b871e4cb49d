//! Setting up a session: addresses, fingerprints, candidates, and the controller's side.

use crate::addr::SocketAddr;
use crate::bytes;
use crate::crypto;
use crate::crypto::CryptoError;
use crate::json;
use crate::json::{Json, Value};
use crate::media;
use crate::relay::Relay;
use crate::session;
use crate::session::{Handshake, SessionMessage};
use crate::signal;
use crate::signal::{ClientMsg, ServerMsg};
use crate::text;
use crate::time::Duration;
use vstd::prelude::*;
use vstd::string::*;

verus! {

/// The message with which a side ends a session, so that the other need not wait for a timeout.
pub const SESSION_BYE: &'static str = "ZW-BYE-1";

/// A server's base address with the scheme of a web socket in place of that of a web page.
pub open spec fn ws_base(base: Seq<char>) -> Seq<char> {
    if text::has_prefix(base, "https://"@) {
        "wss://"@ + base.skip("https://"@.len() as int)
    } else if text::has_prefix(base, "http://"@) {
        "ws://"@ + base.skip("http://"@.len() as int)
    } else {
        base
    }
}

/// The address of a server's signalling socket.
pub fn ws_url(base: &str) -> (url: String)
    ensures
        url@ == text::without_end(ws_base(base@), '/') + "/signal"@,
{
    let b: String = match text::strip_prefix(base, "https://") {
        Some(rest) => text::joined("wss://", rest.as_str()),
        None => match text::strip_prefix(base, "http://") {
            Some(rest) => text::joined("ws://", rest.as_str()),
            None => base.to_owned(),
        },
    };
    let trimmed: String = text::trim_end_matches(b.as_str(), '/');
    text::joined(trimmed.as_str(), "/signal")
}

/// What introduces the DTLS fingerprint in a session description.
pub const FINGERPRINT_PREFIX: &'static str = "a=fingerprint:";

/// The fingerprint in the first of these lines that holds one; empty when none does.
pub open spec fn fingerprint_in(lines: Seq<Seq<char>>) -> Seq<char>
    decreases lines.len(),
{
    if lines.len() == 0 {
        Seq::empty()
    } else {
        let line = text::trim(lines[0]);
        if text::has_prefix(line, FINGERPRINT_PREFIX@) {
            text::trim(line.skip(FINGERPRINT_PREFIX@.len() as int))
        } else {
            fingerprint_in(lines.skip(1))
        }
    }
}

/// The fingerprint that a session description names.
pub open spec fn fingerprint_of(sdp: Seq<char>) -> Seq<char> {
    fingerprint_in(text::split(sdp, '\n'))
}

/// The DTLS fingerprint in a session description; empty when there is none.
pub fn fingerprint(sdp: &str) -> (fp: String)
    ensures
        fp@ == fingerprint_of(sdp@),
{
    let v: Vec<char> = text::to_chars(sdp);
    let prefix: Vec<char> = text::to_chars(FINGERPRINT_PREFIX);
    let n: usize = v.len();
    let mut from: usize = 0;
    proof {
        assert(v@.skip(0) =~= v@);
    }
    loop
        invariant
            v@ == sdp@,
            prefix@ == FINGERPRINT_PREFIX@,
            n == v@.len(),
            from <= n,
            fingerprint_of(sdp@) == fingerprint_in(text::split(v@.skip(from as int), '\n')),
        decreases n - from,
    {
        let to: usize = text::find_char(v.as_slice(), from, n, '\n');
        let ghost rest = v@.skip(from as int);
        let ghost lines = text::split(rest, '\n');
        let ghost line = v@.subrange(from as int, to as int);
        proof {
            assert(v@.subrange(from as int, n as int) =~= rest);
            assert(line.len() == to - from);
            if to < n {
                assert(rest[to - from] == '\n');
                assert(rest.contains('\n'));
                assert(rest.skip((line.len() + 1) as int) =~= v@.skip(to + 1));
                assert(lines == seq![line] + text::split(v@.skip(to + 1), '\n'));
                assert(lines.skip(1) =~= text::split(v@.skip(to + 1), '\n'));
            } else {
                assert(line =~= rest);
                assert(lines == seq![rest]) by {
                    if rest.contains('\n') {
                        let k = choose|k: int| 0 <= k < rest.len() && rest[k] == '\n';
                        assert(v@[from + k] == '\n');
                    }
                }
                assert(lines.skip(1) =~= Seq::<Seq<char>>::empty());
            }
            assert(lines[0] == line);
        }
        let (a, b) = text::trim_range(v.as_slice(), from, to);
        let ghost trimmed = v@.subrange(a as int, b as int);
        if text::matches_at(v.as_slice(), a, b, prefix.as_slice()) {
            let (c, d) = text::trim_range(v.as_slice(), a + prefix.len(), b);
            proof {
                assert(trimmed.take(prefix@.len() as int) =~= v@.subrange(
                    a as int,
                    a + prefix@.len(),
                ));
                assert(trimmed.skip(prefix@.len() as int) =~= v@.subrange(
                    a + prefix@.len(),
                    b as int,
                ));
            }
            return text::from_range(v.as_slice(), c, d);
        }
        proof {
            if text::has_prefix(trimmed, prefix@) {
                assert(trimmed.take(prefix@.len() as int) =~= v@.subrange(
                    a as int,
                    a + prefix@.len(),
                ));
            }
        }
        if to == n {
            proof {
                assert(fingerprint_in(lines.skip(1)) =~= Seq::<char>::empty());
            }
            return String::new();
        }
        from = to + 1;
    }
}

/// The strings in an array, in order.
pub open spec fn str_items(v: Seq<Value>) -> Seq<Seq<char>>
    decreases v.len(),
{
    if v.len() == 0 {
        Seq::empty()
    } else {
        match json::str_of(v.last()) {
            Some(s) => str_items(v.drop_last()).push(s),
            None => str_items(v.drop_last()),
        }
    }
}

/// Copies the strings in an array.
pub fn strings_in(v: &Vec<Json>) -> (out: Vec<String>)
    ensures
        text::texts(out@) == str_items(json::values(v@)),
{
    let mut out: Vec<String> = Vec::new();
    let mut i: usize = 0;
    proof {
        assert(json::values(v@).take(0) =~= Seq::empty());
        assert(text::texts(out@) =~= Seq::empty());
    }
    while i < v.len()
        invariant
            i <= v@.len(),
            text::texts(out@) == str_items(json::values(v@).take(i as int)),
        decreases v@.len() - i,
    {
        let ghost part = json::values(v@).take(i + 1);
        let ghost before = out@;
        proof {
            assert(part.drop_last() =~= json::values(v@).take(i as int));
            assert(part.last() == v@[i as int]@);
        }
        if let Some(s) = v[i].as_str() {
            out.push(s.to_owned());
            proof {
                assert(text::texts(out@) =~= text::texts(before).push(s@));
            }
        }
        i += 1;
    }
    proof {
        assert(json::values(v@).take(i as int) =~= json::values(v@));
    }
    out
}

/// Whether an address is that of a TURN server over UDP.
pub open spec fn is_udp_turn(url: Seq<char>) -> bool {
    text::has_prefix(url, "turn:"@) && !text::occurs(url, "transport=tcp"@)
}

/// The first address of a TURN server over UDP.
pub open spec fn first_udp_turn(urls: Seq<Seq<char>>) -> Option<Seq<char>>
    decreases urls.len(),
{
    if urls.len() == 0 {
        None
    } else if is_udp_turn(urls[0]) {
        Some(urls[0])
    } else {
        first_udp_turn(urls.skip(1))
    }
}

/// The addresses in a server's `urls`: a text with white space between them, or an array.
pub open spec fn urls_of(v: Value) -> Option<Seq<Seq<char>>> {
    match v {
        Value::Str(s) => Some(text::words(s)),
        Value::Arr(a) => Some(str_items(a)),
        _ => None,
    }
}

/// User name, credential, and host with port, of the first server in a list of ICE servers.
pub open spec fn turn_endpoint(ice: Value) -> Option<(Seq<char>, Seq<char>, Seq<char>)> {
    match ice {
        Value::Arr(list) => if list.len() == 0 {
            None
        } else {
            match (
                json::str_field(list[0], "username"@),
                json::str_field(list[0], "credential"@),
                json::field(list[0], "urls"@),
            ) {
                (Some(username), Some(credential), Some(urls)) => match urls_of(urls) {
                    Some(all) => match first_udp_turn(all) {
                        Some(url) => Some(
                            (
                                username,
                                credential,
                                text::before(url.skip("turn:"@.len() as int), '?'),
                            ),
                        ),
                        None => None,
                    },
                    None => None,
                },
                _ => None,
            }
        },
        _ => None,
    }
}

fn find_udp_turn(urls: &Vec<String>) -> (r: Option<String>)
    ensures
        text::opt_view(r) == first_udp_turn(text::texts(urls@)),
{
    let ghost all = text::texts(urls@);
    let mut i: usize = 0;
    proof {
        assert(all.skip(0) =~= all);
    }
    while i < urls.len()
        invariant
            all == text::texts(urls@),
            i <= urls@.len(),
            first_udp_turn(all) == first_udp_turn(all.skip(i as int)),
        decreases urls@.len() - i,
    {
        proof {
            assert(all.skip(i as int)[0] == urls@[i as int]@);
            assert(all.skip(i as int).skip(1) =~= all.skip(i + 1));
        }
        let u: &str = urls[i].as_str();
        if text::starts_with(u, "turn:") && !text::contains(u, "transport=tcp") {
            return Some(u.to_owned());
        }
        i += 1;
    }
    None
}

/// User name, credential, and host with port, of the TURN server to use: the first address over
/// UDP of the first ICE server. The caller looks the host up.
pub fn parse_turn_endpoint(ice: &Json) -> (r: Option<(String, String, String)>)
    ensures
        match r {
            Some((u, c, h)) => turn_endpoint(ice@) == Some((u@, c@, h@)),
            None => turn_endpoint(ice@) is None,
        },
{
    let list: &Vec<Json> = match ice.as_array() {
        Some(l) => l,
        None => {
            return None;
        },
    };
    if list.len() == 0 {
        return None;
    }
    let srv: &Json = &list[0];
    proof {
        assert(ice@->Arr_0[0] == srv@);
    }
    let username: String = match srv.get_str("username") {
        Some(s) => s,
        None => {
            return None;
        },
    };
    let credential: String = match srv.get_str("credential") {
        Some(s) => s,
        None => {
            return None;
        },
    };
    let urls: &Json = match srv.get("urls") {
        Some(u) => u,
        None => {
            return None;
        },
    };
    let all: Vec<String> = match urls {
        Json::Str(s) => text::split_whitespace(s.as_str()),
        Json::Arr(a) => {
            proof {
                assert(urls@->Arr_0 =~= json::values(a@));
            }
            strings_in(a)
        },
        _ => {
            return None;
        },
    };
    match find_udp_turn(&all) {
        Some(url) => match text::strip_prefix(url.as_str(), "turn:") {
            Some(rest) => {
                let v: Vec<char> = text::to_chars(rest.as_str());
                let end: usize = text::find_char(v.as_slice(), 0, v.len(), '?');
                let host: String = text::from_range(v.as_slice(), 0, end);
                proof {
                    assert(v@.subrange(0, v@.len() as int) =~= v@);
                    lemma_first_udp_turn(text::texts(all@));
                }
                Some((username, credential, host))
            },
            None => {
                proof {
                    lemma_first_udp_turn(text::texts(all@));
                }
                None
            },
        },
        None => None,
    }
}

proof fn lemma_first_udp_turn(urls: Seq<Seq<char>>)
    ensures
        first_udp_turn(urls) matches Some(u) ==> is_udp_turn(u),
    decreases urls.len(),
{
    if urls.len() > 0 && !is_udp_turn(urls[0]) {
        lemma_first_udp_turn(urls.skip(1));
    }
}

/// Which of the own candidates to offer.
#[derive(Clone, Copy, Debug, PartialEq, Eq, Structural)]
pub struct CandidatePlan {
    /// The host's own address.
    pub host: bool,
    /// The address on the relay.
    pub relayed: Option<SocketAddr>,
}

/// The candidates to offer: the host's, and the relay's if there is one. With `force_relay` and a
/// relay the host's is left out.
pub fn candidate_plan(relay: &Relay, force_relay: bool) -> (p: CandidatePlan)
    ensures
        p.relayed == relay.my_relayed,
        p.host == !(force_relay && relay.my_relayed is Some),
{
    CandidatePlan {
        host: !(force_relay && relay.my_relayed.is_some()),
        relayed: relay.my_relayed,
    }
}

/// The payload that carries a session description.
pub open spec fn sdp_value(sdp: Seq<char>) -> Value {
    Value::Obj(seq![("sdp"@, Value::Str(sdp))])
}

pub fn sdp_payload(sdp: &str) -> (j: Json)
    ensures
        j@ == sdp_value(sdp@),
{
    let j = Json::empty().with("sdp", Json::text(sdp));
    proof {
        assert(j@->Obj_0 =~= sdp_value(sdp@)->Obj_0);
    }
    j
}

/// The payload that carries candidates and the own address on the relay.
pub open spec fn ice_value(cands: Seq<Seq<char>>, relayed: Option<Seq<char>>) -> Value {
    Value::Obj(
        seq![("cands"@, json::text_array(cands)), ("relayed"@, json::text_or_null(relayed))],
    )
}

pub fn ice_payload(cands: &Vec<String>, relayed: Option<&str>) -> (j: Json)
    ensures
        j@ == ice_value(
            text::texts(cands@),
            match relayed {
                Some(s) => Some(s@),
                None => None,
            },
        ),
{
    let j = Json::empty().with("cands", Json::texts(cands)).with(
        "relayed",
        Json::text_or_null(relayed),
    );
    proof {
        assert(j@->Obj_0 =~= ice_value(
            text::texts(cands@),
            match relayed {
                Some(s) => Some(s@),
                None => None,
            },
        )->Obj_0);
    }
    j
}

/// The candidates in a peer's payload: an array `cands`, or else one string `cand`.
pub open spec fn candidates_in(payload: Value) -> Seq<Seq<char>> {
    match json::field(payload, "cands"@) {
        Some(Value::Arr(a)) => str_items(a),
        _ => match json::str_field(payload, "cand"@) {
            Some(c) => seq![c],
            None => Seq::empty(),
        },
    }
}

pub fn peer_candidates(payload: &Json) -> (out: Vec<String>)
    ensures
        text::texts(out@) == candidates_in(payload@),
{
    if let Some(j) = payload.get("cands") {
        if let Some(a) = j.as_array() {
            return strings_in(a);
        }
    }
    let mut out: Vec<String> = Vec::new();
    if let Some(c) = payload.get_str("cand") {
        out.push(c);
    }
    proof {
        assert(text::texts(out@) =~= candidates_in(payload@));
    }
    out
}

/// The peer's address on the relay, as its payload writes it.
pub fn peer_relayed(payload: &Json) -> (r: Option<String>)
    ensures
        text::opt_view(r) == json::str_field(payload@, "relayed"@),
{
    payload.get_str("relayed")
}

/// What one side writes into its payloads, the other reads out of them.
pub proof fn law_payload_roundtrip(
    sdp: Seq<char>,
    cands: Seq<Seq<char>>,
    relayed: Option<Seq<char>>,
)
    ensures
        json::str_field(sdp_value(sdp), "sdp"@) == Some(sdp),
        candidates_in(ice_value(cands, relayed)) == cands,
        json::str_field(ice_value(cands, relayed), "relayed"@) == relayed,
{
    reveal_with_fuel(json::first_field, 3);
    reveal_strlit("cands");
    reveal_strlit("relayed");
    let v = ice_value(cands, relayed);
    let fields = v->Obj_0;
    assert("cands"@ != "relayed"@) by {
        assert("cands"@.len() != "relayed"@.len());
    }
    assert(fields.skip(1)[0] == fields[1]);
    lemma_str_items(cands);
}

pub proof fn lemma_str_items(s: Seq<Seq<char>>)
    ensures
        str_items(s.map_values(|t: Seq<char>| Value::Str(t))) == s,
    decreases s.len(),
{
    let m = s.map_values(|t: Seq<char>| Value::Str(t));
    if s.len() > 0 {
        lemma_str_items(s.drop_last());
        assert(m.drop_last() =~= s.drop_last().map_values(|t: Seq<char>| Value::Str(t)));
        assert(s.drop_last().push(s.last()) =~= s);
    } else {
        assert(str_items(m) =~= s);
    }
}

/// What asking to wake a device takes.
#[derive(Debug)]
pub struct WakePlan {
    pub url: String,
    /// How long to wait for an answer.
    pub timeout: Duration,
    pub register: ClientMsg,
    /// To send once the registration went through.
    pub wake: ClientMsg,
}

/// What to do to have the server wake `target_id`.
pub fn request_wake(
    server_base: &str,
    device_id: &str,
    client_secret: &str,
    target_id: &str,
) -> (p: WakePlan)
    ensures
        p.url@ == text::without_end(ws_base(server_base@), '/') + "/signal"@,
        p.timeout.ns() == 8_000_000_000,
        signal::is_register(p.register, device_id@, client_secret@, "controller"@, None, None),
        p.wake matches ClientMsg::Wake { v, target_id: t } && v == signal::PROTOCOL_VERSION && t@
            == target_id@,
{
    WakePlan {
        url: ws_url(server_base),
        timeout: Duration::from_secs(8),
        register: ClientMsg::register(device_id, client_secret, "controller"),
        wake: ClientMsg::wake(target_id),
    }
}

/// The answer to a request to wake a device, if `msg` is it: the status and the number of devices
/// that were asked to help.
pub fn wake_answer(msg: ServerMsg) -> (r: Option<(String, u32)>)
    ensures
        match msg {
            ServerMsg::WakeResult { status, helpers } => r == Some((status, helpers)),
            _ => r is None,
        },
{
    match msg {
        ServerMsg::WakeResult { status, helpers } => Some((status, helpers)),
        _ => None,
    }
}

/// What asking for a connection takes.
#[derive(Debug)]
pub struct ConnectPlan {
    pub url: String,
    /// How long to wait for an answer: a person at the managed device has half a minute.
    pub timeout: Duration,
    pub register: ClientMsg,
    /// To send once the registration went through.
    pub request: ClientMsg,
}

/// What to do to connect to `target_id`.
pub fn connect_plan(
    server_base: &str,
    device_id: &str,
    client_secret: &str,
    target_id: &str,
    password_kind: &str,
) -> (p: ConnectPlan)
    ensures
        p.url@ == text::without_end(ws_base(server_base@), '/') + "/signal"@,
        p.timeout.ns() == 35_000_000_000,
        signal::is_register(p.register, device_id@, client_secret@, "controller"@, None, None),
        signal::is_connect_request(p.request, target_id@, Some(password_kind@)),
{
    ConnectPlan {
        url: ws_url(server_base),
        timeout: Duration::from_secs(35),
        register: ClientMsg::register(device_id, client_secret, "controller"),
        request: ClientMsg::connect_request_kind(target_id, password_kind),
    }
}

/// What the server says to a request to connect.
#[derive(Debug)]
pub enum ConnectReply {
    /// The managed side has accepted.
    Ready { session_id: String, ice_servers: Option<Json> },
    Refused(String),
    /// Not yet an answer.
    Wait,
}

pub fn connect_reply(msg: ServerMsg) -> (r: ConnectReply)
    ensures
        match msg {
            ServerMsg::ConnectReady { session_id, ice_servers, .. } => r == (
            ConnectReply::Ready { session_id, ice_servers }),
            ServerMsg::ConnectErr { code, .. } => r matches ConnectReply::Refused(s) && s@
                == "connect_err "@ + code@,
            _ => r is Wait,
        },
{
    match msg {
        ServerMsg::ConnectReady { session_id, ice_servers, .. } => ConnectReply::Ready {
            session_id,
            ice_servers,
        },
        ServerMsg::ConnectErr { code, .. } => ConnectReply::Refused(
            text::joined("connect_err ", code.as_str()),
        ),
        _ => ConnectReply::Wait,
    }
}

/// The answering side of the exchange of session descriptions: the controller.
#[derive(Debug)]
pub struct Answering {
    pub session_id: String,
    pub own_fp: String,
    pub peer_fp: String,
    pub offered: bool,
    pub got_cand: bool,
}

/// What a message to the answering side calls for.
#[derive(Debug)]
pub enum AnswerStep {
    /// Accept this offer and hand over the answer.
    AcceptOffer { sdp: String },
    /// Add the peer's candidates; permit its address on the relay.
    AddCandidates { cands: Vec<String>, relayed: Option<String> },
    Wait,
    Fail(String),
}

impl Answering {
    pub fn new(session_id: String) -> (a: Answering)
        ensures
            a.session_id == session_id,
            a.own_fp@.len() == 0,
            a.peer_fp@.len() == 0,
            !a.offered && !a.got_cand,
    {
        Answering {
            session_id,
            own_fp: String::new(),
            peer_fp: String::new(),
            offered: false,
            got_cand: false,
        }
    }

    /// Whether offer and candidates have both come.
    pub fn complete(&self) -> (r: bool)
        ensures
            r == (self.offered && self.got_cand),
    {
        self.offered && self.got_cand
    }

    /// Takes a message from the server.
    pub fn on_message(&mut self, msg: &ServerMsg) -> (step: AnswerStep)
        ensures
            final(self).session_id == old(self).session_id,
            final(self).own_fp == old(self).own_fp,
            final(self).offered == old(self).offered,
            match msg {
                ServerMsg::Signal { kind, payload, .. } => {
                    if kind@ == "offer"@ {
                        &&& final(self).got_cand == old(self).got_cand
                        &&& match json::str_field(payload@, "sdp"@) {
                            Some(s) => {
                                &&& step matches AnswerStep::AcceptOffer { sdp } && sdp@ == s
                                &&& final(self).peer_fp@ == fingerprint_of(s)
                            },
                            None => {
                                &&& step matches AnswerStep::Fail(e) && e@ == "no sdp"@
                                &&& final(self).peer_fp == old(self).peer_fp
                            },
                        }
                    } else if kind@ == "ice"@ {
                        &&& final(self).got_cand
                        &&& final(self).peer_fp == old(self).peer_fp
                        &&& step matches AnswerStep::AddCandidates { cands, relayed }
                        &&& text::texts(cands@) == candidates_in(payload@)
                        &&& text::opt_view(relayed) == json::str_field(payload@, "relayed"@)
                    } else {
                        &&& step is Wait
                        &&& *final(self) == *old(self)
                    }
                },
                _ => step is Wait && *final(self) == *old(self),
            },
    {
        match msg {
            ServerMsg::Signal { kind, payload, .. } => {
                if text::same(kind.as_str(), "offer") {
                    match payload.get_str("sdp") {
                        Some(sdp) => {
                            self.peer_fp = fingerprint(sdp.as_str());
                            AnswerStep::AcceptOffer { sdp }
                        },
                        None => AnswerStep::Fail("no sdp".to_owned()),
                    }
                } else if text::same(kind.as_str(), "ice") {
                    proof {
                        reveal_strlit("offer");
                        reveal_strlit("ice");
                        assert("offer"@.len() != "ice"@.len());
                    }
                    self.got_cand = true;
                    AnswerStep::AddCandidates {
                        cands: peer_candidates(payload),
                        relayed: peer_relayed(payload),
                    }
                } else {
                    AnswerStep::Wait
                }
            },
            _ => AnswerStep::Wait,
        }
    }

    /// Takes the answer to the offer: the two messages to send, answer and own candidates.
    pub fn on_answer(&mut self, answer: &str, cands: &Vec<String>, relayed: Option<&str>) -> (r: (
        ClientMsg,
        ClientMsg,
    ))
        ensures
            final(self).offered,
            final(self).own_fp@ == fingerprint_of(answer@),
            final(self).peer_fp == old(self).peer_fp,
            final(self).got_cand == old(self).got_cand,
            final(self).session_id == old(self).session_id,
            signal::is_signal(r.0, old(self).session_id@, "answer"@, sdp_value(answer@)),
            signal::is_signal(
                r.1,
                old(self).session_id@,
                "ice"@,
                ice_value(
                    text::texts(cands@),
                    match relayed {
                        Some(s) => Some(s@),
                        None => None,
                    },
                ),
            ),
    {
        self.own_fp = fingerprint(answer);
        self.offered = true;
        (
            ClientMsg::signal(self.session_id.as_str(), "answer", sdp_payload(answer)),
            ClientMsg::signal(self.session_id.as_str(), "ice", ice_payload(cands, relayed)),
        )
    }
}

/// How long the handshake may take.
pub const HANDSHAKE_NANOS: u128 = 30_000_000_000;

/// The handshake over a channel that is coming up: started when the channel opens, ended when it
/// is confirmed, has failed or has taken too long. Messages that are none of the handshake are
/// kept for the session.
pub struct Establishing {
    password: Vec<u8>,
    own_fp: String,
    peer_fp: String,
    handshake: Option<Handshake>,
    deferred: Vec<Vec<u8>>,
    deadline: Duration,
}

/// Where establishing stands.
#[verifier::ext_equal]
pub struct Progress {
    pub password: Seq<u8>,
    pub own_fp: Seq<u8>,
    pub peer_fp: Seq<u8>,
    pub side: Option<session::Side>,
    pub deferred: Seq<Seq<u8>>,
    pub deadline: int,
}

/// Why no session came about.
#[derive(Clone, Copy, Debug, PartialEq, Eq, Structural)]
pub enum SetupError {
    NoChannel,
    /// The handshake has failed.
    Refused,
    Timeout,
    /// The transport broke down.
    Lost,
}

impl SetupError {
    pub open spec fn text(&self) -> Seq<char> {
        match self {
            SetupError::NoChannel => "no channel"@,
            SetupError::Refused => "session handshake FAILED (wrong password or MITM)"@,
            SetupError::Timeout => "session establish timeout"@,
            SetupError::Lost => "connection lost during handshake"@,
        }
    }

    pub fn message(&self) -> (s: &'static str)
        ensures
            s@ == self.text(),
    {
        match self {
            SetupError::NoChannel => "no channel",
            SetupError::Refused => "session handshake FAILED (wrong password or MITM)",
            SetupError::Timeout => "session establish timeout",
            SetupError::Lost => "connection lost during handshake",
        }
    }
}

/// What establishing has come to.
#[derive(Debug)]
pub enum Established {
    /// The session key.
    Confirmed([u8; 32]),
    Failed(SetupError),
    /// Not yet.
    Pending,
}

impl View for Establishing {
    type V = Progress;

    closed spec fn view(&self) -> Progress {
        Progress {
            password: self.password@,
            own_fp: vstd::utf8::encode_utf8(self.own_fp@),
            peer_fp: vstd::utf8::encode_utf8(self.peer_fp@),
            side: match self.handshake {
                Some(h) => Some(h@),
                None => None,
            },
            deferred: media::contents(self.deferred@),
            deadline: self.deadline.ns(),
        }
    }
}

impl Establishing {
    pub fn new(password: &[u8], own_fp: &str, peer_fp: &str, now: Duration) -> (e: Establishing)
        ensures
            e@ == (Progress {
                password: password@,
                own_fp: own_fp.spec_bytes(),
                peer_fp: peer_fp.spec_bytes(),
                side: None,
                deferred: Seq::empty(),
                deadline: crate::time::later(now.ns(), HANDSHAKE_NANOS as int),
            }),
    {
        let e = Establishing {
            password: bytes::copy_bytes(password),
            own_fp: own_fp.to_owned(),
            peer_fp: peer_fp.to_owned(),
            handshake: None,
            deferred: Vec::new(),
            deadline: now.plus(Duration { nanos: HANDSHAKE_NANOS }),
        };
        proof {
            assert(e@.deferred =~= Seq::<Seq<u8>>::empty());
        }
        e
    }

    /// Where the handshake stands. A confirmed or failed one counts even when time is up.
    pub fn state(&self, channel_open: bool, now: Duration) -> (r: Established)
        ensures
            match self@.side {
                Some(session::Side { phase: session::Phase::Confirmed(key), .. }) => {
                    if channel_open {
                        r matches Established::Confirmed(k) && k@ == key
                    } else {
                        r == Established::Failed(SetupError::NoChannel)
                    }
                },
                Some(session::Side { phase: session::Phase::Failed, .. }) => {
                    r == Established::Failed(SetupError::Refused)
                },
                _ => {
                    if now.ns() > self@.deadline {
                        r == Established::Failed(SetupError::Timeout)
                    } else {
                        r is Pending
                    }
                },
            },
    {
        if let Some(h) = &self.handshake {
            if let Some(key) = h.confirmed_key() {
                return if channel_open {
                    Established::Confirmed(*key)
                } else {
                    Established::Failed(SetupError::NoChannel)
                };
            }
            if h.is_failed() {
                return Established::Failed(SetupError::Refused);
            }
        }
        if now.exceeds(self.deadline) {
            Established::Failed(SetupError::Timeout)
        } else {
            Established::Pending
        }
    }

    /// Starts the handshake once the channel is open: the message to send. Nothing when it was
    /// started before or the channel is not open. Fails only where the system gives no random
    /// bytes.
    pub fn begin(&mut self, channel_open: bool) -> (r: Result<Option<SessionMessage>, CryptoError>)
        ensures
            if channel_open && old(self)@.side is None {
                match r {
                    Ok(m) => {
                        &&& m matches Some(msg)
                        &&& msg@ matches session::Message::Pake(sent)
                        &&& crypto::pake_accepts(sent)
                        &&& final(self)@ == (Progress {
                            side: Some(
                                session::started(
                                    old(self)@.password,
                                    old(self)@.own_fp,
                                    old(self)@.peer_fp,
                                    sent,
                                ),
                            ),
                            ..old(self)@
                        })
                    },
                    Err(e) => e == CryptoError::Random && final(self)@ == old(self)@,
                }
            } else {
                r matches Ok(None) && final(self)@ == old(self)@
            },
    {
        if !channel_open || self.handshake.is_some() {
            return Ok(None);
        }
        match Handshake::start(self.password.as_slice(), self.own_fp.clone(), self.peer_fp.clone()) {
            Ok((h, msg)) => {
                self.handshake = Some(h);
                Ok(Some(msg))
            },
            Err(e) => Err(e),
        }
    }

    /// Takes a message from the channel: one of the handshake, or else its bytes. Gives the answer
    /// to send.
    pub fn on_message(
        &mut self,
        channel_open: bool,
        parsed: Option<SessionMessage>,
        raw: Vec<u8>,
    ) -> (answer: Option<SessionMessage>)
        ensures
            match parsed {
                None => {
                    &&& answer is None
                    &&& final(self)@ == (Progress {
                        deferred: old(self)@.deferred.push(raw@),
                        ..old(self)@
                    })
                },
                Some(m) => match old(self)@.side {
                    Some(side) => if channel_open {
                        &&& final(self)@ == (Progress {
                            side: Some(session::react(side, m@).0),
                            ..old(self)@
                        })
                        &&& match answer {
                            Some(a) => session::react(side, m@).1 == Some(a@),
                            None => session::react(side, m@).1 is None,
                        }
                    } else {
                        answer is None && final(self)@ == old(self)@
                    },
                    None => answer is None && final(self)@ == old(self)@,
                },
            },
    {
        match parsed {
            None => {
                let ghost before = self.deferred@;
                self.deferred.push(raw);
                proof {
                    assert(media::contents(self.deferred@) =~= media::contents(before).push(raw@));
                }
                None
            },
            Some(m) => {
                if !channel_open {
                    return None;
                }
                let mut hs: Option<Handshake> = None;
                std::mem::swap(&mut hs, &mut self.handshake);
                match hs {
                    Some(h) => {
                        let mut h = h;
                        let answer: Option<SessionMessage> = h.on_message(m);
                        self.handshake = Some(h);
                        answer
                    },
                    None => None,
                }
            },
        }
    }

    /// The messages that were kept for the session.
    pub fn into_deferred(self) -> (v: Vec<Vec<u8>>)
        ensures
            media::contents(v@) == self@.deferred,
    {
        self.deferred
    }
}

/// A server's web page and its signalling socket have one host: a page over TLS has its socket over
/// TLS, and one without has it without. A slash at the end makes no difference.
pub proof fn law_socket_of_the_page(
    host: Seq<char>,
    secure: &str,
    secure_url: String,
    plain: &str,
    plain_url: String,
    slashed: &str,
    slashed_url: String,
)
    requires
        host.len() > 0,
        host.last() != '/',
        secure@ == "https://"@ + host,
        plain@ == "http://"@ + host,
        slashed@ == "https://"@ + host.push('/'),
        call_ensures(ws_url, (secure,), secure_url),
        call_ensures(ws_url, (plain,), plain_url),
        call_ensures(ws_url, (slashed,), slashed_url),
    ensures
        secure_url@ == "wss://"@ + host + "/signal"@,
        plain_url@ == "ws://"@ + host + "/signal"@,
        slashed_url@ == secure_url@,
{
    reveal_strlit("https://");
    reveal_strlit("http://");
    text::lemma_prefix_of_sum("https://"@, host);
    text::lemma_prefix_of_sum("http://"@, host);
    text::lemma_prefix_of_sum("https://"@, host.push('/'));
    assert(!text::has_prefix(plain@, "https://"@)) by {
        if text::has_prefix(plain@, "https://"@) {
            assert(plain@.take(8)[4] == 's');
            assert(plain@[4] == ':');
        }
    }
    let a = "wss://"@ + host;
    assert(a.last() == host.last());
    assert(text::without_end(a, '/') == a);
    let b = "ws://"@ + host;
    assert(b.last() == host.last());
    assert(text::without_end(b, '/') == b);
    let c = "wss://"@ + host.push('/');
    assert(c.last() == '/');
    assert(c.drop_last() =~= a);
    assert(text::without_end(c, '/') == text::without_end(a, '/'));
}

/// The fingerprint is what follows `a=fingerprint:` in the first line that has it. A line before it
/// makes no difference; what ends the line, and what follows it, do not belong to it.
pub proof fn law_fingerprint_is_found(
    fp: Seq<char>,
    tail: Seq<char>,
    rest: Seq<char>,
    line: Seq<char>,
    sdp: &str,
    found: String,
    longer: &str,
    found_later: String,
)
    requires
        fp.len() > 0,
        !text::is_space(fp[0]),
        !text::is_space(fp.last()),
        !fp.contains('\n'),
        !tail.contains('\n'),
        forall|i: int| 0 <= i < tail.len() ==> text::is_space(#[trigger] tail[i]),
        sdp@ == ("a=fingerprint:"@ + fp) + tail + seq!['\n'] + rest,
        call_ensures(fingerprint, (sdp,), found),
        !line.contains('\n'),
        !text::has_prefix(text::trim(line), "a=fingerprint:"@),
        longer@ == line + seq!['\n'] + sdp@,
        call_ensures(fingerprint, (longer,), found_later),
    ensures
        found@ == fp,
        found_later@ == fp,
{
    reveal_strlit("a=fingerprint:");
    let prefix = "a=fingerprint:"@;
    let inner = prefix + fp;
    let first = inner + tail;
    assert(first =~= prefix + fp + tail);
    assert(!first.contains('\n')) by {
        if first.contains('\n') {
            let k = choose|k: int| 0 <= k < first.len() && first[k] == '\n';
            if k >= inner.len() {
                assert(tail[k - inner.len()] == '\n');
            } else if k >= prefix.len() {
                assert(fp[k - prefix.len()] == '\n');
            } else {
                assert(prefix[k] == '\n');
            }
        }
    }
    text::lemma_split_first(first, '\n', rest);
    assert(inner[0] == prefix[0]);
    assert(inner.last() == fp.last());
    text::lemma_trim_tail(inner, tail);
    text::lemma_prefix_of_sum(prefix, fp);
    assert(fp + Seq::<char>::empty() =~= fp);
    text::lemma_trim_tail(fp, Seq::empty());
    let lines = text::split(sdp@, '\n');
    assert(lines[0] == first);
    assert(fingerprint_of(sdp@) == fp);
    text::lemma_split_first(line, '\n', sdp@);
    let all = text::split(longer@, '\n');
    assert(all[0] == line);
    assert(all.skip(1) =~= lines);
}

/// The relay to use is the first address over UDP of the first server: who to be there, with which
/// credential, and the host with its port, without what follows a question mark.
pub proof fn law_relay_is_found(
    ice: &Json,
    r: Option<(String, String, String)>,
    server: Value,
    username: Seq<char>,
    credential: Seq<char>,
    urls: Seq<Seq<char>>,
    i: int,
    host: Seq<char>,
    tail: Seq<char>,
)
    requires
        call_ensures(parse_turn_endpoint, (ice,), r),
        ice@ matches Value::Arr(list) && list.len() > 0 && list[0] == server,
        json::field(server, "username"@) == Some(Value::Str(username)),
        json::field(server, "credential"@) == Some(Value::Str(credential)),
        json::field(server, "urls"@) == Some(json::text_array(urls)),
        0 <= i < urls.len(),
        urls[i] == "turn:"@ + (host + tail),
        !text::occurs(urls[i], "transport=tcp"@),
        !host.contains('?'),
        tail.len() > 0 ==> tail[0] == '?',
        forall|j: int|
            0 <= j < i ==> !text::has_prefix(#[trigger] urls[j], "turn:"@) || text::occurs(
                urls[j],
                "transport=tcp"@,
            ),
    ensures
        r matches Some((u, c, h)) && u@ == username && c@ == credential && h@ == host,
{
    lemma_str_items(urls);
    text::lemma_prefix_of_sum("turn:"@, host + tail);
    lemma_first_udp_is(urls, i);
    let s = host + tail;
    let n = host.len() as int;
    assert forall|j: int| 0 <= j < n implies s[j] != '?' by {
        assert(host.contains(host[j]));
    }
    text::lemma_before(s, '?', n);
    assert(s.take(n) =~= host);
}

proof fn lemma_first_udp_is(urls: Seq<Seq<char>>, i: int)
    requires
        0 <= i < urls.len(),
        is_udp_turn(urls[i]),
        forall|j: int| 0 <= j < i ==> !is_udp_turn(#[trigger] urls[j]),
    ensures
        first_udp_turn(urls) == Some(urls[i]),
    decreases i,
{
    if i > 0 {
        assert(!is_udp_turn(urls[0]));
        let rest = urls.skip(1);
        assert forall|j: int| 0 <= j < i - 1 implies !is_udp_turn(#[trigger] rest[j]) by {
            assert(rest[j] == urls[j + 1]);
        }
        assert(rest[i - 1] == urls[i]);
        lemma_first_udp_is(rest, i - 1);
    }
}

/// The host's own address is offered unless the relay is to be used alone and there is one; the
/// address on the relay is offered whenever there is one. So something is always offered.
pub proof fn law_candidates(relay: &Relay, force_relay: bool, p: CandidatePlan)
    requires
        call_ensures(candidate_plan, (relay, force_relay), p),
    ensures
        p.relayed == relay.my_relayed,
        p.host || p.relayed is Some,
        !force_relay ==> p.host,
        force_relay && p.relayed is Some ==> !p.host,
{
}

/// Waking and connecting go over the server's socket, as a controller, and name the device that is
/// meant; an answer to a request to connect is waited for longer than a person has to agree.
pub proof fn law_plans(
    base: &str,
    id: &str,
    secret: &str,
    target: &str,
    kind: &str,
    wake: WakePlan,
    connect: ConnectPlan,
    url: String,
)
    requires
        call_ensures(request_wake, (base, id, secret, target), wake),
        call_ensures(connect_plan, (base, id, secret, target, kind), connect),
        call_ensures(ws_url, (base,), url),
    ensures
        wake.url@ == url@ && connect.url@ == url@,
        wake.timeout.ns() == 8_000_000_000,
        connect.timeout.ns() == 35_000_000_000,
        connect.timeout.ns() > crate::host::DECISION_NANOS,
        wake.register matches ClientMsg::Register { device_id, client_secret, client_kind, .. }
            && device_id@ == id@ && client_secret@ == secret@ && client_kind@ == "controller"@,
        connect.register matches ClientMsg::Register { device_id, client_secret, client_kind, .. }
            && device_id@ == id@ && client_secret@ == secret@ && client_kind@ == "controller"@,
        wake.wake matches ClientMsg::Wake { target_id, .. } && target_id@ == target@,
        connect.request matches ClientMsg::ConnectRequest { target_id, password_kind, .. } && target_id@
            == target@ && password_kind is Some && (password_kind->0)@ == kind@,
{
}

/// A connection is ready exactly when the server says so, and refused exactly when it says that.
pub proof fn law_connect_reply(msg: ServerMsg, r: ConnectReply, woken: Option<(String, u32)>)
    requires
        call_ensures(connect_reply, (msg,), r),
        call_ensures(wake_answer, (msg,), woken),
    ensures
        r is Ready <==> msg is ConnectReady,
        r is Refused <==> msg is ConnectErr,
        msg matches ServerMsg::ConnectReady { session_id, ice_servers, .. } ==> r == (
        ConnectReply::Ready { session_id, ice_servers }),
        woken is Some <==> msg is WakeResult,
        msg matches ServerMsg::WakeResult { status, helpers } ==> woken == Some((status, helpers)),
{
}

/// The answering side takes the offer as it is written, and its fingerprint as the peer's; answers
/// it to the session's peer, with its own candidates; and is complete once the offer was answered
/// and candidates have come.
pub proof fn law_answering(
    session: String,
    fresh: Answering,
    a: &mut Answering,
    msg: ServerMsg,
    step: AnswerStep,
    b: &mut Answering,
    answer: &str,
    own: &Vec<String>,
    relayed: Option<&str>,
    r: (ClientMsg, ClientMsg),
    done: bool,
)
    requires
        call_ensures(Answering::new, (session,), fresh),
        call_ensures(Answering::on_message, (a, &msg), step),
        call_ensures(Answering::on_answer, (b, answer, own, relayed), r),
        call_ensures(Answering::complete, (final(b),), done),
    ensures
        fresh.session_id@ == session@ && !fresh.offered && !fresh.got_cand,
        msg matches ServerMsg::Signal { kind, payload, .. } ==> {
            &&& kind@ == "offer"@ ==> match json::str_field(payload@, "sdp"@) {
                Some(t) => {
                    &&& step matches AnswerStep::AcceptOffer { sdp }
                    &&& sdp@ == t
                    &&& final(a).peer_fp@ == fingerprint_of(t)
                },
                None => step is Fail,
            }
            &&& kind@ == "ice"@ ==> {
                &&& step matches AnswerStep::AddCandidates { cands, relayed: at }
                &&& text::texts(cands@) == candidates_in(payload@)
                &&& text::opt_view(at) == json::str_field(payload@, "relayed"@)
                &&& final(a).got_cand
            }
            &&& step is Wait <==> kind@ != "offer"@ && kind@ != "ice"@
        },
        !(msg is Signal) ==> step is Wait,
        step is Wait ==> *final(a) == *old(a),
        final(a).session_id == old(a).session_id,
        !(step is AddCandidates) ==> final(a).got_cand == old(a).got_cand,
        r.0 matches ClientMsg::Signal { session_id, kind, payload, .. } && session_id@ == old(
            b,
        ).session_id@ && kind@ == "answer"@ && json::str_field(payload@, "sdp"@) == Some(answer@),
        r.1 matches ClientMsg::Signal { session_id, kind, payload, .. } && session_id@ == old(
            b,
        ).session_id@ && kind@ == "ice"@ && candidates_in(payload@) == text::texts(own@)
            && json::str_field(payload@, "relayed"@) == (match relayed {
            Some(t) => Some(t@),
            None => None,
        }),
        final(b).own_fp@ == fingerprint_of(answer@),
        done <==> old(b).got_cand,
{
    reveal_strlit("offer");
    reveal_strlit("ice");
    assert("offer"@.len() != "ice"@.len());
    law_payload_roundtrip(
        answer@,
        text::texts(own@),
        match relayed {
            Some(t) => Some(t@),
            None => None,
        },
    );
}

/// A session is established only with a key that the handshake has confirmed, over a channel that
/// is open; a handshake that has failed is no session; one that is not through after half a minute
/// is given up, and not before.
pub proof fn law_established(
    password: &[u8],
    own: &str,
    peer: &str,
    start: Duration,
    fresh: Establishing,
    at: Duration,
    early: Established,
    e: &Establishing,
    open: bool,
    now: Duration,
    r: Established,
)
    requires
        call_ensures(Establishing::new, (password, own, peer, start), fresh),
        call_ensures(Establishing::state, (&fresh, true, at), early),
        call_ensures(Establishing::state, (e, open, now), r),
        start.ns() + 30_000_000_000 <= u128::MAX,
    ensures
        early is Failed <==> at.ns() - start.ns() > 30_000_000_000,
        !(early is Confirmed),
        r matches Established::Confirmed(key) ==> open && e@.side is Some && (e@.side->0).phase
            == session::Phase::Confirmed(key@),
        e@.side is Some && (e@.side->0).phase is Confirmed && open ==> r is Confirmed,
        e@.side is Some && (e@.side->0).phase is Failed ==> r is Failed,
        (e@.side is None || !((e@.side->0).phase is Confirmed || (e@.side->0).phase is Failed)) && now.ns()
            <= e@.deadline ==> r is Pending,
{
}

/// What comes before the handshake is through, and is none of its messages, is kept for the
/// session, in order.
pub proof fn law_messages_are_kept(
    e: &mut Establishing,
    open: bool,
    raw: Vec<u8>,
    answer: Option<SessionMessage>,
    kept: Vec<Vec<u8>>,
    f: &mut Establishing,
    m: SessionMessage,
    other: Vec<u8>,
    reply: Option<SessionMessage>,
)
    requires
        call_ensures(Establishing::on_message, (e, open, None, raw), answer),
        call_ensures(Establishing::into_deferred, (*final(e),), kept),
        call_ensures(Establishing::on_message, (f, open, Some(m), other), reply),
    ensures
        answer is None,
        final(e)@.side == old(e)@.side && final(e)@.deadline == old(e)@.deadline,
        media::contents(kept@) == old(e)@.deferred.push(raw@),
        final(f)@.deferred == old(f)@.deferred,
        !open || old(f)@.side is None ==> reply is None && final(f)@ == old(f)@,
{
}

/// A peer's candidates are those of its list, or else the single one that it names, or none.
pub proof fn law_candidates_are_read(
    payload: &Json,
    out: Vec<String>,
    all: Seq<Seq<char>>,
    one: Seq<char>,
)
    requires
        call_ensures(peer_candidates, (payload,), out),
    ensures
        json::field(payload@, "cands"@) == Some(json::text_array(all)) ==> text::texts(out@) == all,
        json::field(payload@, "cands"@) is None && json::field(payload@, "cand"@) == Some(
            Value::Str(one),
        ) ==> text::texts(out@) == seq![one],
        json::field(payload@, "cands"@) is None && json::field(payload@, "cand"@) is None ==> out@.len()
            == 0,
{
    lemma_str_items(all);
    assert(text::texts(out@).len() == out@.len());
}

/// The handshake begins once, when the channel is open, with the password and the fingerprints that
/// were given; before that, and again, nothing is begun.
pub proof fn law_handshake_begins_once(
    password: &[u8],
    own: &str,
    peer: &str,
    now: Duration,
    fresh: Establishing,
    e: &mut Establishing,
    open: bool,
    r: Result<Option<SessionMessage>, CryptoError>,
    f: &mut Establishing,
    again: Result<Option<SessionMessage>, CryptoError>,
)
    requires
        call_ensures(Establishing::new, (password, own, peer, now), fresh),
        old(e)@ == fresh@,
        call_ensures(Establishing::begin, (e, open), r),
        old(f)@ == final(e)@,
        r is Ok,
        call_ensures(Establishing::begin, (f, open), again),
    ensures
        r matches Ok(m) && (m is Some <==> open),
        !open ==> final(e)@ == old(e)@,
        open ==> {
            &&& final(e)@.side matches Some(side)
            &&& side.own_fp == own.spec_bytes() && side.peer_fp == peer.spec_bytes()
            &&& side.phase matches session::Phase::AwaitingPake { password: p, .. }
            &&& p == password@
        },
        again matches Ok(m) && m is None,
        final(f)@ == final(e)@,
{
}

/// What one side puts into its payloads, the other takes out of them.
pub proof fn law_payloads_are_read(
    sdp: &str,
    offer: Json,
    own: &Vec<String>,
    relayed: Option<&str>,
    ice: Json,
    cands: Vec<String>,
    at: Option<String>,
)
    requires
        call_ensures(sdp_payload, (sdp,), offer),
        call_ensures(ice_payload, (own, relayed), ice),
        call_ensures(peer_candidates, (&ice,), cands),
        call_ensures(peer_relayed, (&ice,), at),
    ensures
        json::str_field(offer@, "sdp"@) == Some(sdp@),
        cands@.len() == own@.len(),
        text::texts(cands@) == text::texts(own@),
        at is Some <==> relayed is Some,
        at is Some ==> (at->0)@ == (relayed->0)@,
{
    law_payload_roundtrip(
        sdp@,
        text::texts(own@),
        match relayed {
            Some(t) => Some(t@),
            None => None,
        },
    );
    assert(text::texts(cands@).len() == cands@.len());
    assert(text::texts(own@).len() == own@.len());
}

/// Every way in which no session comes about has a text of its own.
pub proof fn law_failures_are_told_apart(
    a: SetupError,
    s: &'static str,
    b: SetupError,
    t: &'static str,
)
    requires
        call_ensures(SetupError::message, (&a,), s),
        call_ensures(SetupError::message, (&b,), t),
        s@ == t@,
    ensures
        a == b,
{
    reveal_strlit("no channel");
    reveal_strlit("session handshake FAILED (wrong password or MITM)");
    reveal_strlit("session establish timeout");
    reveal_strlit("connection lost during handshake");
    assert("no channel"@.len() == 10);
    assert("session handshake FAILED (wrong password or MITM)"@.len() == 49);
    assert("session establish timeout"@.len() == 25);
    assert("connection lost during handshake"@.len() == 32);
}

} // verus!
