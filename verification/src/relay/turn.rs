//! A TURN client: allocating a relayed address, permissions, refreshes, and the traffic through
//! the relay.

use crate::addr::SocketAddr;
use crate::bytes;
use crate::crypto;
use crate::relay::stun;
use crate::relay::stun::{RawMessage, StunClass, StunMessage};
use crate::relay::{Origin, Relay};
use crate::text;
use vstd::prelude::*;
use vstd::string::*;

verus! {

#[derive(Debug)]
pub struct TurnError(pub String);

impl TurnError {
    pub fn message(&self) -> (s: String)
        ensures
            s@ == "turn error: "@ + self.0@,
    {
        text::joined("turn error: ", self.0.as_str())
    }
}

/// The protocol number of UDP.
pub const UDP: u8 = 17;

/// The lifetime of an allocation whose server names none, in seconds.
pub const DEFAULT_LIFETIME: u32 = 600;

/// The error code of a nonce that is no longer valid.
pub const STALE_NONCE: u16 = 438;

/// The attribute that asks for a relayed address of UDP.
pub open spec fn transport_attr() -> (u16, Seq<u8>) {
    (stun::TRANSPORT_ATTR, seq![UDP, 0u8, 0u8, 0u8])
}

fn transport_value() -> (v: Vec<u8>)
    ensures
        v@ == transport_attr().1,
{
    let mut v: Vec<u8> = Vec::new();
    v.push(UDP);
    v.push(0);
    v.push(0);
    v.push(0);
    proof {
        assert(v@ =~= transport_attr().1);
    }
    v
}

pub open spec fn lifetime_attr(seconds: u32) -> (u16, Seq<u8>) {
    (stun::LIFETIME_ATTR, bytes::be_bytes(seconds as nat, 4))
}

pub open spec fn peer_attr(peer: SocketAddr, transaction: Seq<u8>) -> (u16, Seq<u8>) {
    (stun::PEER_ATTR, stun::address_value(peer, transaction))
}

/// The request that the server answers with its realm and a nonce.
pub open spec fn challenge(transaction: Seq<u8>) -> stun::Raw {
    stun::Raw {
        class: StunClass::Request,
        method: stun::ALLOCATE,
        transaction,
        attrs: seq![transport_attr()],
    }
}

/// The second request, with the credentials that the challenge asked for.
pub open spec fn allocate_message(transaction: Seq<u8>, c: stun::Credentials) -> stun::Raw {
    stun::authenticated(stun::ALLOCATE, transaction, transport_attr(), c)
}

/// The request that prolongs an allocation.
pub open spec fn refresh_message(
    transaction: Seq<u8>,
    seconds: u32,
    c: stun::Credentials,
) -> stun::Raw {
    stun::authenticated(stun::REFRESH, transaction, lifetime_attr(seconds), c)
}

/// The request that lets the relay pass on traffic from `peer`.
pub open spec fn permission_message(
    transaction: Seq<u8>,
    peer: SocketAddr,
    c: stun::Credentials,
) -> stun::Raw {
    stun::authenticated(stun::CREATE_PERMISSION, transaction, peer_attr(peer, transaction), c)
}

/// An indication of this method about data of, or for, a peer.
pub open spec fn indication(
    method: u16,
    transaction: Seq<u8>,
    peer: SocketAddr,
    payload: Seq<u8>,
) -> stun::Raw {
    stun::Raw {
        class: StunClass::Indication,
        method,
        transaction,
        attrs: seq![peer_attr(peer, transaction), (stun::DATA_ATTR, payload)],
    }
}

/// The number of bytes that one indication about this peer can carry.
pub open spec fn data_limit(peer: SocketAddr) -> nat {
    match peer {
        SocketAddr::V4(..) => 65_516,
        SocketAddr::V6(..) => 65_504,
    }
}

/// Whether these bytes frame this message.
pub open spec fn frames(b: Seq<u8>, m: stun::Raw) -> bool {
    b == stun::framing(m) && stun::framed(b) == Some(m)
}

/// The identifier of a new transaction, from the system's secure generator.
pub fn new_transaction() -> (t: Result<[u8; 12], TurnError>)
    ensures
        t matches Err(e) ==> e.0@ == "OS CSPRNG failed"@,
{
    transaction_from_bytes(crypto::random_bytes(12))
}

/// The transaction that these random bytes name; an error where the generator gave none.
pub fn transaction_from_bytes(random: Option<Vec<u8>>) -> (t: Result<[u8; 12], TurnError>)
    requires
        random matches Some(v) ==> v@.len() == 12,
    ensures
        match random {
            Some(v) => t matches Ok(id) && id@ == v@,
            None => t matches Err(e) && e.0@ == "OS CSPRNG failed"@,
        },
{
    match random {
        Some(v) => {
            let mut id: [u8; 12] = [0u8; 12];
            let mut i: usize = 0;
            while i < 12
                invariant
                    v@.len() == 12,
                    i <= 12,
                    forall|j: int| 0 <= j < i ==> id@[j] == v@[j],
                decreases 12 - i,
            {
                id[i] = v[i];
                i += 1;
            }
            proof {
                assert(id@ =~= v@);
            }
            Ok(id)
        },
        None => Err(TurnError("OS CSPRNG failed".to_owned())),
    }
}

pub open spec fn code_of(m: stun::Fields) -> u16 {
    match m.error_code {
        Some(c) => c,
        None => 0,
    }
}

/// What a refused challenge says.
pub open spec fn no_realm_text(m: stun::Fields) -> Seq<char> {
    "no REALM in challenge (class="@ + m.class.text() + ", error_code="@ + text::decimal(
        code_of(m) as nat,
    ) + ")"@
}

/// What a refused request says.
pub open spec fn rejected_text(what: Seq<char>, m: stun::Fields) -> Seq<char> {
    what + " rejected (class="@ + m.class.text() + ", code="@ + text::decimal(code_of(m) as nat)
        + ")"@
}

fn error_text(before: &str, class: &StunClass, between: &str, code: u16) -> (s: String)
    ensures
        s@ == before@ + class.text() + between@ + text::decimal(code as nat) + ")"@,
{
    let mut s: String = before.to_owned();
    s.append(class.name());
    s.append(between);
    let digits: String = text::to_decimal(code as u64);
    s.append(digits.as_str());
    s.append(")");
    s
}

fn code(m: &StunMessage) -> (c: u16)
    ensures
        c == code_of(m@),
{
    match m.error_code {
        Some(c) => c,
        None => 0,
    }
}

fn rejected(what: &str, m: &StunMessage) -> (e: TurnError)
    ensures
        e.0@ == rejected_text(what@, m@),
{
    let before: String = text::joined(what, " rejected (class=");
    let s: String = error_text(before.as_str(), &m.class, ", code=", code(m));
    proof {
        assert(s@ =~= rejected_text(what@, m@));
    }
    TurnError(s)
}

/// An allocation on a TURN server, with what later requests need.
#[derive(Debug)]
pub struct TurnClient {
    pub server: SocketAddr,
    pub relayed: SocketAddr,
    pub username: String,
    pub password: String,
    pub realm: String,
    pub nonce: String,
    /// In seconds.
    pub lifetime: u32,
}

/// An allocation in progress.
#[derive(Debug)]
pub enum Allocation {
    /// The challenge is out.
    Challenged { server: SocketAddr, username: String, password: String },
    /// The authenticated request is out.
    Requested {
        server: SocketAddr,
        username: String,
        password: String,
        realm: String,
        nonce: String,
    },
}

/// What follows a reply to an allocation in progress.
#[derive(Debug)]
pub enum AllocationStep {
    /// Send this and hand over its reply.
    Send(Allocation, Vec<u8>),
    Done(TurnClient),
    Failed(TurnError),
}

/// Whether this step follows this reply, when `transaction` names the request that it may send. The
/// challenge's reply must name a realm and a nonce, which the second request repeats; the reply to
/// that must be a success and name the relayed address.
pub open spec fn follows(
    a: Allocation,
    reply: stun::Fields,
    transaction: Seq<u8>,
    step: AllocationStep,
) -> bool {
    match a {
        Allocation::Challenged { server, username, password } => {
            match (reply.realm, reply.nonce) {
                (None, _) => step matches AllocationStep::Failed(e) && e.0@ == no_realm_text(reply),
                (Some(_), None) => step matches AllocationStep::Failed(e) && e.0@
                    == "no NONCE in challenge"@,
                (Some(realm), Some(nonce)) => {
                    let c = stun::Credentials {
                        username: username@,
                        password: password@,
                        realm,
                        nonce,
                    };
                    if stun::fits(c) {
                        &&& step matches AllocationStep::Send(next, req)
                        &&& next matches Allocation::Requested {
                            server: s,
                            username: u,
                            password: p,
                            realm: r,
                            nonce: n,
                        }
                        &&& s == server && u@ == username@ && p@ == password@ && r@ == realm && n@
                            == nonce
                        &&& frames(req@, allocate_message(transaction, c))
                    } else {
                        step is Failed
                    }
                },
            }
        },
        Allocation::Requested { server, username, password, realm, nonce } => {
            if reply.class != StunClass::SuccessResponse {
                step matches AllocationStep::Failed(e) && e.0@ == rejected_text("Allocate"@, reply)
            } else {
                match reply.relayed {
                    None => step matches AllocationStep::Failed(e) && e.0@
                        == "no XOR-RELAYED-ADDRESS"@,
                    Some(relayed) => {
                        &&& step matches AllocationStep::Done(c)
                        &&& c.server == server && c.relayed == relayed
                        &&& c.lifetime == (match reply.lifetime {
                            Some(l) => l,
                            None => DEFAULT_LIFETIME,
                        })
                        &&& c.credentials() == (stun::Credentials {
                            username: username@,
                            password: password@,
                            realm: realm@,
                            nonce: nonce@,
                        })
                    },
                }
            }
        },
    }
}

impl Allocation {
    /// Starts an allocation: the challenge to send.
    pub fn start(
        server: SocketAddr,
        username: &str,
        password: &str,
        transaction: [u8; 12],
    ) -> (r: (Allocation, Vec<u8>))
        ensures
            r.0 matches Allocation::Challenged { server: s, username: u, password: p } && s
                == server && u@ == username@ && p@ == password@,
            frames(r.1@, challenge(transaction@)),
    {
        let mut attrs: Vec<(u16, Vec<u8>)> = Vec::new();
        attrs.push((stun::TRANSPORT_ATTR, transport_value()));
        let req = RawMessage {
            class: StunClass::Request,
            method: stun::ALLOCATE,
            transaction,
            attrs,
        };
        proof {
            assert(req@ =~= challenge(transaction@));
            reveal_with_fuel(stun::attrs_len, 2);
        }
        let framed: Vec<u8> = stun::stun_encode(&req).unwrap();
        (
            Allocation::Challenged {
                server,
                username: username.to_owned(),
                password: password.to_owned(),
            },
            framed,
        )
    }

    /// Takes the server's reply.
    pub fn on_reply(self, reply: &StunMessage, transaction: [u8; 12]) -> (step: AllocationStep)
        ensures
            follows(self, reply@, transaction@, step),
    {
        match self {
            Allocation::Challenged { server, username, password } => {
                let realm: String = match &reply.realm {
                    Some(r) => r.clone(),
                    None => {
                        let s: String = error_text(
                            "no REALM in challenge (class=",
                            &reply.class,
                            ", error_code=",
                            code(reply),
                        );
                        return AllocationStep::Failed(TurnError(s));
                    },
                };
                let nonce: String = match &reply.nonce {
                    Some(n) => n.clone(),
                    None => {
                        return AllocationStep::Failed(
                            TurnError("no NONCE in challenge".to_owned()),
                        );
                    },
                };
                match stun::authenticate(
                    stun::ALLOCATE,
                    transaction,
                    stun::TRANSPORT_ATTR,
                    transport_value(),
                    username.as_str(),
                    password.as_str(),
                    realm.as_str(),
                    nonce.as_str(),
                ) {
                    Ok(req) => AllocationStep::Send(
                        Allocation::Requested { server, username, password, realm, nonce },
                        req,
                    ),
                    Err(e) => AllocationStep::Failed(TurnError(e)),
                }
            },
            Allocation::Requested { server, username, password, realm, nonce } => {
                if reply.class != StunClass::SuccessResponse {
                    return AllocationStep::Failed(rejected("Allocate", reply));
                }
                match reply.relayed {
                    None => AllocationStep::Failed(
                        TurnError("no XOR-RELAYED-ADDRESS".to_owned()),
                    ),
                    Some(relayed) => {
                        let lifetime: u32 = match reply.lifetime {
                            Some(l) => l,
                            None => DEFAULT_LIFETIME,
                        };
                        AllocationStep::Done(
                            TurnClient {
                                server,
                                relayed,
                                username,
                                password,
                                realm,
                                nonce,
                                lifetime,
                            },
                        )
                    },
                }
            },
        }
    }

    /// Takes the datagram that came as the server's reply. One that holds no message ends the
    /// allocation.
    pub fn on_datagram(self, buf: &[u8], transaction: [u8; 12]) -> (step: AllocationStep)
        ensures
            match stun::fields_in_bytes(buf@) {
                Some(reply) => follows(self, reply, transaction@, step),
                None => step is Failed,
            },
    {
        match stun::parse(buf) {
            Ok(reply) => self.on_reply(&reply, transaction),
            Err(e) => AllocationStep::Failed(TurnError(e)),
        }
    }
}

impl TurnClient {
    pub open spec fn credentials(&self) -> stun::Credentials {
        stun::Credentials {
            username: self.username@,
            password: self.password@,
            realm: self.realm@,
            nonce: self.nonce@,
        }
    }

    /// How long the allocation lives, in seconds.
    pub fn lifetime_secs(&self) -> (l: u32)
        ensures
            l == self.lifetime,
    {
        self.lifetime
    }

    /// Takes over a new nonce, unless it is too long to be one.
    pub fn set_nonce(&mut self, nonce: String)
        ensures
            final(self).server == old(self).server,
            final(self).relayed == old(self).relayed,
            final(self).lifetime == old(self).lifetime,
            final(self).credentials() == renewed(old(self).credentials(), nonce@),
    {
        if nonce.as_str().unicode_len() < stun::TEXT_LIMIT {
            self.nonce = nonce;
        }
    }

    /// The request that prolongs the allocation by its lifetime. Fails for credentials that no
    /// request can carry.
    pub fn refresh_request(&self, transaction: [u8; 12]) -> (r: Result<Vec<u8>, TurnError>)
        ensures
            match r {
                Ok(b) => stun::fits(self.credentials()) && frames(
                    b@,
                    refresh_message(transaction@, self.lifetime, self.credentials()),
                ),
                Err(_) => !stun::fits(self.credentials()),
            },
    {
        let mut value: Vec<u8> = Vec::new();
        bytes::push_be32(&mut value, self.lifetime);
        proof {
            bytes::lemma_be_bytes_len(self.lifetime as nat, 4);
            assert(value@ =~= lifetime_attr(self.lifetime).1);
        }
        match stun::authenticate(
            stun::REFRESH,
            transaction,
            stun::LIFETIME_ATTR,
            value,
            self.username.as_str(),
            self.password.as_str(),
            self.realm.as_str(),
            self.nonce.as_str(),
        ) {
            Ok(b) => Ok(b),
            Err(e) => Err(TurnError(e)),
        }
    }

    /// The request that prolongs the allocation by its lifetime, in a new transaction.
    pub fn refresh_request_bytes(&self) -> (r: Result<Vec<u8>, TurnError>)
        ensures
            match r {
                Ok(b) => stun::fits(self.credentials()) && is_refresh(
                    b@,
                    self.lifetime,
                    self.credentials(),
                ),
                Err(e) => !stun::fits(self.credentials()) || e.0@ == "OS CSPRNG failed"@,
            },
    {
        match new_transaction() {
            Ok(t) => {
                let r: Result<Vec<u8>, TurnError> = self.refresh_request(t);
                proof {
                    assert(t@.len() == 12);
                }
                r
            },
            Err(e) => Err(e),
        }
    }

    /// Takes over a new nonce and gives the refresh to send again under it, in this transaction;
    /// none without a transaction or for credentials that no request can carry.
    pub fn renew(&mut self, nonce: String, transaction: Option<[u8; 12]>) -> (request: Option<
        Vec<u8>,
    >)
        ensures
            final(self).server == old(self).server,
            final(self).relayed == old(self).relayed,
            final(self).lifetime == old(self).lifetime,
            final(self).credentials() == renewed(old(self).credentials(), nonce@),
            request is Some <==> (transaction is Some && stun::fits(final(self).credentials())),
            request matches Some(b) ==> frames(
                b@,
                refresh_message(transaction->Some_0@, old(self).lifetime, final(self).credentials()),
            ),
    {
        self.set_nonce(nonce);
        match transaction {
            Some(t) => match self.refresh_request(t) {
                Ok(b) => Some(b),
                Err(_) => None,
            },
            None => None,
        }
    }

    /// The request that lets the relay pass on traffic from `peer`. Fails for credentials that no
    /// request can carry.
    pub fn permission_request(&self, peer: SocketAddr, transaction: [u8; 12]) -> (r: Result<
        Vec<u8>,
        TurnError,
    >)
        ensures
            match r {
                Ok(b) => stun::fits(self.credentials()) && frames(
                    b@,
                    permission_message(transaction@, peer, self.credentials()),
                ),
                Err(_) => !stun::fits(self.credentials()),
            },
    {
        let value: Vec<u8> = stun::write_address(peer, &transaction);
        proof {
            stun::lemma_address_len(peer, transaction@);
        }
        match stun::authenticate(
            stun::CREATE_PERMISSION,
            transaction,
            stun::PEER_ATTR,
            value,
            self.username.as_str(),
            self.password.as_str(),
            self.realm.as_str(),
            self.nonce.as_str(),
        ) {
            Ok(b) => Ok(b),
            Err(e) => Err(TurnError(e)),
        }
    }
}

/// The credentials after a new nonce.
pub open spec fn renewed(c: stun::Credentials, nonce: Seq<char>) -> stun::Credentials {
    if nonce.len() < stun::TEXT_LIMIT {
        stun::Credentials { nonce, ..c }
    } else {
        c
    }
}

/// Whether these bytes frame the request that prolongs an allocation, in whatever transaction.
pub open spec fn is_refresh(b: Seq<u8>, seconds: u32, c: stun::Credentials) -> bool {
    exists|t: Seq<u8>| t.len() == 12 && #[trigger] frames(b, refresh_message(t, seconds, c))
}

/// Whether a permission was given.
pub fn permission_outcome(reply: &StunMessage) -> (r: Result<(), TurnError>)
    ensures
        match r {
            Ok(()) => reply.class == StunClass::SuccessResponse,
            Err(e) => reply.class != StunClass::SuccessResponse && e.0@ == rejected_text(
                "CreatePermission"@,
                reply@,
            ),
        },
{
    if reply.class == StunClass::SuccessResponse {
        Ok(())
    } else {
        Err(rejected("CreatePermission", reply))
    }
}

/// Whether a permission was given, by the datagram that came as the server's reply. One that holds
/// no message is an error.
pub fn permission_reply(buf: &[u8]) -> (r: Result<(), TurnError>)
    ensures
        match stun::fields_in_bytes(buf@) {
            Some(reply) => match r {
                Ok(()) => reply.class == StunClass::SuccessResponse,
                Err(e) => reply.class != StunClass::SuccessResponse && e.0@ == rejected_text(
                    "CreatePermission"@,
                    reply,
                ),
            },
            None => r is Err,
        },
{
    match stun::parse(buf) {
        Ok(reply) => permission_outcome(&reply),
        Err(e) => Err(TurnError(e)),
    }
}

/// The indication that has the relay pass `payload` on to `peer`. Fails for a payload that no
/// indication can carry. An indication carries no integrity.
pub fn send_indication(peer: SocketAddr, payload: &[u8], transaction: [u8; 12]) -> (r: Result<
    Vec<u8>,
    TurnError,
>)
    ensures
        match r {
            Ok(b) => payload@.len() <= data_limit(peer) && frames(
                b@,
                indication(stun::SEND, transaction@, peer, payload@),
            ),
            Err(_) => payload@.len() > data_limit(peer),
        },
{
    let mut attrs: Vec<(u16, Vec<u8>)> = Vec::new();
    attrs.push((stun::PEER_ATTR, stun::write_address(peer, &transaction)));
    attrs.push((stun::DATA_ATTR, bytes::copy_bytes(payload)));
    let ind = RawMessage { class: StunClass::Indication, method: stun::SEND, transaction, attrs };
    proof {
        let m = indication(stun::SEND, transaction@, peer, payload@);
        assert(ind@ =~= m);
        stun::lemma_address_len(peer, transaction@);
        reveal_with_fuel(stun::attrs_len, 3);
        assert(m.attrs.drop_last().last() == m.attrs[0]);
    }
    match stun::stun_encode(&ind) {
        Ok(b) => Ok(b),
        Err(e) => Err(TurnError(e)),
    }
}

/// Whether these bytes frame the indication for `peer`, in whatever transaction.
pub open spec fn is_send(b: Seq<u8>, peer: SocketAddr, payload: Seq<u8>) -> bool {
    exists|t: Seq<u8>|
        t.len() == 12 && #[trigger] frames(b, indication(stun::SEND, t, peer, payload))
}

/// The indication that has the relay pass `payload` on to `peer`, in a new transaction.
pub fn encode_send_indication(peer: SocketAddr, payload: &[u8]) -> (r: Result<Vec<u8>, TurnError>)
    ensures
        match r {
            Ok(b) => payload@.len() <= data_limit(peer) && is_send(b@, peer, payload@),
            Err(e) => payload@.len() > data_limit(peer) || e.0@ == "OS CSPRNG failed"@,
        },
{
    match new_transaction() {
        Ok(t) => {
            let r: Result<Vec<u8>, TurnError> = send_indication(peer, payload, t);
            proof {
                assert(t@.len() == 12);
            }
            r
        },
        Err(e) => Err(e),
    }
}

/// What a datagram from the TURN server means.
#[derive(Debug)]
pub enum TurnInbound {
    /// Data from a peer, by its relayed address.
    Data { peer: SocketAddr, payload: Vec<u8> },
    /// The nonce is no longer valid; this is the new one.
    StaleNonce { nonce: String },
    /// Anything else.
    Other,
}

/// What a message from the server means.
pub enum Meaning {
    Data(SocketAddr, Seq<u8>),
    StaleNonce(Seq<char>),
    Other,
}

impl View for TurnInbound {
    type V = Meaning;

    open spec fn view(&self) -> Meaning {
        match self {
            TurnInbound::Data { peer, payload } => Meaning::Data(*peer, payload@),
            TurnInbound::StaleNonce { nonce } => Meaning::StaleNonce(nonce@),
            TurnInbound::Other => Meaning::Other,
        }
    }
}

/// What a message means: data of a peer, a new nonce, or nothing of interest; or what is missing.
pub open spec fn meaning(m: stun::Fields) -> Result<Meaning, Seq<char>> {
    if m.method == stun::DATA && m.class == StunClass::Indication {
        match (m.peer, m.data) {
            (None, _) => Err("DATA without XOR-PEER-ADDRESS"@),
            (Some(_), None) => Err("DATA without DATA attr"@),
            (Some(p), Some(d)) => Ok(Meaning::Data(p, d)),
        }
    } else {
        match m.nonce {
            Some(n) => if m.class == StunClass::ErrorResponse && m.error_code == Some(
                STALE_NONCE,
            ) {
                Ok(Meaning::StaleNonce(n))
            } else {
                Ok(Meaning::Other)
            },
            None => Ok(Meaning::Other),
        }
    }
}

/// Tells what a message from the server means.
pub fn inbound(msg: &StunMessage) -> (r: Result<TurnInbound, TurnError>)
    ensures
        match r {
            Ok(i) => meaning(msg@) == Ok::<Meaning, Seq<char>>(i@),
            Err(e) => meaning(msg@) == Err::<Meaning, Seq<char>>(e.0@),
        },
{
    if msg.method == stun::DATA && msg.class == StunClass::Indication {
        let peer: SocketAddr = match msg.peer {
            Some(p) => p,
            None => {
                return Err(TurnError("DATA without XOR-PEER-ADDRESS".to_owned()));
            },
        };
        return match &msg.data {
            Some(d) => Ok(TurnInbound::Data { peer, payload: bytes::copy_bytes(d.as_slice()) }),
            None => Err(TurnError("DATA without DATA attr".to_owned())),
        };
    }
    if msg.class == StunClass::ErrorResponse {
        if let Some(c) = msg.error_code {
            if c == STALE_NONCE {
                if let Some(n) = &msg.nonce {
                    return Ok(TurnInbound::StaleNonce { nonce: n.clone() });
                }
            }
        }
    }
    Ok(TurnInbound::Other)
}

/// Tells what a datagram from the server means. One that holds no message is an error.
pub fn parse_from_server(buf: &[u8]) -> (r: Result<TurnInbound, TurnError>)
    ensures
        match stun::fields_in_bytes(buf@) {
            Some(m) => match r {
                Ok(i) => meaning(m) == Ok::<Meaning, Seq<char>>(i@),
                Err(e) => meaning(m) == Err::<Meaning, Seq<char>>(e.0@),
            },
            None => r is Err,
        },
{
    match stun::parse(buf) {
        Ok(msg) => inbound(&msg),
        Err(e) => Err(TurnError(e)),
    }
}

/// An indication is read as it was written: the server finds the payload and whom it is for, and
/// what it passes on from a peer means data of that peer.
pub proof fn law_indication_is_read(
    method: u16,
    transaction: Seq<u8>,
    peer: SocketAddr,
    payload: Seq<u8>,
)
    requires
        transaction.len() == 12,
    ensures
        stun::fields_in(indication(method, transaction, peer, payload)) matches Some(f)
            && f.method == method && f.peer == Some(stun::carried(peer)) && f.data == Some(payload)
            && (method == stun::DATA ==> meaning(f) == Ok::<Meaning, Seq<char>>(
            Meaning::Data(stun::carried(peer), payload),
        )),
{
    let m = indication(method, transaction, peer, payload);
    stun::law_address_roundtrip(peer, transaction);
    reveal_with_fuel(stun::fields_of, 3);
    assert(m.attrs.drop_last().last() == m.attrs[0]);
    assert(m.attrs.drop_last().drop_last().len() == 0);
}

/// What to do with a received datagram.
#[derive(Debug)]
pub enum RecvAction {
    /// Hand the datagram to the transport as it came.
    FeedDatagram { source: SocketAddr, destination: SocketAddr },
    /// Hand the data that a peer sent through the relay to the transport.
    FeedPayload { source: SocketAddr, destination: SocketAddr, payload: Vec<u8> },
    /// Send a refresh, under the nonce just taken over, to the server.
    SendRefresh { server: SocketAddr, request: Vec<u8> },
    /// Nothing.
    Drop,
}

/// What a datagram from the server, by what it holds, means to the one who receives it.
pub open spec fn heard(decoded: Option<stun::Fields>) -> Meaning {
    match decoded {
        Some(m) => match meaning(m) {
            Ok(i) => i,
            Err(_) => Meaning::Other,
        },
        None => Meaning::Other,
    }
}

/// What becomes of a message of the server, in this transaction if there is one: the data of a peer
/// goes to the transport, as sent to the own relayed address; a nonce that is no longer valid is
/// replaced and the refresh sent again, unless there is no transaction for it or no request can
/// carry the credentials; anything else is dropped.
pub open spec fn inbound_outcome(
    relayed: SocketAddr,
    heard: Meaning,
    transaction: Option<Seq<u8>>,
    before: Option<TurnClient>,
    after: Option<TurnClient>,
    action: RecvAction,
) -> bool {
    match heard {
        Meaning::Data(peer, data) => {
            &&& action matches RecvAction::FeedPayload { source, destination, payload }
            &&& source == peer && destination == relayed && payload@ == data
            &&& after == before
        },
        Meaning::StaleNonce(nonce) => match before {
            Some(c) => {
                let fresh = renewed(c.credentials(), nonce);
                &&& after matches Some(n)
                &&& n.credentials() == fresh
                &&& n.lifetime == c.lifetime
                &&& n.server == c.server && n.relayed == c.relayed
                &&& if transaction is Some && stun::fits(fresh) {
                    &&& action matches RecvAction::SendRefresh { server, request }
                    &&& server == c.server
                    &&& frames(
                        request@,
                        refresh_message(transaction->Some_0, c.lifetime, fresh),
                    )
                } else {
                    action is Drop
                }
            },
            None => action is Drop && after is None,
        },
        Meaning::Other => action is Drop && after == before,
    }
}

/// The transaction's bytes.
pub open spec fn transaction_view(t: Option<[u8; 12]>) -> Option<Seq<u8>> {
    match t {
        Some(b) => Some(b@),
        None => None,
    }
}

/// Decides about a message of the server, in this transaction if there is one.
pub fn on_inbound(
    relayed: SocketAddr,
    message: TurnInbound,
    client: &mut Option<TurnClient>,
    transaction: Option<[u8; 12]>,
) -> (action: RecvAction)
    ensures
        inbound_outcome(
            relayed,
            message@,
            transaction_view(transaction),
            *old(client),
            *final(client),
            action,
        ),
{
    match message {
        TurnInbound::Data { peer, payload } => RecvAction::FeedPayload {
            source: peer,
            destination: relayed,
            payload,
        },
        TurnInbound::StaleNonce { nonce } => match client {
            Some(c) => match c.renew(nonce, transaction) {
                Some(request) => RecvAction::SendRefresh { server: c.server, request },
                None => RecvAction::Drop,
            },
            None => RecvAction::Drop,
        },
        TurnInbound::Other => RecvAction::Drop,
    }
}

/// Decides about a datagram from `source`. The relay's answers never reach the transport; data that
/// a peer sent through it does, as sent to the own relayed address. A nonce that is no longer valid
/// is replaced and the refresh sent again, in a new transaction.
pub fn on_datagram(
    relay: &Relay,
    my_addr: SocketAddr,
    source: SocketAddr,
    buf: &[u8],
    client: &mut Option<TurnClient>,
) -> (action: RecvAction)
    ensures
        match crate::relay::origin_of(*relay, source) {
            Origin::Peer => {
                &&& action == (RecvAction::FeedDatagram { source, destination: my_addr })
                &&& *final(client) == *old(client)
            },
            Origin::Server { relayed } => exists|t: Option<[u8; 12]>| #[trigger]
                inbound_outcome(
                    relayed,
                    heard(stun::fields_in_bytes(buf@)),
                    transaction_view(t),
                    *old(client),
                    *final(client),
                    action,
                ),
        },
{
    match crate::relay::origin(relay, source) {
        Origin::Peer => RecvAction::FeedDatagram { source, destination: my_addr },
        Origin::Server { relayed } => {
            let message: TurnInbound = match parse_from_server(buf) {
                Ok(m) => m,
                Err(_) => TurnInbound::Other,
            };
            let transaction: Option<[u8; 12]> = match &message {
                TurnInbound::StaleNonce { .. } => match new_transaction() {
                    Ok(t) => Some(t),
                    Err(_) => None,
                },
                _ => None,
            };
            on_inbound(relayed, message, client, transaction)
        },
    }
}

/// An allocation is asked for twice: first without a name, and then with the name and the password
/// that were given, under the realm and the nonce that the server answered with. The relayed
/// address is the one that the server gives, for as long as it says; a refusal gives none.
pub proof fn law_allocation(
    server: SocketAddr,
    username: &str,
    password: &str,
    t: [u8; 12],
    start: (Allocation, Vec<u8>),
    reply: StunMessage,
    u: [u8; 12],
    step: AllocationStep,
    last: StunMessage,
    v: [u8; 12],
    end: AllocationStep,
)
    requires
        call_ensures(Allocation::start, (server, username, password, t), start),
        call_ensures(Allocation::on_reply, (start.0, &reply, u), step),
        step matches AllocationStep::Send(next, _) ==> call_ensures(
            Allocation::on_reply,
            (next, &last, v),
            end,
        ),
        username.spec_bytes().len() < 513,
        reply.realm matches Some(r) ==> r@.len() < 128,
        reply.nonce matches Some(n) ==> n@.len() < 128,
    ensures
        stun::framed(start.1@) matches Some(m) && m.method == 0x003 && m.class == StunClass::Request
            && m.transaction == t@ && m.attrs == seq![(0x0019u16, seq![17u8, 0u8, 0u8, 0u8])],
        step is Send <==> reply.realm is Some && reply.nonce is Some,
        !(step is Send) ==> step is Failed,
        step matches AllocationStep::Send(_, request) ==> {
            &&& stun::framed(request@) matches Some(m)
            &&& m.method == 0x003 && m.class == StunClass::Request && m.transaction == u@
            &&& m.attrs.len() == 5
            &&& m.attrs[0] == (0x0019u16, seq![17u8, 0u8, 0u8, 0u8])
            &&& m.attrs[1] == (0x0006u16, username.spec_bytes())
            &&& m.attrs[2] == (0x0014u16, vstd::utf8::encode_utf8((reply.realm->0)@))
            &&& m.attrs[3] == (0x0015u16, vstd::utf8::encode_utf8((reply.nonce->0)@))
            &&& m.attrs[4].0 == 0x0008
        },
        step is Send ==> {
            &&& end is Done <==> last.class == StunClass::SuccessResponse && last.relayed is Some
            &&& end matches AllocationStep::Done(c) ==> {
                &&& c.server == server && last.relayed == Some(c.relayed)
                &&& c.lifetime == (if last.lifetime is Some {
                    last.lifetime->0
                } else {
                    600
                })
                &&& c.username@ == username@ && c.password@ == password@
                &&& c.realm@ == (reply.realm->0)@ && c.nonce@ == (reply.nonce->0)@
            }
            &&& !(end is Done) ==> end is Failed
        },
{
}

/// A refresh asks for the allocation's lifetime again, and a permission names the peer, each with
/// the client's own name, realm and newest nonce.
pub proof fn law_requests_of_the_client(
    c: &TurnClient,
    t: [u8; 12],
    refresh: Result<Vec<u8>, TurnError>,
    peer: SocketAddr,
    permission: Result<Vec<u8>, TurnError>,
)
    requires
        call_ensures(TurnClient::refresh_request, (c, t), refresh),
        call_ensures(TurnClient::permission_request, (c, peer, t), permission),
    ensures
        refresh is Ok <==> permission is Ok,
        vstd::utf8::encode_utf8(c.username@).len() < 513 && c.realm@.len() < 128 && c.nonce@.len() < 128
            ==> refresh is Ok,
        refresh matches Ok(b) ==> {
            &&& stun::framed(b@) matches Some(m)
            &&& m.method == 0x004 && m.class == StunClass::Request && m.transaction == t@
            &&& m.attrs.len() == 5 && m.attrs[0].0 == 0x000D
            &&& bytes::be_value(m.attrs[0].1) == c.lifetime && m.attrs[0].1.len() == 4
            &&& m.attrs[1] == (0x0006u16, vstd::utf8::encode_utf8(c.username@))
            &&& m.attrs[2] == (0x0014u16, vstd::utf8::encode_utf8(c.realm@))
            &&& m.attrs[3] == (0x0015u16, vstd::utf8::encode_utf8(c.nonce@))
        },
        permission matches Ok(b) ==> {
            &&& stun::framed(b@) matches Some(m)
            &&& m.method == 0x008 && m.class == StunClass::Request && m.transaction == t@
            &&& m.attrs.len() == 5 && m.attrs[0].0 == 0x0012
            &&& stun::address_of(m.attrs[0].1, t@) == Some(stun::carried(peer))
            &&& m.attrs[3] == (0x0015u16, vstd::utf8::encode_utf8(c.nonce@))
        },
{
    bytes::lemma_pow256();
    bytes::lemma_be_roundtrip(c.lifetime as nat, 4);
    stun::law_address_roundtrip(peer, t@);
}

/// A permission was given exactly when the server says that the request succeeded.
pub proof fn law_permission(reply: StunMessage, r: Result<(), TurnError>)
    requires
        call_ensures(permission_outcome, (&reply,), r),
    ensures
        r is Ok <==> reply.class == StunClass::SuccessResponse,
{
}

/// What is sent through the relay names the peer and carries the payload as it is, and fails only
/// where one indication cannot hold it.
pub proof fn law_indication_carries(
    peer: SocketAddr,
    payload: &[u8],
    t: [u8; 12],
    r: Result<Vec<u8>, TurnError>,
)
    requires
        call_ensures(send_indication, (peer, payload, t), r),
    ensures
        payload@.len() <= 65_504 ==> r is Ok,
        payload@.len() > 65_516 ==> r is Err,
        r matches Ok(b) ==> {
            &&& stun::framed(b@) matches Some(m)
            &&& m.method == 0x006 && m.class == StunClass::Indication && m.transaction == t@
            &&& m.attrs.len() == 2
            &&& m.attrs[0].0 == 0x0012 && stun::address_of(m.attrs[0].1, t@) == Some(
                stun::carried(peer),
            )
            &&& m.attrs[1] == (0x0013u16, payload@)
        },
{
    stun::law_address_roundtrip(peer, t@);
}

/// What the server passes on is data of the peer that it names, as it is; a nonce that is no longer
/// valid is told with the new one; nothing else means anything.
pub proof fn law_server_means(msg: StunMessage, r: Result<TurnInbound, TurnError>)
    requires
        call_ensures(inbound, (&msg,), r),
    ensures
        ({
            let data = msg.method == 0x007 && msg.class == StunClass::Indication;
            let stale = msg.class == StunClass::ErrorResponse && msg.error_code == Some(438u16)
                && msg.nonce is Some;
            &&& r matches Ok(TurnInbound::Data { peer, payload }) ==> data && msg.peer == Some(peer)
                && msg.data is Some && (msg.data->0)@ == payload@
            &&& data && msg.peer is Some && msg.data is Some ==> (r matches Ok(TurnInbound::Data { .. }))
            &&& r matches Ok(TurnInbound::StaleNonce { nonce }) ==> stale && (msg.nonce->0)@ == nonce@
            &&& stale ==> (r matches Ok(TurnInbound::StaleNonce { .. }))
            &&& r is Err <==> data && (msg.peer is None || msg.data is None)
        }),
{
}

/// Data of a peer that came through the relay is handed on as sent to the own relayed address; a
/// new nonce is taken over and answered with a refresh under it; anything else of the server's
/// changes nothing. What does not come from the server is handed on as it came.
pub proof fn law_received(
    relayed: SocketAddr,
    message: TurnInbound,
    client: &mut Option<TurnClient>,
    transaction: Option<[u8; 12]>,
    action: RecvAction,
    relay: &Relay,
    mine: SocketAddr,
    source: SocketAddr,
    buf: &[u8],
    other: &mut Option<TurnClient>,
    direct: RecvAction,
)
    requires
        call_ensures(on_inbound, (relayed, message, client, transaction), action),
        relay.turn_server is None || relay.turn_server != Some(source),
        call_ensures(on_datagram, (relay, mine, source, buf, other), direct),
    ensures
        match message {
            TurnInbound::Data { peer, payload } => {
                &&& action matches RecvAction::FeedPayload { source: s, destination, payload: p }
                &&& s == peer && destination == relayed && p@ == payload@
                &&& *final(client) == *old(client)
            },
            TurnInbound::StaleNonce { nonce } => {
                &&& *old(client) is None ==> action is Drop && *final(client) is None
                &&& *old(client) matches Some(c) ==> {
                    &&& *final(client) matches Some(n)
                    &&& nonce@.len() < 128 ==> n.nonce@ == nonce@
                    &&& nonce@.len() >= 128 ==> n.nonce@ == c.nonce@
                    &&& n.username@ == c.username@ && n.password@ == c.password@ && n.realm@ == c.realm@
                    &&& n.server == c.server && n.relayed == c.relayed && n.lifetime == c.lifetime
                    &&& action matches RecvAction::SendRefresh { server, request } ==> {
                        &&& server == c.server
                        &&& stun::framed(request@) matches Some(m)
                        &&& m.method == 0x004
                        &&& m.attrs[3] == (0x0015u16, vstd::utf8::encode_utf8(n.nonce@))
                    }
                    &&& action is SendRefresh || action is Drop
                    &&& transaction is Some && vstd::utf8::encode_utf8(c.username@).len() < 513
                        && c.realm@.len() < 128 && n.nonce@.len() < 128 ==> action is SendRefresh
                }
            },
            TurnInbound::Other => action is Drop && *final(client) == *old(client),
        },
        direct == (RecvAction::FeedDatagram { source, destination: mine }),
        *final(other) == *old(other),
{
    if let TurnInbound::StaleNonce { nonce } = message {
        if let Some(c) = *old(client) {
            let n = (*final(client))->0;
            assert(n.credentials() == renewed(c.credentials(), nonce@));
            assert(n.credentials().nonce == n.nonce@ && n.credentials().username == n.username@);
            assert(n.credentials().password == n.password@ && n.credentials().realm == n.realm@);
            assert(renewed(c.credentials(), nonce@).username == c.username@);
        }
    }
}

/// What a peer sends through the relay arrives: the datagram with which the server passes it on,
/// and no other source's, is the peer's data, sent to the own relayed address.
pub proof fn law_relayed_data_arrives(
    buf: &[u8],
    transaction: Seq<u8>,
    peer: SocketAddr,
    payload: Seq<u8>,
    r: Result<TurnInbound, TurnError>,
    relay: &Relay,
    mine: SocketAddr,
    server: SocketAddr,
    client: &mut Option<TurnClient>,
    action: RecvAction,
)
    requires
        transaction.len() == 12,
        stun::framed(buf@) == Some(
            stun::Raw {
                class: StunClass::Indication,
                method: 0x007,
                transaction,
                attrs: seq![
                    (0x0012u16, stun::address_value(peer, transaction)),
                    (0x0013u16, payload),
                ],
            },
        ),
        call_ensures(parse_from_server, (buf,), r),
        relay.turn_server == Some(server),
        relay.my_relayed is Some,
        call_ensures(on_datagram, (relay, mine, server, buf, client), action),
    ensures
        r matches Ok(TurnInbound::Data { peer: p, payload: d }) && p == stun::carried(peer) && d@ == payload,
        action matches RecvAction::FeedPayload { source, destination, payload: d } && source
            == stun::carried(peer) && relay.my_relayed == Some(destination) && d@ == payload,
        *final(client) == *old(client),
{
    law_indication_is_read(stun::DATA, transaction, peer, payload);
    assert(stun::framed(buf@) == Some(indication(stun::DATA, transaction, peer, payload)));
}

/// What is sent in a new transaction is what is sent in a given one: the same indication, and the
/// same refresh.
pub proof fn law_new_transactions(
    peer: SocketAddr,
    payload: &[u8],
    r: Result<Vec<u8>, TurnError>,
    c: &TurnClient,
    refresh: Result<Vec<u8>, TurnError>,
)
    requires
        call_ensures(encode_send_indication, (peer, payload), r),
        call_ensures(TurnClient::refresh_request_bytes, (c,), refresh),
    ensures
        r matches Ok(b) ==> {
            &&& stun::framed(b@) matches Some(m)
            &&& m.method == 0x006 && m.class == StunClass::Indication && m.transaction.len() == 12
            &&& m.attrs.len() == 2 && m.attrs[1] == (0x0013u16, payload@)
            &&& stun::address_of(m.attrs[0].1, m.transaction) == Some(stun::carried(peer))
        },
        refresh matches Ok(b) ==> {
            &&& stun::framed(b@) matches Some(m)
            &&& m.method == 0x004 && m.class == StunClass::Request && m.transaction.len() == 12
            &&& m.attrs[0].0 == 0x000D && bytes::be_value(m.attrs[0].1) == c.lifetime
            &&& m.attrs[3] == (0x0015u16, vstd::utf8::encode_utf8(c.nonce@))
        },
{
    if let Ok(b) = r {
        let t = choose|t: Seq<u8>|
            t.len() == 12 && #[trigger] frames(b@, indication(stun::SEND, t, peer, payload@));
        stun::law_address_roundtrip(peer, t);
    }
    bytes::lemma_pow256();
    bytes::lemma_be_roundtrip(c.lifetime as nat, 4);
}

/// The lifetime is the one that the client was given, and a reply by datagram is taken as the
/// message that it holds: one that holds none gives no permission and no allocation.
pub proof fn law_replies_by_datagram(
    buf: &[u8],
    permission: Result<(), TurnError>,
    a: Allocation,
    t: [u8; 12],
    step: AllocationStep,
    c: &TurnClient,
    l: u32,
)
    requires
        call_ensures(permission_reply, (buf,), permission),
        call_ensures(Allocation::on_datagram, (a, buf, t), step),
        call_ensures(TurnClient::lifetime_secs, (c,), l),
    ensures
        permission is Ok <==> stun::fields_in_bytes(buf@) is Some && (stun::fields_in_bytes(
            buf@,
        )->0).class == StunClass::SuccessResponse,
        stun::fields_in_bytes(buf@) is None ==> step is Failed,
        l == c.lifetime,
{
}

/// A transaction is named by the random bytes that were drawn for it.
pub proof fn law_transaction(random: Option<Vec<u8>>, t: Result<[u8; 12], TurnError>)
    requires
        random matches Some(v) ==> v@.len() == 12,
        call_ensures(transaction_from_bytes, (random,), t),
    ensures
        t is Ok <==> random is Some,
        t matches Ok(id) ==> id@ == (random->0)@,
{
}

/// A new nonce is used from then on, in the very request that is sent again; one that is too long to be a
/// nonce is passed over. Nothing else of the client changes.
pub proof fn law_nonce_is_renewed(
    c: &mut TurnClient,
    nonce: String,
    d: &mut TurnClient,
    again: String,
    t: [u8; 12],
    request: Option<Vec<u8>>,
)
    requires
        call_ensures(TurnClient::set_nonce, (c, nonce), ()),
        call_ensures(TurnClient::renew, (d, again, Some(t)), request),
    ensures
        nonce@.len() < 128 ==> final(c).nonce@ == nonce@,
        nonce@.len() >= 128 ==> final(c).nonce@ == old(c).nonce@,
        final(c).username@ == old(c).username@ && final(c).password@ == old(c).password@
            && final(c).realm@ == old(c).realm@ && final(c).lifetime == old(c).lifetime
            && final(c).server == old(c).server && final(c).relayed == old(c).relayed,
        again@.len() < 128 ==> final(d).nonce@ == again@,
        request matches Some(b) ==> {
            &&& stun::framed(b@) matches Some(m)
            &&& m.method == 0x004 && m.transaction == t@
            &&& bytes::be_value(m.attrs[0].1) == old(d).lifetime
            &&& m.attrs[3] == (0x0015u16, vstd::utf8::encode_utf8(final(d).nonce@))
        },
{
    bytes::lemma_pow256();
    bytes::lemma_be_roundtrip(old(d).lifetime as nat, 4);
    assert(final(c).credentials() == renewed(old(c).credentials(), nonce@));
    assert(final(c).credentials().nonce == final(c).nonce@);
    assert(final(c).credentials().username == final(c).username@);
    assert(final(c).credentials().password == final(c).password@);
    assert(final(c).credentials().realm == final(c).realm@);
    assert(final(d).credentials() == renewed(old(d).credentials(), again@));
    assert(final(d).credentials().nonce == final(d).nonce@);
}

} // verus!
