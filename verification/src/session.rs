//! Establishing a protected session.
//!
//! Over a channel that is already up, two peers run the key exchange on the connection password
//! and confirm the key by its binding to the DTLS fingerprints of both. Where the passwords
//! differ, or a signalling server has replaced a fingerprint, the bindings differ and the session
//! is refused.

use crate::crypto;
use crate::crypto::{CryptoError, PakeState};
use vstd::prelude::*;
use vstd::string::*;

verus! {

/// A message of the handshake.
#[derive(Debug)]
pub enum SessionMessage {
    /// The message of the key exchange.
    Pake(Vec<u8>),
    /// The tag that confirms the key.
    Binding([u8; 32]),
}

/// What a message of the handshake holds.
pub enum Message {
    Pake(Seq<u8>),
    Binding(Seq<u8>),
}

impl View for SessionMessage {
    type V = Message;

    open spec fn view(&self) -> Message {
        match self {
            SessionMessage::Pake(m) => Message::Pake(m@),
            SessionMessage::Binding(b) => Message::Binding(b@),
        }
    }
}

enum State {
    AwaitingPake(PakeState),
    AwaitingBinding { key: [u8; 32], my_binding: [u8; 32] },
    Confirmed([u8; 32]),
    Failed,
}

/// Where a handshake stands.
pub enum Phase {
    /// The own message of the key exchange is out.
    AwaitingPake { password: Seq<u8>, sent: Seq<u8> },
    /// The key is derived and the own tag is out.
    AwaitingBinding { key: Seq<u8>, binding: Seq<u8> },
    Confirmed(Seq<u8>),
    Failed,
}

/// One side of a handshake: both fingerprints, as bytes, and where it stands.
pub struct Side {
    pub own_fp: Seq<u8>,
    pub peer_fp: Seq<u8>,
    pub phase: Phase,
}

/// The side after `msg`, and what it answers. Only the message that is waited for leads on; any
/// other fails the handshake, also when it was confirmed before.
pub open spec fn react(side: Side, msg: Message) -> (Side, Option<Message>) {
    match (side.phase, msg) {
        (Phase::AwaitingPake { password, sent }, Message::Pake(inbound)) => {
            match crypto::session_key(password, sent, inbound) {
                Some(key) => {
                    let binding = crypto::binding(key, side.own_fp, side.peer_fp);
                    (
                        Side { phase: Phase::AwaitingBinding { key, binding }, ..side },
                        Some(Message::Binding(binding)),
                    )
                },
                None => (Side { phase: Phase::Failed, ..side }, None),
            }
        },
        (Phase::AwaitingBinding { key, binding }, Message::Binding(theirs)) => {
            if binding == theirs {
                (Side { phase: Phase::Confirmed(key), ..side }, None)
            } else {
                (Side { phase: Phase::Failed, ..side }, None)
            }
        },
        _ => (Side { phase: Phase::Failed, ..side }, None),
    }
}

/// Whether two tags are the same. Every byte is looked at, wherever the first difference is.
pub fn ct_eq(a: &[u8; 32], b: &[u8; 32]) -> (r: bool)
    ensures
        r == (a@ == b@),
{
    let mut acc: u8 = 0;
    let mut i: usize = 0;
    while i < 32
        invariant
            i <= 32,
            acc == 0 <==> (forall|j: int| 0 <= j < i ==> a@[j] == b@[j]),
        decreases 32 - i,
    {
        let x: u8 = a[i];
        let y: u8 = b[i];
        let next: u8 = acc | (x ^ y);
        proof {
            assert(next == 0 <==> (acc == 0 && x == y)) by (bit_vector)
                requires
                    next == acc | (x ^ y),
            ;
            assert(x == a@[i as int] && y == b@[i as int]);
        }
        acc = next;
        i += 1;
    }
    proof {
        if acc == 0 {
            assert(a@ =~= b@);
        }
    }
    acc == 0
}

/// The handshake on one side.
pub struct Handshake {
    own_fp: String,
    peer_fp: String,
    state: State,
}

impl View for Handshake {
    type V = Side;

    closed spec fn view(&self) -> Side {
        Side {
            own_fp: vstd::utf8::encode_utf8(self.own_fp@),
            peer_fp: vstd::utf8::encode_utf8(self.peer_fp@),
            phase: match self.state {
                State::AwaitingPake(p) => Phase::AwaitingPake {
                    password: p.password(),
                    sent: p.sent(),
                },
                State::AwaitingBinding { key, my_binding } => Phase::AwaitingBinding {
                    key: key@,
                    binding: my_binding@,
                },
                State::Confirmed(key) => Phase::Confirmed(key@),
                State::Failed => Phase::Failed,
            },
        }
    }
}

/// A side that has just sent `sent`.
pub open spec fn started(password: Seq<u8>, own_fp: Seq<u8>, peer_fp: Seq<u8>, sent: Seq<u8>) -> Side {
    Side { own_fp, peer_fp, phase: Phase::AwaitingPake { password, sent } }
}

impl Handshake {
    /// Starts a handshake, with a secret from the system's random bytes. `own_fp` and `peer_fp`
    /// are the DTLS fingerprints as this side sees them. Gives the first message for the peer.
    /// Fails only where the system gives no random bytes.
    pub fn start(password: &[u8], own_fp: String, peer_fp: String) -> (r: Result<
        (Handshake, SessionMessage),
        CryptoError,
    >)
        ensures
            match r {
                Ok((h, msg)) => {
                    &&& msg@ matches Message::Pake(sent)
                    &&& crypto::pake_accepts(sent)
                    &&& h@ == started(
                        password@,
                        vstd::utf8::encode_utf8(own_fp@),
                        vstd::utf8::encode_utf8(peer_fp@),
                        sent,
                    )
                },
                Err(e) => e == CryptoError::Random,
            },
    {
        match crypto::pake_start(password) {
            Ok((pake, msg)) => Ok(Handshake::from_pake(pake, msg, own_fp, peer_fp)),
            Err(e) => Err(e),
        }
    }

    /// Starts a handshake with the secret that ChaCha20 draws from `seed`.
    pub fn start_with_rng(
        password: &[u8],
        own_fp: String,
        peer_fp: String,
        seed: [u8; 32],
    ) -> (r: (Handshake, SessionMessage))
        ensures
            ({
                let sent = crypto::spake2_message(
                    password@,
                    crypto::APP_ID.spec_bytes(),
                    seed@,
                );
                &&& crypto::pake_accepts(sent)
                &&& r.1@ == Message::Pake(sent)
                &&& r.0@ == started(
                    password@,
                    vstd::utf8::encode_utf8(own_fp@),
                    vstd::utf8::encode_utf8(peer_fp@),
                    sent,
                )
            }),
    {
        let (pake, msg) = crypto::pake_start_with_rng(password, seed);
        Handshake::from_pake(pake, msg, own_fp, peer_fp)
    }

    fn from_pake(pake: PakeState, msg: Vec<u8>, own_fp: String, peer_fp: String) -> (r: (
        Handshake,
        SessionMessage,
    ))
        requires
            pake.sent() == msg@,
        ensures
            r.1@ == Message::Pake(msg@),
            r.0@ == started(
                pake.password(),
                vstd::utf8::encode_utf8(own_fp@),
                vstd::utf8::encode_utf8(peer_fp@),
                msg@,
            ),
    {
        (
            Handshake { own_fp, peer_fp, state: State::AwaitingPake(pake) },
            SessionMessage::Pake(msg),
        )
    }

    /// Takes a message from the peer; gives the answer to send, if there is one.
    pub fn on_message(&mut self, msg: SessionMessage) -> (answer: Option<SessionMessage>)
        ensures
            final(self)@ == react(old(self)@, msg@).0,
            match answer {
                Some(m) => react(old(self)@, msg@).1 == Some(m@),
                None => react(old(self)@, msg@).1 is None,
            },
    {
        let mut state: State = State::Failed;
        std::mem::swap(&mut state, &mut self.state);
        match (state, msg) {
            (State::AwaitingPake(pake), SessionMessage::Pake(inbound)) => {
                match crypto::pake_finish(pake, inbound.as_slice()) {
                    Ok(key) => {
                        let my_binding: [u8; 32] = crypto::session_binding(
                            &key,
                            self.own_fp.as_str(),
                            self.peer_fp.as_str(),
                        );
                        self.state = State::AwaitingBinding { key, my_binding };
                        Some(SessionMessage::Binding(my_binding))
                    },
                    Err(_) => None,
                }
            },
            (
                State::AwaitingBinding { key, my_binding },
                SessionMessage::Binding(peer_binding),
            ) => {
                if ct_eq(&my_binding, &peer_binding) {
                    self.state = State::Confirmed(key);
                }
                None
            },
            _ => None,
        }
    }

    /// The session key, once the handshake is confirmed.
    pub fn confirmed_key(&self) -> (key: Option<&[u8; 32]>)
        ensures
            match key {
                Some(k) => self@.phase == Phase::Confirmed(k@),
                None => !(self@.phase is Confirmed),
            },
    {
        match &self.state {
            State::Confirmed(k) => Some(k),
            _ => None,
        }
    }

    pub fn is_confirmed(&self) -> (r: bool)
        ensures
            r == (self@.phase is Confirmed),
    {
        match &self.state {
            State::Confirmed(_) => true,
            _ => false,
        }
    }

    pub fn is_failed(&self) -> (r: bool)
        ensures
            r == (self@.phase is Failed),
    {
        match &self.state {
            State::Failed => true,
            _ => false,
        }
    }
}

/// Two sides with the same password that see each other's fingerprints right, and that exchange
/// their messages, both confirm, with the same key.
pub proof fn law_same_password_confirms(
    password: Seq<u8>,
    fp_a: Seq<u8>,
    fp_b: Seq<u8>,
    sent_a: Seq<u8>,
    sent_b: Seq<u8>,
)
    requires
        crypto::pake_accepts(sent_a),
        crypto::pake_accepts(sent_b),
    ensures
        ({
            let (a, tag_a) = react(started(password, fp_a, fp_b, sent_a), Message::Pake(sent_b));
            let (b, tag_b) = react(started(password, fp_b, fp_a, sent_b), Message::Pake(sent_a));
            &&& tag_a is Some
            &&& tag_b is Some
            &&& react(a, tag_b->0).0.phase is Confirmed
            &&& react(a, tag_b->0).0.phase == react(b, tag_a->0).0.phase
        }),
{
    crypto::law_same_password_same_key(password, sent_a, sent_b);
    let key = crypto::session_key(password, sent_a, sent_b)->0;
    crypto::law_binding_symmetric(key, fp_a, fp_b);
}

/// A side confirms only when it holds a key and the peer has sent exactly the tag that this key
/// and the fingerprints this side sees give.
pub proof fn law_confirmed_only_by_binding(
    password: Seq<u8>,
    own_fp: Seq<u8>,
    peer_fp: Seq<u8>,
    sent: Seq<u8>,
    first: Message,
    second: Message,
)
    ensures
        ({
            let side = react(react(started(password, own_fp, peer_fp, sent), first).0, second).0;
            side.phase matches Phase::Confirmed(key) ==> {
                &&& first matches Message::Pake(inbound)
                &&& crypto::session_key(password, sent, inbound) == Some(key)
                &&& second == Message::Binding(crypto::binding(key, own_fp, peer_fp))
            }
        }),
{
}

/// No message leads straight from the start to a confirmed session, and a side that has failed
/// stays failed.
pub proof fn law_failed_is_final(side: Side, msg: Message)
    ensures
        side.phase is Failed ==> react(side, msg) == (side, None::<Message>),
        react(side, msg).0.phase is Confirmed ==> side.phase is AwaitingBinding,
        side.phase is Confirmed ==> react(side, msg).0.phase is Failed,
        react(side, msg).0.own_fp == side.own_fp && react(side, msg).0.peer_fp == side.peer_fp,
{
}

/// Where both sides confirm each other's tags, the tags agree: key and fingerprints of one side
/// give the very tag that key and fingerprints of the other side give.
pub proof fn law_confirmed_sides_agree(a: Side, b: Side)
    requires
        a.phase is AwaitingBinding,
        b.phase is AwaitingBinding,
        react(a, Message::Binding(b.phase->binding)).0.phase is Confirmed,
    ensures
        a.phase->binding == b.phase->binding,
        react(b, Message::Binding(a.phase->binding)).0.phase is Confirmed,
{
}

/// Where the tags of the two sides differ, the session is refused on both, and where they agree it
/// is confirmed on both, whatever the passwords and whatever fingerprints each side sees.
pub proof fn law_tags_decide(a: Side, b: Side)
    requires
        a.phase is AwaitingBinding,
        b.phase is AwaitingBinding,
    ensures
        ({
            let after_a = react(a, Message::Binding(b.phase->binding)).0.phase;
            let after_b = react(b, Message::Binding(a.phase->binding)).0.phase;
            if a.phase->binding == b.phase->binding {
                after_a is Confirmed && after_b is Confirmed
            } else {
                after_a is Failed && after_b is Failed
            }
        }),
{
}

/// A fingerprint that was replaced on the way has both sides refuse the session, though they have
/// the same password: each sees another pair of fingerprints, so that their tags differ but where
/// the keyed hash collides.
pub proof fn law_replaced_fingerprint_is_detected(
    password: Seq<u8>,
    fp_a: Seq<u8>,
    seen_by_a: Seq<u8>,
    fp_b: Seq<u8>,
    seen_by_b: Seq<u8>,
    sent_a: Seq<u8>,
    sent_b: Seq<u8>,
)
    requires
        crypto::pake_accepts(sent_a),
        crypto::pake_accepts(sent_b),
        !fp_a.contains(0) && !seen_by_a.contains(0),
        !fp_b.contains(0) && !seen_by_b.contains(0),
        !(fp_a == fp_b && seen_by_a == seen_by_b),
        !(fp_a == seen_by_b && seen_by_a == fp_b),
        !crypto::collides(
            crypto::session_key(password, sent_a, sent_b)->0,
            crypto::binding_message(fp_a, seen_by_a),
            crypto::binding_message(fp_b, seen_by_b),
        ),
    ensures
        ({
            let (a, tag_a) = react(
                started(password, fp_a, seen_by_a, sent_a),
                Message::Pake(sent_b),
            );
            let (b, tag_b) = react(
                started(password, fp_b, seen_by_b, sent_b),
                Message::Pake(sent_a),
            );
            &&& tag_a is Some && tag_b is Some
            &&& react(a, tag_b->0).0.phase is Failed
            &&& react(b, tag_a->0).0.phase is Failed
        }),
{
    crypto::law_same_password_same_key(password, sent_a, sent_b);
    let key = crypto::session_key(password, sent_a, sent_b)->0;
    crypto::law_other_fingerprint_other_tag(key, fp_a, seen_by_a, fp_b, seen_by_b);
}

/// Different passwords have both sides refuse the session: they derive different keys, so that
/// their tags differ, but where the exchange, the derivation or the keyed hash collides.
pub proof fn law_wrong_password_is_detected(
    password_a: Seq<u8>,
    password_b: Seq<u8>,
    fp_a: Seq<u8>,
    fp_b: Seq<u8>,
    sent_a: Seq<u8>,
    sent_b: Seq<u8>,
)
    requires
        crypto::pake_accepts(sent_a),
        crypto::pake_accepts(sent_b),
        password_a != password_b,
        !crypto::exchange_collides(password_a, password_b, sent_a, sent_b),
        !crypto::derivation_collides(
            crypto::exchange_key(password_a, crypto::APP_ID.spec_bytes(), sent_a, sent_b),
            crypto::exchange_key(password_b, crypto::APP_ID.spec_bytes(), sent_a, sent_b),
        ),
        !crypto::keys_collide(
            crypto::session_key(password_a, sent_a, sent_b)->0,
            crypto::session_key(password_b, sent_b, sent_a)->0,
            crypto::binding_message(fp_a, fp_b),
        ),
    ensures
        ({
            let (a, tag_a) = react(started(password_a, fp_a, fp_b, sent_a), Message::Pake(sent_b));
            let (b, tag_b) = react(started(password_b, fp_b, fp_a, sent_b), Message::Pake(sent_a));
            &&& tag_a is Some && tag_b is Some
            &&& react(a, tag_b->0).0.phase is Failed
            &&& react(b, tag_a->0).0.phase is Failed
        }),
{
    crypto::law_exchange_gives_keys(password_a, password_b, sent_a, sent_b);
    crypto::law_other_password_other_key(password_a, password_b, sent_a, sent_b);
    let key = crypto::session_key(password_b, sent_b, sent_a)->0;
    crypto::law_binding_symmetric(key, fp_a, fp_b);
}

/// A whole handshake: two sides with one password that see each other's fingerprints right hand
/// each other what each says; both confirm, with the same key, and neither before it has the
/// other's tag. A tag in which a single byte is another refuses the session.
pub proof fn law_handshake(
    password: &[u8],
    fp_a: String,
    fp_b: String,
    seed_a: [u8; 32],
    a: (Handshake, SessionMessage),
    seed_b: [u8; 32],
    b: (Handshake, SessionMessage),
    h: &mut Handshake,
    tag_h: Option<SessionMessage>,
    g: &mut Handshake,
    tag_g: Option<SessionMessage>,
    early: bool,
    i: &mut Handshake,
    after_h: Option<SessionMessage>,
    key_h: Option<&[u8; 32]>,
    j: &mut Handshake,
    after_g: Option<SessionMessage>,
    key_g: Option<&[u8; 32]>,
)
    requires
        call_ensures(Handshake::start_with_rng, (password, fp_a, fp_b, seed_a), a),
        call_ensures(Handshake::start_with_rng, (password, fp_b, fp_a, seed_b), b),
        old(h)@ == a.0@,
        old(g)@ == b.0@,
        call_ensures(Handshake::on_message, (h, b.1), tag_h),
        call_ensures(Handshake::on_message, (g, a.1), tag_g),
        call_ensures(Handshake::is_confirmed, (final(h),), early),
        old(i)@ == final(h)@,
        old(j)@ == final(g)@,
        tag_g matches Some(t) ==> call_ensures(Handshake::on_message, (i, t), after_h),
        tag_h matches Some(t) ==> call_ensures(Handshake::on_message, (j, t), after_g),
        call_ensures(Handshake::confirmed_key, (final(i),), key_h),
        call_ensures(Handshake::confirmed_key, (final(j),), key_g),
    ensures
        tag_h is Some && tag_g is Some,
        !early,
        after_h is None && after_g is None,
        key_h is Some && key_g is Some,
        (key_h->0)@ == (key_g->0)@,
{
    let fa = vstd::utf8::encode_utf8(fp_a@);
    let fb = vstd::utf8::encode_utf8(fp_b@);
    let sa = crypto::spake2_message(password@, crypto::APP_ID.spec_bytes(), seed_a@);
    let sb = crypto::spake2_message(password@, crypto::APP_ID.spec_bytes(), seed_b@);
    law_same_password_confirms(password@, fa, fb, sa, sb);
}

/// A side that waits for the tag confirms its key exactly when the tag that comes is its own;
/// anything else that comes, then or later, refuses the session.
pub proof fn law_only_the_tag_confirms(
    h: &mut Handshake,
    msg: SessionMessage,
    answer: Option<SessionMessage>,
    confirmed: bool,
    failed: bool,
)
    requires
        old(h)@.phase is AwaitingBinding || old(h)@.phase is Confirmed,
        call_ensures(Handshake::on_message, (h, msg), answer),
        call_ensures(Handshake::is_confirmed, (final(h),), confirmed),
        call_ensures(Handshake::is_failed, (final(h),), failed),
    ensures
        confirmed <==> old(h)@.phase is AwaitingBinding && (msg matches SessionMessage::Binding(b) && b@
            == old(h)@.phase->binding),
        confirmed ==> final(h)@.phase == Phase::Confirmed(old(h)@.phase->key),
        failed <==> !confirmed,
        answer is None,
{
}

/// Tags are the same exactly when no byte of them differs.
pub proof fn law_tags_are_compared(a: &[u8; 32], b: &[u8; 32], r: bool, i: int)
    requires
        call_ensures(ct_eq, (a, b), r),
        0 <= i < 32,
    ensures
        a@[i] != b@[i] ==> !r,
        a@ == b@ ==> r,
{
}

/// A handshake starts on the password and the fingerprints that were given, with a message that the other
/// side accepts, and is neither confirmed nor failed yet. It can only fail to start for want of random
/// bytes.
pub proof fn law_handshake_starts(
    password: &[u8],
    own: String,
    peer: String,
    r: Result<(Handshake, SessionMessage), CryptoError>,
    confirmed: bool,
    failed: bool,
)
    requires
        call_ensures(Handshake::start, (password, own, peer), r),
        r matches Ok(x) ==> call_ensures(Handshake::is_confirmed, (&x.0,), confirmed) && call_ensures(
            Handshake::is_failed,
            (&x.0,),
            failed,
        ),
    ensures
        r matches Ok(x) ==> {
            &&& !confirmed && !failed
            &&& x.1 matches SessionMessage::Pake(sent)
            &&& crypto::pake_accepts(sent@)
            &&& x.0@.own_fp == vstd::utf8::encode_utf8(own@)
            &&& x.0@.peer_fp == vstd::utf8::encode_utf8(peer@)
            &&& x.0@.phase == (Phase::AwaitingPake { password: password@, sent: sent@ })
        },
        r matches Err(e) ==> e == CryptoError::Random,
{
}

} // verus!
