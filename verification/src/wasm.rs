//! The controller in a browser: handshake, opening of video and sealing of input, over the same
//! messages as the native side.

use crate::crypto;
use crate::crypto::{StreamOpener, StreamSealer};
use crate::media;
use crate::media::Reassembler;
use crate::session;
use crate::session::{Handshake, SessionMessage};
use vstd::prelude::*;
use vstd::string::*;

verus! {

/// What went wrong, for the page.
#[derive(Clone, Copy, Debug, PartialEq, Eq, Structural)]
pub enum WasmError {
    ShortSeed,
    NotSessionMessage,
    NotConfirmed,
    Unreadable,
}

impl WasmError {
    pub open spec fn text(&self) -> Seq<char> {
        match self {
            WasmError::ShortSeed => "seed must be >= 32 bytes"@,
            WasmError::NotSessionMessage => "not-session-message"@,
            WasmError::NotConfirmed => "key not confirmed"@,
            WasmError::Unreadable => "decrypt/auth failed"@,
        }
    }

    pub fn message(&self) -> (s: &'static str)
        ensures
            s@ == self.text(),
    {
        match self {
            WasmError::ShortSeed => "seed must be >= 32 bytes",
            WasmError::NotSessionMessage => "not-session-message",
            WasmError::NotConfirmed => "key not confirmed",
            WasmError::Unreadable => "decrypt/auth failed",
        }
    }
}

/// The handshake over the session's channel. The page sends the first message, hands over every
/// message that comes before the handshake is confirmed, and then takes opener and sealer.
pub struct WasmHandshake {
    inner: Handshake,
    first: SessionMessage,
}

impl WasmHandshake {
    pub closed spec fn side(&self) -> session::Side {
        self.inner@
    }

    pub closed spec fn first(&self) -> session::Message {
        self.first@
    }

    /// Starts a handshake. The secret is drawn from the first 32 bytes of `seed32`, which must not
    /// be fewer.
    pub fn new(password: &[u8], own_fp: &str, peer_fp: &str, seed32: &[u8]) -> (r: Result<
        WasmHandshake,
        WasmError,
    >)
        ensures
            match r {
                Ok(h) => {
                    let sent = crypto::spake2_message(
                        password@,
                        crypto::APP_ID.spec_bytes(),
                        seed32@.take(32),
                    );
                    &&& seed32@.len() >= 32
                    &&& crypto::pake_accepts(sent)
                    &&& h.first() == session::Message::Pake(sent)
                    &&& h.side() == session::started(
                        password@,
                        own_fp.spec_bytes(),
                        peer_fp.spec_bytes(),
                        sent,
                    )
                },
                Err(e) => e == WasmError::ShortSeed && seed32@.len() < 32,
            },
    {
        if seed32.len() < 32 {
            return Err(WasmError::ShortSeed);
        }
        let mut seed: [u8; 32] = [0u8; 32];
        let mut i: usize = 0;
        while i < 32
            invariant
                seed32@.len() >= 32,
                i <= 32,
                forall|j: int| 0 <= j < i ==> seed@[j] == seed32@[j],
            decreases 32 - i,
        {
            seed[i] = seed32[i];
            i += 1;
        }
        proof {
            assert(seed@ =~= seed32@.take(32));
        }
        let (inner, first) = Handshake::start_with_rng(
            password,
            own_fp.to_owned(),
            peer_fp.to_owned(),
            seed,
        );
        Ok(WasmHandshake { inner, first })
    }

    /// The message to send as soon as the channel is open.
    pub fn first_message(&self) -> (m: &SessionMessage)
        ensures
            m@ == self.first(),
    {
        &self.first
    }

    /// Takes a message of the channel: one of the handshake, or nothing when it is none, which is
    /// an error, and the page keeps it for later. Gives the answer to send.
    pub fn on_message(&mut self, parsed: Option<SessionMessage>) -> (r: Result<
        Option<SessionMessage>,
        WasmError,
    >)
        ensures
            final(self).first() == old(self).first(),
            match parsed {
                Some(m) => {
                    &&& final(self).side() == session::react(old(self).side(), m@).0
                    &&& match r {
                        Ok(Some(a)) => session::react(old(self).side(), m@).1 == Some(a@),
                        Ok(None) => session::react(old(self).side(), m@).1 is None,
                        Err(_) => false,
                    }
                },
                None => {
                    &&& r == Err::<Option<SessionMessage>, WasmError>(WasmError::NotSessionMessage)
                    &&& final(self).side() == old(self).side()
                },
            },
    {
        match parsed {
            Some(m) => Ok(self.inner.on_message(m)),
            None => Err(WasmError::NotSessionMessage),
        }
    }

    pub fn is_confirmed(&self) -> (r: bool)
        ensures
            r == (self.side().phase is Confirmed),
    {
        self.inner.confirmed_key().is_some()
    }

    /// What opens the managed side's video, once the handshake is confirmed.
    pub fn video_opener(&self) -> (r: Result<WasmOpener, WasmError>)
        ensures
            match r {
                Ok(o) => {
                    &&& self.side().phase matches session::Phase::Confirmed(key)
                    &&& o.key() == crypto::stream_key(
                        key,
                        crypto::STREAM_LABEL_MEDIA_H2C.spec_bytes(),
                    )
                },
                Err(e) => e == WasmError::NotConfirmed && !(self.side().phase is Confirmed),
            },
    {
        match self.inner.confirmed_key() {
            Some(key) => Ok(
                WasmOpener {
                    inner: StreamOpener::new(key, crypto::STREAM_LABEL_MEDIA_H2C.as_bytes()),
                },
            ),
            None => Err(WasmError::NotConfirmed),
        }
    }

    /// What seals input for the managed side, once the handshake is confirmed.
    pub fn input_sealer(&self) -> (r: Result<WasmSealer, WasmError>)
        ensures
            match r {
                Ok(s) => {
                    &&& self.side().phase matches session::Phase::Confirmed(key)
                    &&& s.key() == crypto::stream_key(
                        key,
                        crypto::STREAM_LABEL_INPUT_C2H.spec_bytes(),
                    )
                    &&& s.counter() == 0
                },
                Err(e) => e == WasmError::NotConfirmed && !(self.side().phase is Confirmed),
            },
    {
        match self.inner.confirmed_key() {
            Some(key) => Ok(
                WasmSealer {
                    inner: StreamSealer::new(key, crypto::STREAM_LABEL_INPUT_C2H.as_bytes()),
                },
            ),
            None => Err(WasmError::NotConfirmed),
        }
    }
}

/// Seals input for the managed side.
pub struct WasmSealer {
    inner: StreamSealer,
}

impl WasmSealer {
    pub closed spec fn key(&self) -> Seq<u8> {
        self.inner.key()
    }

    pub closed spec fn counter(&self) -> u64 {
        self.inner.counter()
    }

    /// The number of messages sealed so far.
    pub fn sealed(&self) -> (n: u64)
        ensures
            n == self.counter(),
    {
        self.inner.sealed()
    }

    pub fn seal(&mut self, plaintext: &[u8]) -> (msg: Vec<u8>)
        requires
            old(self).counter() < u64::MAX,
            plaintext@.len() < crypto::SEAL_LIMIT,
        ensures
            msg@ == crypto::sealed_message(old(self).key(), old(self).counter(), plaintext@),
            crypto::opened_message(old(self).key(), msg@) == Some(plaintext@),
            final(self).key() == old(self).key(),
            final(self).counter() == old(self).counter() + 1,
    {
        self.inner.seal(plaintext)
    }
}

/// Opens the managed side's video.
pub struct WasmOpener {
    inner: StreamOpener,
}

impl WasmOpener {
    pub closed spec fn key(&self) -> Seq<u8> {
        self.inner.key()
    }

    pub fn open(&self, wire: &[u8]) -> (r: Result<Vec<u8>, WasmError>)
        ensures
            match r {
                Ok(p) => crypto::opened_message(self.key(), wire@) == Some(p@),
                Err(e) => e == WasmError::Unreadable && crypto::opened_message(
                    self.key(),
                    wire@,
                ) is None,
            },
    {
        match self.inner.open(wire) {
            Ok(p) => Ok(p),
            Err(_) => Err(WasmError::Unreadable),
        }
    }
}

/// Puts the pieces of a sealed frame together.
pub struct WasmReassembler {
    inner: Reassembler,
}

impl View for WasmReassembler {
    type V = media::Assembly;

    closed spec fn view(&self) -> media::Assembly {
        self.inner@
    }
}

impl WasmReassembler {
    pub fn new() -> (r: WasmReassembler)
        ensures
            r@ == (media::Assembly { seq: None, count: 0, got: 0, buf: Seq::empty() }),
    {
        WasmReassembler { inner: Reassembler::new() }
    }

    /// Takes one piece; gives the sealed frame that it completes.
    pub fn push(&mut self, chunk: &[u8]) -> (frame: Option<Vec<u8>>)
        ensures
            final(self)@ == media::receive(old(self)@, chunk@).0,
            match frame {
                Some(f) => media::receive(old(self)@, chunk@).1 == Some(f@),
                None => media::receive(old(self)@, chunk@).1 is None,
            },
    {
        self.inner.push(chunk)
    }
}

/// The page's handshake goes as the native one goes: what is no message of it changes nothing and
/// is said to be none; opener and sealer are to be had exactly when it is confirmed.
pub proof fn law_page_handshake(
    password: &[u8],
    own: &str,
    peer: &str,
    seed: &[u8],
    r: Result<WasmHandshake, WasmError>,
    h: &mut WasmHandshake,
    answer: Result<Option<SessionMessage>, WasmError>,
    g: &WasmHandshake,
    opener: Result<WasmOpener, WasmError>,
    sealer: Result<WasmSealer, WasmError>,
    confirmed: bool,
    key: &[u8; 32],
    c: crate::controller::Controller,
)
    requires
        call_ensures(WasmHandshake::new, (password, own, peer, seed), r),
        call_ensures(WasmHandshake::on_message, (h, None), answer),
        call_ensures(WasmHandshake::video_opener, (g,), opener),
        call_ensures(WasmHandshake::input_sealer, (g,), sealer),
        call_ensures(WasmHandshake::is_confirmed, (g,), confirmed),
        call_ensures(crate::controller::Controller::new, (key,), c),
    ensures
        r is Ok <==> seed@.len() >= 32,
        r matches Err(e) ==> e == WasmError::ShortSeed,
        r matches Ok(n) ==> !(n.side().phase is Confirmed) && n.first() is Pake,
        answer == Err::<Option<SessionMessage>, WasmError>(WasmError::NotSessionMessage),
        final(h).side() == old(h).side(),
        opener is Ok <==> confirmed,
        sealer is Ok <==> confirmed,
        g.side().phase == session::Phase::Confirmed(key@) ==> {
            &&& confirmed
            &&& (opener->Ok_0).key() == c@.key_in
            &&& (sealer->Ok_0).key() == c@.key_out
            &&& (sealer->Ok_0).counter() == 0
        },
{
}

/// What the page seals opens to what was sealed, under the same key.
pub proof fn law_page_seals(
    s: &mut WasmSealer,
    plain: &[u8],
    msg: Vec<u8>,
    o: &WasmOpener,
    wire: &[u8],
    r: Result<Vec<u8>, WasmError>,
)
    requires
        call_ensures(WasmSealer::seal, (s, plain), msg),
        o.key() == old(s).key(),
        wire@ == msg@,
        call_ensures(WasmOpener::open, (o, wire), r),
    ensures
        r matches Ok(p) && p@ == plain@,
        final(s).counter() == old(s).counter() + 1 && final(s).key() == old(s).key(),
{
}

/// The page puts pieces together, and takes messages of the handshake, just as the native side
/// does.
pub proof fn law_page_is_like_native(
    w: &mut WasmReassembler,
    chunk: &[u8],
    frame: Option<Vec<u8>>,
    n: &mut Reassembler,
    native: Option<Vec<u8>>,
    h: &mut WasmHandshake,
    msg: SessionMessage,
    answer: Result<Option<SessionMessage>, WasmError>,
    g: &mut Handshake,
    reply: Option<SessionMessage>,
)
    requires
        old(w)@ == old(n)@,
        call_ensures(WasmReassembler::push, (w, chunk), frame),
        call_ensures(Reassembler::push, (n, chunk), native),
        old(h).side() == old(g)@,
        call_ensures(WasmHandshake::on_message, (h, Some(msg)), answer),
        call_ensures(Handshake::on_message, (g, msg), reply),
    ensures
        final(w)@ == final(n)@,
        frame is Some <==> native is Some,
        frame is Some ==> (frame->0)@ == (native->0)@,
        final(h).side() == final(g)@,
        answer matches Ok(a) && (a is Some <==> reply is Some),
        reply is Some ==> ((answer->Ok_0)->0)@ == (reply->0)@,
{
}

/// A page that starts a handshake says just what the native side says with the same seed.
pub proof fn law_page_starts_like_native(
    password: &[u8],
    own: &str,
    peer: &str,
    seed: &[u8],
    r: Result<WasmHandshake, WasmError>,
    own_fp: String,
    peer_fp: String,
    first32: [u8; 32],
    native: (Handshake, SessionMessage),
    m: &SessionMessage,
)
    requires
        seed@.len() >= 32,
        call_ensures(WasmHandshake::new, (password, own, peer, seed), r),
        own_fp@ == own@,
        peer_fp@ == peer@,
        first32@ == seed@.take(32),
        call_ensures(Handshake::start_with_rng, (password, own_fp, peer_fp, first32), native),
        r matches Ok(h) ==> call_ensures(WasmHandshake::first_message, (&h,), m),
    ensures
        r matches Ok(h) && h.side() == native.0@,
        m@ == native.1@,
{
}

/// Every error has a text of its own; and the page's messages are counted as they are sealed.
pub proof fn law_page_errors_are_told_apart(
    a: WasmError,
    s: &'static str,
    b: WasmError,
    t: &'static str,
    w: &mut WasmSealer,
    plain: &[u8],
    msg: Vec<u8>,
    before: u64,
    after: u64,
)
    requires
        call_ensures(WasmError::message, (&a,), s),
        call_ensures(WasmError::message, (&b,), t),
        s@ == t@,
        call_ensures(WasmSealer::sealed, (old(w),), before),
        call_ensures(WasmSealer::seal, (w, plain), msg),
        call_ensures(WasmSealer::sealed, (final(w),), after),
    ensures
        a == b,
        after == before + 1,
{
    reveal_strlit("seed must be >= 32 bytes");
    reveal_strlit("not-session-message");
    reveal_strlit("key not confirmed");
    reveal_strlit("decrypt/auth failed");
    assert("seed must be >= 32 bytes"@[0] == 's');
    assert("not-session-message"@[0] == 'n');
    assert("key not confirmed"@[0] == 'k');
    assert("decrypt/auth failed"@[0] == 'd');
}

} // verus!
