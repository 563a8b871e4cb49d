//! End-to-end cryptography of a session.
//!
//! The connection password authenticates a key exchange (SPAKE2), so that a hostile signalling
//! server can neither read nor forge a session. The session key is bound to the DTLS
//! fingerprints of both peers, and the streams of a session are sealed under keys of their own.

use crate::bytes;
use chacha20poly1305::aead::{Aead, KeyInit};
use hmac::Mac;
use rand_core::SeedableRng;
use vstd::prelude::*;
use vstd::string::*;

verus! {

/// The identity under which both sides run the key exchange.
pub const APP_ID: &'static str = "zortilwatch-session-v1";

/// The label under which the session key is derived.
pub const SESSION_KEY_LABEL: &'static str = "zortilwatch session key v1";

/// The label of the stream from the managed side to the controller: video.
pub const STREAM_LABEL_MEDIA_H2C: &'static str = "zortilwatch media h2c v1";

/// The label of the stream from the controller to the managed side: input.
pub const STREAM_LABEL_INPUT_C2H: &'static str = "zortilwatch ctrl c2h v1";

/// What precedes the two fingerprints in the message that binds a session to them.
pub const BINDING_LABEL: &'static str = "dtls-binding-v1\0";

/// The length of a nonce.
pub const NONCE: usize = 12;

/// The number of bytes that a plaintext stays under. One nonce has 0xFFFF_FFFE blocks of 64 bytes
/// for it: all that a counter of 32 bits can number, but for the block that the tag takes and the
/// last one.
pub const SEAL_LIMIT: u64 = 0xFFFF_FFFE * 64 + 1;

/// The length of the tag that follows a ciphertext.
pub const TAG: usize = 16;

#[derive(Clone, Copy, Debug, PartialEq, Eq, Structural)]
pub enum CryptoError {
    Handshake,
    Kdf,
    Aead,
    /// The system gave no random bytes.
    Random,
}

impl CryptoError {
    /// What the error says.
    pub open spec fn text(&self) -> Seq<char> {
        match self {
            CryptoError::Handshake => "PAKE handshake failed"@,
            CryptoError::Kdf => "key derivation failed"@,
            CryptoError::Aead => "media AEAD open failed"@,
            CryptoError::Random => "no random bytes"@,
        }
    }

    pub fn message(&self) -> (s: &'static str)
        ensures
            s@ == self.text(),
    {
        match self {
            CryptoError::Handshake => "PAKE handshake failed",
            CryptoError::Kdf => "key derivation failed",
            CryptoError::Aead => "media AEAD open failed",
            CryptoError::Random => "no random bytes",
        }
    }
}

/// The first message of a symmetric SPAKE2 exchange over Ed25519, for a password, an identity
/// and the seed of the ChaCha20 generator that draws the secret scalar.
pub uninterp spec fn spake2_message(password: Seq<u8>, id: Seq<u8>, seed: Seq<u8>) -> Seq<u8>;

/// Whether 32 bytes are the encoding of a point of the curve.
pub uninterp spec fn ed25519_decodes(point: Seq<u8>) -> bool;

/// The key that a symmetric SPAKE2 exchange over Ed25519 ends with, for a password, an identity
/// and the two messages that were exchanged, the lexicographically smaller one first.
pub uninterp spec fn spake2_key(
    password: Seq<u8>,
    id: Seq<u8>,
    first: Seq<u8>,
    second: Seq<u8>,
) -> Seq<u8>;

/// The first 32 bytes of HKDF-SHA256 without salt.
pub uninterp spec fn hkdf_sha256(secret: Seq<u8>, info: Seq<u8>) -> Seq<u8>;

/// HMAC-SHA256.
pub uninterp spec fn hmac_sha256(key: Seq<u8>, message: Seq<u8>) -> Seq<u8>;

/// The ChaCha20-Poly1305 ciphertext, tag included, of a plaintext without associated data.
pub uninterp spec fn chacha_seal(key: Seq<u8>, nonce: Seq<u8>, plaintext: Seq<u8>) -> Seq<u8>;

/// The plaintext that a ChaCha20-Poly1305 ciphertext opens to, if its tag is right.
pub uninterp spec fn chacha_open(key: Seq<u8>, nonce: Seq<u8>, sealed: Seq<u8>) -> Option<Seq<u8>>;

/// Whether `msg` is a message that the exchange accepts: the side byte `S` and a curve point.
pub open spec fn pake_accepts(msg: Seq<u8>) -> bool {
    msg.len() == 33 && msg[0] == 0x53 && ed25519_decodes(msg.skip(1))
}

/// `spake2::Spake2::start_symmetric_with_rng` over `Ed25519Group`, with
/// `rand_chacha::ChaCha20Rng::from_seed(seed)`. Its message is a function of the arguments and
/// is one that `finish` accepts.
#[verifier::external_body]
fn spake2_start(password: &[u8], id: &[u8], seed: &[u8; 32]) -> (msg: Vec<u8>)
    ensures
        msg@ == spake2_message(password@, id@, seed@),
        pake_accepts(msg@),
{
    let rng = rand_chacha::ChaCha20Rng::from_seed(*seed);
    let (_, msg) = spake2::Spake2::<spake2::Ed25519Group>::start_symmetric_with_rng(
        &spake2::Password::new(password),
        &spake2::Identity::new(id),
        rng,
    );
    msg
}

/// `spake2::Spake2::finish` on the state that `start_symmetric_with_rng` gives for the same
/// password, identity and seed. It refuses a message of another length than 33, of another side
/// than `S`, or whose point does not decode, and no other. The key is a function of password,
/// identity and the two messages, and does not depend on which of the two is the own one.
#[verifier::external_body]
fn spake2_finish(
    password: &[u8],
    id: &[u8],
    seed: &[u8; 32],
    inbound: &[u8],
) -> (key: Option<Vec<u8>>)
    ensures
        key is Some <==> (inbound@.len() == 33 && inbound@[0] == 0x53 && ed25519_decodes(
            inbound@.skip(1),
        )),
        key matches Some(k) ==> k@ == (if bytes::lex_le(
            spake2_message(password@, id@, seed@),
            inbound@,
        ) {
            spake2_key(password@, id@, spake2_message(password@, id@, seed@), inbound@)
        } else {
            spake2_key(password@, id@, inbound@, spake2_message(password@, id@, seed@))
        }),
{
    let rng = rand_chacha::ChaCha20Rng::from_seed(*seed);
    let (state, _) = spake2::Spake2::<spake2::Ed25519Group>::start_symmetric_with_rng(
        &spake2::Password::new(password),
        &spake2::Identity::new(id),
        rng,
    );
    state.finish(inbound).ok()
}

/// `hkdf::Hkdf::<Sha256>::new` without salt and `expand` to 32 bytes, which a 32-byte output
/// never fails.
#[verifier::external_body]
fn hkdf_expand(secret: &[u8], info: &[u8]) -> (key: [u8; 32])
    ensures
        key@ == hkdf_sha256(secret@, info@),
{
    let mut key = [0u8; 32];
    hkdf::Hkdf::<sha2::Sha256>::new(None, secret).expand(info, &mut key).expect("32 bytes");
    key
}

/// `hmac::Hmac::<Sha256>` over one message, which accepts a key of any length.
#[verifier::external_body]
fn hmac_tag(key: &[u8], message: &[u8]) -> (tag: [u8; 32])
    ensures
        tag@ == hmac_sha256(key@, message@),
{
    let mut mac = <hmac::Hmac<sha2::Sha256> as Mac>::new_from_slice(key).expect("any length");
    mac.update(message);
    mac.finalize().into_bytes().into()
}

/// `chacha20poly1305::ChaCha20Poly1305::encrypt` without associated data, on a plaintext for which
/// one nonce has blocks enough. The ciphertext is 16 bytes longer than the plaintext, and `decrypt`
/// under the same key and nonce gives the plaintext back.
#[verifier::external_body]
fn aead_seal(key: &[u8; 32], nonce: &[u8; 12], plaintext: &[u8]) -> (sealed: Vec<u8>)
    requires
        plaintext@.len() < SEAL_LIMIT,
    ensures
        sealed@ == chacha_seal(key@, nonce@, plaintext@),
        sealed@.len() == plaintext@.len() + TAG,
        chacha_open(key@, nonce@, sealed@) == Some(plaintext@),
{
    let aead = <chacha20poly1305::ChaCha20Poly1305 as KeyInit>::new(key.into());
    aead.encrypt(chacha20poly1305::Nonce::from_slice(nonce), plaintext).expect("length")
}

/// `chacha20poly1305::ChaCha20Poly1305::decrypt` without associated data, on a ciphertext for whose
/// plaintext one nonce has blocks enough. What it opens is what `encrypt` makes of the plaintext
/// under the same key and nonce.
#[verifier::external_body]
fn aead_open(key: &[u8; 32], nonce: &[u8; 12], sealed: &[u8]) -> (plaintext: Option<Vec<u8>>)
    requires
        sealed@.len() < SEAL_LIMIT + TAG,
    ensures
        match plaintext {
            Some(p) => chacha_open(key@, nonce@, sealed@) == Some(p@),
            None => chacha_open(key@, nonce@, sealed@) is None,
        },
        plaintext matches Some(p) ==> sealed@ == chacha_seal(key@, nonce@, p@),
{
    let aead = <chacha20poly1305::ChaCha20Poly1305 as KeyInit>::new(key.into());
    aead.decrypt(chacha20poly1305::Nonce::from_slice(nonce), sealed).ok()
}

/// `getrandom::getrandom` on a buffer of `len` bytes. The bytes come from the system's secure
/// generator; nothing else can be said of them.
#[verifier::external_body]
pub(crate) fn random_bytes(len: usize) -> (random: Option<Vec<u8>>)
    ensures
        random matches Some(v) ==> v@.len() == len,
{
    let mut buf = vec![0u8; len];
    match getrandom::getrandom(&mut buf) {
        Ok(()) => Some(buf),
        Err(_) => None,
    }
}

/// The key of an exchange in which `own` was sent and `inbound` received.
pub open spec fn exchange_key(
    password: Seq<u8>,
    id: Seq<u8>,
    own: Seq<u8>,
    inbound: Seq<u8>,
) -> Seq<u8> {
    if bytes::lex_le(own, inbound) {
        spake2_key(password, id, own, inbound)
    } else {
        spake2_key(password, id, inbound, own)
    }
}

/// The session key that a side with `password`, which sent `own`, derives from `inbound`; none
/// when `inbound` is no message of the exchange.
pub open spec fn session_key(password: Seq<u8>, own: Seq<u8>, inbound: Seq<u8>) -> Option<Seq<u8>> {
    if pake_accepts(inbound) {
        Some(
            hkdf_sha256(
                exchange_key(password, APP_ID.spec_bytes(), own, inbound),
                SESSION_KEY_LABEL.spec_bytes(),
            ),
        )
    } else {
        None
    }
}

/// Two sides with the same password that exchange their messages derive the same key.
pub proof fn law_same_password_same_key(password: Seq<u8>, a: Seq<u8>, b: Seq<u8>)
    requires
        pake_accepts(a),
        pake_accepts(b),
    ensures
        session_key(password, a, b) is Some,
        session_key(password, a, b) == session_key(password, b, a),
{
    bytes::lemma_lex_total(a, b);
}

/// Two sides that exchange their messages both derive a key, whatever their passwords: a wrong one
/// is no error.
pub proof fn law_exchange_gives_keys(
    password_a: Seq<u8>,
    password_b: Seq<u8>,
    a: Seq<u8>,
    b: Seq<u8>,
)
    requires
        pake_accepts(a),
        pake_accepts(b),
    ensures
        session_key(password_a, a, b) is Some,
        session_key(password_b, b, a) is Some,
{
}

/// Whether the exchange ends with the same secret for two passwords, on the same messages.
pub open spec fn exchange_collides(
    password_a: Seq<u8>,
    password_b: Seq<u8>,
    a: Seq<u8>,
    b: Seq<u8>,
) -> bool {
    &&& password_a != password_b
    &&& exchange_key(password_a, APP_ID.spec_bytes(), a, b) == exchange_key(
        password_b,
        APP_ID.spec_bytes(),
        a,
        b,
    )
}

/// Whether the derivation of the session key makes the same key of two secrets.
pub open spec fn derivation_collides(s: Seq<u8>, t: Seq<u8>) -> bool {
    &&& s != t
    &&& hkdf_sha256(s, SESSION_KEY_LABEL.spec_bytes()) == hkdf_sha256(
        t,
        SESSION_KEY_LABEL.spec_bytes(),
    )
}

/// With different passwords the two sides derive different keys, but where the exchange ends both
/// passwords with the same secret, or where the derivation makes the same key of two secrets.
pub proof fn law_other_password_other_key(
    password_a: Seq<u8>,
    password_b: Seq<u8>,
    a: Seq<u8>,
    b: Seq<u8>,
)
    requires
        pake_accepts(a),
        pake_accepts(b),
        password_a != password_b,
        !exchange_collides(password_a, password_b, a, b),
        !derivation_collides(
            exchange_key(password_a, APP_ID.spec_bytes(), a, b),
            exchange_key(password_b, APP_ID.spec_bytes(), a, b),
        ),
    ensures
        session_key(password_a, a, b) != session_key(password_b, b, a),
{
    bytes::lemma_lex_total(a, b);
}

/// One side of a key exchange, after its message was made.
pub struct PakeState {
    password: Vec<u8>,
    seed: [u8; 32],
    sent: Vec<u8>,
}

impl PakeState {
    #[verifier::type_invariant]
    spec fn inv(self) -> bool {
        &&& self.sent@ == spake2_message(self.password@, APP_ID.spec_bytes(), self.seed@)
        &&& pake_accepts(self.sent@)
    }

    pub closed spec fn password(&self) -> Seq<u8> {
        self.password@
    }

    /// The message that this side sent.
    pub closed spec fn sent(&self) -> Seq<u8> {
        self.sent@
    }
}

fn array32(v: &[u8]) -> (a: [u8; 32])
    requires
        v@.len() == 32,
    ensures
        a@ == v@,
{
    let mut a: [u8; 32] = [0u8; 32];
    let mut i: usize = 0;
    while i < 32
        invariant
            v@.len() == 32,
            i <= 32,
            forall|j: int| 0 <= j < i ==> a@[j] == v@[j],
        decreases 32 - i,
    {
        a[i] = v[i];
        i += 1;
    }
    proof {
        assert(a@ =~= v@);
    }
    a
}

/// Starts the exchange on a password, with a secret drawn from the system's random bytes. Gives
/// the state and the message for the peer. Fails only where the system gives no random bytes.
pub fn pake_start(password: &[u8]) -> (r: Result<(PakeState, Vec<u8>), CryptoError>)
    ensures
        match r {
            Ok((state, msg)) => {
                &&& state.password() == password@
                &&& state.sent() == msg@
                &&& pake_accepts(msg@)
            },
            Err(e) => e == CryptoError::Random,
        },
{
    match random_bytes(32) {
        Some(seed) => Ok(pake_start_with_rng(password, array32(seed.as_slice()))),
        None => Err(CryptoError::Random),
    }
}

/// Starts the exchange on a password, with the secret that ChaCha20 draws from `seed`.
pub fn pake_start_with_rng(password: &[u8], seed: [u8; 32]) -> (r: (PakeState, Vec<u8>))
    ensures
        r.1@ == spake2_message(password@, APP_ID.spec_bytes(), seed@),
        r.0.password() == password@,
        r.0.sent() == r.1@,
        pake_accepts(r.1@),
{
    let msg: Vec<u8> = spake2_start(password, APP_ID.as_bytes(), &seed);
    let sent: Vec<u8> = bytes::copy_bytes(msg.as_slice());
    let password: Vec<u8> = bytes::copy_bytes(password);
    (PakeState { password, seed, sent }, msg)
}

/// Ends the exchange with the peer's message.
///
/// Different passwords are no error here: each side derives another key, and the binding that
/// follows tells them apart.
pub fn pake_finish(state: PakeState, inbound: &[u8]) -> (r: Result<[u8; 32], CryptoError>)
    ensures
        match r {
            Ok(key) => session_key(state.password(), state.sent(), inbound@) == Some(key@),
            Err(e) => {
                &&& e == CryptoError::Handshake
                &&& session_key(state.password(), state.sent(), inbound@) is None
            },
        },
{
    proof {
        use_type_invariant(&state);
    }
    match spake2_finish(state.password.as_slice(), APP_ID.as_bytes(), &state.seed, inbound) {
        Some(shared) => Ok(hkdf_expand(shared.as_slice(), SESSION_KEY_LABEL.as_bytes())),
        None => Err(CryptoError::Handshake),
    }
}

/// The message that binds a session to the fingerprints of its peers, the smaller one first.
pub open spec fn binding_message(fp_a: Seq<u8>, fp_b: Seq<u8>) -> Seq<u8> {
    let (lo, hi) = if bytes::lex_le(fp_a, fp_b) {
        (fp_a, fp_b)
    } else {
        (fp_b, fp_a)
    };
    BINDING_LABEL.spec_bytes() + lo + seq![0u8] + hi
}

/// The tag that binds a session key to the fingerprints of both peers.
pub open spec fn binding(key: Seq<u8>, fp_a: Seq<u8>, fp_b: Seq<u8>) -> Seq<u8> {
    hmac_sha256(key, binding_message(fp_a, fp_b))
}

/// Both sides compute the same tag: the order of the fingerprints does not matter.
pub proof fn law_binding_symmetric(key: Seq<u8>, fp_a: Seq<u8>, fp_b: Seq<u8>)
    ensures
        binding_message(fp_a, fp_b) == binding_message(fp_b, fp_a),
        binding(key, fp_a, fp_b) == binding(key, fp_b, fp_a),
{
    bytes::lemma_lex_total(fp_a, fp_b);
}

/// Fingerprints hold no zero byte, so the bound message tells two pairs of fingerprints apart:
/// with one fingerprint replaced the message is another one.
pub proof fn law_binding_message_injective(
    a1: Seq<u8>,
    b1: Seq<u8>,
    a2: Seq<u8>,
    b2: Seq<u8>,
)
    requires
        !a1.contains(0),
        !b1.contains(0),
        !a2.contains(0),
        !b2.contains(0),
        binding_message(a1, b1) == binding_message(a2, b2),
    ensures
        (a1 == a2 && b1 == b2) || (a1 == b2 && b1 == a2),
{
    let label = BINDING_LABEL.spec_bytes();
    let (lo1, hi1) = if bytes::lex_le(a1, b1) {
        (a1, b1)
    } else {
        (b1, a1)
    };
    let (lo2, hi2) = if bytes::lex_le(a2, b2) {
        (a2, b2)
    } else {
        (b2, a2)
    };
    let m1 = binding_message(a1, b1).skip(label.len() as int);
    let m2 = binding_message(a2, b2).skip(label.len() as int);
    assert(m1 =~= lo1 + seq![0u8] + hi1);
    assert(m2 =~= lo2 + seq![0u8] + hi2);
    assert(m1[lo1.len() as int] == 0);
    assert(m2[lo2.len() as int] == 0);
    if lo1.len() < lo2.len() {
        assert(m2[lo1.len() as int] == lo2[lo1.len() as int]);
        assert(lo2.contains(0));
    } else if lo2.len() < lo1.len() {
        assert(m1[lo2.len() as int] == lo1[lo2.len() as int]);
        assert(lo1.contains(0));
    }
    assert(lo1 =~= m1.take(lo1.len() as int));
    assert(lo2 =~= m2.take(lo1.len() as int));
    assert(hi1 =~= m1.skip((lo1.len() + 1) as int));
    assert(hi2 =~= m2.skip((lo1.len() + 1) as int));
}

/// Whether the keyed hash is the same for two messages.
pub open spec fn collides(key: Seq<u8>, m: Seq<u8>, n: Seq<u8>) -> bool {
    m != n && hmac_sha256(key, m) == hmac_sha256(key, n)
}

/// Whether the keyed hash of a message is the same for two keys.
pub open spec fn keys_collide(k: Seq<u8>, l: Seq<u8>, m: Seq<u8>) -> bool {
    k != l && hmac_sha256(k, m) == hmac_sha256(l, m)
}

/// A replaced fingerprint shows: where two sides see different pairs of fingerprints, whichever is
/// named first, the keyed hash is taken of different messages, and the tags differ but where the
/// hash collides on these two.
pub proof fn law_other_fingerprint_other_tag(
    key: Seq<u8>,
    a1: Seq<u8>,
    b1: Seq<u8>,
    a2: Seq<u8>,
    b2: Seq<u8>,
)
    requires
        !a1.contains(0) && !b1.contains(0),
        !a2.contains(0) && !b2.contains(0),
        !(a1 == a2 && b1 == b2),
        !(a1 == b2 && b1 == a2),
        !collides(key, binding_message(a1, b1), binding_message(a2, b2)),
    ensures
        binding(key, a1, b1) != binding(key, a2, b2),
{
    if binding_message(a1, b1) == binding_message(a2, b2) {
        law_binding_message_injective(a1, b1, a2, b2);
    }
}

/// The tag that binds `session_key` to the DTLS fingerprints of both peers, whichever is named
/// first.
pub fn session_binding(session_key: &[u8; 32], fp_a: &str, fp_b: &str) -> (tag: [u8; 32])
    ensures
        tag@ == binding(session_key@, fp_a.spec_bytes(), fp_b.spec_bytes()),
{
    let a: &[u8] = fp_a.as_bytes();
    let b: &[u8] = fp_b.as_bytes();
    let mut msg: Vec<u8> = Vec::new();
    bytes::append_slice(&mut msg, BINDING_LABEL.as_bytes());
    if bytes::bytes_le(a, b) {
        bytes::append_slice(&mut msg, a);
        msg.push(0);
        bytes::append_slice(&mut msg, b);
    } else {
        bytes::append_slice(&mut msg, b);
        msg.push(0);
        bytes::append_slice(&mut msg, a);
    }
    proof {
        assert(msg@ =~= binding_message(a@, b@));
    }
    hmac_tag(session_key.as_slice(), msg.as_slice())
}

/// The key of the stream that `label` names.
pub open spec fn stream_key(session_key: Seq<u8>, label: Seq<u8>) -> Seq<u8> {
    hkdf_sha256(session_key, label)
}

/// The key of one stream of the session. Each direction and each purpose has a label of its own.
pub fn derive_stream_key(session_key: &[u8; 32], label: &[u8]) -> (key: [u8; 32])
    ensures
        key@ == stream_key(session_key@, label@),
{
    hkdf_expand(session_key.as_slice(), label)
}

/// The nonce of the message with this number.
pub open spec fn nonce_of(counter: u64) -> Seq<u8> {
    seq![0u8, 0u8, 0u8, 0u8] + bytes::be_bytes(counter as nat, 8)
}

/// Different messages of a stream have different nonces.
pub proof fn law_nonce_unique(a: u64, b: u64)
    requires
        nonce_of(a) == nonce_of(b),
    ensures
        a == b,
{
    bytes::lemma_pow256();
    bytes::lemma_be_roundtrip(a as nat, 8);
    bytes::lemma_be_roundtrip(b as nat, 8);
    assert(nonce_of(a).skip(4) =~= bytes::be_bytes(a as nat, 8));
    assert(nonce_of(b).skip(4) =~= bytes::be_bytes(b as nat, 8));
}

/// The sealed form of message number `counter`: the nonce, the ciphertext and the tag.
pub open spec fn sealed_message(key: Seq<u8>, counter: u64, plaintext: Seq<u8>) -> Seq<u8> {
    nonce_of(counter) + chacha_seal(key, nonce_of(counter), plaintext)
}

/// What a sealed message opens to under a stream's key. One that is too short to hold a nonce, or
/// longer than any that can be sealed, opens to nothing.
pub open spec fn opened_message(key: Seq<u8>, msg: Seq<u8>) -> Option<Seq<u8>> {
    if msg.len() < NONCE || msg.len() >= SEAL_LIMIT + NONCE + TAG {
        None
    } else {
        chacha_open(key, msg.take(NONCE as int), msg.skip(NONCE as int))
    }
}

fn nonce_at(v: &[u8]) -> (a: [u8; 12])
    requires
        v@.len() >= 12,
    ensures
        a@ == v@.take(12),
{
    let mut a: [u8; 12] = [0u8; 12];
    let mut i: usize = 0;
    while i < 12
        invariant
            v@.len() >= 12,
            i <= 12,
            forall|j: int| 0 <= j < i ==> a@[j] == v@[j],
        decreases 12 - i,
    {
        a[i] = v[i];
        i += 1;
    }
    proof {
        assert(a@ =~= v@.take(12));
    }
    a
}

/// The sending side of a stream. Seals messages end to end, above DTLS: a relay that ends DTLS
/// cannot read them.
pub struct StreamSealer {
    key: [u8; 32],
    counter: u64,
}

impl StreamSealer {
    pub closed spec fn key(&self) -> Seq<u8> {
        self.key@
    }

    /// The number of the next message.
    pub closed spec fn counter(&self) -> u64 {
        self.counter
    }

    pub fn new(session_key: &[u8; 32], label: &[u8]) -> (s: StreamSealer)
        ensures
            s.key() == stream_key(session_key@, label@),
            s.counter() == 0,
    {
        StreamSealer { key: derive_stream_key(session_key, label), counter: 0 }
    }

    /// The number of messages sealed so far.
    pub fn sealed(&self) -> (n: u64)
        ensures
            n == self.counter(),
    {
        self.counter
    }

    /// Seals one message: its nonce, the ciphertext and the tag. An opener with the same key
    /// gives the message back.
    pub fn seal(&mut self, plaintext: &[u8]) -> (msg: Vec<u8>)
        requires
            old(self).counter() < u64::MAX,
            plaintext@.len() < SEAL_LIMIT,
        ensures
            msg@ == sealed_message(old(self).key(), old(self).counter(), plaintext@),
            msg@.len() == plaintext@.len() + 28,
            opened_message(old(self).key(), msg@) == Some(plaintext@),
            final(self).key() == old(self).key(),
            final(self).counter() == old(self).counter() + 1,
    {
        let mut msg: Vec<u8> = Vec::new();
        msg.push(0);
        msg.push(0);
        msg.push(0);
        msg.push(0);
        bytes::push_be64(&mut msg, self.counter);
        proof {
            bytes::lemma_be_bytes_len(self.counter as nat, 8);
            assert(msg@ =~= nonce_of(self.counter));
            assert(msg@.take(12) =~= msg@);
        }
        let nonce: [u8; 12] = nonce_at(msg.as_slice());
        self.counter += 1;
        let sealed: Vec<u8> = aead_seal(&self.key, &nonce, plaintext);
        bytes::append_slice(&mut msg, sealed.as_slice());
        proof {
            assert(msg@.take(12) =~= nonce@);
            assert(msg@.skip(12) =~= sealed@);
        }
        msg
    }
}

/// The receiving side of a stream. Its label must be the sender's.
pub struct StreamOpener {
    key: [u8; 32],
}

impl StreamOpener {
    pub closed spec fn key(&self) -> Seq<u8> {
        self.key@
    }

    pub fn new(session_key: &[u8; 32], label: &[u8]) -> (s: StreamOpener)
        ensures
            s.key() == stream_key(session_key@, label@),
    {
        StreamOpener { key: derive_stream_key(session_key, label) }
    }

    /// Opens a sealed message. Fails where the message is too short or too long, or was not sealed
    /// under this stream's key: what opens is exactly what sealing under its nonce gives.
    pub fn open(&self, msg: &[u8]) -> (r: Result<Vec<u8>, CryptoError>)
        ensures
            match r {
                Ok(p) => {
                    &&& opened_message(self.key(), msg@) == Some(p@)
                    &&& msg@ == msg@.take(12) + chacha_seal(self.key(), msg@.take(12), p@)
                },
                Err(e) => e == CryptoError::Aead && opened_message(self.key(), msg@) is None,
            },
    {
        if msg.len() < NONCE || msg.len() as u64 >= SEAL_LIMIT + NONCE as u64 + TAG as u64 {
            return Err(CryptoError::Aead);
        }
        let nonce: [u8; 12] = nonce_at(msg);
        let sealed: Vec<u8> = bytes::copy_range(msg, NONCE, msg.len());
        proof {
            assert(sealed@ =~= msg@.skip(12));
            assert(msg@ =~= msg@.take(12) + msg@.skip(12));
        }
        match aead_open(&self.key, &nonce, sealed.as_slice()) {
            Some(p) => Ok(p),
            None => Err(CryptoError::Aead),
        }
    }
}

/// What one side of a stream seals, the other opens to what was sealed, whatever was sealed before;
/// each message is sealed under a nonce of its own.
pub proof fn law_sealed_is_opened(
    key: &[u8; 32],
    label: &[u8],
    sealer: StreamSealer,
    opener: StreamOpener,
    s: &mut StreamSealer,
    plain: &[u8],
    msg: Vec<u8>,
    wire: &[u8],
    r: Result<Vec<u8>, CryptoError>,
    t: &mut StreamSealer,
    more: &[u8],
    next: Vec<u8>,
)
    requires
        call_ensures(StreamSealer::new, (key, label), sealer),
        call_ensures(StreamOpener::new, (key, label), opener),
        old(s).key() == sealer.key(),
        old(s).counter() < u64::MAX - 1,
        plain@.len() < SEAL_LIMIT,
        more@.len() < SEAL_LIMIT,
        call_ensures(StreamSealer::seal, (s, plain), msg),
        wire@ == msg@,
        call_ensures(StreamOpener::open, (&opener, wire), r),
        *old(t) == *final(s),
        call_ensures(StreamSealer::seal, (t, more), next),
    ensures
        r matches Ok(p) && p@ == plain@,
        msg@.len() == plain@.len() + 28,
        msg@.take(12) != next@.take(12),
        next@ != msg@,
        msg@.take(4) == seq![0u8, 0u8, 0u8, 0u8],
        bytes::be_value(msg@.subrange(4, 12)) == old(s).counter(),
{
    bytes::lemma_pow256();
    bytes::lemma_be_roundtrip(old(s).counter() as nat, 8);
    assert(msg@.take(4) =~= seq![0u8, 0u8, 0u8, 0u8]);
    assert(msg@.subrange(4, 12) =~= bytes::be_bytes(old(s).counter() as nat, 8));
    let (a, b) = (old(s).counter(), old(t).counter());
    bytes::lemma_be_bytes_len(a as nat, 8);
    bytes::lemma_be_bytes_len(b as nat, 8);
    assert(msg@.take(12) =~= nonce_of(a));
    assert(next@.take(12) =~= nonce_of(b));
    if nonce_of(a) == nonce_of(b) {
        law_nonce_unique(a, b);
    }
}

/// Two sides with one password that hand each other their messages end with one key, and with one
/// tag that binds it to the fingerprints, whichever each names first.
pub proof fn law_exchange_agrees(
    password: &[u8],
    seed_a: [u8; 32],
    a: (PakeState, Vec<u8>),
    seed_b: [u8; 32],
    b: (PakeState, Vec<u8>),
    to_a: &[u8],
    key_a: Result<[u8; 32], CryptoError>,
    to_b: &[u8],
    key_b: Result<[u8; 32], CryptoError>,
    own: &str,
    peer: &str,
    tag_a: [u8; 32],
    tag_b: [u8; 32],
)
    requires
        call_ensures(pake_start_with_rng, (password, seed_a), a),
        call_ensures(pake_start_with_rng, (password, seed_b), b),
        to_a@ == b.1@,
        to_b@ == a.1@,
        call_ensures(pake_finish, (a.0, to_a), key_a),
        call_ensures(pake_finish, (b.0, to_b), key_b),
        key_a matches Ok(k) ==> call_ensures(session_binding, (&k, own, peer), tag_a),
        key_b matches Ok(k) ==> call_ensures(session_binding, (&k, peer, own), tag_b),
    ensures
        key_a is Ok && key_b is Ok,
        (key_a->Ok_0)@ == (key_b->Ok_0)@,
        tag_a@ == tag_b@,
{
    law_same_password_same_key(password@, a.1@, b.1@);
    law_binding_symmetric((key_a->Ok_0)@, own.spec_bytes(), peer.spec_bytes());
}

/// Messages are counted as they are sealed, from none on; a stream's key comes from the session's key
/// and the stream's label.
pub proof fn law_sealing_is_counted(
    key: &[u8; 32],
    label: &[u8],
    fresh: StreamSealer,
    none: u64,
    s: &mut StreamSealer,
    plain: &[u8],
    msg: Vec<u8>,
    before: u64,
    after: u64,
    derived: [u8; 32],
)
    requires
        call_ensures(StreamSealer::new, (key, label), fresh),
        call_ensures(StreamSealer::sealed, (&fresh,), none),
        call_ensures(StreamSealer::sealed, (old(s),), before),
        call_ensures(StreamSealer::seal, (s, plain), msg),
        call_ensures(StreamSealer::sealed, (final(s),), after),
        call_ensures(derive_stream_key, (key, label), derived),
    ensures
        none == 0,
        after == before + 1,
        derived@ == hkdf_sha256(key@, label@),
        fresh.key() == derived@,
        final(s).key() == old(s).key(),
{
}

/// An exchange that was started with the system's random bytes is one on the password that was given,
/// and its message is one that the other side accepts. It can only fail for want of such bytes.
pub proof fn law_exchange_starts(
    password: &[u8],
    r: Result<(PakeState, Vec<u8>), CryptoError>,
    inbound: &[u8],
    key: Result<[u8; 32], CryptoError>,
)
    requires
        call_ensures(pake_start, (password,), r),
        r matches Ok(x) ==> call_ensures(pake_finish, (x.0, inbound), key),
    ensures
        r matches Ok(x) ==> {
            &&& x.0.password() == password@ && x.0.sent() == x.1@
            &&& x.1@.len() == 33 && x.1@[0] == 0x53
            &&& inbound@.len() != 33 ==> key == Err::<[u8; 32], CryptoError>(CryptoError::Handshake)
            &&& pake_accepts(inbound@) ==> key is Ok
        },
        r matches Err(e) ==> e == CryptoError::Random,
{
}

/// Every error has a text of its own.
pub proof fn law_errors_are_told_apart(
    a: CryptoError,
    s: &'static str,
    b: CryptoError,
    t: &'static str,
)
    requires
        call_ensures(CryptoError::message, (&a,), s),
        call_ensures(CryptoError::message, (&b,), t),
        s@ == t@,
    ensures
        a == b,
{
    reveal_strlit("PAKE handshake failed");
    reveal_strlit("key derivation failed");
    reveal_strlit("media AEAD open failed");
    reveal_strlit("no random bytes");
    assert("PAKE handshake failed"@[0] != "key derivation failed"@[0]);
    assert("PAKE handshake failed"@[0] != "media AEAD open failed"@[0]);
    assert("PAKE handshake failed"@[0] != "no random bytes"@[0]);
    assert("key derivation failed"@[0] != "media AEAD open failed"@[0]);
    assert("key derivation failed"@[0] != "no random bytes"@[0]);
    assert("media AEAD open failed"@[0] != "no random bytes"@[0]);
}

} // verus!
