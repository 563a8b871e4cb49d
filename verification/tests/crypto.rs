use chacha20poly1305::aead::{Aead, KeyInit};
use hmac::Mac;
use zortilwatch::crypto::{
    derive_stream_key, pake_finish, pake_start, pake_start_with_rng, session_binding, CryptoError,
    StreamOpener, StreamSealer,
};

fn run_pake(pw_a: &[u8], pw_b: &[u8]) -> ([u8; 32], [u8; 32]) {
    let (sa, ma) = pake_start(pw_a).unwrap();
    let (sb, mb) = pake_start(pw_b).unwrap();
    let ka = pake_finish(sa, &mb).unwrap();
    let kb = pake_finish(sb, &ma).unwrap();
    (ka, kb)
}

#[test]
fn same_password_yields_same_key() {
    let (ka, kb) = run_pake(b"hunter2", b"hunter2");
    assert_eq!(ka, kb);
}

#[test]
fn different_password_yields_different_key() {
    let (ka, kb) = run_pake(b"hunter2", b"wrong-pass");
    assert_ne!(ka, kb);
}

#[test]
fn binding_matches_regardless_of_argument_order() {
    let (ka, kb) = run_pake(b"pw", b"pw");
    let a = session_binding(&ka, "AA:BB", "CC:DD");
    let b = session_binding(&kb, "CC:DD", "AA:BB");
    assert_eq!(a, b);
}

#[test]
fn binding_changes_if_a_fingerprint_is_swapped() {
    let (ka, _) = run_pake(b"pw", b"pw");
    let honest = session_binding(&ka, "AA:BB", "CC:DD");
    let mitm = session_binding(&ka, "AA:BB", "EVIL:FP");
    assert_ne!(honest, mitm);
}

const SLABEL: &[u8] = b"test stream v1";

#[test]
fn stream_seal_open_roundtrip() {
    let (ka, kb) = run_pake(b"pw", b"pw");
    let mut sealer = StreamSealer::new(&ka, SLABEL);
    let opener = StreamOpener::new(&kb, SLABEL);
    for plain in [&b"frame-one"[..], b"another-h264-access-unit", b""] {
        let sealed = sealer.seal(plain);
        assert_ne!(&sealed[12..], plain);
        assert_eq!(opener.open(&sealed).unwrap(), plain);
    }
}

#[test]
fn stream_open_fails_with_wrong_key() {
    let (ka, _) = run_pake(b"pw", b"pw");
    let (kx, _) = run_pake(b"other", b"other");
    let sealed = StreamSealer::new(&ka, SLABEL).seal(b"secret-frame");
    assert!(StreamOpener::new(&kx, SLABEL).open(&sealed).is_err());
}

#[test]
fn stream_open_fails_on_tamper() {
    let (ka, _) = run_pake(b"pw", b"pw");
    let mut sealed = StreamSealer::new(&ka, SLABEL).seal(b"secret-frame");
    let last = sealed.len() - 1;
    sealed[last] ^= 0x01;
    assert!(StreamOpener::new(&ka, SLABEL).open(&sealed).is_err());
}

#[test]
fn stream_key_is_domain_separated_from_session_key() {
    let (ka, _) = run_pake(b"pw", b"pw");
    assert_ne!(derive_stream_key(&ka, SLABEL), ka);
}

#[test]
fn different_labels_give_different_keys() {
    let (ka, _) = run_pake(b"pw", b"pw");
    assert_ne!(
        derive_stream_key(&ka, b"h2c"),
        derive_stream_key(&ka, b"c2h")
    );
    let sealed = StreamSealer::new(&ka, b"h2c").seal(b"x");
    assert!(StreamOpener::new(&ka, b"c2h").open(&sealed).is_err());
}

#[test]
fn exchange_is_a_function_of_password_and_seed() {
    let (_, m1) = pake_start_with_rng(b"pw", [7u8; 32]);
    let (_, m2) = pake_start_with_rng(b"pw", [7u8; 32]);
    let (_, m3) = pake_start_with_rng(b"pw", [8u8; 32]);
    let (_, m4) = pake_start_with_rng(b"pq", [7u8; 32]);
    assert_eq!(m1, m2);
    assert_ne!(m1, m3);
    assert_ne!(m1, m4);
    assert_eq!(m1.len(), 33);
    assert_eq!(m1[0], b'S');
}

#[test]
fn seeded_exchange_agrees_both_ways() {
    let (sa, ma) = pake_start_with_rng(b"pw", [1u8; 32]);
    let (sb, mb) = pake_start_with_rng(b"pw", [2u8; 32]);
    let ka = pake_finish(sa, &mb).unwrap();
    assert_eq!(ka, pake_finish(sb, &ma).unwrap());
    let (sc, _) = pake_start_with_rng(b"pw", [1u8; 32]);
    let (sd, md) = pake_start_with_rng(b"pw", [3u8; 32]);
    let kc = pake_finish(sc, &md).unwrap();
    assert_ne!(ka, kc);
    assert_eq!(kc, pake_finish(sd, &ma).unwrap());
}

#[test]
fn exchange_accepts_its_own_message_back() {
    let (sa, ma) = pake_start_with_rng(b"pw", [1u8; 32]);
    assert!(pake_finish(sa, &ma).is_ok());
}

#[test]
fn exchange_refuses_what_is_no_message() {
    let good = pake_start_with_rng(b"pw", [2u8; 32]).1;
    let finish = |m: &[u8]| pake_finish(pake_start_with_rng(b"pw", [1u8; 32]).0, m);
    assert!(finish(&good).is_ok());
    assert_eq!(finish(&[]), Err(CryptoError::Handshake));
    assert_eq!(finish(&good[..32]), Err(CryptoError::Handshake));
    let mut side = good.clone();
    side[0] = b'A';
    assert_eq!(finish(&side), Err(CryptoError::Handshake));
    let mut point = [0x53u8; 33];
    point[1] = 2;
    for b in point[2..].iter_mut() {
        *b = 0;
    }
    assert_eq!(finish(&point), Err(CryptoError::Handshake));
}

#[test]
fn stream_key_is_hkdf_of_session_key_and_label() {
    let key = [0x42u8; 32];
    let mut want = [0u8; 32];
    hkdf::Hkdf::<sha2::Sha256>::new(None, &key)
        .expand(b"h2c", &mut want)
        .unwrap();
    assert_eq!(derive_stream_key(&key, b"h2c"), want);
}

#[test]
fn binding_is_hmac_of_label_and_ordered_fingerprints() {
    let key = [0x42u8; 32];
    let mut mac = <hmac::Hmac<sha2::Sha256> as Mac>::new_from_slice(&key).unwrap();
    mac.update(b"dtls-binding-v1\0AA:BB\0CC:DD");
    let want: [u8; 32] = mac.finalize().into_bytes().into();
    assert_eq!(session_binding(&key, "CC:DD", "AA:BB"), want);
    assert_eq!(session_binding(&key, "AA:BB", "CC:DD"), want);
}

#[test]
fn binding_orders_a_prefix_first() {
    let key = [1u8; 32];
    let mut mac = <hmac::Hmac<sha2::Sha256> as Mac>::new_from_slice(&key).unwrap();
    mac.update(b"dtls-binding-v1\0AA\0AA:BB");
    let want: [u8; 32] = mac.finalize().into_bytes().into();
    assert_eq!(session_binding(&key, "AA:BB", "AA"), want);
}

#[test]
fn sealed_message_is_nonce_and_ciphertext() {
    let session = [9u8; 32];
    let key = derive_stream_key(&session, SLABEL);
    let aead = chacha20poly1305::ChaCha20Poly1305::new_from_slice(&key).unwrap();
    let mut sealer = StreamSealer::new(&session, SLABEL);
    for n in 0u8..3 {
        assert_eq!(sealer.sealed(), n as u64);
        let msg = sealer.seal(b"payload");
        let mut nonce = [0u8; 12];
        nonce[11] = n;
        let ct = aead
            .encrypt(chacha20poly1305::Nonce::from_slice(&nonce), &b"payload"[..])
            .unwrap();
        assert_eq!(&msg[..12], &nonce);
        assert_eq!(&msg[12..], &ct[..]);
        assert_eq!(msg.len(), 7 + 28);
    }
}

#[test]
fn nonces_never_repeat() {
    let mut sealer = StreamSealer::new(&[9u8; 32], SLABEL);
    let a = sealer.seal(b"same");
    let b = sealer.seal(b"same");
    assert_ne!(a[..12], b[..12]);
    assert_ne!(a[12..], b[12..]);
}

#[test]
fn short_messages_do_not_open() {
    let opener = StreamOpener::new(&[9u8; 32], SLABEL);
    assert_eq!(opener.open(&[]), Err(CryptoError::Aead));
    assert_eq!(opener.open(&[0u8; 11]), Err(CryptoError::Aead));
    assert_eq!(opener.open(&[0u8; 12]), Err(CryptoError::Aead));
    assert_eq!(opener.open(&[0u8; 27]), Err(CryptoError::Aead));
}

#[test]
fn errors_say_what_failed() {
    assert_eq!(CryptoError::Handshake.message(), "PAKE handshake failed");
    assert_eq!(CryptoError::Kdf.message(), "key derivation failed");
    assert_eq!(CryptoError::Aead.message(), "media AEAD open failed");
    assert_eq!(CryptoError::Random.message(), "no random bytes");
}
