use zortilwatch::session::{ct_eq, Handshake, SessionMessage};

const FP_A: &str = "AA:AA:AA";
const FP_B: &str = "BB:BB:BB";
const FP_EVIL: &str = "EE:EE:EE";

fn run(pw_a: &[u8], pw_b: &[u8], a_peer_fp: &str, b_peer_fp: &str) -> (Handshake, Handshake) {
    let (mut a, a_pake) = Handshake::start(pw_a, FP_A.into(), a_peer_fp.into()).unwrap();
    let (mut b, b_pake) = Handshake::start(pw_b, FP_B.into(), b_peer_fp.into()).unwrap();
    let a_bind = a.on_message(b_pake);
    let b_bind = b.on_message(a_pake);
    if let Some(m) = b_bind {
        a.on_message(m);
    }
    if let Some(m) = a_bind {
        b.on_message(m);
    }
    (a, b)
}

#[test]
fn same_password_correct_fps_confirms_both_with_same_key() {
    let (a, b) = run(b"hunter2", b"hunter2", FP_B, FP_A);
    assert!(a.is_confirmed() && b.is_confirmed());
    assert_eq!(a.confirmed_key(), b.confirmed_key());
}

#[test]
fn wrong_password_fails_both() {
    let (a, b) = run(b"hunter2", b"wrong", FP_B, FP_A);
    assert!(a.is_failed() && b.is_failed());
    assert!(a.confirmed_key().is_none());
}

#[test]
fn mitm_swapped_fingerprint_is_detected() {
    let (a, b) = run(b"hunter2", b"hunter2", FP_EVIL, FP_A);
    assert!(a.is_failed() && b.is_failed());
}

#[test]
fn unexpected_messages_fail_the_handshake() {
    let (mut a, _) = Handshake::start_with_rng(b"pw", FP_A.into(), FP_B.into(), [1u8; 32]);
    assert!(!a.is_failed() && !a.is_confirmed());
    assert!(a.on_message(SessionMessage::Binding([0u8; 32])).is_none());
    assert!(a.is_failed());
    let (_, pake) = Handshake::start_with_rng(b"pw", FP_B.into(), FP_A.into(), [2u8; 32]);
    assert!(a.on_message(pake).is_none());
    assert!(a.is_failed());
}

#[test]
fn malformed_exchange_fails_the_handshake() {
    let (mut a, _) = Handshake::start_with_rng(b"pw", FP_A.into(), FP_B.into(), [1u8; 32]);
    assert!(a.on_message(SessionMessage::Pake(vec![1, 2, 3])).is_none());
    assert!(a.is_failed());
}

#[test]
fn a_message_after_confirmation_fails_the_session() {
    let (mut a, _) = run(b"pw", b"pw", FP_B, FP_A);
    assert!(a.is_confirmed());
    assert!(a.on_message(SessionMessage::Binding([0u8; 32])).is_none());
    assert!(a.is_failed() && a.confirmed_key().is_none());
}

#[test]
fn the_first_message_carries_the_exchange() {
    let (_, m) = Handshake::start_with_rng(b"pw", FP_A.into(), FP_B.into(), [1u8; 32]);
    match m {
        SessionMessage::Pake(p) => assert_eq!(p.len(), 33),
        SessionMessage::Binding(_) => panic!("wrong message"),
    }
}

#[test]
fn tags_are_compared_in_full() {
    let a = [3u8; 32];
    assert!(ct_eq(&a, &a));
    for i in [0usize, 15, 31] {
        let mut b = a;
        b[i] ^= 0x80;
        assert!(!ct_eq(&a, &b));
    }
}
