use zortilwatch::crypto::{StreamOpener, StreamSealer, STREAM_LABEL_INPUT_C2H, STREAM_LABEL_MEDIA_H2C};
use zortilwatch::media::Chunker;
use zortilwatch::session::{Handshake, SessionMessage};
use zortilwatch::wasm::{WasmError, WasmHandshake, WasmReassembler};

fn copy(m: &SessionMessage) -> SessionMessage {
    match m {
        SessionMessage::Pake(p) => SessionMessage::Pake(p.clone()),
        SessionMessage::Binding(b) => SessionMessage::Binding(*b),
    }
}

#[test]
fn browser_and_native_side_talk() {
    let mut web = WasmHandshake::new(b"pw", "A", "B", &[7; 40]).ok().unwrap();
    let (mut host, first) = Handshake::start(b"pw", "B".to_string(), "A".to_string()).unwrap();
    assert!(!web.is_confirmed());
    assert_eq!(web.video_opener().err(), Some(WasmError::NotConfirmed));
    assert_eq!(web.input_sealer().err(), Some(WasmError::NotConfirmed));
    let hello = copy(web.first_message());
    let host_bind = host.on_message(hello).unwrap();
    let web_bind = web.on_message(Some(first)).unwrap().unwrap();
    assert!(host.on_message(web_bind).is_none());
    assert!(web.on_message(Some(host_bind)).unwrap().is_none());
    assert!(web.is_confirmed() && host.is_confirmed());
    let key = *host.confirmed_key().unwrap();

    let mut sealer = StreamSealer::new(&key, STREAM_LABEL_MEDIA_H2C.as_bytes());
    let mut re = WasmReassembler::new();
    let mut whole = None;
    for c in Chunker::new(5).chunk(&sealer.seal(b"access unit")) {
        if let Some(f) = re.push(&c) {
            whole = Some(f);
        }
    }
    let opener = web.video_opener().ok().unwrap();
    assert_eq!(opener.open(&whole.unwrap()).unwrap(), b"access unit");
    assert_eq!(opener.open(b"short"), Err(WasmError::Unreadable));

    let mut input = web.input_sealer().ok().unwrap();
    let msg = input.seal(b"{}");
    assert_eq!(input.sealed(), 1);
    let host_opener = StreamOpener::new(&key, STREAM_LABEL_INPUT_C2H.as_bytes());
    assert_eq!(host_opener.open(&msg).unwrap(), b"{}");
}

#[test]
fn browser_handshake_is_determined_by_its_seed() {
    let first = |seed: &[u8]| match copy(WasmHandshake::new(b"pw", "A", "B", seed).ok().unwrap().first_message()) {
        SessionMessage::Pake(p) => p,
        SessionMessage::Binding(_) => panic!("wrong message"),
    };
    let mut long = vec![7u8; 32];
    long.push(1);
    assert_eq!(first(&[7; 32]), first(&long));
    assert_ne!(first(&[7; 32]), first(&[8; 32]));
}

#[test]
fn browser_errors() {
    assert_eq!(
        WasmHandshake::new(b"pw", "A", "B", &[7; 31]).err(),
        Some(WasmError::ShortSeed)
    );
    let mut h = WasmHandshake::new(b"pw", "A", "B", &[7; 32]).ok().unwrap();
    assert!(matches!(h.on_message(None), Err(WasmError::NotSessionMessage)));
    assert!(!h.is_confirmed());
    assert_eq!(WasmError::ShortSeed.message(), "seed must be >= 32 bytes");
    assert_eq!(WasmError::NotSessionMessage.message(), "not-session-message");
    assert_eq!(WasmError::NotConfirmed.message(), "key not confirmed");
    assert_eq!(WasmError::Unreadable.message(), "decrypt/auth failed");
}
