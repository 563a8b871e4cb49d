use bytecodec::{DecodeExt, EncodeExt};
use stun_codec::rfc5389;
use stun_codec::rfc5389::attributes::{ErrorCode, MessageIntegrity, Nonce, Realm, Username};
use stun_codec::rfc5766;
use stun_codec::rfc5766::attributes::{
    Data, Lifetime, RequestedTransport, XorPeerAddress, XorRelayAddress,
};
use stun_codec::rfc5766::methods::{ALLOCATE, CREATE_PERMISSION, DATA, REFRESH, SEND};
use stun_codec::{
    Attribute, AttributeType, Message, MessageClass, MessageDecoder, MessageEncoder, Method,
    RawAttribute, TransactionId,
};
use zortilwatch::addr::SocketAddr;
use zortilwatch::relay::stun;
use zortilwatch::relay::stun::{
    read_address, read_message, write_address, RawMessage, StunClass, StunMessage,
};
use zortilwatch::relay::turn::{
    encode_send_indication, inbound, new_transaction, on_datagram, on_inbound, parse_from_server,
    permission_outcome, permission_reply, send_indication, transaction_from_bytes, Allocation,
    AllocationStep, RecvAction, TurnClient, TurnError, TurnInbound,
};
use zortilwatch::relay::{
    classify, origin, refresh_interval, route_transmit, unwrap_channel_data, wrap_channel_data,
    Link, LinkOutput, LinkStep, Origin, PacketKind, RefreshClock, Relay, Route,
};
use zortilwatch::time::Duration;

#[test]
fn classify_by_first_byte() {
    assert_eq!(classify(&[0x00]), PacketKind::Stun);
    assert_eq!(classify(&[0x01]), PacketKind::Stun);
    assert_eq!(classify(&[25]), PacketKind::Dtls);
    assert_eq!(classify(&[0x40]), PacketKind::TurnChannel);
    assert_eq!(classify(&[79]), PacketKind::TurnChannel);
    assert_eq!(classify(&[128]), PacketKind::Rtp);
    assert_eq!(classify(&[200]), PacketKind::Unknown);
    assert_eq!(classify(&[]), PacketKind::Unknown);
}

#[test]
fn classify_bounds() {
    for (b, k) in [
        (3, PacketKind::Stun),
        (4, PacketKind::Unknown),
        (19, PacketKind::Unknown),
        (20, PacketKind::Dtls),
        (63, PacketKind::Dtls),
        (80, PacketKind::Unknown),
        (127, PacketKind::Unknown),
        (191, PacketKind::Rtp),
        (192, PacketKind::Unknown),
    ] {
        assert_eq!(classify(&[b, 1, 2]), k);
    }
}

#[test]
fn channel_data_roundtrip() {
    let data = b"opaque-media-bytes";
    let wrapped = wrap_channel_data(0x4001, data);
    assert_eq!(wrapped.len() % 4, 0);
    assert_eq!(classify(&wrapped), PacketKind::TurnChannel);
    let (ch, payload) = unwrap_channel_data(&wrapped).unwrap();
    assert_eq!(ch, 0x4001);
    assert_eq!(payload, data);
}

#[test]
fn channel_data_is_padded_with_zeros() {
    assert_eq!(wrap_channel_data(0x4001, b"abcde"), b"\x40\x01\0\x05abcde\0\0\0");
    assert_eq!(wrap_channel_data(0x7FFF, b"abcd"), b"\x7F\xFF\0\x04abcd");
    assert_eq!(wrap_channel_data(0x4000, b""), b"\x40\0\0\0");
}

#[test]
fn unwrap_rejects_bad_channel_and_short() {
    assert!(unwrap_channel_data(&[0x00, 0x01, 0x00, 0x00]).is_none());
    assert!(unwrap_channel_data(&[0x40, 0x01]).is_none());
}

#[test]
fn unwrap_rejects_a_length_beyond_the_packet() {
    assert!(unwrap_channel_data(b"\x40\x01\0\x03ab").is_none());
    assert!(unwrap_channel_data(b"\x80\0\0\0").is_none());
    assert_eq!(
        unwrap_channel_data(b"\x40\x01\0\x02abcc"),
        Some((0x4001, &b"ab"[..]))
    );
}

fn v4(a: u8, b: u8, c: u8, d: u8, port: u16) -> SocketAddr {
    SocketAddr::V4(u32::from_be_bytes([a, b, c, d]), port)
}

const TXID: [u8; 12] = [7, 1, 2, 3, 4, 5, 6, 250, 8, 9, 10, 11];

fn read_turn(bytes: &[u8]) -> Message<rfc5766::Attribute> {
    MessageDecoder::new()
        .decode_from_bytes(bytes)
        .unwrap()
        .unwrap()
}

fn read_stun(bytes: &[u8]) -> Message<rfc5389::Attribute> {
    MessageDecoder::new()
        .decode_from_bytes(bytes)
        .unwrap()
        .unwrap()
}

fn write<A: Attribute>(m: Message<A>) -> Vec<u8> {
    MessageEncoder::new().encode_into_bytes(m).unwrap()
}

/// A message with attributes written by hand.
fn raw(class: MessageClass, method: u16, attrs: &[(u16, &[u8])]) -> Vec<u8> {
    let mut m = Message::<RawAttribute>::new(
        class,
        Method::new(method).unwrap(),
        TransactionId::new(TXID),
    );
    for (kind, value) in attrs {
        m.add_attribute(RawAttribute::new(AttributeType::new(*kind), value.to_vec()));
    }
    write(m)
}

fn message(class: StunClass, method: u16) -> StunMessage {
    StunMessage {
        class,
        method,
        realm: None,
        nonce: None,
        error_code: None,
        relayed: None,
        lifetime: None,
        peer: None,
        data: None,
    }
}

#[test]
fn send_indication_roundtrips_via_decoder() {
    let peer = v4(192, 168, 88, 223, 49170);
    let payload = b"str0m-binding-or-dtls-bytes";
    let bytes = encode_send_indication(peer, payload).unwrap();
    let msg = read_turn(&bytes);
    assert_eq!(msg.method(), SEND);
    assert_eq!(msg.class(), MessageClass::Indication);
    assert_eq!(
        msg.get_attribute::<XorPeerAddress>().unwrap().address(),
        "192.168.88.223:49170".parse().unwrap()
    );
    assert_eq!(msg.get_attribute::<Data>().unwrap().data(), payload);
}

#[test]
fn send_indication_is_what_the_codec_writes() {
    for (peer, text) in [
        (v4(192, 168, 88, 223, 49170), "192.168.88.223:49170"),
        (
            SocketAddr::V6(0x20010db8_00000000_00000000_00c0ffee, 65535, 0, 0),
            "[2001:db8::c0:ffee]:65535",
        ),
    ] {
        let mut m = Message::<rfc5766::Attribute>::new(
            MessageClass::Indication,
            SEND,
            TransactionId::new(TXID),
        );
        m.add_attribute(XorPeerAddress::new(text.parse().unwrap()));
        m.add_attribute(Data::new(vec![1, 2, 3]).unwrap());
        assert_eq!(send_indication(peer, &[1, 2, 3], TXID).unwrap(), write(m));
    }
}

#[test]
fn a_transaction_is_its_random_bytes() {
    assert_eq!(transaction_from_bytes(Some(TXID.to_vec())).unwrap(), TXID);
    assert_eq!(transaction_from_bytes(None).unwrap_err().0, "OS CSPRNG failed");
    assert_ne!(new_transaction().unwrap(), new_transaction().unwrap());
}

#[test]
fn send_indications_have_their_own_transactions() {
    let peer = v4(1, 2, 3, 4, 5);
    let a = read_turn(&encode_send_indication(peer, b"x").unwrap()).transaction_id();
    let b = read_turn(&encode_send_indication(peer, b"x").unwrap()).transaction_id();
    assert_ne!(a, b);
}

#[test]
fn send_indication_refuses_what_it_cannot_carry() {
    let peer = v4(1, 2, 3, 4, 5);
    assert!(encode_send_indication(peer, &[0u8; 65_516]).is_ok());
    assert!(encode_send_indication(peer, &[0u8; 65_517]).is_err());
    let v6 = SocketAddr::V6(1, 2, 3, 4);
    assert!(encode_send_indication(v6, &[0u8; 65_504]).is_ok());
    assert!(encode_send_indication(v6, &[0u8; 65_505]).is_err());
    assert!(encode_send_indication(peer, &[0u8; 0x1_0000]).is_err());
}

#[test]
fn empty_values_are_kept() {
    let peer = v4(1, 2, 3, 4, 5);
    let m = stun::parse(&send_indication(peer, b"", TXID).unwrap()).unwrap();
    assert_eq!((m.peer, m.data), (Some(peer), Some(vec![])));
    let m = stun::parse(&raw(
        MessageClass::ErrorResponse,
        3,
        &[(0x14, b""), (0x13, b""), (0x15, b"n"), (0x0D, &[0, 0, 0, 9]), (0x1234, b"")],
    ))
    .unwrap();
    assert_eq!(m.realm.as_deref(), Some(""));
    assert_eq!(m.data, Some(vec![]));
    assert_eq!(m.nonce.as_deref(), Some("n"));
    assert_eq!(m.lifetime, Some(9));
    let (a, _) = Allocation::start(peer, "", "", TXID);
    match a.on_datagram(&challenge_reply("r", "n"), TXID) {
        AllocationStep::Send(_, request) => check_credentials(&request, "", "", "r", "n"),
        other => panic!("expected Send, got {other:?}"),
    }
}

#[test]
fn addresses_are_read_as_they_were_written() {
    let v6 = SocketAddr::V6(0x20010db8_00000000_00000000_00c0ffee, 443, 0, 0);
    for a in [v4(10, 20, 30, 40, 50), v4(255, 255, 255, 255, 65535), v6] {
        assert_eq!(read_address(&write_address(a, &TXID), &TXID), Some(a));
    }
    assert_eq!(
        read_address(&write_address(SocketAddr::V6(1, 2, 3, 4), &TXID), &TXID),
        Some(SocketAddr::V6(1, 2, 0, 0))
    );
    assert_eq!(
        write_address(v4(192, 0, 2, 1, 32853), &TXID),
        [0, 1, 0xA1, 0x47, 0xE1, 0x12, 0xA6, 0x43]
    );
    assert_eq!(read_address(&[0, 1, 2, 3, 4, 5, 6], &TXID), None);
    assert_eq!(read_address(&[0, 2, 2, 3, 4, 5, 6, 7], &TXID), None);
}

#[test]
fn parse_data_indication_extracts_peer_and_payload() {
    let payload = b"relayed-from-peer";
    let mut ind = Message::<rfc5766::Attribute>::new(
        MessageClass::Indication,
        DATA,
        TransactionId::new(TXID),
    );
    ind.add_attribute(XorPeerAddress::new("192.168.88.223:49180".parse().unwrap()));
    ind.add_attribute(Data::new(payload.to_vec()).unwrap());
    match parse_from_server(&write(ind)).unwrap() {
        TurnInbound::Data {
            peer: p,
            payload: d,
        } => {
            assert_eq!(p, v4(192, 168, 88, 223, 49180));
            assert_eq!(d, payload);
        }
        other => panic!("expected Data, got {other:?}"),
    }
}

#[test]
fn parse_data_indication_needs_both_attributes() {
    let data: &[u8] = b"x";
    let e = parse_from_server(&raw(MessageClass::Indication, 7, &[(0x13, data)])).unwrap_err();
    assert_eq!(e.0, "DATA without XOR-PEER-ADDRESS");
    let peer = write_address(v4(1, 2, 3, 4, 5), &TXID);
    let e = parse_from_server(&raw(MessageClass::Indication, 7, &[(0x12, &peer)])).unwrap_err();
    assert_eq!(e.0, "DATA without DATA attr");
    let both = raw(MessageClass::Request, 7, &[(0x12, &peer), (0x13, data)]);
    assert!(matches!(parse_from_server(&both).unwrap(), TurnInbound::Other));
}

#[test]
fn parse_non_data_is_other() {
    let m = Message::<rfc5766::Attribute>::new(
        MessageClass::SuccessResponse,
        CREATE_PERMISSION,
        TransactionId::new(TXID),
    );
    assert!(matches!(
        parse_from_server(&write(m)).unwrap(),
        TurnInbound::Other
    ));
}

#[test]
fn parse_stale_nonce_extracts_fresh_nonce() {
    let mut m = Message::<rfc5389::Attribute>::new(
        MessageClass::ErrorResponse,
        REFRESH,
        TransactionId::new(TXID),
    );
    m.add_attribute(ErrorCode::new(438, "Stale Nonce".to_string()).unwrap());
    m.add_attribute(Nonce::new("fresh-nonce-xyz".to_string()).unwrap());
    match parse_from_server(&write(m)).unwrap() {
        TurnInbound::StaleNonce { nonce } => assert_eq!(nonce, "fresh-nonce-xyz"),
        other => panic!("expected StaleNonce, got {other:?}"),
    }
}

#[test]
fn other_errors_carry_no_nonce() {
    let mut m = message(StunClass::ErrorResponse, stun::REFRESH);
    m.error_code = Some(401);
    m.nonce = Some("n".to_string());
    assert!(matches!(inbound(&m).unwrap(), TurnInbound::Other));
    m.error_code = Some(438);
    m.nonce = None;
    assert!(matches!(inbound(&m).unwrap(), TurnInbound::Other));
}

#[test]
fn what_is_no_message_is_an_error() {
    assert!(parse_from_server(b"").is_err());
    assert!(parse_from_server(b"not a message at all").is_err());
    let whole = raw(MessageClass::SuccessResponse, 8, &[(0x13, b"abcd")]);
    assert!(parse_from_server(&whole).is_ok());
    assert!(parse_from_server(&whole[..whole.len() - 1]).is_err());
}

#[test]
fn a_malformed_attribute_breaks_the_message() {
    let broken = |kind: u16, value: &[u8]| {
        parse_from_server(&raw(MessageClass::SuccessResponse, 3, &[(kind, value)])).is_err()
    };
    let long = "x".repeat(128);
    assert!(!broken(0x14, &long.as_bytes()[..127]));
    assert!(broken(0x14, long.as_bytes()));
    assert!(broken(0x15, long.as_bytes()));
    assert!(!broken(0x15, "\u{456}".repeat(127).as_bytes()));
    assert!(broken(0x15, &[0xFF]));
    assert!(!broken(0x06, &[b'u'; 512]));
    assert!(broken(0x06, &[b'u'; 513]));
    assert!(!broken(0x08, &[0; 20]));
    assert!(broken(0x08, &[0; 19]));
    assert!(!broken(0x19, &[17, 0, 0, 0]));
    assert!(broken(0x19, &[17]));
    assert!(broken(0x0D, &[0, 0, 1]));
    assert!(broken(0x16, &[0, 3, 0, 0, 0, 0, 0, 0]));
    assert!(broken(0x09, &[0, 0, 4]));
    assert!(broken(0x09, &[0, 0, 2, 0]));
    assert!(broken(0x09, &[0, 0, 6, 0]));
    assert!(broken(0x09, &[0, 0, 4, 100]));
    assert!(broken(0x09, &[0, 0, 4, 99, 0xFF]));
    assert!(!broken(0x09, &[0, 0, 4, 99]));
    assert!(!broken(0x1234, &[1, 2, 3]));
}

#[test]
fn the_first_attribute_of_a_type_counts() {
    let m = stun::parse(&raw(
        MessageClass::ErrorResponse,
        3,
        &[
            (0x09, &[9, 9, 0xFC, 38, b'x']),
            (0x14, b"first"),
            (0x14, b"second"),
            (0x0D, &[0, 0, 2, 88]),
            (0x0D, &[0, 0, 0, 1]),
        ],
    ))
    .unwrap();
    assert_eq!(m.class, StunClass::ErrorResponse);
    assert_eq!(m.method, stun::ALLOCATE);
    assert_eq!(m.error_code, Some(438));
    assert_eq!(m.realm.unwrap(), "first");
    assert_eq!(m.lifetime, Some(600));
    assert!(m.nonce.is_none() && m.relayed.is_none() && m.peer.is_none() && m.data.is_none());
}

#[test]
fn framed_messages_are_read_by_their_attributes() {
    let m = RawMessage {
        class: StunClass::Indication,
        method: stun::DATA,
        transaction: TXID,
        attrs: vec![
            (stun::PEER_ATTR, write_address(v4(1, 2, 3, 4, 5), &TXID)),
            (stun::DATA_ATTR, vec![1, 2]),
        ],
    };
    let read = read_message(&m).unwrap();
    assert_eq!(read.peer, Some(v4(1, 2, 3, 4, 5)));
    assert_eq!(read.data, Some(vec![1, 2]));
    assert_eq!(
        [
            StunClass::Request.name(),
            StunClass::Indication.name(),
            StunClass::SuccessResponse.name(),
            StunClass::ErrorResponse.name()
        ],
        ["Request", "Indication", "SuccessResponse", "ErrorResponse"]
    );
}

/// The reply to a challenge, as a server writes it.
fn challenge_reply(realm: &str, nonce: &str) -> Vec<u8> {
    let mut m = Message::<rfc5389::Attribute>::new(
        MessageClass::ErrorResponse,
        ALLOCATE,
        TransactionId::new(TXID),
    );
    m.add_attribute(ErrorCode::new(401, "Unauthorized".to_string()).unwrap());
    m.add_attribute(Realm::new(realm.to_string()).unwrap());
    m.add_attribute(Nonce::new(nonce.to_string()).unwrap());
    write(m)
}

fn check_credentials(request: &[u8], username: &str, password: &str, realm: &str, nonce: &str) {
    let m = read_stun(request);
    let name = m.get_attribute::<Username>().unwrap();
    let r = m.get_attribute::<Realm>().unwrap();
    assert_eq!(name.name(), username);
    assert_eq!(r.text(), realm);
    assert_eq!(m.get_attribute::<Nonce>().unwrap().value(), nonce);
    let mi = m.get_attribute::<MessageIntegrity>().unwrap();
    assert!(mi.check_long_term_credential(name, r, password).is_ok());
    assert!(mi.check_long_term_credential(name, r, "other").is_err());
}

fn allocated() -> TurnClient {
    let server = v4(10, 0, 0, 1, 3478);
    let (a, req) = Allocation::start(server, "user", "pass", TXID);
    let m = read_turn(&req);
    assert_eq!(m.method(), ALLOCATE);
    assert_eq!(m.class(), MessageClass::Request);
    assert_eq!(m.transaction_id(), TransactionId::new(TXID));
    assert_eq!(m.attributes().count(), 1);
    assert_eq!(m.get_attribute::<RequestedTransport>().unwrap().protocol(), 17);
    let second: [u8; 12] = [9; 12];
    let (a, req) = match a.on_datagram(&challenge_reply("realm", "nonce"), second) {
        AllocationStep::Send(a, req) => (a, req),
        other => panic!("expected Send, got {other:?}"),
    };
    let m = read_turn(&req);
    assert_eq!(m.method(), ALLOCATE);
    assert_eq!(m.transaction_id(), TransactionId::new(second));
    assert_eq!(m.get_attribute::<RequestedTransport>().unwrap().protocol(), 17);
    check_credentials(&req, "user", "pass", "realm", "nonce");
    let mut ok = Message::<rfc5766::Attribute>::new(
        MessageClass::SuccessResponse,
        ALLOCATE,
        TransactionId::new(second),
    );
    ok.add_attribute(XorRelayAddress::new("10.0.0.1:50000".parse().unwrap()));
    match a.on_datagram(&write(ok), TXID) {
        AllocationStep::Done(c) => c,
        other => panic!("expected Done, got {other:?}"),
    }
}

#[test]
fn allocation_goes_through_the_challenge() {
    let c = allocated();
    assert_eq!(c.relayed, v4(10, 0, 0, 1, 50_000));
    assert_eq!(c.server, v4(10, 0, 0, 1, 3478));
    assert_eq!(c.lifetime_secs(), 600);
}

#[test]
fn authenticated_requests_are_what_the_codec_writes() {
    let c = allocated();
    let mut m =
        Message::<RawAttribute>::new(MessageClass::Request, REFRESH, TransactionId::new(TXID));
    let add = |m: &mut Message<RawAttribute>, kind: u16, value: &[u8]| {
        m.add_attribute(RawAttribute::new(AttributeType::new(kind), value.to_vec()))
    };
    add(&mut m, 0x0D, &[0, 0, 2, 88]);
    add(&mut m, 0x06, b"user");
    add(&mut m, 0x14, b"realm");
    add(&mut m, 0x15, b"nonce");
    let name = Username::new("user".to_string()).unwrap();
    let realm = Realm::new("realm".to_string()).unwrap();
    let mi = MessageIntegrity::new_long_term_credential(&m, &name, &realm, "pass").unwrap();
    add(&mut m, 0x08, &mi.hmac_sha1());
    assert_eq!(c.refresh_request(TXID).unwrap(), write(m));
}

#[test]
fn allocation_errors_say_what_is_missing() {
    let server = v4(10, 0, 0, 1, 3478);
    let fail = |reply: StunMessage| {
        let (a, _) = Allocation::start(server, "u", "p", TXID);
        match a.on_reply(&reply, TXID) {
            AllocationStep::Failed(e) => e.0,
            other => panic!("expected Failed, got {other:?}"),
        }
    };
    let mut r = message(StunClass::ErrorResponse, stun::ALLOCATE);
    r.error_code = Some(437);
    assert_eq!(
        fail(r),
        "no REALM in challenge (class=ErrorResponse, error_code=437)"
    );
    let mut r = message(StunClass::SuccessResponse, stun::ALLOCATE);
    assert_eq!(
        fail(message(StunClass::SuccessResponse, stun::ALLOCATE)),
        "no REALM in challenge (class=SuccessResponse, error_code=0)"
    );
    r.realm = Some("r".to_string());
    assert_eq!(fail(r), "no NONCE in challenge");
}

#[test]
fn a_user_name_that_is_too_long_ends_the_allocation() {
    let server = v4(10, 0, 0, 1, 3478);
    let reply = challenge_reply("r", "n");
    let (a, _) = Allocation::start(server, &"u".repeat(512), "p", TXID);
    assert!(matches!(a.on_datagram(&reply, TXID), AllocationStep::Send(..)));
    let (a, _) = Allocation::start(server, &"u".repeat(513), "p", TXID);
    let refusal = Username::new("u".repeat(513)).unwrap_err().to_string();
    assert!(matches!(a.on_datagram(&reply, TXID), AllocationStep::Failed(TurnError(e)) if e == refusal));
    let (a, _) = Allocation::start(server, "u", "p", TXID);
    assert!(matches!(a.on_datagram(b"?", TXID), AllocationStep::Failed(_)));
}

#[test]
fn a_rejected_allocation_is_reported() {
    let second = || {
        let (a, _) = Allocation::start(v4(10, 0, 0, 1, 3478), "u", "p", TXID);
        match a.on_datagram(&challenge_reply("r", "n"), TXID) {
            AllocationStep::Send(a, _) => a,
            other => panic!("expected Send, got {other:?}"),
        }
    };
    let mut no = message(StunClass::ErrorResponse, stun::ALLOCATE);
    no.error_code = Some(486);
    match second().on_reply(&no, TXID) {
        AllocationStep::Failed(e) => {
            assert_eq!(e.0, "Allocate rejected (class=ErrorResponse, code=486)")
        }
        other => panic!("expected Failed, got {other:?}"),
    }
    let empty = message(StunClass::SuccessResponse, stun::ALLOCATE);
    match second().on_reply(&empty, TXID) {
        AllocationStep::Failed(e) => assert_eq!(e.0, "no XOR-RELAYED-ADDRESS"),
        other => panic!("expected Failed, got {other:?}"),
    }
    let mut short = message(StunClass::SuccessResponse, stun::ALLOCATE);
    short.relayed = Some(v4(1, 1, 1, 1, 1));
    short.lifetime = Some(777);
    match second().on_reply(&short, TXID) {
        AllocationStep::Done(c) => assert_eq!(c.lifetime_secs(), 777),
        other => panic!("expected Done, got {other:?}"),
    }
}

#[test]
fn permission_is_asked_for_and_checked() {
    let c = allocated();
    let r = c.permission_request(v4(9, 9, 9, 9, 9), TXID).unwrap();
    let m = read_turn(&r);
    assert_eq!(m.method(), CREATE_PERMISSION);
    assert_eq!(
        m.get_attribute::<XorPeerAddress>().unwrap().address(),
        "9.9.9.9:9".parse().unwrap()
    );
    check_credentials(&r, "user", "pass", "realm", "nonce");
    assert!(permission_reply(&raw(MessageClass::SuccessResponse, 8, &[])).is_ok());
    let no = raw(MessageClass::ErrorResponse, 8, &[(0x09, &[0, 0, 4, 3])]);
    let e = permission_reply(&no).unwrap_err();
    assert_eq!(e.0, "CreatePermission rejected (class=ErrorResponse, code=403)");
    assert_eq!(
        e.message(),
        "turn error: CreatePermission rejected (class=ErrorResponse, code=403)"
    );
    assert!(permission_reply(b"").is_err());
    let other = message(StunClass::Indication, stun::CREATE_PERMISSION);
    assert_eq!(
        permission_outcome(&other).unwrap_err().0,
        "CreatePermission rejected (class=Indication, code=0)"
    );
}

#[test]
fn refresh_uses_the_newest_nonce() {
    let mut c = allocated();
    c.set_nonce("second".to_string());
    let r = c.refresh_request_bytes().unwrap();
    let m = read_turn(&r);
    assert_eq!(m.method(), REFRESH);
    assert_eq!(m.get_attribute::<Lifetime>().unwrap().lifetime().as_secs(), 600);
    check_credentials(&r, "user", "pass", "realm", "second");
    c.set_nonce("x".repeat(128));
    check_credentials(
        &c.refresh_request(TXID).unwrap(),
        "user",
        "pass",
        "realm",
        "second",
    );
    let wide = "і".repeat(127);
    c.set_nonce(wide.clone());
    check_credentials(&c.refresh_request(TXID).unwrap(), "user", "pass", "realm", &wide);
    assert!(c.renew("third".to_string(), None).is_none());
    let r = c.renew("fourth".to_string(), Some(TXID)).unwrap();
    check_credentials(&r, "user", "pass", "realm", "fourth");
}

#[test]
fn datagrams_from_the_relay_are_unwrapped() {
    let c = allocated();
    let relay = Relay {
        turn_server: Some(c.server),
        my_relayed: Some(c.relayed),
    };
    let my = v4(127, 0, 0, 1, 4000);
    let server = c.server;
    let relayed = c.relayed;
    let mut client = Some(c);
    let peer = v4(8, 8, 8, 8, 8);
    let address = write_address(peer, &TXID);
    let data = raw(MessageClass::Indication, 7, &[(0x12, &address), (0x13, b"dtls")]);
    match on_datagram(&relay, my, peer, &data, &mut client) {
        RecvAction::FeedDatagram { source, destination } => {
            assert_eq!((source, destination), (peer, my))
        }
        other => panic!("expected FeedDatagram, got {other:?}"),
    }
    match on_datagram(&relay, my, server, &data, &mut client) {
        RecvAction::FeedPayload { source, destination, payload } => {
            assert_eq!((source, destination), (peer, relayed));
            assert_eq!(payload, b"dtls");
        }
        other => panic!("expected FeedPayload, got {other:?}"),
    }
    let stale = raw(
        MessageClass::ErrorResponse,
        4,
        &[(0x09, &[0, 0, 4, 38]), (0x15, b"fresh")],
    );
    match on_datagram(&relay, my, server, &stale, &mut client) {
        RecvAction::SendRefresh { server: s, request } => {
            assert_eq!(s, server);
            check_credentials(&request, "user", "pass", "realm", "fresh");
        }
        other => panic!("expected SendRefresh, got {other:?}"),
    }
    assert!(matches!(
        on_datagram(&relay, my, server, &stale, &mut None),
        RecvAction::Drop
    ));
    assert!(matches!(
        on_datagram(&relay, my, server, b"garbage", &mut client),
        RecvAction::Drop
    ));
    let ok = raw(MessageClass::SuccessResponse, 4, &[]);
    assert!(matches!(
        on_datagram(&relay, my, server, &ok, &mut client),
        RecvAction::Drop
    ));
}

#[test]
fn without_a_relay_only_the_direct_path_is_used() {
    let relay = Relay::default();
    assert!(relay.turn_server.is_none() && relay.my_relayed.is_none());
}

#[test]
fn a_stale_nonce_is_answered_with_a_refresh() {
    let c = allocated();
    let (server, relayed) = (c.server, c.relayed);
    let mut expected = allocated();
    expected.set_nonce("fresh".to_string());
    let mut client = Some(c);
    let stale = |nonce: &str| TurnInbound::StaleNonce {
        nonce: nonce.to_string(),
    };
    match on_inbound(relayed, stale("fresh"), &mut client, Some(TXID)) {
        RecvAction::SendRefresh { server: s, request } => {
            assert_eq!(s, server);
            assert_eq!(request, expected.refresh_request(TXID).unwrap());
        }
        other => panic!("expected SendRefresh, got {other:?}"),
    }
    assert!(matches!(
        on_inbound(relayed, stale("newer"), &mut client, None),
        RecvAction::Drop
    ));
    let request = client.as_ref().unwrap().refresh_request(TXID).unwrap();
    check_credentials(&request, "user", "pass", "realm", "newer");
    assert!(matches!(
        on_inbound(relayed, stale("fresh"), &mut None, Some(TXID)),
        RecvAction::Drop
    ));
    let peer = v4(8, 8, 8, 8, 8);
    let data = TurnInbound::Data {
        peer,
        payload: b"dtls".to_vec(),
    };
    assert!(matches!(
        on_inbound(relayed, data, &mut client, None),
        RecvAction::FeedPayload { source, destination, payload }
            if source == peer && destination == relayed && payload == b"dtls"
    ));
    assert!(matches!(
        on_inbound(relayed, TurnInbound::Other, &mut client, Some(TXID)),
        RecvAction::Drop
    ));
}

#[test]
fn only_traffic_from_the_relayed_address_takes_the_relay() {
    let (ts, mr, me, peer) = (
        v4(1, 1, 1, 1, 1),
        v4(2, 2, 2, 2, 2),
        v4(3, 3, 3, 3, 3),
        v4(4, 4, 4, 4, 4),
    );
    let relay = Relay {
        turn_server: Some(ts),
        my_relayed: Some(mr),
    };
    assert_eq!(
        route_transmit(&relay, mr, peer),
        Route::ViaRelay { server: ts, peer }
    );
    assert_eq!(route_transmit(&relay, me, peer), Route::Direct(peer));
    let none = Relay {
        turn_server: None,
        my_relayed: None,
    };
    assert_eq!(route_transmit(&none, mr, peer), Route::Direct(peer));
    assert_eq!(origin(&relay, ts), Origin::Server { relayed: mr });
    assert_eq!(origin(&relay, peer), Origin::Peer);
    assert_eq!(origin(&none, ts), Origin::Peer);
    let v6 = SocketAddr::V6(1, 2, 3, 4);
    assert_eq!(route_transmit(&relay, v6, peer), Route::Direct(peer));
}

#[test]
fn refresh_is_due_at_half_the_lifetime() {
    assert_eq!(refresh_interval(600), Duration::from_secs(300));
    assert_eq!(refresh_interval(100), Duration::from_secs(60));
    assert_eq!(refresh_interval(121), Duration::from_secs(60));
    assert_eq!(refresh_interval(122), Duration::from_secs(61));
    let mut c = RefreshClock::new(Some(600), Duration::from_secs(10));
    assert!(!c.tick(Duration::from_secs(309)));
    assert!(c.tick(Duration::from_secs(310)));
    assert!(!c.tick(Duration::from_secs(311)));
    let mut none = RefreshClock::new(None, Duration::from_secs(0));
    assert!(!none.tick(Duration::from_secs(100_000)));
}

#[test]
fn link_collects_what_the_transport_reports() {
    let mut l = Link::new(Relay {
        turn_server: None,
        my_relayed: None,
    });
    assert!(matches!(l.on_output(LinkOutput::ChannelOpen), LinkStep::Continue));
    assert!(l.open);
    l.on_output(LinkOutput::ChannelData(vec![1]));
    l.on_output(LinkOutput::Other);
    l.on_output(LinkOutput::ChannelData(vec![2]));
    assert_eq!(l.take_inbox(), vec![vec![1], vec![2]]);
    assert!(l.take_inbox().is_empty());
    let a = v4(1, 2, 3, 4, 5);
    match l.on_output(LinkOutput::Transmit {
        source: a,
        destination: a,
        contents: vec![7],
    }) {
        LinkStep::Send { route, contents } => {
            assert_eq!(route, Route::Direct(a));
            assert_eq!(contents, vec![7]);
        }
        other => panic!("expected Send, got {other:?}"),
    }
    assert!(matches!(l.on_output(LinkOutput::Idle), LinkStep::Drained));
    assert!(matches!(l.on_output(LinkOutput::Disconnected), LinkStep::Lost));
    assert!(matches!(l.on_output(LinkOutput::Failed), LinkStep::Lost));
}

#[test]
fn turn_errors_are_prefixed() {
    assert_eq!(TurnError("x".to_string()).message(), "turn error: x");
}
