use zortilwatch::addr::SocketAddr;
use zortilwatch::connection::{
    candidate_plan, connect_plan, connect_reply, fingerprint, ice_payload, parse_turn_endpoint,
    peer_candidates, peer_relayed, request_wake, sdp_payload, wake_answer, ws_url, AnswerStep,
    Answering, ConnectReply, Established, Establishing, SetupError,
};
use zortilwatch::json::Json;
use zortilwatch::relay::Relay;
use zortilwatch::signal::{ClientMsg, ServerMsg};
use zortilwatch::time::Duration;

fn urls(list: &[&str]) -> Json {
    Json::Arr(list.iter().map(|s| Json::text(s)).collect())
}

fn server(urls: Json, username: &str, credential: &str) -> Json {
    Json::empty()
        .with("urls", urls)
        .with("username", Json::text(username))
        .with("credential", Json::text(credential))
}

#[test]
fn picks_udp_turn_from_real_ice_servers() {
    let ice = Json::Arr(vec![server(
        urls(&[
            "turns:turn.example:443?transport=tcp",
            "turns:turn.example:5349?transport=tcp",
            "turn:192.168.88.223:3478?transport=udp",
            "turn:192.168.88.223:3478?transport=tcp",
        ]),
        "1780739684:acct123",
        "+0hxRCZJKXHBnZArGiu9TR97sow=",
    )]);
    let (u, c, srv) = parse_turn_endpoint(&ice).expect("parse");
    assert_eq!(u, "1780739684:acct123");
    assert_eq!(c, "+0hxRCZJKXHBnZArGiu9TR97sow=");
    assert_eq!(srv.to_string(), "192.168.88.223:3478");
}

#[test]
fn accepts_space_separated_urls_string() {
    let ice = Json::Arr(vec![server(
        Json::text("turns:h:443?transport=tcp turn:10.0.0.5:3478?transport=udp"),
        "u",
        "c",
    )]);
    let (_, _, srv) = parse_turn_endpoint(&ice).expect("parse");
    assert_eq!(srv.to_string(), "10.0.0.5:3478");
}

#[test]
fn none_when_only_tcp_or_turns() {
    let ice = Json::Arr(vec![server(
        urls(&["turns:h:443?transport=tcp", "turn:1.2.3.4:3478?transport=tcp"]),
        "u",
        "c",
    )]);
    assert!(parse_turn_endpoint(&ice).is_none());
}

#[test]
fn none_when_empty_or_missing_fields() {
    assert!(parse_turn_endpoint(&Json::Arr(vec![])).is_none());
    assert!(parse_turn_endpoint(&Json::Arr(vec![
        Json::empty().with("urls", urls(&["turn:1.2.3.4:3478?transport=udp"]))
    ]))
    .is_none());
}

#[test]
fn only_the_first_ice_server_counts() {
    let good = || server(urls(&["turn:1.2.3.4:1"]), "u", "c");
    let bad = server(urls(&["stun:1.2.3.4:1"]), "u", "c");
    assert!(parse_turn_endpoint(&Json::Arr(vec![bad, good()])).is_none());
    assert!(parse_turn_endpoint(&good()).is_none());
    let (_, _, host) = parse_turn_endpoint(&Json::Arr(vec![good()])).unwrap();
    assert_eq!(host, "1.2.3.4:1");
    let odd = server(
        Json::Arr(vec![Json::Uint(1), Json::text("turn:h:2?a?b")]),
        "u",
        "c",
    );
    assert_eq!(parse_turn_endpoint(&Json::Arr(vec![odd])).unwrap().2, "h:2");
    let wrong = server(Json::Bool(true), "u", "c");
    assert!(parse_turn_endpoint(&Json::Arr(vec![wrong])).is_none());
}

#[test]
fn socket_address_follows_the_scheme() {
    assert_eq!(ws_url("https://a.b:1/"), "wss://a.b:1/signal");
    assert_eq!(ws_url("http://a.b"), "ws://a.b/signal");
    assert_eq!(ws_url("ws://a//"), "ws://a/signal");
    assert_eq!(ws_url(""), "/signal");
}

#[test]
fn fingerprint_is_the_first_one_in_the_description() {
    let sdp = "v=0\r\n  a=fingerprint: sha-256 AA:BB \r\na=fingerprint:sha-256 CC\r\n";
    assert_eq!(fingerprint(sdp), "sha-256 AA:BB");
    assert_eq!(fingerprint("v=0\na=ice\n"), "");
    assert_eq!(fingerprint(""), "");
    assert_eq!(fingerprint("x\ra=fingerprint:y"), "");
    assert_eq!(fingerprint("a=fingerprint:z"), "z");
}

#[test]
fn payloads_are_read_back() {
    let sdp = sdp_payload("v=0");
    assert_eq!(sdp.get_str("sdp"), Some("v=0".to_string()));
    let cands = vec!["c1".to_string(), "c2".to_string()];
    let p = ice_payload(&cands, Some("1.2.3.4:5"));
    assert_eq!(peer_candidates(&p), cands);
    assert_eq!(peer_relayed(&p), Some("1.2.3.4:5".to_string()));
    let q = ice_payload(&vec![], None);
    assert!(peer_candidates(&q).is_empty());
    assert_eq!(peer_relayed(&q), None);
    assert!(q.get("relayed").unwrap().is_null());
    let one = Json::empty().with("cand", Json::text("c"));
    assert_eq!(peer_candidates(&one), vec!["c".to_string()]);
    let both = Json::empty()
        .with("cands", Json::Bool(true))
        .with("cand", Json::text("c"));
    assert_eq!(peer_candidates(&both), vec!["c".to_string()]);
}

#[test]
fn relay_can_be_forced_only_with_a_relay() {
    let a = SocketAddr::V4(1, 2);
    let with = Relay {
        turn_server: Some(a),
        my_relayed: Some(a),
    };
    let without = Relay {
        turn_server: None,
        my_relayed: None,
    };
    assert!(!candidate_plan(&with, true).host);
    assert_eq!(candidate_plan(&with, true).relayed, Some(a));
    assert!(candidate_plan(&with, false).host);
    assert!(candidate_plan(&without, true).host);
}

#[test]
fn waking_registers_and_asks() {
    let p = request_wake("http://h", "1", "s", "2");
    assert_eq!(p.url, "ws://h/signal");
    assert_eq!(p.timeout, Duration::from_secs(8));
    match p.register {
        ClientMsg::Register {
            device_id,
            client_kind,
            mac,
            ..
        } => {
            assert_eq!(device_id, "1");
            assert_eq!(client_kind, "controller");
            assert_eq!(mac, None);
        }
        other => panic!("expected Register, got {other:?}"),
    }
    assert!(matches!(p.wake, ClientMsg::Wake { v: 1, target_id } if target_id == "2"));
    let answer = wake_answer(ServerMsg::WakeResult {
        status: "dispatched".to_string(),
        helpers: 2,
    });
    assert_eq!(answer, Some(("dispatched".to_string(), 2)));
    assert_eq!(wake_answer(ServerMsg::Unknown), None);
}

#[test]
fn connecting_names_the_kind_of_password() {
    let p = connect_plan("https://h/", "1", "s", "2", "one_time");
    assert_eq!(p.url, "wss://h/signal");
    assert_eq!(p.timeout, Duration::from_secs(35));
    assert!(matches!(
        p.request,
        ClientMsg::ConnectRequest { target_id, password_kind: Some(k), .. }
            if target_id == "2" && k == "one_time"
    ));
}

#[test]
fn connect_replies_are_told_apart() {
    let ready = connect_reply(ServerMsg::ConnectReady {
        session_id: "s".to_string(),
        role: "answerer".to_string(),
        peer_kind: "host".to_string(),
        ice_servers: None,
    });
    assert!(matches!(ready, ConnectReply::Ready { session_id, ice_servers: None } if session_id == "s"));
    let refused = connect_reply(ServerMsg::ConnectErr {
        code: "busy".to_string(),
        rid: None,
        retry_after: None,
    });
    assert!(matches!(refused, ConnectReply::Refused(s) if s == "connect_err busy"));
    assert!(matches!(connect_reply(ServerMsg::Unknown), ConnectReply::Wait));
}

fn signal(kind: &str, payload: Json) -> ServerMsg {
    ServerMsg::Signal {
        session_id: "s".to_string(),
        kind: kind.to_string(),
        payload,
    }
}

#[test]
fn answering_waits_for_offer_and_candidates() {
    let mut a = Answering::new("s".to_string());
    assert!(!a.complete());
    match a.on_message(&signal("offer", sdp_payload("a=fingerprint:PEER"))) {
        AnswerStep::AcceptOffer { sdp } => assert_eq!(sdp, "a=fingerprint:PEER"),
        other => panic!("expected AcceptOffer, got {other:?}"),
    }
    assert_eq!(a.peer_fp, "PEER");
    assert!(!a.offered);
    let (answer, ice) = a.on_answer("a=fingerprint:OWN", &vec!["c".to_string()], None);
    assert_eq!(a.own_fp, "OWN");
    assert!(a.offered && !a.complete());
    match answer {
        ClientMsg::Signal { kind, payload, .. } => {
            assert_eq!(kind, "answer");
            assert_eq!(payload.get_str("sdp"), Some("a=fingerprint:OWN".to_string()));
        }
        other => panic!("expected Signal, got {other:?}"),
    }
    match ice {
        ClientMsg::Signal { kind, payload, .. } => {
            assert_eq!(kind, "ice");
            assert_eq!(peer_candidates(&payload), vec!["c".to_string()]);
        }
        other => panic!("expected Signal, got {other:?}"),
    }
    let theirs = ice_payload(&vec!["d".to_string()], Some("r"));
    match a.on_message(&signal("ice", theirs)) {
        AnswerStep::AddCandidates { cands, relayed } => {
            assert_eq!(cands, vec!["d".to_string()]);
            assert_eq!(relayed, Some("r".to_string()));
        }
        other => panic!("expected AddCandidates, got {other:?}"),
    }
    assert!(a.complete());
    assert!(matches!(a.on_message(&signal("other", Json::Null)), AnswerStep::Wait));
    assert!(matches!(a.on_message(&ServerMsg::Unknown), AnswerStep::Wait));
    assert!(matches!(
        a.on_message(&signal("offer", Json::Null)),
        AnswerStep::Fail(e) if e == "no sdp"
    ));
}

#[test]
fn establishing_confirms_both_sides() {
    let now = Duration::from_secs(1);
    let mut a = Establishing::new(b"pw", "A", "B", now);
    let mut b = Establishing::new(b"pw", "B", "A", now);
    assert!(matches!(a.state(false, now), Established::Pending));
    assert!(a.begin(false).unwrap().is_none());
    let ma = a.begin(true).unwrap().unwrap();
    let mb = b.begin(true).unwrap().unwrap();
    assert!(a.begin(true).unwrap().is_none());
    assert!(a.on_message(true, None, b"early".to_vec()).is_none());
    let ba = a.on_message(true, Some(mb), vec![]).unwrap();
    let bb = b.on_message(true, Some(ma), vec![]).unwrap();
    assert!(a.on_message(true, Some(bb), vec![]).is_none());
    assert!(b.on_message(true, Some(ba), vec![]).is_none());
    let late = Duration::from_secs(1000);
    let ka = match a.state(true, late) {
        Established::Confirmed(k) => k,
        other => panic!("expected Confirmed, got {other:?}"),
    };
    assert!(matches!(b.state(true, now), Established::Confirmed(k) if k == ka));
    assert!(matches!(
        b.state(false, now),
        Established::Failed(SetupError::NoChannel)
    ));
    assert_eq!(a.into_deferred(), vec![b"early".to_vec()]);
}

#[test]
fn establishing_fails_on_a_wrong_password_and_on_time() {
    let now = Duration::from_secs(1);
    let mut a = Establishing::new(b"pw", "A", "B", now);
    let mut b = Establishing::new(b"no", "B", "A", now);
    let _ = a.begin(true).unwrap().unwrap();
    let mb = b.begin(true).unwrap().unwrap();
    assert!(matches!(a.state(true, Duration::from_secs(31)), Established::Pending));
    assert!(matches!(
        a.state(true, Duration::from_millis(31_001)),
        Established::Failed(SetupError::Timeout)
    ));
    let _ = a.on_message(true, Some(mb), vec![]);
    let fake = zortilwatch::session::SessionMessage::Binding([0; 32]);
    let _ = a.on_message(true, Some(fake), vec![]);
    assert!(matches!(
        a.state(true, now),
        Established::Failed(SetupError::Refused)
    ));
}

#[test]
fn a_message_before_the_start_is_dropped() {
    let mut a = Establishing::new(b"pw", "A", "B", Duration::from_secs(0));
    let m = zortilwatch::session::SessionMessage::Pake(vec![1]);
    assert!(a.on_message(true, Some(m), vec![1]).is_none());
    assert!(matches!(
        a.state(true, Duration::from_secs(0)),
        Established::Pending
    ));
    assert!(a.into_deferred().is_empty());
}

#[test]
fn setup_errors_say_what_happened() {
    assert_eq!(SetupError::NoChannel.message(), "no channel");
    assert_eq!(
        SetupError::Refused.message(),
        "session handshake FAILED (wrong password or MITM)"
    );
    assert_eq!(SetupError::Timeout.message(), "session establish timeout");
    assert_eq!(SetupError::Lost.message(), "connection lost during handshake");
}
