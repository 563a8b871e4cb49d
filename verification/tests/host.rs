use zortilwatch::host::{
    AwaitReady, HostEvent, HostOptions, Managed, OfferStep, Offering, Pulse, PulseStep, ReadyStep,
    Recv, Request, ServeAction, ServeErr, ServeEvent,
};
use zortilwatch::json::Json;
use zortilwatch::signal::{ClientMsg, ServerMsg};
use zortilwatch::time::Duration;

fn options(password: Option<&[u8]>) -> HostOptions {
    HostOptions {
        permanent_password: password.map(|p| p.to_vec()),
        rotate: false,
        stop: false,
        confirm_incoming: false,
        lock_on_end: false,
    }
}

fn incoming(id: &str, kind: Option<&str>) -> Recv {
    Recv::Message(ServerMsg::IncomingRequest {
        session_id: id.to_string(),
        from_kind: "controller".to_string(),
        password_kind: kind.map(String::from),
        ice_servers: None,
    })
}

fn at(secs: u64) -> Duration {
    Duration::from_secs(secs)
}

fn polling(opts: &HostOptions) -> Managed {
    let (mut m, shown) = Managed::new("CODE".to_string());
    assert!(matches!(shown, HostEvent::OneTime(c) if c == "CODE"));
    assert!(matches!(m.serve(opts, at(0), ServeEvent::Begin), ServeAction::Register));
    assert!(matches!(
        m.serve(opts, at(0), ServeEvent::Registered(true)),
        ServeAction::Turn
    ));
    assert!(matches!(m.serve(opts, at(0), ServeEvent::Turn), ServeAction::Poll));
    m
}

fn over(
    established: bool,
    result: Result<Option<Request>, ServeErr>,
) -> ServeEvent {
    ServeEvent::Over {
        established,
        result,
    }
}

fn rejected(a: ServeAction) -> (String, String) {
    match a {
        ServeAction::Reject(ClientMsg::ConnectReject {
            session_id,
            reason: Some(r),
            ..
        }) => (session_id, r),
        other => panic!("expected Reject, got {other:?}"),
    }
}

#[test]
fn a_code_is_good_for_one_session() {
    let o = options(None);
    let mut m = polling(&o);
    match m.serve(&o, at(0), ServeEvent::Received(incoming("s", Some("one_time")))) {
        ServeAction::Serve { session_id, password } => {
            assert_eq!(session_id, "s");
            assert_eq!(password, b"CODE");
        }
        other => panic!("expected Serve, got {other:?}"),
    }
    assert!(matches!(
        m.serve(&o, at(1), over(true, Ok(None))),
        ServeAction::MakeCode
    ));
    assert!(matches!(
        m.serve(&o, at(1), ServeEvent::Code("NEXT".to_string())),
        ServeAction::Tell(HostEvent::OneTime(c)) if c == "NEXT"
    ));
    assert!(matches!(m.serve(&o, at(1), ServeEvent::Turn), ServeAction::Poll));
    assert!(matches!(
        m.serve(&o, at(1), ServeEvent::Received(incoming("t", Some("one_time")))),
        ServeAction::Serve { password, .. } if password == b"NEXT"
    ));
    assert!(matches!(
        m.serve(&o, at(1), over(false, Err(ServeErr::Session))),
        ServeAction::Turn
    ));
    assert!(matches!(m.serve(&o, at(1), ServeEvent::Turn), ServeAction::Poll));
    assert!(matches!(
        m.serve(&o, at(1), ServeEvent::Received(incoming("u", Some("one_time")))),
        ServeAction::Serve { password, .. } if password == b"NEXT"
    ));
    assert!(matches!(
        m.serve(&o, at(1), over(false, Err(ServeErr::Ws))),
        ServeAction::Begin
    ));
}

#[test]
fn a_code_burns_when_the_socket_breaks_in_its_session() {
    let o = options(None);
    let mut m = polling(&o);
    assert!(matches!(
        m.serve(&o, at(0), ServeEvent::Received(incoming("s", Some("one_time")))),
        ServeAction::Serve { password, .. } if password == b"CODE"
    ));
    assert!(matches!(
        m.serve(&o, at(1), over(true, Err(ServeErr::Ws))),
        ServeAction::MakeCode
    ));
    assert!(matches!(
        m.serve(&o, at(1), ServeEvent::Code("NEXT".to_string())),
        ServeAction::Tell(HostEvent::OneTime(c)) if c == "NEXT"
    ));
    assert!(matches!(m.serve(&o, at(1), ServeEvent::Turn), ServeAction::Begin));
    assert!(matches!(m.serve(&o, at(1), ServeEvent::Begin), ServeAction::Register));
    assert!(matches!(
        m.serve(&o, at(1), ServeEvent::Registered(true)),
        ServeAction::Turn
    ));
    assert!(matches!(m.serve(&o, at(1), ServeEvent::Turn), ServeAction::Poll));
    assert!(matches!(
        m.serve(&o, at(1), ServeEvent::Received(incoming("t", Some("one_time")))),
        ServeAction::Serve { password, .. } if password == b"NEXT"
    ));
}

#[test]
fn nothing_is_served_before_a_burnt_code_is_replaced() {
    let o = options(Some(b"secret"));
    let mut m = polling(&o);
    let _ = m.serve(&o, at(0), ServeEvent::Received(incoming("s", Some("one_time"))));
    let next = Request {
        session_id: "t".to_string(),
        password_kind: Some("one_time".to_string()),
    };
    assert!(matches!(
        m.serve(&o, at(1), over(true, Ok(Some(next)))),
        ServeAction::MakeCode
    ));
    for _ in 0..3 {
        assert!(matches!(m.serve(&o, at(1), ServeEvent::Turn), ServeAction::MakeCode));
    }
    let _ = m.serve(&o, at(1), ServeEvent::Code("NEXT".to_string()));
    assert!(matches!(
        m.serve(&o, at(1), ServeEvent::Turn),
        ServeAction::Serve { session_id, password } if session_id == "t" && password == b"NEXT"
    ));
    let mut m = polling(&o);
    let _ = m.serve(&o, at(0), ServeEvent::Received(incoming("s", Some("one_time"))));
    let _ = m.serve(&o, at(1), over(true, Err(ServeErr::Ws)));
    assert!(matches!(m.serve(&o, at(1), ServeEvent::Begin), ServeAction::Register));
    let _ = m.serve(&o, at(1), ServeEvent::Registered(true));
    assert!(matches!(m.serve(&o, at(1), ServeEvent::Turn), ServeAction::MakeCode));
}

#[test]
fn without_a_password_only_codes_are_taken() {
    let o = options(None);
    let mut m = polling(&o);
    let a = m.serve(&o, at(0), ServeEvent::Received(incoming("s", None)));
    assert_eq!(rejected(a), ("s".to_string(), "no_permanent".to_string()));
    assert!(matches!(m.serve(&o, at(0), ServeEvent::Sent(true)), ServeAction::Turn));
    let o = options(Some(b"secret"));
    let mut m = polling(&o);
    assert!(matches!(
        m.serve(&o, at(0), ServeEvent::Received(incoming("s", Some("permanent")))),
        ServeAction::Serve { password, .. } if password == b"secret"
    ));
    assert!(matches!(
        m.serve(&o, at(0), over(true, Ok(None))),
        ServeAction::Turn
    ));
}

#[test]
fn a_person_decides() {
    let mut o = options(Some(b"secret"));
    o.confirm_incoming = true;
    let mut m = polling(&o);
    assert!(matches!(
        m.serve(&o, at(0), ServeEvent::Received(incoming("s", None))),
        ServeAction::ForgetAnswers
    ));
    assert_eq!(m.asked(), 0);
    assert!(matches!(
        m.serve(&o, at(0), ServeEvent::Decision(Some((1, true)))),
        ServeAction::Nothing
    ));
    match m.serve(&o, at(0), ServeEvent::Forgotten) {
        ServeAction::Tell(HostEvent::Confirm {
            request_id,
            password_kind,
        }) => {
            assert_eq!(request_id, 1);
            assert_eq!(password_kind, "permanent");
        }
        other => panic!("expected Confirm, got {other:?}"),
    }
    assert_eq!(m.asked(), 1);
    assert!(matches!(
        m.serve(&o, at(1), ServeEvent::Decision(Some((7, true)))),
        ServeAction::Poll
    ));
    let busy = m.serve(&o, at(1), ServeEvent::Received(incoming("other", None)));
    assert_eq!(rejected(busy), ("other".to_string(), "busy".to_string()));
    assert!(matches!(
        m.serve(&o, at(1), ServeEvent::Sent(true)),
        ServeAction::AwaitDecision
    ));
    assert!(matches!(
        m.serve(&o, at(30), ServeEvent::Decision(Some((1, true)))),
        ServeAction::Serve { session_id, .. } if session_id == "s"
    ));
    let _ = m.serve(&o, at(40), over(true, Ok(None)));
    assert!(matches!(m.serve(&o, at(40), ServeEvent::Turn), ServeAction::Poll));
    assert!(matches!(
        m.serve(&o, at(40), ServeEvent::Received(incoming("t", Some("one_time")))),
        ServeAction::ForgetAnswers
    ));
    assert!(matches!(
        m.serve(&o, at(41), ServeEvent::Forgotten),
        ServeAction::Tell(HostEvent::Confirm { request_id: 2, password_kind })
            if password_kind == "one_time"
    ));
    assert!(matches!(
        m.serve(&o, at(41), ServeEvent::Decision(Some((1, true)))),
        ServeAction::Poll
    ));
    assert!(matches!(
        m.serve(&o, at(71), ServeEvent::Decision(Some((2, true)))),
        ServeAction::Serve { password, .. } if password == b"CODE"
    ));
}

#[test]
fn refusal_and_silence_deny() {
    let mut o = options(Some(b"secret"));
    o.confirm_incoming = true;
    let ask = |o: &HostOptions| {
        let mut m = polling(o);
        let _ = m.serve(o, at(0), ServeEvent::Received(incoming("s", None)));
        let _ = m.serve(o, at(0), ServeEvent::Forgotten);
        m
    };
    let a = ask(&o).serve(&o, at(1), ServeEvent::Decision(Some((1, false))));
    assert_eq!(rejected(a).1, "denied");
    let a = ask(&o).serve(&o, at(31), ServeEvent::Decision(Some((1, true))));
    assert_eq!(rejected(a).1, "denied");
    let mut m = ask(&o);
    o.stop = true;
    let a = m.serve(&o, at(1), ServeEvent::Decision(Some((1, true))));
    assert_eq!(rejected(a).1, "denied");
    o.stop = false;
    let mut m = ask(&o);
    assert!(matches!(
        m.serve(&o, at(1), ServeEvent::Received(Recv::Broken)),
        ServeAction::Begin
    ));
}

#[test]
fn a_request_at_the_end_of_a_session_is_served_next() {
    let o = options(Some(b"secret"));
    let mut m = polling(&o);
    let _ = m.serve(&o, at(0), ServeEvent::Received(incoming("s", None)));
    let next = Request {
        session_id: "t".to_string(),
        password_kind: None,
    };
    assert!(matches!(
        m.serve(&o, at(1), over(true, Ok(Some(next)))),
        ServeAction::Turn
    ));
    assert!(matches!(
        m.serve(&o, at(1), ServeEvent::Turn),
        ServeAction::Serve { session_id, .. } if session_id == "t"
    ));
    assert!(matches!(
        m.serve(&o, at(1), ServeEvent::Turn),
        ServeAction::Nothing
    ));
}

#[test]
fn host_reconnects_rotates_wakes_and_stops() {
    let mut o = options(None);
    let mut m = polling(&o);
    let wake = Recv::Message(ServerMsg::WakeDispatch {
        mac: "AA".to_string(),
    });
    assert!(matches!(
        m.serve(&o, at(0), ServeEvent::Received(wake)),
        ServeAction::Wake(s) if s == "AA"
    ));
    o.rotate = true;
    assert!(matches!(m.serve(&o, at(0), ServeEvent::Turn), ServeAction::MakeCode));
    o.rotate = false;
    assert!(matches!(m.serve(&o, at(0), ServeEvent::Turn), ServeAction::Poll));
    assert!(matches!(
        m.serve(&o, at(0), ServeEvent::Received(Recv::Nothing)),
        ServeAction::Turn
    ));
    assert!(matches!(m.serve(&o, at(0), ServeEvent::Turn), ServeAction::Poll));
    assert!(matches!(
        m.serve(&o, at(0), ServeEvent::Received(Recv::Broken)),
        ServeAction::Begin
    ));
    assert!(matches!(m.serve(&o, at(0), ServeEvent::Begin), ServeAction::Register));
    assert!(matches!(
        m.serve(&o, at(0), ServeEvent::Registered(false)),
        ServeAction::Pause
    ));
    o.stop = true;
    assert!(matches!(m.serve(&o, at(0), ServeEvent::Begin), ServeAction::Finish));
    assert!(matches!(m.serve(&o, at(0), ServeEvent::Begin), ServeAction::Nothing));
}

#[test]
fn waiting_for_the_server() {
    let (w, accept) = AwaitReady::start("s", at(10));
    assert!(matches!(accept, ClientMsg::ConnectAccept { session_id, .. } if session_id == "s"));
    assert!(!w.expired(false, at(25)));
    assert!(w.expired(false, Duration::from_millis(25_001)));
    assert!(w.expired(true, at(10)));
    let ready = Recv::Message(ServerMsg::ConnectReady {
        session_id: "s2".to_string(),
        role: "offerer".to_string(),
        peer_kind: "controller".to_string(),
        ice_servers: Some(Json::Null),
    });
    assert!(matches!(
        w.on_recv(ready),
        ReadyStep::Ready { session_id, ice_servers: Some(_) } if session_id == "s2"
    ));
    assert!(matches!(
        w.on_recv(incoming("t", None)),
        ReadyStep::Reject(ClientMsg::ConnectReject { session_id, .. }) if session_id == "t"
    ));
    assert!(matches!(w.on_recv(Recv::Nothing), ReadyStep::Wait));
    assert!(matches!(w.on_recv(Recv::Broken), ReadyStep::Fail(ServeErr::Ws)));
}

fn signal(kind: &str, payload: Json) -> Recv {
    Recv::Message(ServerMsg::Signal {
        session_id: "s".to_string(),
        kind: kind.to_string(),
        payload,
    })
}

#[test]
fn offering_waits_for_answer_and_candidates() {
    let (mut o, offer, ice) = Offering::start(
        "s",
        "a=fingerprint:OWN",
        &vec!["c".to_string()],
        Some("r"),
        at(1),
    );
    assert_eq!(o.own_fp, "OWN");
    assert!(matches!(offer, ClientMsg::Signal { kind, .. } if kind == "offer"));
    assert!(matches!(
        ice,
        ClientMsg::Signal { kind, payload, .. }
            if kind == "ice" && payload.get_str("relayed") == Some("r".to_string())
    ));
    assert!(!o.expired(at(21)) && o.expired(at(22)));
    let answer = || Json::empty().with("sdp", Json::text("a=fingerprint:PEER"));
    assert!(matches!(
        o.on_recv(&signal("answer", answer())),
        OfferStep::AcceptAnswer { sdp } if sdp == "a=fingerprint:PEER"
    ));
    assert_eq!(o.peer_fp, "PEER");
    assert!(!o.complete());
    assert!(matches!(
        o.on_recv(&signal("ice", Json::empty().with("cand", Json::text("d")))),
        OfferStep::AddCandidates { cands, relayed: None } if cands == ["d"]
    ));
    assert!(o.complete());
    assert!(matches!(
        o.on_recv(&signal("answer", answer())),
        OfferStep::Fail(ServeErr::Session)
    ));
    assert!(matches!(
        o.on_recv(&signal("answer", Json::Null)),
        OfferStep::Fail(ServeErr::Session)
    ));
    assert!(matches!(o.on_recv(&incoming("t", None)), OfferStep::Reject(_)));
    assert!(matches!(o.on_recv(&Recv::Nothing), OfferStep::Wait));
    assert!(matches!(o.on_recv(&Recv::Broken), OfferStep::Fail(ServeErr::Ws)));
}

#[test]
fn pulse_refuses_until_the_session_is_done() {
    let mut p = Pulse::new();
    assert!(p.active(false, false) && !p.active(true, false) && !p.active(false, true));
    assert!(matches!(p.on_recv(incoming("t", None), false), PulseStep::Reject(_)));
    p.on_sent(true);
    let wake = Recv::Message(ServerMsg::WakeDispatch {
        mac: "AA".to_string(),
    });
    assert!(matches!(p.on_recv(wake, false), PulseStep::Wake(s) if s == "AA"));
    assert!(matches!(
        p.on_recv(incoming("u", Some("one_time")), true),
        PulseStep::Continue
    ));
    assert!(!p.active(false, false));
    let end = p.end(&options(None));
    assert!(!end.lock);
    let tail = end.result.unwrap().unwrap();
    assert_eq!(tail.session_id, "u");
    assert_eq!(tail.password_kind.as_deref(), Some("one_time"));
    let mut p = Pulse::new();
    p.on_sent(false);
    assert_eq!(p.end(&options(None)).result.unwrap_err(), ServeErr::Ws);
    let mut p = Pulse::new();
    let _ = p.on_recv(Recv::Broken, false);
    let mut locking = options(None);
    locking.lock_on_end = true;
    let end = p.end(&locking);
    assert!(end.lock && end.result.is_err());
    let end = Pulse::new().end(&locking);
    assert!(end.lock && end.result.unwrap().is_none());
}
