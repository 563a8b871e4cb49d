use zortilwatch::json::Json;
use zortilwatch::signal::{
    decode_error, recv_step, register_outcome, try_recv_step, ClientMsg, ReadStep, ServerMsg,
    SignalError, WsRead,
};

#[test]
fn registration_carries_version_and_waking() {
    match ClientMsg::register_wol("1", "s", "host", Some("AA"), true) {
        ClientMsg::Register {
            v,
            device_id,
            client_secret,
            client_kind,
            mac,
            can_wake,
            rid,
        } => {
            assert_eq!((v, can_wake, rid), (1, Some(true), None));
            assert_eq!((device_id.as_str(), client_secret.as_str()), ("1", "s"));
            assert_eq!((client_kind.as_str(), mac.as_deref()), ("host", Some("AA")));
        }
        other => panic!("expected Register, got {other:?}"),
    }
}

#[test]
fn requests_carry_their_fields() {
    assert!(matches!(
        ClientMsg::connect_request("t"),
        ClientMsg::ConnectRequest { v: 1, target_id, password_kind: None, rid: None } if target_id == "t"
    ));
    assert!(matches!(
        ClientMsg::connect_accept("s"),
        ClientMsg::ConnectAccept { v: 1, session_id } if session_id == "s"
    ));
    assert!(matches!(
        ClientMsg::connect_reject("s", Some("busy")),
        ClientMsg::ConnectReject { v: 1, session_id, reason: Some(r) } if session_id == "s" && r == "busy"
    ));
    assert!(matches!(
        ClientMsg::session_close("s", None),
        ClientMsg::SessionClose { v: 1, session_id, reason: None } if session_id == "s"
    ));
    assert!(matches!(
        ClientMsg::list_presence(vec!["a".to_string()]),
        ClientMsg::ListPresence { v: 1, ids, rid: None } if ids == ["a"]
    ));
    assert!(matches!(
        ClientMsg::signal("s", "ice", Json::Uint(1)),
        ClientMsg::Signal { v: 1, kind, payload, .. } if kind == "ice" && payload.as_u64() == Some(1)
    ));
}

#[test]
fn registration_outcomes() {
    let ok = ServerMsg::RegisterOk {
        device_id: "1".to_string(),
        server_time: 0,
        rid: None,
    };
    assert!(register_outcome(&ok, "").is_ok());
    let no = ServerMsg::RegisterErr {
        code: "auth".to_string(),
        reason: "bad secret".to_string(),
        rid: None,
    };
    let e = register_outcome(&no, "").unwrap_err();
    assert_eq!(e.0, "register_err auth: bad secret");
    assert_eq!(e.message(), "signal error: register_err auth: bad secret");
    let e = register_outcome(&ServerMsg::Unknown, "Unknown").unwrap_err();
    assert_eq!(e.0, "unexpected after register: Unknown");
}

#[test]
fn reads_lead_to_messages_or_errors() {
    assert!(matches!(recv_step(WsRead::Text("t".to_string())), ReadStep::Decode(s) if s == "t"));
    assert!(matches!(recv_step(WsRead::Other), ReadStep::Again));
    assert!(
        matches!(recv_step(WsRead::Close), ReadStep::Fail(SignalError(s)) if s == "connection closed")
    );
    let late = || WsRead::Timeout("late".to_string());
    assert!(matches!(recv_step(late()), ReadStep::Fail(SignalError(s)) if s == "late"));
    assert!(matches!(try_recv_step(late()), ReadStep::Nothing));
    assert!(matches!(
        try_recv_step(WsRead::Failed("x".to_string())),
        ReadStep::Fail(SignalError(s)) if s == "x"
    ));
    assert!(matches!(try_recv_step(WsRead::Close), ReadStep::Fail(_)));
    assert_eq!(decode_error("eof", "{").0, "decode eof: {");
}
