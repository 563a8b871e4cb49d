use zortilwatch::capture::{monitor_from_rect, MonitorInfo};
use zortilwatch::connection::SetupError;
use zortilwatch::controller::Controller;
use zortilwatch::encode::EncoderConfig;
use zortilwatch::host::Recv;
use zortilwatch::input::InputEvent;
use zortilwatch::json::Json;
use zortilwatch::managed::{Cleanup, FramePlan};
use zortilwatch::service::{
    active_monitor, after_session, config_text, frame_stats, log, mode_of, setup_error_text,
    supervise, worker_command, worker_step, Mode, Probe, ProbeResult, StreamAction, StreamErr,
    StreamInbound, StreamOffer, StreamSession, StreamState, StreamStep, Supervision, WorkerStep,
    NO_SESSION,
};
use zortilwatch::signal::{ClientMsg, ServerMsg};
use zortilwatch::time::Duration;

#[test]
fn modes_by_argument() {
    assert!(matches!(mode_of("install"), Mode::Install));
    assert!(matches!(mode_of("uninstall"), Mode::Uninstall));
    assert!(matches!(mode_of("--worker"), Mode::Worker));
    assert!(matches!(mode_of(""), Mode::Service));
    assert!(matches!(mode_of("x"), Mode::Unknown(s) if s == "x"));
}

#[test]
fn log_lines_and_commands() {
    assert_eq!(log(1_700_000_000, "старт"), "[1700000000] старт");
    assert_eq!(worker_command("C:\\a b.exe"), "\"C:\\a b.exe\" --worker");
    assert_eq!(config_text("\u{feff}{}"), "{}");
    assert_eq!(config_text("{}"), "{}");
}

#[test]
fn exactly_one_worker_in_the_active_session() {
    assert_eq!(supervise(NO_SESSION, None, false), Supervision::Leave);
    assert_eq!(supervise(NO_SESSION, Some(1), true), Supervision::End);
    assert_eq!(supervise(1, None, false), Supervision::Start(1));
    assert_eq!(supervise(1, Some(1), true), Supervision::Leave);
    assert_eq!(supervise(1, Some(1), false), Supervision::Replace(1));
    assert_eq!(supervise(2, Some(1), true), Supervision::Replace(2));
}

#[test]
fn frame_statistics() {
    let mut row = vec![0u8; 16];
    row[4] = 1;
    row[8..12].copy_from_slice(&[10, 20, 30, 255]);
    assert_eq!(
        frame_stats(&row, 4),
        (
            5,
            16,
            "x¼=(1,0,0,0) x½=(10,20,30,255) x¾=(0,0,0,0)".to_string()
        )
    );
    assert_eq!(frame_stats(&[0; 4], 1).0, 0);
}

#[test]
fn probing_ends_with_content_or_tries() {
    let mut p = Probe::new();
    assert!(!p.wanted("Default", false));
    for _ in 0..29 {
        assert!(p.wanted("Default", true));
        assert_eq!(p.on_stats("Default", 0), ProbeResult::Unknown);
    }
    assert!(p.wanted("Default", true));
    assert_eq!(p.on_stats("Default", 0), ProbeResult::Blank);
    assert!(!p.wanted("Default", true));
    p.on_switch();
    assert!(p.wanted("Winlogon", true));
    assert_eq!(p.on_stats("Winlogon", 3), ProbeResult::Proved);
    assert!(!p.wanted("Winlogon", true));
    assert!(p.wanted("Default", true));
}

fn incoming(id: &str) -> Recv {
    Recv::Message(ServerMsg::IncomingRequest {
        session_id: id.to_string(),
        from_kind: "controller".to_string(),
        password_kind: None,
        ice_servers: None,
    })
}

#[test]
fn worker_takes_up_every_request() {
    assert!(matches!(worker_step(incoming("s")), WorkerStep::Serve(s) if s == "s"));
    assert!(matches!(worker_step(Recv::Nothing), WorkerStep::Wait));
    assert!(matches!(worker_step(Recv::Broken), WorkerStep::Reconnect));
    assert!(matches!(after_session(&Ok(())), WorkerStep::Wait));
    assert!(matches!(after_session(&Err(StreamErr::Ws)), WorkerStep::Reconnect));
    let failed = Err(StreamErr::Failed("x".to_string()));
    assert!(matches!(after_session(&failed), WorkerStep::Wait));
}

#[test]
fn worker_names_a_failed_handshake() {
    assert_eq!(setup_error_text(SetupError::Refused), "PAKE FAILED");
    assert_eq!(setup_error_text(SetupError::Timeout), "session establish timeout");
}

fn signal(kind: &str, payload: Json) -> Recv {
    Recv::Message(ServerMsg::Signal {
        session_id: "s".to_string(),
        kind: kind.to_string(),
        payload,
    })
}

#[test]
fn stream_offer_waits_for_the_answer_and_a_while_longer() {
    let at = Duration::from_secs;
    let (mut o, offer, ice) = StreamOffer::start("s", "a=fingerprint:OWN", "cand", at(1));
    assert_eq!(o.own_fp, "OWN");
    assert!(matches!(offer, ClientMsg::Signal { kind, .. } if kind == "offer"));
    match ice {
        ClientMsg::Signal { kind, payload, .. } => {
            assert_eq!(kind, "ice");
            assert_eq!(payload.get("cands").unwrap().as_array().unwrap().len(), 1);
            assert!(payload.get("relayed").is_none());
        }
        other => panic!("expected Signal, got {other:?}"),
    }
    assert!(matches!(o.state(at(21)), StreamState::Going));
    assert!(matches!(
        o.state(at(22)),
        StreamState::Failed(StreamErr::Failed(e)) if e == "answer timeout"
    ));
    let answer = || Json::empty().with("sdp", Json::text("a=fingerprint:PEER"));
    assert!(matches!(
        o.on_recv(&signal("answer", answer())),
        StreamStep::AcceptAnswer { .. }
    ));
    o.on_accepted(at(5));
    assert_eq!(o.peer_fp, "PEER");
    assert!(matches!(o.state(at(7)), StreamState::Going));
    assert!(matches!(o.state(at(8)), StreamState::Complete));
    assert!(matches!(
        o.on_recv(&signal("answer", answer())),
        StreamStep::Fail(StreamErr::Failed(e)) if e == "dbl answer"
    ));
    assert!(matches!(
        o.on_recv(&signal("answer", Json::Null)),
        StreamStep::Fail(StreamErr::Failed(e)) if e == "no sdp"
    ));
    assert!(matches!(
        o.on_recv(&signal("ice", Json::empty().with("cand", Json::text("c")))),
        StreamStep::AddCandidates { cands } if cands == ["c"]
    ));
    assert!(matches!(o.on_recv(&incoming("t")), StreamStep::Reject(_)));
    assert!(matches!(o.on_recv(&Recv::Nothing), StreamStep::Wait));
    assert!(matches!(
        o.on_recv(&Recv::Broken),
        StreamStep::Fail(StreamErr::Ws)
    ));
}

const KEY: [u8; 32] = [3; 32];

fn at(millis: u64) -> Duration {
    Duration::from_millis(10_000 + millis)
}

#[test]
fn stream_session_sends_frames_at_half_size() {
    let mut s = StreamSession::new(&KEY, at(0));
    assert_eq!(
        s.on_frame(1366, 767, at(0)),
        FramePlan::EncodeWith(EncoderConfig {
            in_w: 1366,
            in_h: 767,
            out_w: 682,
            out_h: 382,
            fps: 30,
            bitrate: 4_000_000,
        })
    );
    s.encoder_started();
    s.on_unit(b"unit", at(0));
    assert_eq!(s.on_frame(1366, 767, at(32)), FramePlan::Skip);
    assert_eq!(s.on_frame(1366, 767, at(33)), FramePlan::Encode);
    s.on_unit(b"", at(33));
    assert_eq!(s.sealed(), 1);
    let piece = s.next_piece().unwrap().clone();
    s.piece_taken();
    assert!(s.next_piece().is_none());
    assert_eq!(
        Controller::new(&KEY).on_batch(&vec![piece]).0,
        vec![b"unit".to_vec()]
    );
}

#[test]
fn stream_session_binds_the_input_now_and_then() {
    let mut s = StreamSession::new(&KEY, at(0));
    assert!(!s.rebind_due(0, at(0)));
    assert!(s.rebind_due(1, at(0)));
    assert!(!s.rebind_due(1, at(199)));
    assert!(s.rebind_due(1, at(200)));
}

#[test]
fn stream_session_reads_messages() {
    let s = StreamSession::new(&KEY, at(0));
    let mut c = Controller::new(&KEY);
    c.send_raw(b"{}");
    assert!(matches!(s.on_raw(c.next_out().unwrap()), StreamInbound::Event(p) if p == b"{}"));
    assert!(matches!(s.on_raw(b"ZW-BYE-1"), StreamInbound::Bye));
    assert!(matches!(s.on_raw(b"?"), StreamInbound::Dropped));
}

#[test]
fn stream_session_acts_on_events() {
    let mut s = StreamSession::new(&KEY, at(0));
    s.encoder_started();
    assert!(matches!(
        s.on_event(InputEvent::Monitor { index: 0 }),
        StreamAction::SwitchMonitor(0)
    ));
    assert!(matches!(s.on_frame(2, 2, at(0)), FramePlan::EncodeWith(_)));
    let blank = |enabled| InputEvent::Blank { enabled };
    assert!(matches!(s.on_event(blank(true)), StreamAction::ShowBlank));
    assert!(matches!(s.on_event(blank(false)), StreamAction::HideBlank));
    assert!(matches!(s.on_event(blank(false)), StreamAction::Nothing));
    let key = || InputEvent::Key {
        code: 65,
        down: true,
    };
    for n in 1u32..=400 {
        match s.on_event(key()) {
            StreamAction::Inject { what, report } => {
                assert_eq!(what.len(), 1);
                assert_eq!(report, n == 1 || n % 200 == 0);
            }
            other => panic!("expected Inject, got {other:?}"),
        }
    }
    assert!(matches!(
        s.on_event(InputEvent::InputLock { enabled: true }),
        StreamAction::BlockInput(true)
    ));
    s.on_block(true, true);
    s.on_block(true, false);
    s.on_block(false, false);
    assert_eq!(
        s.finish(),
        Cleanup {
            hide_blank: false,
            unblock_input: true
        }
    );
    s.on_block(true, true);
    s.on_block(false, true);
    assert!(!s.finish().unblock_input);
}

#[test]
fn injection_goes_to_the_active_monitor() {
    let m = |i| monitor_from_rect(i, String::new(), 0, 0, 1, 1);
    let list: Vec<MonitorInfo> = vec![m(4), m(2), m(2)];
    assert_eq!(active_monitor(&list, 2), Some(1));
    assert_eq!(active_monitor(&list, 0), None);
}
