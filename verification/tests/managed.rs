use zortilwatch::controller::Controller;
use zortilwatch::encode::EncoderConfig;
use zortilwatch::files::{drive_listing, encode_file_frame};
use zortilwatch::input::{InputEvent, Injection};
use zortilwatch::managed::{
    clipboard_message, done_message, listing_message, progress_message, Cleanup, EventAction, FramePlan, Inbound,
    ManagedSession,
};
use zortilwatch::time::Duration;
use zortilwatch::transfers::Transfer;

const KEY: [u8; 32] = [5; 32];

fn at(millis: u64) -> Duration {
    Duration::from_millis(10_000 + millis)
}

fn session() -> ManagedSession {
    ManagedSession::new(&KEY, 0, 7, at(0))
}

fn flush(s: &mut ManagedSession) -> Vec<Vec<u8>> {
    let mut out = Vec::new();
    while let Some(p) = s.next_piece().cloned() {
        out.push(p);
        s.piece_taken();
    }
    out
}

fn from_controller(plain: &[u8]) -> Vec<u8> {
    let mut c = Controller::new(&KEY);
    c.send_raw(plain);
    c.next_out().unwrap().clone()
}

#[test]
fn what_is_queued_arrives_whole() {
    let mut s = session();
    let mut c = Controller::new(&KEY);
    let big: Vec<u8> = (0..50_000u32).map(|i| (i % 253) as u8).collect();
    s.queue_message(&big);
    s.queue_message(b"{}");
    assert_eq!(s.sealed(), 2);
    let pieces = flush(&mut s);
    assert_eq!(pieces.len(), 5);
    let (frames, bye) = c.on_batch(&pieces);
    assert_eq!(frames, vec![big, b"{}".to_vec()]);
    assert!(!bye);
}

#[test]
fn a_lost_start_does_not_spoil_the_next_message() {
    let mut s = session();
    let mut c = Controller::new(&KEY);
    s.queue_message(&[1; 40_000]);
    let first = flush(&mut s);
    let _ = c.on_batch(&first[..1].to_vec());
    s.queue_message(b"next");
    assert_eq!(c.on_batch(&flush(&mut s)).0, vec![b"next".to_vec()]);
}

#[test]
fn goodbye_ends_the_session_for_the_controller() {
    let mut c = Controller::new(&KEY);
    let (frames, bye) = c.on_batch(&vec![b"ZW-BYE-1".to_vec()]);
    assert!(frames.is_empty() && bye);
}

#[test]
fn foreign_messages_are_dropped_by_the_controller() {
    let mut other = ManagedSession::new(&[6; 32], 0, 0, at(0));
    other.queue_message(b"x");
    let mut c = Controller::new(&KEY);
    assert_eq!(c.on_batch(&flush(&mut other)), (vec![], false));
}

#[test]
fn controller_queue_is_first_in_first_out() {
    let mut c = Controller::new(&KEY);
    assert!(c.next_out().is_none());
    c.send_raw(b"a");
    c.send_raw(b"b");
    assert_eq!(c.sealed(), 2);
    let s = session();
    let first = c.next_out().unwrap().clone();
    assert!(matches!(s.on_raw(&first), Inbound::Event(p) if p == b"a"));
    c.out_taken();
    let second = c.next_out().unwrap().clone();
    assert!(matches!(s.on_raw(&second), Inbound::Event(p) if p == b"b"));
    c.out_taken();
    assert!(c.next_out().is_none());
}

#[test]
fn frames_are_limited_and_encoders_made() {
    let mut s = session();
    let config = EncoderConfig {
        in_w: 1921,
        in_h: 1081,
        out_w: 1920,
        out_h: 1080,
        fps: 30,
        bitrate: 4_000_000,
    };
    assert_eq!(s.on_frame(1921, 1081, at(0)), FramePlan::EncodeWith(config));
    s.encoder_started();
    assert_eq!(s.on_frame(1921, 1081, at(0)), FramePlan::Encode);
    s.on_unit(b"unit", at(0));
    assert_eq!(s.on_frame(1921, 1081, at(32)), FramePlan::Skip);
    assert_eq!(s.on_frame(1921, 1081, at(33)), FramePlan::Encode);
    s.on_unit(b"", at(33));
    assert_eq!(s.sealed(), 1);
    assert_eq!(s.on_frame(1921, 1081, at(33)), FramePlan::Encode);
}

#[test]
fn a_still_screen_is_sent_again() {
    let mut s = session();
    assert!(s.keepalive(at(5000)).is_none());
    assert!(s.snapshot_due(800, 600, at(0)));
    assert!(!s.snapshot_due(800, 600, at(999)));
    assert!(s.snapshot_due(640, 480, at(1000)));
    s.on_unit(b"u", at(1000));
    assert!(s.keepalive(at(2999)).is_none());
    let c = s.keepalive(at(3000)).unwrap();
    assert_eq!((c.in_w, c.in_h, c.out_w, c.out_h), (640, 480, 640, 480));
    s.on_monitor(1);
    assert!(s.keepalive(at(9000)).is_none());
}

#[test]
fn quality_is_clamped_and_restarts_the_encoder() {
    let mut s = session();
    s.encoder_started();
    let same = InputEvent::Quality {
        fps: 30,
        bitrate: 4_000_000,
        scale: 1,
    };
    assert!(matches!(s.on_event(same), EventAction::Nothing));
    assert_eq!(s.on_frame(100, 100, at(0)), FramePlan::Encode);
    let low = InputEvent::Quality {
        fps: 1,
        bitrate: 1,
        scale: 9,
    };
    assert!(matches!(s.on_event(low), EventAction::Nothing));
    assert_eq!(
        s.on_frame(100, 101, at(0)),
        FramePlan::EncodeWith(EncoderConfig {
            in_w: 100,
            in_h: 101,
            out_w: 24,
            out_h: 24,
            fps: 5,
            bitrate: 256_000,
        })
    );
}

fn bitrate(s: &ManagedSession) -> u32 {
    match s.on_frame(10, 10, at(60_000)) {
        FramePlan::EncodeWith(c) => c.bitrate,
        other => panic!("expected EncodeWith, got {other:?}"),
    }
}

#[test]
fn governor_lowers_and_raises_the_rate() {
    let mut s = session();
    for _ in 0..97 {
        s.queue_message(b"x");
    }
    s.govern(at(2999));
    assert_eq!(bitrate(&s), 4_000_000);
    s.govern(at(3000));
    assert_eq!(bitrate(&s), 2_800_000);
    s.govern(at(3001));
    assert_eq!(bitrate(&s), 2_800_000);
    for i in 0..20 {
        s.govern(at(6001 + i * 3000));
    }
    assert_eq!(bitrate(&s), 256_000);
    let _ = flush(&mut s);
    s.govern(at(90_000));
    assert_eq!(bitrate(&s), 320_000);
    for i in 0..30 {
        s.govern(at(93_000 + i * 3000));
    }
    assert_eq!(bitrate(&s), 4_000_000);
}

#[test]
fn a_moderate_queue_keeps_the_rate() {
    let mut s = session();
    for _ in 0..96 {
        s.queue_message(b"x");
    }
    s.govern(at(3000));
    assert_eq!(bitrate(&s), 4_000_000);
}

#[test]
fn downloads_go_out_in_frames() {
    let mut s = session();
    assert_eq!(s.next_download(), None);
    let (from, j) = s.on_download_opened(3, 2, 5);
    assert_eq!(from, 2);
    let p = j.get("fsProgress").unwrap();
    assert_eq!(p.get_u64("offset"), Some(2));
    assert_eq!(p.get_bool("done"), Some(false));
    assert_eq!(s.next_download(), Some(3));
    assert_eq!(
        s.download(3),
        Some(Transfer { offset: 2, size: 5 })
    );
    assert!(s.on_download_data(3, b"ab").is_none());
    let end = s.on_download_data(3, b"c").unwrap();
    assert_eq!(end.get("fsDone").unwrap().get_bool("ok"), Some(true));
    assert_eq!(s.next_download(), None);
    let (frames, _) = Controller::new(&KEY).on_batch(&flush(&mut s));
    assert_eq!(
        frames,
        vec![encode_file_frame(3, 2, b"ab"), encode_file_frame(3, 4, b"c")]
    );
}

#[test]
fn downloads_end_early_or_fail() {
    let mut s = session();
    let _ = s.on_download_opened(1, 0, 10);
    let end = s.on_download_data(1, b"").unwrap();
    assert_eq!(end.get("fsDone").unwrap().get_bool("ok"), Some(false));
    let (from, _) = s.on_download_opened(2, 99, 10);
    assert_eq!(from, 10);
    let end = s.on_download_data(2, b"").unwrap();
    assert_eq!(end.get("fsDone").unwrap().get_bool("ok"), Some(true));
    let _ = s.on_download_opened(4, 0, 10);
    let end = s.on_download_failed(4, "gone");
    let d = end.get("fsDone").unwrap();
    assert_eq!(d.get_str("err"), Some("gone".to_string()));
    assert_eq!(d.get_bool("ok"), Some(false));
    assert_eq!(s.next_download(), None);
}

#[test]
fn downloads_wait_for_a_short_queue() {
    let mut s = session();
    let _ = s.on_download_opened(1, 0, 10);
    for _ in 0..48 {
        s.queue_message(b"x");
    }
    assert_eq!(s.next_download(), None);
    s.piece_taken();
    assert_eq!(s.next_download(), Some(1));
}

#[test]
fn uploads_are_written_in_order() {
    let mut s = session();
    let w = s.on_upload_opened(9, 1_000_000, 10);
    assert!(!w.complete && w.messages.len() == 1);
    assert_eq!(
        w.messages[0].get("fsProgress").unwrap().get_u64("offset"),
        Some(10)
    );
    let wrong = from_controller(&encode_file_frame(9, 0, b"zz"));
    assert!(matches!(s.on_raw(&wrong), Inbound::Dropped));
    let unknown = from_controller(&encode_file_frame(8, 10, b"zz"));
    assert!(matches!(s.on_raw(&unknown), Inbound::Dropped));
    let right = from_controller(&encode_file_frame(9, 10, b"zz"));
    assert!(matches!(
        s.on_raw(&right),
        Inbound::Write { id: 9, offset: 10, data } if data == b"zz"
    ));
    let w = s.on_written(9, 524_277);
    assert!(!w.complete && w.messages.is_empty());
    let w = s.on_written(9, 1);
    assert!(!w.complete && w.messages.len() == 1);
    let w = s.on_written(9, 475_712);
    assert!(w.complete && w.messages.len() == 2);
    let p = w.messages[0].get("fsProgress").unwrap();
    assert_eq!(p.get_u64("offset"), Some(1_000_000));
    assert_eq!(p.get_bool("done"), Some(true));
    assert!(w.messages[1].get("fsDone").is_some());
    assert!(matches!(s.on_raw(&right), Inbound::Dropped));
}

#[test]
fn a_whole_file_is_not_sent_again() {
    let mut s = session();
    let w = s.on_upload_opened(9, 10, 10);
    assert!(w.complete && w.messages.len() == 2);
    let data = from_controller(&encode_file_frame(9, 10, b"z"));
    assert!(matches!(s.on_raw(&data), Inbound::Dropped));
}

#[test]
fn cancelling_closes_both_directions() {
    let mut s = session();
    let _ = s.on_download_opened(1, 0, 10);
    let _ = s.on_upload_opened(1, 10, 0);
    assert!(matches!(
        s.on_event(InputEvent::FsCancel { id: 1 }),
        EventAction::CloseFiles(1)
    ));
    assert_eq!(s.next_download(), None);
    let data = from_controller(&encode_file_frame(1, 0, b"z"));
    assert!(matches!(s.on_raw(&data), Inbound::Dropped));
}

#[test]
fn messages_from_the_channel_are_told_apart() {
    let s = session();
    assert!(matches!(s.on_raw(b"ZW-BYE-1"), Inbound::Bye));
    assert!(matches!(s.on_raw(b"noise"), Inbound::Dropped));
    assert!(matches!(s.on_raw(&from_controller(b"{}")), Inbound::Event(p) if p == b"{}"));
}

#[test]
fn clipboard_is_shared_once_and_never_echoed() {
    let mut s = session();
    assert!(!s.clipboard_due(at(1999)));
    assert!(s.clipboard_due(at(2000)));
    assert!(!s.clipboard_changed(7));
    assert!(s.clipboard_changed(8));
    assert!(!s.clipboard_changed(8));
    s.on_clipboard_set(9);
    assert!(!s.clipboard_changed(9));
    assert!(s.clipboard_text("").is_none());
    assert!(s.clipboard_text(&"x".repeat(262_145)).is_none());
    let j = s.clipboard_text(&"x".repeat(262_144)).unwrap();
    assert!(j.get("clipboard").unwrap().get_str("text").is_some());
    let set = InputEvent::Clipboard {
        text: "t".to_string(),
    };
    assert!(matches!(s.on_event(set), EventAction::SetClipboard(t) if t == "t"));
    let _ = s.on_event(InputEvent::ClipboardSync { enabled: false });
    let set = InputEvent::Clipboard {
        text: "t".to_string(),
    };
    assert!(matches!(s.on_event(set), EventAction::Nothing));
    assert!(!s.clipboard_due(at(9000)));
}

#[test]
fn dark_screen_and_lock_never_outlive_the_session() {
    let mut s = session();
    let blank = |enabled| InputEvent::Blank { enabled };
    assert!(matches!(s.on_event(blank(false)), EventAction::Nothing));
    assert!(matches!(s.on_event(blank(true)), EventAction::ShowBlank));
    assert!(matches!(s.on_event(blank(true)), EventAction::Nothing));
    assert!(matches!(
        s.on_event(InputEvent::InputLock { enabled: true }),
        EventAction::BlockInput(true)
    ));
    s.on_block(true, true);
    assert_eq!(
        s.finish(),
        Cleanup {
            hide_blank: true,
            unblock_input: true
        }
    );
    assert!(matches!(s.on_event(blank(true)), EventAction::ShowBlank));
    assert!(matches!(s.on_event(blank(false)), EventAction::HideBlank));
    s.on_block(true, false);
    assert_eq!(
        s.finish(),
        Cleanup {
            hide_blank: false,
            unblock_input: false
        }
    );
}

#[test]
fn a_failed_attempt_leaves_the_lock_to_be_undone() {
    let unblocks = |attempts: &[(bool, bool)]| {
        let mut s = session();
        for (enabled, worked) in attempts {
            s.on_block(*enabled, *worked);
        }
        s.finish().unblock_input
    };
    assert!(unblocks(&[(true, true), (true, false)]));
    assert!(unblocks(&[(true, true), (false, false)]));
    assert!(unblocks(&[(true, true), (true, false), (false, false)]));
    assert!(!unblocks(&[(true, true), (false, true)]));
    assert!(!unblocks(&[(true, true), (false, true), (true, false)]));
    assert!(unblocks(&[(true, true), (false, true), (true, true)]));
    assert!(!unblocks(&[(false, true), (true, false)]));
    assert!(!unblocks(&[]));
    let mut s = session();
    s.on_block(true, true);
    assert!(s.finish().unblock_input);
    assert!(!s.finish().unblock_input);
}

#[test]
fn some_download_is_always_found() {
    let mut s = session();
    for id in [7u32, 9, 11] {
        let _ = s.on_download_opened(id, 0, 1);
    }
    let mut seen = Vec::new();
    while let Some(id) = s.next_download() {
        assert!(s.on_download_data(id, b"x").is_some());
        seen.push(id);
    }
    seen.sort();
    assert_eq!(seen, [7, 9, 11]);
}

#[test]
fn requests_and_input_are_passed_on() {
    let mut s = session();
    assert!(matches!(
        s.on_event(InputEvent::Monitor { index: 0 }),
        EventAction::Nothing
    ));
    assert!(matches!(
        s.on_event(InputEvent::Monitor { index: 1 }),
        EventAction::SwitchMonitor(1)
    ));
    s.on_monitor(1);
    assert!(matches!(
        s.on_event(InputEvent::Monitor { index: 1 }),
        EventAction::Nothing
    ));
    let list = InputEvent::FsList {
        path: "p".to_string(),
    };
    assert!(matches!(s.on_event(list), EventAction::List(p) if p == "p"));
    let down = InputEvent::FsDownload {
        id: 1,
        path: "p".to_string(),
        offset: 2,
    };
    assert!(matches!(
        s.on_event(down),
        EventAction::OpenDownload { id: 1, offset: 2, .. }
    ));
    let up = InputEvent::FsUploadStart {
        id: 1,
        path: "p".to_string(),
        size: 2,
    };
    assert!(matches!(s.on_event(up), EventAction::OpenUpload { id: 1, size: 2, .. }));
    assert!(matches!(
        s.on_event(InputEvent::MouseMove { x: 1, y: 2 }),
        EventAction::Inject(v) if v == [Injection::Move { x: 1, y: 2 }]
    ));
}

#[test]
fn messages_have_their_fields() {
    let j = progress_message(1, 2, 3, true);
    let p = j.get("fsProgress").unwrap();
    assert_eq!(
        (p.get_u64("id"), p.get_u64("offset"), p.get_u64("size")),
        (Some(1), Some(2), Some(3))
    );
    assert_eq!(p.get_bool("done"), Some(true));
    let j = done_message(1, false, Some("e"));
    let d = j.get("fsDone").unwrap();
    assert_eq!((d.get_u64("id"), d.get_str("err")), (Some(1), Some("e".to_string())));
    assert!(done_message(1, true, None).get("fsDone").unwrap().get("err").unwrap().is_null());
    let c = clipboard_message("t");
    assert_eq!(c.get("clipboard").unwrap().get_str("text"), Some("t".to_string()));
}

#[test]
fn a_listing_is_sent_under_its_name() {
    let m = listing_message(&drive_listing(&vec!["C:\\".to_string()]));
    let l = m.get("fsList").unwrap();
    assert_eq!(l.get_str("path").unwrap(), "");
    let entries = l.get("entries").unwrap().as_array().unwrap();
    assert_eq!(entries.len(), 1);
    assert_eq!(entries[0].get_str("name").unwrap(), "C:\\");
    assert_eq!(entries[0].get_bool("dir"), Some(true));
    assert_eq!(entries[0].get_u64("size"), Some(0));
    assert!(l.get("err").unwrap().is_null());
}
