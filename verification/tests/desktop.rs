use zortilwatch::desktop::{
    host_password, to_page, upload_start, Download, FileTransfers, FrameStep, Upload, UploadStart,
    UploadStep, NOT_ACKED, UPLOAD_WINDOW,
};
use zortilwatch::files::{encode_file_frame, parse_file_frame, FILE_CHUNK};
use zortilwatch::input::InputEvent;
use zortilwatch::json::Json;
use zortilwatch::managed::{done_message, progress_message};
use zortilwatch::time::Duration;

#[test]
fn frames_go_to_the_page_in_base64() {
    assert_eq!(to_page(b""), "");
    assert_eq!(to_page(b"f"), "Zg==");
    assert_eq!(to_page(b"fo"), "Zm8=");
    assert_eq!(to_page(b"foo"), "Zm9v");
    assert_eq!(to_page(b"foobar"), "Zm9vYmFy");
    assert_eq!(to_page(&[0xFB, 0xFF, 0xFE, 0x00]), "+//+AA==");
}

#[test]
fn delivered_messages_are_told_apart() {
    let mut t = FileTransfers::new();
    let (id, e) = t.start_download("r".to_string(), 4);
    assert_eq!(id, 1);
    assert!(matches!(e, InputEvent::FsDownload { id: 1, offset: 4, .. }));
    let frame = encode_file_frame(1, 4, b"data");
    assert!(matches!(t.on_frame(&frame), FrameStep::Append { id: 1, data } if data == b"data"));
    assert!(matches!(
        t.on_frame(&encode_file_frame(2, 0, b"x")),
        FrameStep::Drop
    ));
    assert!(matches!(t.on_frame(&[0xF7, 1]), FrameStep::Drop));
    assert!(matches!(t.on_frame(b"{\"a\":1}"), FrameStep::Control));
    assert!(matches!(t.on_frame(b"\0\0\x01"), FrameStep::Forward));
    assert!(matches!(t.on_frame(b""), FrameStep::Forward));
}

#[test]
fn downloads_are_reported_every_half_megabyte() {
    let mut t = FileTransfers::new();
    let (id, _) = t.start_download("r".to_string(), 10);
    assert_eq!(t.on_appended(id, 524_287), None);
    assert_eq!(
        t.on_appended(id, 1),
        Some("{\"fsLocal\":{\"id\":1,\"written\":524298}}".to_string())
    );
    assert_eq!(
        t.download(id),
        Some(Download {
            written: 524_298,
            announced: 524_298
        })
    );
    assert_eq!(t.on_appended(id, 5), None);
    assert_eq!(t.download(9), None);
}

#[test]
fn reports_of_the_managed_side_are_read() {
    let mut t = FileTransfers::new();
    let (down, _) = t.start_download("r".to_string(), 0);
    let (up, e) = t.start_upload("r".to_string(), 100);
    assert_eq!((down, up), (1, 2));
    assert!(matches!(e, InputEvent::FsUploadStart { id: 2, size: 100, .. }));
    assert_eq!(t.acked(up), Some(NOT_ACKED));
    t.on_control(&progress_message(up, 30, 100, false));
    assert_eq!(t.acked(up), Some(30));
    t.on_control(&done_message(down, true, None));
    assert_eq!(t.download(down), None);
    t.on_control(&Json::empty());
    assert_eq!(t.acked(up), Some(30));
    assert!(matches!(t.cancel(up), InputEvent::FsCancel { id: 2 }));
    assert_eq!(t.acked(up), None);
    t.on_control(&progress_message(up, 60, 100, false));
    assert_eq!(t.acked(up), None);
    assert_eq!(t.acked(99), None);
}

#[test]
fn uploads_start_where_the_file_ends() {
    let s = Duration::from_secs(100);
    let at = |millis: u64| Duration::from_millis(100_000 + millis);
    assert_eq!(upload_start(Some(NOT_ACKED), 10, s, at(15_000)), UploadStart::Wait);
    assert_eq!(upload_start(Some(NOT_ACKED), 10, s, at(15_001)), UploadStart::Nothing);
    assert_eq!(upload_start(Some(4), 10, s, at(1)), UploadStart::From(4));
    assert_eq!(upload_start(Some(10), 10, s, at(1)), UploadStart::Nothing);
    assert_eq!(upload_start(None, 10, s, at(1)), UploadStart::Nothing);
}

#[test]
fn uploads_stay_within_the_window() {
    let mut u = Upload::new(3, 100);
    assert_eq!(u.step(Some(NOT_ACKED)), UploadStep::Read);
    let frame = u.on_data(b"abc");
    assert_eq!(parse_file_frame(&frame), Some((3, 100, &b"abc"[..])));
    assert_eq!(u.sent, 103);
    let _ = u.on_data(&[0; FILE_CHUNK - 3]);
    let mut pieces = 1;
    while u.step(Some(NOT_ACKED)) == UploadStep::Read {
        let offset = u.sent;
        let frame = u.on_data(&[0; FILE_CHUNK]);
        assert_eq!(parse_file_frame(&frame).unwrap().1, offset);
        pieces += 1;
        assert!(u.sent - 100 <= UPLOAD_WINDOW);
    }
    assert_eq!(pieces, 32);
    assert_eq!(u.sent - 100, 1_048_576);
    assert_eq!(u.step(Some(101)), UploadStep::Wait);
    assert_eq!(u.step(Some(100 + 32_767)), UploadStep::Wait);
    assert_eq!(u.step(Some(100 + 32_768)), UploadStep::Read);
    assert_eq!(u.step(Some(9_000_000)), UploadStep::Read);
    assert_eq!(u.step(None), UploadStep::Stop);
}

#[test]
fn an_empty_host_password_is_none() {
    assert_eq!(host_password(None), None);
    assert_eq!(host_password(Some(String::new())), None);
    assert_eq!(host_password(Some("п".to_string())), Some("п".as_bytes().to_vec()));
}
