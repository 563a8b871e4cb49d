use zortilwatch::capture::{
    monitor_control, monitor_from_parts, monitor_from_rect, monitor_name, primary_index,
    unpad_rows, CaptureError, DesktopSource, DesktopStep, Frame, FrameOutcome, FrameQueue,
};
use zortilwatch::encode::{pack, EncodeError, EncoderConfig, FrameClock};
use zortilwatch::input::{inject, on_virtual_desktop, InputEvent, Injection, MouseButton};
use zortilwatch::time::Duration;

#[test]
fn frames_have_four_bytes_a_pixel() {
    let f = Frame {
        width: 3,
        height: 2,
        data: vec![],
    };
    assert_eq!(f.expected_len(), 24);
}

#[test]
fn gaps_between_rows_are_cut() {
    let src: Vec<u8> = (0..14).collect();
    let f = unpad_rows(&src, 1, 2, 6);
    assert_eq!((f.width, f.height), (1, 2));
    assert_eq!(f.data, vec![0, 1, 2, 3, 6, 7, 8, 9]);
    assert_eq!(f.data.len(), f.expected_len());
    assert!(unpad_rows(&[], 1, 0, 4).data.is_empty());
}

#[test]
fn monitors_by_rectangle() {
    let m = monitor_from_rect(0, " ".to_string(), 0, 0, 1920, 1080);
    assert_eq!((m.width, m.height, m.is_primary), (1920, 1080, true));
    assert_eq!(m.name, "Монітор 1");
    let m = monitor_from_rect(1, "DELL".to_string(), -1280, 10, 0, 5);
    assert_eq!((m.width, m.height, m.is_primary), (1280, 0, false));
    assert_eq!((m.x, m.y, m.name.as_str()), (-1280, 10, "DELL"));
    let m = monitor_from_rect(2, String::new(), i32::MIN, 0, i32::MAX, 0);
    assert_eq!(m.width, u32::MAX);
    assert_eq!(monitor_name("\t".to_string(), u32::MAX), "Монітор 4294967296");
}

#[test]
fn monitors_by_parts() {
    let m = monitor_from_parts(0, None, None, None, Some(2), Some(2));
    assert_eq!((m.width, m.height, m.is_primary), (0, 0, true));
    assert_eq!(m.name, "Монітор 1");
    let m = monitor_from_parts(1, Some("A".to_string()), Some(5), Some(6), Some(1), Some(2));
    assert_eq!((m.width, m.height, m.is_primary), (5, 6, false));
    assert!(!monitor_from_parts(0, None, None, None, None, None).is_primary);
    assert!(monitor_from_parts(0, None, None, None, Some(0), None).is_primary);
}

#[test]
fn control_message_lists_the_monitors() {
    let list = vec![
        monitor_from_rect(0, "A".to_string(), 5, 0, 10, 10),
        monitor_from_rect(1, "B".to_string(), 0, 0, 5, 10),
    ];
    assert_eq!(primary_index(&list), 1);
    assert_eq!(primary_index(&vec![]), 0);
    let j = monitor_control(&list, 1);
    assert_eq!(j.get_u64("active"), Some(1));
    let m = &j.get("monitors").unwrap().as_array().unwrap()[1];
    assert_eq!(m.get_str("name"), Some("B".to_string()));
    assert_eq!((m.get_u64("index"), m.get_u64("w"), m.get_u64("h")), (Some(1), Some(5), Some(10)));
    assert_eq!(m.get_bool("primary"), Some(true));
}

#[test]
fn capture_follows_desktop_and_monitor() {
    let at = Duration::from_millis;
    let mut s = DesktopSource::new(at(0));
    assert!(s.begin(0, at(1)));
    assert_eq!(s.on_desktop("Default"), DesktopStep::Bind);
    s.on_bound("Default".to_string());
    assert_eq!(s.on_desktop("Default"), DesktopStep::Leave);
    s.on_created(true);
    assert!(!s.begin(0, at(200)));
    assert!(s.begin(0, at(201)));
    assert!(s.capturing);
    assert!(s.on_frame(FrameOutcome::Timeout) && s.capturing);
    assert!(s.begin(1, at(202)) && !s.capturing);
    s.on_created(true);
    assert!(s.on_frame(FrameOutcome::Lost) && !s.capturing);
    s.on_created(true);
    assert!(s.on_frame(FrameOutcome::Passed) && s.capturing);
    assert!(!s.on_frame(FrameOutcome::NoConsumer));
}

#[test]
fn encoder_sizes_are_even() {
    let c = EncoderConfig::new(1367, 769, 30, 1);
    assert_eq!((c.in_w, c.in_h, c.out_w, c.out_h), (1367, 769, 1366, 768));
    let c = EncoderConfig::new_scaled(100, 100, 51, 33, 30, 1);
    assert_eq!((c.out_w, c.out_h), (50, 32));
    assert_eq!(pack(1920, 1080), (1920u64 << 32) | 1080);
}

#[test]
fn frame_times_abut() {
    let mut c = FrameClock { fps: 30, index: 0 };
    let (a, d) = c.next();
    let (b, e) = c.next();
    assert_eq!((a, d, e), (0, 333_333, 333_333));
    assert_eq!(b, a + d);
}

#[test]
fn errors_are_prefixed() {
    assert_eq!(CaptureError("x".to_string()).message(), "capture error: x");
    assert_eq!(EncodeError("x".to_string()).message(), "encode error: x");
}

#[test]
fn events_become_injections() {
    let press = InputEvent::MouseButton {
        button: MouseButton::Right,
        down: true,
    };
    assert_eq!(
        inject(&press),
        vec![Injection::Button {
            button: MouseButton::Right,
            down: true
        }]
    );
    let scroll = InputEvent::Scroll {
        dx: Some(-120),
        dy: Some(240),
    };
    assert_eq!(
        inject(&scroll),
        vec![
            Injection::Wheel { amount: 240 },
            Injection::HorizontalWheel { amount: -120 }
        ]
    );
    assert!(inject(&InputEvent::Scroll { dx: None, dy: None }).is_empty());
    let key = InputEvent::Key {
        code: 0x1_0041,
        down: false,
    };
    assert_eq!(inject(&key), vec![Injection::Key { code: 0x41, up: true }]);
    assert!(inject(&InputEvent::Blank { enabled: true }).is_empty());
}

#[test]
fn places_on_a_monitor_become_places_on_the_desktop() {
    // Two monitors side by side, the second one left of the first.
    assert_eq!(on_virtual_desktop(0, -1920, 1920, -1920, 3840), 0);
    assert_eq!(on_virtual_desktop(65535, -1920, 1920, -1920, 3840), 32758);
    assert_eq!(on_virtual_desktop(0, 0, 1920, -1920, 3840), 32776);
    assert_eq!(on_virtual_desktop(65535, 0, 1920, -1920, 3840), 65535);
    // One monitor is the whole desktop.
    assert_eq!(on_virtual_desktop(32768, 0, 1081, 0, 1081), 32767);
    // What lies outside is taken to the edge.
    assert_eq!(on_virtual_desktop(7, -10, 5, 0, 100), 0);
    assert_eq!(on_virtual_desktop(7, i32::MAX, u32::MAX, i32::MIN, 1), 65535);
    assert_eq!(on_virtual_desktop(7, 0, 0, 0, 0), 0);
}

#[test]
fn new_frames_displace_stale_ones() {
    let frame = |width| Frame {
        width,
        height: 1,
        data: Vec::new(),
    };
    let mut q = FrameQueue::new();
    assert!(q.pop().is_none());
    for n in 1..=5 {
        q.push(frame(n));
    }
    assert_eq!(q.pop().map(|f| f.width), Some(4));
    q.push(frame(6));
    assert_eq!(q.pop().map(|f| f.width), Some(5));
    assert_eq!(q.pop().map(|f| f.width), Some(6));
    assert!(q.pop().is_none());
}
