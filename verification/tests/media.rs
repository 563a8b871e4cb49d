use zortilwatch::media::{Chunker, Reassembler, DEFAULT_MAX_PAYLOAD};

fn roundtrip(frame: &[u8], max_payload: usize) -> Vec<u8> {
    let mut ch = Chunker::new(max_payload);
    let mut re = Reassembler::new();
    let mut out = None;
    for c in ch.chunk(frame) {
        if let Some(f) = re.push(&c) {
            out = Some(f);
        }
    }
    out.expect("frame reassembled")
}

#[test]
fn small_frame_single_chunk() {
    let frame = b"a-tiny-h264-access-unit";
    let mut ch = Chunker::new(DEFAULT_MAX_PAYLOAD);
    assert_eq!(ch.chunk(frame).len(), 1);
    assert_eq!(roundtrip(frame, DEFAULT_MAX_PAYLOAD), frame);
}

#[test]
fn large_frame_chunked_and_reassembled() {
    let frame: Vec<u8> = (0..70_000u32).map(|i| (i % 251) as u8).collect();
    let mut ch = Chunker::new(16 * 1024);
    let chunks = ch.chunk(&frame);
    assert!(chunks.len() >= 5, "expected several chunks");
    assert_eq!(roundtrip(&frame, 16 * 1024), frame);
}

#[test]
fn empty_frame_roundtrips() {
    assert_eq!(roundtrip(&[], 1024), Vec::<u8>::new());
}

#[test]
fn two_frames_sequential() {
    let mut ch = Chunker::new(8);
    let mut re = Reassembler::new();
    let f1: Vec<u8> = (0..20u8).collect();
    let f2: Vec<u8> = (100..130u8).collect();

    let mut got = Vec::new();
    for c in ch.chunk(&f1).into_iter().chain(ch.chunk(&f2)) {
        if let Some(f) = re.push(&c) {
            got.push(f);
        }
    }
    assert_eq!(got, vec![f1, f2]);
}

#[test]
fn seq_increments_across_frames() {
    let mut ch = Chunker::new(1024);
    let a = ch.chunk(b"x");
    let b = ch.chunk(b"y");
    assert_eq!(&a[0][0..4], &0u32.to_be_bytes());
    assert_eq!(&b[0][0..4], &1u32.to_be_bytes());
}

#[test]
fn header_holds_index_and_count() {
    let mut ch = Chunker::new(2);
    let c = ch.chunk(b"abcde");
    assert_eq!(c.len(), 3);
    assert_eq!(c[0], b"\0\0\0\0\0\0\0\x03ab");
    assert_eq!(c[1], b"\0\0\0\0\0\x01\0\x03cd");
    assert_eq!(c[2], b"\0\0\0\0\0\x02\0\x03e");
}

#[test]
fn a_limit_of_zero_is_one() {
    let mut ch = Chunker::new(0);
    assert_eq!(ch.chunk(b"abc").len(), 3);
}

#[test]
fn exact_multiples_make_no_empty_piece() {
    let mut ch = Chunker::new(4);
    assert_eq!(ch.chunk(b"abcdefgh").len(), 2);
}

#[test]
fn short_and_foreign_messages_are_ignored() {
    let mut re = Reassembler::new();
    assert_eq!(re.push(b"1234567"), None);
    assert_eq!(re.push(b"\0\0\0\0\0\x01\0\x02zz"), None);
    let mut ch = Chunker::new(2);
    let c = ch.chunk(b"abcd");
    assert_eq!(re.push(&c[0]), None);
    assert_eq!(re.push(b"\0\0\0\x09\0\x01\0\x02zz"), None);
    assert_eq!(re.push(&c[1]), Some(b"abcd".to_vec()));
}

#[test]
fn a_new_frame_replaces_a_broken_one() {
    let mut re = Reassembler::default();
    let mut ch = Chunker::new(2);
    let lost = ch.chunk(b"abcdef");
    let next = ch.chunk(b"wxyz");
    assert_eq!(re.push(&lost[0]), None);
    assert_eq!(re.push(&next[0]), None);
    assert_eq!(re.push(&next[1]), Some(b"wxyz".to_vec()));
}

#[test]
fn a_count_of_zero_completes_at_once() {
    let mut re = Reassembler::new();
    assert_eq!(re.push(b"\0\0\0\0\0\0\0\0xy"), Some(b"xy".to_vec()));
}
