use zortilwatch::files::{
    drive_listing, drive_roots, encode_file_frame, list_dir, parse_file_frame, sort_entries,
    DirEntry, DirRead, FILE_CHUNK, FILE_FRAME_MAGIC,
};

fn entry(name: &str, dir: bool, size: u64) -> DirEntry {
    DirEntry {
        name: name.to_string(),
        dir,
        size,
    }
}

#[test]
fn file_frame_roundtrip() {
    let f = encode_file_frame(7, 1_000_000, b"hello");
    let (id, off, data) = parse_file_frame(&f).expect("parse");
    assert_eq!((id, off, data), (7, 1_000_000, b"hello".as_slice()));
    assert!(parse_file_frame(b"\x00\x00\x01rest").is_none());
    assert!(parse_file_frame(b"{\"j\":1}").is_none());
}

#[test]
fn file_frame_bytes() {
    assert_eq!(FILE_FRAME_MAGIC, 0xF7);
    assert_eq!(FILE_CHUNK, 32 * 1024);
    assert_eq!(
        encode_file_frame(0x0102_0304, 0x0A0B, b"z"),
        b"\xF7\x01\x02\x03\x04\0\0\0\0\0\0\x0A\x0Bz"
    );
    assert!(parse_file_frame(&[0xF7; 12]).is_none());
    assert_eq!(
        parse_file_frame(&encode_file_frame(u32::MAX, u64::MAX, b"")),
        Some((u32::MAX, u64::MAX, &[][..]))
    );
}

#[test]
fn list_dir_reads_tempdir() {
    let found = DirRead::Found(vec![entry("a.txt", false, 1), entry("sub", true, 0)]);
    let l = list_dir("/tmp/x", &found);
    let names: Vec<&str> = l.entries.iter().map(|e| e.name.as_str()).collect();
    assert_eq!(names, vec!["sub", "a.txt"]);
    assert!(l.err.is_none());
    assert_eq!(l.path, "/tmp/x");
}

#[test]
fn list_dir_error_is_reported() {
    let l = list_dir(
        "Z:\\definitely\\not\\here\\zw",
        &DirRead::Failed("not found".to_string()),
    );
    assert!(l.err.is_some());
    assert_eq!(l.entries.len(), 0);
    let j = l.to_json();
    assert_eq!(j.get_str("err"), Some("not found".to_string()));
    assert_eq!(j.get("entries").unwrap().as_array().unwrap().len(), 0);
}

#[test]
fn entries_sort_stably_by_kind_and_name() {
    let found = vec![
        entry("b", false, 1),
        entry("B", false, 2),
        entry("z", true, 0),
        entry("b", false, 3),
        entry("ab", true, 0),
        entry("a", true, 0),
        entry("і", false, 4),
    ];
    let out = sort_entries(&found);
    let got: Vec<(&str, bool, u64)> = out.iter().map(|e| (e.name.as_str(), e.dir, e.size)).collect();
    assert_eq!(
        got,
        vec![
            ("a", true, 0),
            ("ab", true, 0),
            ("z", true, 0),
            ("B", false, 2),
            ("b", false, 1),
            ("b", false, 3),
            ("і", false, 4),
        ]
    );
}

#[test]
fn drives_run_from_a_to_z() {
    let roots = drive_roots();
    assert_eq!(roots.len(), 26);
    assert_eq!(roots[0], "A:\\");
    assert_eq!(roots[25], "Z:\\");
    let l = drive_listing(&vec!["C:\\".to_string()]);
    assert_eq!(l.path, "");
    assert!(l.err.is_none());
    assert_eq!(l.entries, vec![entry("C:\\", true, 0)]);
}

#[test]
fn listing_json_has_path_entries_and_error() {
    let l = list_dir("d", &DirRead::Found(vec![entry("n", false, 5)]));
    let j = l.to_json();
    assert_eq!(j.get_str("path"), Some("d".to_string()));
    assert!(j.get("err").unwrap().is_null());
    let e = &j.get("entries").unwrap().as_array().unwrap()[0];
    assert_eq!(e.get_str("name"), Some("n".to_string()));
    assert_eq!(e.get_bool("dir"), Some(false));
    assert_eq!(e.get_u64("size"), Some(5));
}
