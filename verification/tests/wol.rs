use zortilwatch::wol::{
    format_mac, local_mac, magic_packet, parse_mac, send_wol_str, Adapter, IF_TYPE_ETHERNET,
    IF_TYPE_WIFI, OPER_STATUS_UP,
};

#[test]
fn parse_mac_accepts_common_forms() {
    let want = [0xAA, 0xBB, 0xCC, 0xDD, 0xEE, 0xFF];
    assert_eq!(parse_mac("AA:BB:CC:DD:EE:FF"), Some(want));
    assert_eq!(parse_mac("aa-bb-cc-dd-ee-ff"), Some(want));
    assert_eq!(parse_mac("AABBCCDDEEFF"), Some(want));
    assert_eq!(parse_mac("AA BB CC DD EE FF"), Some(want));
    assert_eq!(parse_mac("not-a-mac"), None);
    assert_eq!(parse_mac("AA:BB:CC"), None);
}

#[test]
fn format_mac_is_canonical() {
    assert_eq!(
        format_mac([0x01, 0x23, 0x45, 0x67, 0x89, 0xab]),
        "01:23:45:67:89:AB"
    );
    let mac = [0xde, 0xad, 0xbe, 0xef, 0x00, 0x11];
    assert_eq!(parse_mac(&format_mac(mac)), Some(mac));
}

#[test]
fn magic_packet_shape() {
    let mac = [0x11, 0x22, 0x33, 0x44, 0x55, 0x66];
    let p = magic_packet(mac);
    assert_eq!(&p[..6], &[0xFF; 6]);
    for i in 0..16 {
        assert_eq!(&p[6 + i * 6..6 + i * 6 + 6], &mac);
    }
}

#[test]
fn send_wol_str_rejects_bad_mac() {
    assert!(!send_wol_str("nope", |_| true));
}

#[test]
fn nothing_is_sent_to_no_address() {
    for bad in ["nope", "", "AA:BB:CC", "01:02:03:04:05:0G"] {
        assert!(!send_wol_str(bad, |_| panic!("sent")));
    }
}

#[test]
fn send_wol_str_sends_the_packet() {
    let mac = [1, 2, 3, 4, 5, 6];
    assert!(send_wol_str("01:02:03:04:05:06", |p| p == magic_packet(mac)));
    assert!(!send_wol_str("01:02:03:04:05:06", |_| false));
}

fn adapter(kind: u32, status: i32, address: &[u8]) -> Adapter {
    Adapter {
        kind,
        status,
        address: address.to_vec(),
    }
}

#[test]
fn local_mac_is_that_of_the_first_usable_adapter() {
    let up = OPER_STATUS_UP;
    let list = vec![
        adapter(24, up, &[9; 6]),
        adapter(IF_TYPE_ETHERNET, 2, &[9; 6]),
        adapter(IF_TYPE_ETHERNET, up, &[9; 8]),
        adapter(IF_TYPE_ETHERNET, up, &[0; 6]),
        adapter(IF_TYPE_WIFI, up, &[0, 0, 0, 0, 0, 1]),
        adapter(IF_TYPE_ETHERNET, up, &[9; 6]),
    ];
    assert_eq!(local_mac(&list), Some("00:00:00:00:00:01".to_string()));
    assert_eq!(local_mac(&vec![]), None);
}
