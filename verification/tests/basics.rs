use zortilwatch::identity::DeviceIdentity;
use zortilwatch::portable::{
    default_server, is_portable, launch_command, removed, setup_portable_env,
};
use zortilwatch::json::Json;
use zortilwatch::time::Duration;
use zortilwatch::{product, text, VERSION};

#[test]
fn product_name_is_stable() {
    assert_eq!(product(), "ZortilWatch");
}

#[test]
fn version_is_non_empty() {
    assert!(!VERSION.is_empty());
}

#[test]
fn alias_defaults_to_none() {
    assert_eq!(DeviceIdentity::new("900000001", "secret").alias, None);
}

#[test]
fn identity_keeps_its_parts() {
    let id = DeviceIdentity::new("123456789", "deadbeef");
    assert_eq!(id.public_id, "123456789");
    assert_eq!(id.client_secret, "deadbeef");
    assert_eq!(id.clone(), id);
}

#[test]
fn durations_add_and_subtract() {
    let d = Duration::from_secs(3);
    assert_eq!(d.nanos, 3_000_000_000);
    assert_eq!(Duration::from_millis(33).nanos, 33_000_000);
    assert_eq!(d.since(Duration::from_secs(1)), Duration::from_secs(2));
    assert_eq!(Duration::from_secs(1).since(d), Duration::from_secs(0));
    assert_eq!(d.plus(Duration::from_secs(1)), Duration::from_secs(4));
    assert_eq!(Duration { nanos: u128::MAX }.plus(d).nanos, u128::MAX);
    assert!(d.at_least(d) && !d.exceeds(d));
}

#[test]
fn portable_needs_the_marker() {
    assert!(is_portable(Some(true)));
    assert!(!is_portable(Some(false)));
    assert!(!is_portable(None));
    assert_eq!(setup_portable_env(Some(true)), Some("data"));
    assert_eq!(setup_portable_env(Some(false)), None);
    assert_eq!(setup_portable_env(None), None);
}

#[test]
fn default_server_is_trimmed_and_not_empty() {
    let cfg = |v: Json| Json::empty().with("server", v);
    assert_eq!(
        default_server(&cfg(Json::text("  https://my.host:8787\n"))),
        Some("https://my.host:8787".to_string())
    );
    assert_eq!(default_server(&cfg(Json::text("  \t "))), None);
    assert_eq!(default_server(&cfg(Json::Uint(3))), None);
    assert_eq!(default_server(&Json::empty()), None);
    assert_eq!(default_server(&Json::Null), None);
}

#[test]
fn launch_command_quotes_the_path() {
    assert_eq!(
        launch_command("C:\\Program Files\\zw.exe"),
        "\"C:\\Program Files\\zw.exe\" --minimized"
    );
}

#[test]
fn removing_an_absent_value_is_success() {
    assert!(removed(0) && removed(2) && !removed(5));
}

#[test]
fn text_is_trimmed_like_the_standard_library() {
    for s in ["", " ", "\t a b \r\n", "\u{00a0}x\u{3000}", "\u{2003}\u{85}", "плюс "] {
        assert_eq!(text::trimmed(s), s.trim());
    }
}

#[test]
fn words_are_split_like_the_standard_library() {
    for s in ["", "  ", "a", " a  b\tc\u{2003}d ", "один два"] {
        let want: Vec<String> = s.split_whitespace().map(String::from).collect();
        assert_eq!(text::split_whitespace(s), want);
    }
}

#[test]
fn prefixes_and_parts_are_found() {
    assert!(text::starts_with("turn:x", "turn:"));
    assert!(!text::starts_with("tur", "turn:"));
    assert_eq!(text::strip_prefix("ab", "abc"), None);
    assert_eq!(text::strip_prefix("abc", "ab"), Some("c".to_string()));
    assert!(text::contains("xtransport=tcp", "transport=tcp"));
    assert!(text::contains("", ""));
    assert!(!text::contains("abc", "d"));
    assert!(text::contains("aab", "ab"));
}

#[test]
fn ends_and_starts_are_stripped() {
    assert_eq!(text::trim_end_matches("a//", '/'), "a");
    assert_eq!(text::trim_end_matches("//", '/'), "");
    assert_eq!(text::trim_start_matches("\u{feff}\u{feff}{}", '\u{feff}'), "{}");
}

#[test]
fn numbers_are_written_in_decimal() {
    for n in [0u64, 9, 10, 438, 65_535, u64::MAX] {
        assert_eq!(text::to_decimal(n), n.to_string());
    }
}

#[test]
fn wide_text_ends_in_zero() {
    for s in ["", "winsta0\\default", "Є", "🦀x"] {
        let want: Vec<u16> = s.encode_utf16().chain(std::iter::once(0)).collect();
        assert_eq!(text::wide(s), want);
    }
}
