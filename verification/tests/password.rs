use zortilwatch::password::{generate_one_time, one_time_from_bytes, CHARSET, ONE_TIME_LEN};

#[test]
fn one_time_has_right_shape() {
    for _ in 0..500 {
        let p = generate_one_time().unwrap();
        assert_eq!(p.len(), ONE_TIME_LEN);
        assert!(p.bytes().all(|b| CHARSET.as_bytes().contains(&b)));
        assert!(!p.contains(['0', 'O', '1', 'I']));
    }
}

#[test]
fn one_time_is_varied() {
    let set: std::collections::HashSet<_> =
        (0..200).map(|_| generate_one_time().unwrap()).collect();
    assert!(set.len() > 190);
}

#[test]
fn bytes_pick_characters_modulo_the_set() {
    assert_eq!(one_time_from_bytes(&[0, 31, 32, 63, 255, 8, 23, 24]), "A9A99JZ2");
    assert_eq!(one_time_from_bytes(&[]), "");
}

#[test]
fn every_character_is_equally_likely() {
    let all: Vec<u8> = (0..=255u8).collect();
    let code = one_time_from_bytes(&all);
    for c in CHARSET.chars() {
        assert_eq!(code.chars().filter(|&d| d == c).count(), 8);
    }
}
