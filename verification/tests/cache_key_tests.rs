use guhwall::cache_key::{cache_entry_name, cache_file_name, cache_key};

#[test]
fn key_matches_fnv1a_reference_value() {
    // FNV-1a 64 of the single byte `a` is a published reference value.
    assert_eq!(cache_key(b"a"), 0xaf63dc4c8601ec8c);
}

#[test]
fn key_is_stable_for_equal_paths() {
    let p = b"/pics/a.png";
    assert_eq!(cache_key(p), cache_key(p));
    assert_eq!(cache_key(p), 7581568617998230490);
}

#[test]
fn keys_differ_for_these_paths() {
    assert_ne!(cache_key(b"/pics/a.png"), cache_key(b"/pics/b.png"));
    assert_ne!(cache_key(b""), cache_key(b"a"));
}

#[test]
fn file_name_is_decimal_key_with_jpg_suffix() {
    assert_eq!(cache_file_name(0), b"0.jpg".to_vec());
    assert_eq!(cache_file_name(7), b"7.jpg".to_vec());
    assert_eq!(cache_file_name(1234567890), b"1234567890.jpg".to_vec());
    assert_eq!(
        cache_file_name(u64::MAX),
        b"18446744073709551615.jpg".to_vec()
    );
}

#[test]
fn entry_name_combines_hash_and_suffix() {
    assert_eq!(cache_entry_name(b"a"), b"12638187200555641996.jpg".to_vec());
    assert_eq!(cache_entry_name(b"/pics/a.png"), cache_entry_name(b"/pics/a.png"));
}
