use rustmerge::codec::{decode_filename, encode_filename};

#[test]
fn encode_replaces_reserved_characters() {
    assert_eq!(encode_filename("a.b"), "a__DOT__b");
    assert_eq!(encode_filename("a_b"), "a__UNDERSCORE__b");
    assert_eq!(encode_filename("a/b"), "a__SLASH__b");
    assert_eq!(encode_filename("a-b"), "a__DASH__b");
    assert_eq!(encode_filename("plain"), "plain");
    assert_eq!(encode_filename(""), "");
}

#[test]
fn decode_round_trips_paths() {
    for path in ["src/lib.rs", "module_a/mod-b.rs", "_DOT_", "__", "a..b//c--d__e", "DOT", "é/ü.rs"] {
        assert_eq!(decode_filename(&encode_filename(path)), path);
    }
}
