use stitch_pty::terminal::charsets::{CharsetRef, KNOWN_CHARSETS, get_charset_map};

#[test]
fn test_ascii_map() {
    assert_eq!(CharsetRef::Ascii.map(b'A'), 'A');
    assert_eq!(CharsetRef::Ascii.map(b' '), ' ');
    assert_eq!(CharsetRef::Ascii.map(b'~'), '~');
}

#[test]
fn test_dec_special_line_drawing() {
    let cs = CharsetRef::DecSpecial;
    assert_eq!(cs.map(b'q'), '\u{2500}');
    assert_eq!(cs.map(b'x'), '\u{2502}');
    assert_eq!(cs.map(b'n'), '\u{253c}');
    assert_eq!(cs.map(b'j'), '\u{2518}');
}

#[test]
fn test_dec_special_symbols() {
    let cs = CharsetRef::DecSpecial;
    assert_eq!(cs.map(b'`'), '\u{25c6}');
    assert_eq!(cs.map(b'g'), '\u{00b1}');
    assert_eq!(cs.map(b'f'), '\u{00b0}');
    assert_eq!(cs.map(b'{'), '\u{03c0}');
    assert_eq!(cs.map(b'|'), '\u{2260}');
    assert_eq!(cs.map(b'_'), ' ');
}

#[test]
fn test_dec_special_fallback() {
    let cs = CharsetRef::DecSpecial;
    assert_eq!(cs.map(b'A'), 'A');
    assert_eq!(cs.map(b'1'), '1');
}

#[test]
fn test_from_designation() {
    assert_eq!(CharsetRef::from_designation('B'), Some(CharsetRef::Ascii));
    assert_eq!(CharsetRef::from_designation('0'), Some(CharsetRef::DecSpecial));
    assert_eq!(CharsetRef::from_designation('Z'), None);
}

#[test]
fn test_get_charset_map_known() {
    assert!(get_charset_map("0").is_some());
    assert!(get_charset_map("B").is_some());
    assert!(get_charset_map("A").is_some());
    assert!(get_charset_map("Z").is_none());
}

#[test]
fn test_known_charsets() {
    for code in KNOWN_CHARSETS {
        assert!(get_charset_map(code).is_some(), "Charset '{}' should be known", code);
    }
}
