use pascal_string::ascii::codec::{ascii_lowercase, ascii_uppercase, eq_ignore_case};
use pascal_string::ascii::{AsciiText, PascalStr, PascalString};
use pascal_string::compare::{compare_units, units_eq};
use pascal_string::lines::LINE_FEED;
use pascal_string::PASCAL_STRING_BUF_SIZE;

fn shout<T: AsciiText>(text: &T) -> PascalString {
    text.to_ascii_uppercase()
}

fn same<T: AsciiText>(a: &T, b: &T) -> bool {
    a.len() == b.len() && a.eq_ignore_ascii_case(b)
}

#[test]
fn the_owned_and_the_borrowed_string_share_their_capabilities() {
    let owned = PascalString::from(b"Both").unwrap();
    let borrowed = PascalStr::from_bytes(b"bOTH").unwrap();
    assert_eq!(shout(&owned).as_bytes(), b"BOTH");
    assert_eq!(shout(&borrowed).as_bytes(), b"BOTH");
    assert!(same(&owned, &PascalString::from(b"BOTH").unwrap()));
    assert!(same(&borrowed, &PascalStr::from_bytes(b"both").unwrap()));
    assert!(!same(&owned, &PascalString::from(b"bot").unwrap()));
    assert_eq!(AsciiText::len(&owned), 4);
    assert!(!AsciiText::is_empty(&borrowed));
    assert!(!AsciiText::is_full(&owned));
    assert!(AsciiText::is_ascii(&borrowed));
    assert_eq!(AsciiText::to_ascii_lowercase(&borrowed).as_bytes(), b"both");
}

#[test]
fn the_case_of_one_unit() {
    assert_eq!(ascii_uppercase(b'a'), b'A');
    assert_eq!(ascii_uppercase(b'z'), b'Z');
    assert_eq!(ascii_uppercase(b'`'), b'`');
    assert_eq!(ascii_uppercase(b'{'), b'{');
    assert_eq!(ascii_uppercase(b'A'), b'A');
    assert_eq!(ascii_uppercase(0xe1), 0xe1);
    assert_eq!(ascii_lowercase(b'A'), b'a');
    assert_eq!(ascii_lowercase(b'Z'), b'z');
    assert_eq!(ascii_lowercase(b'@'), b'@');
    assert_eq!(ascii_lowercase(b'['), b'[');
    assert_eq!(ascii_lowercase(b'q'), b'q');
    for unit in 0..=255u8 {
        assert_eq!(ascii_uppercase(unit), unit.to_ascii_uppercase());
        assert_eq!(ascii_lowercase(unit), unit.to_ascii_lowercase());
    }
}

#[test]
fn runs_of_units_compared() {
    assert!(units_eq(b"", b""));
    assert!(units_eq(b"abc", b"abc"));
    assert!(!units_eq(b"abc", b"abd"));
    assert!(!units_eq(b"abc", b"ab"));
    assert_eq!(compare_units(b"", b""), 0);
    assert_eq!(compare_units(b"", b"a"), -1);
    assert_eq!(compare_units(b"a", b""), 1);
    assert_eq!(compare_units(b"abc", b"abd"), -1);
    assert_eq!(compare_units(b"abd", b"abc"), 1);
    assert_eq!(compare_units(b"ab", b"abc"), -1);
    assert_eq!(compare_units(b"b", b"abc"), 1);
    assert_eq!(compare_units(b"same", b"same"), 0);
    assert!(eq_ignore_case(b"MiXed", b"mIxEd"));
    assert!(!eq_ignore_case(b"MiXed", b"mIxEd!"));
    assert!(!eq_ignore_case(b"a1", b"a2"));
    assert!(eq_ignore_case(b"", b""));
}

#[test]
fn the_constants() {
    assert_eq!(PASCAL_STRING_BUF_SIZE, 255);
    assert_eq!(LINE_FEED, b'\n');
}
