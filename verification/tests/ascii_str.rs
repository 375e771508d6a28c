use std::borrow::Cow;

use pascal_string::ascii::{AsciiError, PascalStr, PascalString, PascalStringCreateError};

#[test]
fn a_string_that_is_not_full_is_lent_out_null_terminated() {
    let s = PascalString::from(b"borrow me").unwrap();
    let c = s.as_cstr().unwrap();
    assert!(matches!(c, Cow::Borrowed(_)));
    assert_eq!(&*c, b"borrow me\0");
    let array = s.to_array();
    assert_eq!(&array[1..11], &*c);
}

#[test]
fn the_empty_string_is_lent_out_as_one_null() {
    let s = PascalString::new();
    let c = s.as_cstr().unwrap();
    assert!(matches!(c, Cow::Borrowed(_)));
    assert_eq!(&*c, &[0u8]);
}

#[test]
fn a_null_terminated_string_stays_null_terminated_after_changes() {
    let mut s = PascalString::from(b"abcdef").unwrap();
    s.pop();
    s.remove(0);
    s.insert('z', 1);
    s.set(0, 'y');
    s.make_ascii_uppercase();
    let c = s.as_cstr().unwrap();
    assert!(matches!(c, Cow::Borrowed(_)));
    assert_eq!(&*c, b"YZCDE\0");
    s.clear();
    s.push_str("q");
    assert_eq!(&*s.as_cstr().unwrap(), b"q\0");
}

#[test]
fn a_full_string_is_copied() {
    let s = PascalString::from(&[b'l'; 255]).unwrap();
    let c = s.as_cstr().unwrap();
    assert!(matches!(c, Cow::Owned(_)));
    let mut expected = vec![b'l'; 255];
    expected.push(0);
    assert_eq!(c.into_owned(), expected);
}

#[test]
fn a_full_string_that_ends_in_a_null_is_lent_out_as_it_is() {
    let mut bytes = vec![b'n'; 254];
    bytes.push(0);
    let s = PascalString::from(&bytes).unwrap();
    let c = s.as_cstr().unwrap();
    assert!(matches!(c, Cow::Borrowed(_)));
    assert_eq!(&*c, &bytes[..]);
}

#[test]
fn a_string_that_ends_in_a_null_is_lent_out_as_it_is() {
    let s = PascalString::from(b"done\0").unwrap();
    let c = s.as_cstr().unwrap();
    assert!(matches!(c, Cow::Borrowed(_)));
    assert_eq!(&*c, b"done\0");
}

#[test]
fn an_interior_null_is_an_error_that_names_the_first() {
    let s = PascalString::from(b"lol\0hi").unwrap();
    assert_eq!(s.as_cstr().err().map(|e| e.interior_null_index()), Some(3));
    let s = PascalString::from(b"\0a\0b\0").unwrap();
    assert_eq!(s.as_cstr().err().map(|e| e.interior_null_index()), Some(0));
    let s = PascalString::from(b"ab\0\0").unwrap();
    assert_eq!(s.as_cstr().err().map(|e| e.interior_null_index()), Some(2));
    let mut bytes = vec![b'f'; 255];
    bytes[7] = 0;
    let s = PascalString::from(&bytes).unwrap();
    let e = s.as_cstr().err().unwrap();
    assert_eq!(e.interior_null_index(), 7);
    assert_eq!(
        e.description(),
        "an interior null was found when creating a CStr from a pascal string"
    );
}

#[test]
fn a_view_of_plain_bytes_is_copied() {
    let v = PascalStr::from_bytes(b"plain").unwrap();
    let c = v.as_cstr().unwrap();
    assert!(matches!(c, Cow::Owned(_)));
    assert_eq!(&*c, b"plain\0");
    let v = PascalStr::from_bytes(b"plain\0").unwrap();
    let c = v.as_cstr().unwrap();
    assert!(matches!(c, Cow::Borrowed(_)));
    assert_eq!(&*c, b"plain\0");
}

#[test]
fn a_line_is_copied() {
    let s = PascalString::from(b"one\ntwo").unwrap();
    let mut lines = s.lines();
    let one = lines.next().unwrap();
    let c = one.as_cstr().unwrap();
    assert!(matches!(c, Cow::Owned(_)));
    assert_eq!(&*c, b"one\0");
}

#[test]
fn a_view_checks_its_bytes() {
    assert_eq!(
        PascalStr::from_bytes(&[b'a'; 256]).err(),
        Some(PascalStringCreateError::InputTooLong)
    );
    assert_eq!(
        PascalStr::from_bytes(&[b'a', 0xc3, 0xa4]).err(),
        Some(PascalStringCreateError::NotValidAscii(AsciiError::Str(1)))
    );
    let v = PascalStr::from_bytes(&[b'v'; 255]).unwrap();
    assert!(v.is_full());
    assert_eq!(v.len(), 255);
    let v = PascalStr::from_bytes(b"").unwrap();
    assert!(v.is_empty());
    assert!(v.is_ascii());
}

#[test]
fn a_view_shows_the_string() {
    let s = PascalString::from(b"view").unwrap();
    let v = s.as_pascal_str();
    assert_eq!(v.len(), 4);
    assert_eq!(v.as_bytes(), b"view");
    assert_eq!(v.as_str(), "view");
    assert!(!v.is_empty());
    assert!(!v.is_full());
    assert!(v.to_owned() == s);
    assert_eq!(v.to_ascii_uppercase().as_bytes(), b"VIEW");
    assert_eq!(v.to_ascii_lowercase().as_bytes(), b"view");
    let other = PascalStr::from_bytes(b"VIEW").unwrap();
    assert!(v.eq_ignore_ascii_case(&other));
    assert!(v != other);
    assert!(other < v);
    assert!(v == PascalStr::from_bytes(b"view").unwrap());
    assert!(v == "view");
    assert!(v != "views");
    assert!(v != "vie");
    assert!(s == "view");
    assert!(s != "v\u{ed}ew");
    assert!(PascalString::new() == "");
}

#[test]
fn indexing_by_one_place() {
    let s = PascalString::from(b"index").unwrap();
    assert_eq!(s[0u8], b'i');
    assert_eq!(s[4u8], b'x');
    assert_eq!(s[1usize], b'n');
    assert_eq!(s[2i32], b'd');
    let v = s.as_pascal_str();
    assert_eq!(v[0u8], b'i');
    assert_eq!(v[4usize], b'x');
    assert_eq!(v[3i32], b'e');
}

#[test]
fn indexing_by_a_range_may_end_at_the_length() {
    let s = PascalString::from(b"range").unwrap();
    assert_eq!(&s[0usize..5usize], b"range");
    assert_eq!(&s[1u8..3u8], b"an");
    assert_eq!(&s[5i32..5i32], b"");
    assert_eq!(&s[2usize..2usize], b"");
    let v = s.as_pascal_str();
    assert_eq!(&v[0u8..5u8], b"range");
    assert_eq!(&v[3usize..5usize], b"ge");
    assert_eq!(&v[0i32..1i32], b"r");
}

#[test]
fn chars_walk_from_the_front() {
    let s = PascalString::from(b"abc").unwrap();
    let mut chars = s.as_pascal_str().chars();
    assert_eq!(chars.len(), 3);
    assert_eq!(chars.next(), Some(b'a'));
    assert_eq!(chars.next(), Some(b'b'));
    assert_eq!(chars.len(), 1);
    assert_eq!(chars.next(), Some(b'c'));
    assert_eq!(chars.next(), None);
    assert_eq!(chars.len(), 0);
    assert_eq!(PascalString::new().chars().next(), None);
}

fn lines_of(text: &[u8]) -> Vec<Vec<u8>> {
    let s = PascalString::from(text).unwrap();
    let mut lines = s.lines();
    let mut found = Vec::new();
    let mut expected_len = lines.len();
    while let Some(line) = lines.next() {
        found.push(line.as_bytes().to_vec());
        expected_len -= 1;
        assert_eq!(lines.len(), expected_len);
    }
    assert_eq!(expected_len, 0);
    assert!(lines.next().is_none());
    found
}

#[test]
fn the_last_line_needs_no_line_feed() {
    assert_eq!(
        lines_of(b"hello\n,\nmy\ndarling"),
        vec![b"hello".to_vec(), b",".to_vec(), b"my".to_vec(), b"darling".to_vec()]
    );
    assert_eq!(lines_of(b"alone"), vec![b"alone".to_vec()]);
}

#[test]
fn a_final_line_feed_starts_no_line() {
    assert_eq!(lines_of(b"a\nb\n"), vec![b"a".to_vec(), b"b".to_vec()]);
    assert_eq!(lines_of(b"\n"), vec![b"".to_vec()]);
    assert_eq!(lines_of(b""), Vec::<Vec<u8>>::new());
}

#[test]
fn empty_lines_are_lines() {
    assert_eq!(lines_of(b"\n\nx"), vec![b"".to_vec(), b"".to_vec(), b"x".to_vec()]);
    assert_eq!(lines_of(b"a\n\n"), vec![b"a".to_vec(), b"".to_vec()]);
    assert_eq!(lines_of(b"a\r\nb"), vec![b"a\r".to_vec(), b"b".to_vec()]);
}

#[test]
fn lines_of_a_full_string() {
    let mut bytes = vec![b'x'; 255];
    bytes[100] = b'\n';
    bytes[254] = b'\n';
    let lines = lines_of(&bytes);
    assert_eq!(lines.len(), 2);
    assert_eq!(lines[0].len(), 100);
    assert_eq!(lines[1].len(), 153);
}

#[test]
fn ranges_without_a_start_or_an_end() {
    let s = PascalString::from(b"ranges").unwrap();
    assert_eq!(s.range_from(0), b"ranges");
    assert_eq!(s.range_from(3), b"ges");
    assert_eq!(s.range_from(6), b"");
    assert_eq!(s.range_to(0), b"");
    assert_eq!(s.range_to(2), b"ra");
    assert_eq!(s.range_to(6), b"ranges");
    assert_eq!(s.range_full(), b"ranges");
    let v = s.as_pascal_str();
    assert_eq!(v.range_from(5), b"s");
    assert_eq!(v.range_from(6), b"");
    assert_eq!(v.range_to(6), b"ranges");
    assert_eq!(v.range_to(1), b"r");
    assert_eq!(v.range_full(), b"ranges");
    assert_eq!(PascalString::new().range_full(), b"");
}

#[test]
fn the_owned_and_the_borrowed_string_compare_with_each_other() {
    let s = PascalString::from(b"pear").unwrap();
    let other = PascalString::from(b"peach").unwrap();
    assert!(s == s.as_pascal_str());
    assert!(s.as_pascal_str() == s);
    assert!(s != other.as_pascal_str());
    assert!(other.as_pascal_str() != s);
    assert!(other < s.as_pascal_str());
    assert!(other.as_pascal_str() < s);
    assert!(s > other.as_pascal_str());
    assert_eq!(s.partial_cmp(&s.as_pascal_str()), Some(std::cmp::Ordering::Equal));
}

#[test]
fn strings_are_ordered_against_text() {
    let s = PascalString::from(b"pear").unwrap();
    assert!(s < "plum");
    assert!(s > "peach");
    assert!(s > "pea");
    assert!(s <= "pear");
    assert!(s >= "pear");
    assert!(s < "p\u{e9}ar");
    assert_eq!(s.partial_cmp(&"pear"), Some(std::cmp::Ordering::Equal));
    let v = s.as_pascal_str();
    assert!(v < "pears");
    assert!(v > "");
    assert_eq!(v.partial_cmp(&"apple"), Some(std::cmp::Ordering::Greater));
}
