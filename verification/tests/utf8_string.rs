use pascal_string::utf8::{
    PascalStr, PascalString, PascalStringAppendError, PascalStringCreateError,
};

#[test]
fn a_character_takes_one_to_four_bytes() {
    let mut s = PascalString::new();
    s.push('a');
    assert_eq!(s.as_bytes(), &[0x61]);
    s.push('\u{e9}');
    assert_eq!(s.as_bytes(), &[0x61, 0xc3, 0xa9]);
    s.push('\u{20ac}');
    assert_eq!(s.as_bytes(), &[0x61, 0xc3, 0xa9, 0xe2, 0x82, 0xac]);
    s.push('\u{1f600}');
    assert_eq!(
        s.as_bytes(),
        &[0x61, 0xc3, 0xa9, 0xe2, 0x82, 0xac, 0xf0, 0x9f, 0x98, 0x80]
    );
    assert_eq!(s.len(), 10);
    assert_eq!(s.as_str(), "a\u{e9}\u{20ac}\u{1f600}");
    assert_eq!(s.as_str().chars().count(), 4);
}

#[test]
fn the_edges_of_each_width() {
    for (ch, width) in [
        ('\0', 1usize),
        ('\u{7f}', 1),
        ('\u{80}', 2),
        ('\u{7ff}', 2),
        ('\u{800}', 3),
        ('\u{d7ff}', 3),
        ('\u{e000}', 3),
        ('\u{ffff}', 3),
        ('\u{10000}', 4),
        ('\u{10ffff}', 4),
    ] {
        let mut s = PascalString::new();
        assert_eq!(s.try_push(ch), Ok(()));
        assert_eq!(s.len(), width);
        let mut buf = [0u8; 4];
        assert_eq!(s.as_bytes(), ch.encode_utf8(&mut buf).as_bytes());
    }
}

#[test]
fn a_push_that_does_not_fit_changes_nothing() {
    let mut s = PascalString::from_str(&"x".repeat(254)).unwrap();
    let before = s;
    assert_eq!(s.try_push('\u{e9}'), Err(PascalStringAppendError::NoRoom));
    assert_eq!(s.len(), 254);
    assert_eq!(s.as_bytes(), before.as_bytes());
    assert!(s == before);
    assert_eq!(s.try_push('\u{1f600}'), Err(PascalStringAppendError::NoRoom));
    assert_eq!(s.as_bytes(), before.as_bytes());
    assert_eq!(s.try_push('y'), Ok(()));
    assert_eq!(s.len(), 255);
    assert!(s.is_full());
    assert_eq!(s.as_bytes()[254], b'y');
    assert_eq!(s.try_push('z'), Err(PascalStringAppendError::NoRoom));
    assert_eq!(s.as_bytes()[254], b'y');
    assert_eq!(s.len(), 255);
}

#[test]
fn a_wide_character_may_fill_the_last_bytes() {
    let mut s = PascalString::from_str(&"x".repeat(251)).unwrap();
    assert_eq!(s.try_push('\u{1f600}'), Ok(()));
    assert!(s.is_full());
    assert_eq!(&s.as_bytes()[251..], &[0xf0, 0x9f, 0x98, 0x80]);
    let mut s = PascalString::from_str(&"x".repeat(252)).unwrap();
    assert_eq!(s.try_push('\u{1f600}'), Err(PascalStringAppendError::NoRoom));
    assert_eq!(s.try_push('\u{20ac}'), Ok(()));
    assert!(s.is_full());
}

#[test]
fn after_255_pushes_the_string_is_full() {
    let mut s = PascalString::new();
    for _ in 0..255 {
        assert_eq!(s.try_push('k'), Ok(()));
    }
    let before = s;
    assert_eq!(s.try_push('k'), Err(PascalStringAppendError::NoRoom));
    assert_eq!(s.as_bytes(), before.as_bytes());
    assert_eq!(s.len(), 255);
}

#[test]
fn from_str_counts_bytes() {
    let text = "\u{e9}".repeat(127);
    let s = PascalString::from_str(&text).unwrap();
    assert_eq!(s.len(), 254);
    assert_eq!(s.as_str(), text);
    let text = "\u{e9}".repeat(128);
    assert_eq!(
        PascalString::from_str(&text).err(),
        Some(PascalStringCreateError::InputTooLong)
    );
    let text = "x".repeat(255);
    assert!(PascalString::from_str(&text).unwrap().is_full());
    assert!(PascalString::from_str("").unwrap().is_empty());
}

#[test]
fn round_trip_through_text() {
    let s = PascalString::from_str("gr\u{fc}\u{df} dich, \u{4e16}\u{754c} \u{1f30d}").unwrap();
    let back = PascalString::from_str(s.as_str()).unwrap();
    assert!(back == s);
    assert_eq!(back.as_bytes(), s.as_bytes());
    assert_eq!(back.to_string(), "gr\u{fc}\u{df} dich, \u{4e16}\u{754c} \u{1f30d}");
}

#[test]
fn utf8_try_push_str_is_all_or_nothing() {
    let mut s = PascalString::from_str(&"x".repeat(250)).unwrap();
    let before = s;
    assert_eq!(s.try_push_str("ab\u{20ac}c"), Err(PascalStringAppendError::NoRoom));
    assert_eq!(s.as_bytes(), before.as_bytes());
    assert_eq!(s.len(), 250);
    assert_eq!(s.try_push_str("ab\u{20ac}"), Ok(()));
    assert_eq!(s.len(), 255);
    assert_eq!(&s.as_bytes()[250..], &[b'a', b'b', 0xe2, 0x82, 0xac]);
    assert_eq!(s.try_push_str(""), Ok(()));
    assert_eq!(s.try_push_str("!"), Err(PascalStringAppendError::NoRoom));
    assert_eq!(
        PascalStringAppendError::NoRoom.description(),
        "there is no room for the string to be appended"
    );
}

#[test]
fn a_utf8_view_shows_the_string() {
    let s = PascalString::from_str("se\u{f1}or").unwrap();
    let v = s.as_pascal_str();
    assert_eq!(v.as_str(), "se\u{f1}or");
    assert_eq!(v.as_bytes(), "se\u{f1}or".as_bytes());
    assert_eq!(v.len(), 6);
    assert!(!v.is_empty());
    assert!(!v.is_full());
    assert!(v.to_owned() == s);
    assert_eq!(v.chars().collect::<Vec<char>>(), vec!['s', 'e', '\u{f1}', 'o', 'r']);
    assert_eq!(s.chars().count(), 5);
    let mut bytes = v.bytes();
    assert_eq!(bytes.len(), 6);
    assert_eq!(bytes.next(), Some(b's'));
    assert_eq!(bytes.next(), Some(b'e'));
    assert_eq!(bytes.next(), Some(0xc3));
    assert_eq!(bytes.next(), Some(0xb1));
    assert_eq!(bytes.len(), 2);
    assert_eq!(bytes.next(), Some(b'o'));
    assert_eq!(bytes.next(), Some(b'r'));
    assert_eq!(bytes.next(), None);
    assert_eq!(s.bytes().len(), 6);
}

#[test]
fn a_view_of_text() {
    let v = PascalStr::from_str("\u{4e16}\u{754c}").unwrap();
    assert_eq!(v.len(), 6);
    assert_eq!(v.as_str(), "\u{4e16}\u{754c}");
    let long = "y".repeat(256);
    assert_eq!(
        PascalStr::from_str(&long).err(),
        Some(PascalStringCreateError::InputTooLong)
    );
    assert!(PascalStr::from_str(&long[1..]).unwrap().is_full());
    assert!(PascalStr::from_str("").unwrap().is_empty());
}

#[test]
fn lines_are_cut_at_line_feeds() {
    let s = PascalString::from_str("eins\nzw\u{f6}lf\n\n\u{1f600}").unwrap();
    let mut lines = s.lines();
    assert_eq!(lines.len(), 4);
    assert_eq!(lines.next().unwrap().as_str(), "eins");
    assert_eq!(lines.next().unwrap().as_str(), "zw\u{f6}lf");
    assert_eq!(lines.len(), 2);
    assert_eq!(lines.next().unwrap().as_str(), "");
    assert_eq!(lines.next().unwrap().as_str(), "\u{1f600}");
    assert!(lines.next().is_none());
    assert_eq!(lines.len(), 0);
    let s = PascalString::from_str("a\n").unwrap();
    let mut lines = s.as_pascal_str().lines();
    assert_eq!(lines.len(), 1);
    assert_eq!(lines.next().unwrap().as_str(), "a");
    assert!(lines.next().is_none());
}

#[test]
fn equality_and_order_are_those_of_the_text() {
    let a = PascalString::from_str("a\u{e9}").unwrap();
    let b = PascalString::from_str("a\u{ea}").unwrap();
    let c = PascalString::from_str("a").unwrap();
    let z = PascalString::from_str("z").unwrap();
    assert!(a == PascalString::from_str("a\u{e9}").unwrap());
    assert!(a != b);
    assert!(a < b);
    assert!(c < a);
    assert!(z < a || "z" > "a\u{e9}");
    assert_eq!(a.partial_cmp(&z), "a\u{e9}".partial_cmp("z"));
    assert_eq!(b.partial_cmp(&a), Some(std::cmp::Ordering::Greater));
    assert!(a.as_pascal_str() == a.as_pascal_str());
    assert!(c.as_pascal_str() < a.as_pascal_str());
    let mut d = PascalString::from_str("a\u{e9}longer").unwrap();
    d = PascalString::from_str(&d.as_str()[..3]).unwrap();
    assert!(d == a);
    assert!(PascalString::default() == PascalString::new());
}

#[test]
fn utf8_strings_compare_with_text() {
    let s = PascalString::from_str("se\u{f1}or").unwrap();
    assert!(s == "se\u{f1}or");
    assert!(s != "senor");
    assert!(s != "se\u{f1}o");
    assert!(s != "se\u{f1}ora");
    assert_eq!(s, "se\u{f1}or");
    assert!(s > "senor");
    assert!(s < "se\u{f1}ora");
    assert!(s < "\u{4e16}");
    assert_eq!(s.partial_cmp(&"se\u{f1}or"), Some(std::cmp::Ordering::Equal));
    assert_eq!(s.partial_cmp(&"z"), "se\u{f1}or".partial_cmp("z"));
    let v = s.as_pascal_str();
    assert!(v == "se\u{f1}or");
    assert!(v != "");
    assert!(v > "se");
    assert_eq!(v.partial_cmp(&"t"), Some(std::cmp::Ordering::Less));
    assert!(PascalString::new() == "");
}

#[test]
fn the_owned_and_the_borrowed_utf8_string_compare_with_each_other() {
    let s = PascalString::from_str("gr\u{fc}n").unwrap();
    let other = PascalString::from_str("grau").unwrap();
    assert!(s == s.as_pascal_str());
    assert!(s.as_pascal_str() == s);
    assert!(s != other.as_pascal_str());
    assert!(other < s.as_pascal_str());
    assert!(other.as_pascal_str() < s);
    assert_eq!(s.partial_cmp(&other.as_pascal_str()), Some(std::cmp::Ordering::Greater));
}

#[test]
fn case_changes_touch_ascii_letters_only() {
    let text = "Stra\u{df}e \u{e9}t\u{e9} \u{1f600} az AZ \u{4e16}\u{754c}";
    let mut s = PascalString::from_str(text).unwrap();
    s.make_ascii_uppercase();
    assert_eq!(s, "STRA\u{df}E \u{e9}T\u{e9} \u{1f600} AZ AZ \u{4e16}\u{754c}");
    assert_eq!(s.as_str(), text.to_ascii_uppercase());
    assert_eq!(s.len(), text.len());
    s.make_ascii_lowercase();
    assert_eq!(s, "stra\u{df}e \u{e9}t\u{e9} \u{1f600} az az \u{4e16}\u{754c}");
    assert_eq!(s.as_str(), text.to_ascii_lowercase());
    let mut empty = PascalString::new();
    empty.make_ascii_uppercase();
    assert!(empty.is_empty());
}

#[test]
fn a_mutable_utf8_view_writes_in_place() {
    let mut s = PascalString::from_str("na\u{ef}ve Caf\u{e9}").unwrap();
    {
        let mut view = s.as_mut_pascal_str();
        assert_eq!(view.len(), 12);
        assert_eq!(view.as_pascal_str().as_str(), "na\u{ef}ve Caf\u{e9}");
        view.make_ascii_uppercase();
        assert_eq!(view.as_pascal_str().as_str(), "NA\u{ef}VE CAF\u{e9}");
        assert_eq!(view.len(), 12);
        view.make_ascii_lowercase();
    }
    assert_eq!(s, "na\u{ef}ve caf\u{e9}");
    assert_eq!(s.len(), 12);
    assert_eq!(s.as_bytes(), "na\u{ef}ve caf\u{e9}".as_bytes());
}
