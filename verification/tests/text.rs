use orbit_notes::text::{chars_of, occurs, push_decimal, same_text, slice_bytes, string_of};

#[test]
fn chars_and_back() {
    let chars = chars_of("a\u{e9}\u{21a9}b");
    assert_eq!(chars, vec!['a', '\u{e9}', '\u{21a9}', 'b']);
    assert_eq!(string_of(&chars, 1, 3), "\u{e9}\u{21a9}");
    assert_eq!(string_of(&chars, 2, 2), "");
    assert_eq!(string_of(&chars, 0, 4), "a\u{e9}\u{21a9}b");
}

#[test]
fn occurs_at_a_place() {
    let text = chars_of("abcabc");
    let pattern = chars_of("bc");
    assert!(occurs(&text, 1, &pattern));
    assert!(occurs(&text, 4, &pattern));
    assert!(!occurs(&text, 0, &pattern));
    assert!(!occurs(&text, 5, &pattern));
    assert!(!occurs(&text, 6, &pattern));
    assert!(!occurs(&text, usize::MAX, &pattern));
    assert!(occurs(&text, 6, &Vec::new()));
    assert!(!occurs(&text, 7, &Vec::new()));
}

#[test]
fn same_text_compares_characters() {
    assert!(same_text("orbit", "orbit"));
    assert!(same_text("", ""));
    assert!(!same_text("orbit", "orbit "));
    assert!(!same_text("orbit", "Orbit"));
    assert!(!same_text("abc", "abd"));
}

#[test]
fn decimal_numbers() {
    let mut out = String::from("n=");
    push_decimal(&mut out, 0);
    out.push(',');
    push_decimal(&mut out, 7);
    out.push(',');
    push_decimal(&mut out, 10);
    out.push(',');
    push_decimal(&mut out, 1203);
    assert_eq!(out, "n=0,7,10,1203");
    let mut max = String::new();
    push_decimal(&mut max, usize::MAX);
    assert_eq!(max, usize::MAX.to_string());
}

#[test]
fn slices_between_byte_offsets() {
    let text = "a\u{e9}b\u{21a9}c";
    assert_eq!(slice_bytes(text, 0, 1), Some("a"));
    assert_eq!(slice_bytes(text, 1, 3), Some("\u{e9}"));
    assert_eq!(slice_bytes(text, 1, 4), Some("\u{e9}b"));
    assert_eq!(slice_bytes(text, 4, 7), Some("\u{21a9}"));
    assert_eq!(slice_bytes(text, 0, 8), Some(text));
    assert_eq!(slice_bytes(text, 8, 8), Some(""));
    assert_eq!(slice_bytes(text, 3, 3), Some(""));
}

#[test]
fn no_slice_off_the_characters() {
    let text = "a\u{e9}b\u{21a9}c";
    assert_eq!(slice_bytes(text, 2, 3), None);
    assert_eq!(slice_bytes(text, 1, 2), None);
    assert_eq!(slice_bytes(text, 5, 7), None);
    assert_eq!(slice_bytes(text, 3, 1), None);
    assert_eq!(slice_bytes(text, 0, 9), None);
    assert_eq!(slice_bytes(text, 9, 9), None);
}
