use patient_records::text::{bytes_le, contains};

#[test]
fn a_text_contains_its_parts() {
    assert!(contains("jane doe", "jane"));
    assert!(contains("jane doe", "doe"));
    assert!(contains("jane doe", "e d"));
    assert!(contains("jane doe", "jane doe"));
    assert!(contains("abcabd", "abd"));
    assert!(contains("aaab", "aab"));
}

#[test]
fn a_text_does_not_contain_what_is_not_in_it() {
    assert!(!contains("jane doe", "zzz"));
    assert!(!contains("jane doe", "janedoe"));
    assert!(!contains("jane doe", "jane doe "));
    assert!(!contains("jane", "Jane"));
    assert!(!contains("", "a"));
    assert!(!contains("ab", "abc"));
}

#[test]
fn every_text_contains_the_empty_text() {
    assert!(contains("jane doe", ""));
    assert!(contains("", ""));
}

#[test]
fn search_goes_by_characters_not_bytes() {
    assert!(contains("zoë müller", "ë m"));
    assert!(contains("日本語", "本"));
    assert!(!contains("日本語", "語日"));
    assert!(contains("naïve", "ïve"));
}

#[test]
fn contains_agrees_with_the_standard_search() {
    let texts = ["", "a", "ab", "aba", "abab", "patient_1700000000000", "Jane Doe", "ééé", "éaé"];
    for hay in texts {
        for needle in texts {
            assert_eq!(contains(hay, needle), hay.contains(needle), "{:?} in {:?}", needle, hay);
        }
    }
}

#[test]
fn byte_strings_are_ordered_by_their_first_difference() {
    assert!(bytes_le(b"Alice", b"Bob"));
    assert!(!bytes_le(b"Bob", b"Alice"));
    assert!(bytes_le(b"Bob", b"Carol"));
    assert!(bytes_le(b"abc", b"abd"));
    assert!(!bytes_le(b"abd", b"abc"));
    assert!(bytes_le(b"Zed", b"adam"));
}

#[test]
fn a_prefix_comes_first() {
    assert!(bytes_le(b"", b""));
    assert!(bytes_le(b"", b"a"));
    assert!(!bytes_le(b"a", b""));
    assert!(bytes_le(b"Ann", b"Anna"));
    assert!(!bytes_le(b"Anna", b"Ann"));
}

#[test]
fn equal_byte_strings_come_no_later_than_each_other() {
    assert!(bytes_le(b"Bob", b"Bob"));
    assert!(bytes_le(&[0u8, 255], &[0u8, 255]));
}

#[test]
fn byte_order_agrees_with_the_standard_order() {
    let texts = ["", "a", "ab", "b", "B", "Alice", "alice", "Bob", "Carol", "é", "z", "日本"];
    for a in texts {
        for b in texts {
            assert_eq!(bytes_le(a.as_bytes(), b.as_bytes()), a <= b, "{:?} <= {:?}", a, b);
        }
    }
}
