use orm::text::{chars_of, contains, find, matches_at, same_text, tail_from};

fn chars(s: &str) -> Vec<char> {
    s.chars().collect()
}

#[test]
fn chars_of_keeps_every_character() {
    assert_eq!(chars_of("a\u{e9}z"), vec!['a', '\u{e9}', 'z']);
    assert!(chars_of("").is_empty());
}

#[test]
fn find_gives_the_leftmost_position() {
    assert_eq!(find(&chars("abcabc"), &chars("bc")), Some(1));
    assert_eq!(find(&chars("abcabc"), &chars("abc")), Some(0));
    assert_eq!(find(&chars("abcabc"), &chars("cab")), Some(2));
    assert_eq!(find(&chars("abc"), &chars("c")), Some(2));
    assert_eq!(find(&chars("abc"), &chars("")), Some(0));
    assert_eq!(find(&chars(""), &chars("")), Some(0));
    assert_eq!(find(&chars("abc"), &chars("abcd")), None);
    assert_eq!(find(&chars("abc"), &chars("x")), None);
    assert_eq!(find(&chars("\u{e9}t\u{e9}"), &chars("t")), Some(1));
}

#[test]
fn contains_and_matches_at() {
    assert!(contains(&chars("no such column: age"), &chars("no such column:")));
    assert!(!contains(&chars("no such table: age"), &chars("no such column:")));
    assert!(matches_at(&chars("abc"), &chars("bc"), 1));
    assert!(!matches_at(&chars("abc"), &chars("bc"), 0));
    assert!(matches_at(&chars("abc"), &chars(""), 3));
}

#[test]
fn same_text_and_tail() {
    assert!(same_text(&chars("age"), &chars("age")));
    assert!(!same_text(&chars("age"), &chars("ago")));
    assert!(!same_text(&chars("age"), &chars("ages")));
    assert_eq!(tail_from(&chars("abcdef"), 4), chars("ef"));
    assert_eq!(tail_from(&chars("abc"), 3), chars(""));
    assert_eq!(tail_from(&chars("abc"), 0), chars("abc"));
}
