use shortcut_search::text::{chars_of, contains_chars, occurs_here};

fn seq(s: &str) -> Vec<char> {
    s.chars().collect()
}

fn holds(hay: &str, needle: &str) -> bool {
    contains_chars(&seq(hay), &seq(needle))
}

#[test]
fn chars_of_gives_the_characters_in_order() {
    assert_eq!(chars_of("abc"), vec!['a', 'b', 'c']);
    assert_eq!(chars_of(""), Vec::<char>::new());
    assert_eq!(chars_of("aé日"), vec!['a', 'é', '日']);
}

#[test]
fn a_part_is_found_at_the_start_in_the_middle_and_at_the_end() {
    assert!(holds("notepad.lnk", "note"));
    assert!(holds("notepad.lnk", "epa"));
    assert!(holds("notepad.lnk", ".lnk"));
    assert!(holds("notepad.lnk", "notepad.lnk"));
    assert!(holds("notepad.lnk", "k"));
}

#[test]
fn what_is_no_part_is_not_found() {
    assert!(!holds("calculator.lnk", "not"));
    assert!(!holds("notepad", "notepad.lnk"));
    assert!(!holds("abc", "ac"));
    assert!(!holds("abc", "cb"));
    assert!(!holds("aab", "abb"));
    assert!(!holds("", "a"));
}

#[test]
fn a_part_that_starts_after_a_false_start_is_found() {
    assert!(holds("aaab", "aab"));
    assert!(holds("ababac", "abac"));
}

#[test]
fn the_empty_sequence_is_a_part_of_every_sequence() {
    assert!(holds("abc", ""));
    assert!(holds("", ""));
}

#[test]
fn containment_tells_upper_from_lower_case() {
    assert!(!holds("Notepad", "note"));
    assert!(holds("Notepad", "Note"));
}

#[test]
fn occurs_here_looks_at_one_position_only() {
    let hay = seq("abcabc");
    let needle = seq("bc");
    assert!(!occurs_here(&needle, &hay, 0));
    assert!(occurs_here(&needle, &hay, 1));
    assert!(!occurs_here(&needle, &hay, 2));
    assert!(occurs_here(&needle, &hay, 4));
}

#[test]
fn occurs_here_is_false_past_the_end() {
    let hay = seq("abc");
    assert!(!occurs_here(&seq("c"), &hay, 3));
    assert!(!occurs_here(&seq("bc"), &hay, 2));
    assert!(!occurs_here(&seq("abcd"), &hay, 0));
    assert!(!occurs_here(&seq("a"), &hay, usize::MAX));
    assert!(occurs_here(&seq(""), &hay, 3));
    assert!(!occurs_here(&seq(""), &hay, 4));
}
