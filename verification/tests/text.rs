use flake_discover::text::{decimal, find_char, matches_at, replace, same_text};

#[test]
fn matches_at_finds_pattern_in_place() {
    assert!(matches_at("hello world", 6, "world"));
    assert!(matches_at("hello world", 0, "hello"));
    assert!(matches_at("hello", 5, ""));
}

#[test]
fn matches_at_rejects_other_places() {
    assert!(!matches_at("hello world", 5, "world"));
    assert!(!matches_at("hello", 3, "loo"));
    assert!(!matches_at("hello", 6, ""));
    assert!(!matches_at("", 0, "a"));
}

#[test]
fn matches_at_counts_characters_not_bytes() {
    assert!(matches_at("äöü-x", 3, "-x"));
    assert!(!matches_at("äöü-x", 6, "-x"));
}

#[test]
fn find_char_gives_first_position_from_start() {
    assert_eq!(find_char("a-b-c", 0, '-'), Some(1));
    assert_eq!(find_char("a-b-c", 1, '-'), Some(1));
    assert_eq!(find_char("a-b-c", 2, '-'), Some(3));
    assert_eq!(find_char("a-b-c", 4, '-'), None);
    assert_eq!(find_char("a-b-c", 9, '-'), None);
    assert_eq!(find_char("", 0, '-'), None);
}

#[test]
fn same_text_compares_contents() {
    assert!(same_text("SKIPPED", "SKIPPED"));
    assert!(!same_text("SKIPPED", "SKIPPE"));
    assert!(!same_text("SKIPPED", "SKIPPEDX"));
    assert!(!same_text("skipped", "SKIPPED"));
    assert!(same_text("", ""));
}

#[test]
fn replace_substitutes_every_occurrence() {
    assert_eq!(replace("a PREFIX b PREFIX", "PREFIX", "x"), "a x b x");
    assert_eq!(replace("PREFIX", "PREFIX", ""), "");
    assert_eq!(replace("no match", "PREFIX", "x"), "no match");
    assert_eq!(replace("", "PREFIX", "x"), "");
}

#[test]
fn replace_takes_occurrences_from_the_left_without_overlap() {
    assert_eq!(replace("aaa", "aa", "b"), "ba");
    assert_eq!(replace("aaaa", "aa", "b"), "bb");
    assert_eq!(replace("abab", "ab", "ba"), "baba");
}

#[test]
fn replace_does_not_rescan_what_it_put_in() {
    assert_eq!(replace("a", "a", "aa"), "aa");
    assert_eq!(replace("\"", "\"", "\\\""), "\\\"");
}

#[test]
fn replace_with_empty_pattern_puts_text_around_every_character() {
    assert_eq!(replace("ab", "", "-"), "-a-b-");
    assert_eq!(replace("", "", "x"), "x");
}

#[test]
fn replace_agrees_with_the_standard_library() {
    let cases = vec![
        ("attrs: PREFIX SKIP_TOKEN BLOCKLIST", "SKIP_TOKEN", "\"SKIPPED\""),
        ("[\"a\",\"b\"]", "\"", "\\\""),
        ("xxPREFIXxxPREFIX", "PREFIX", "PREFIXPREFIX"),
        ("ünïcödé ü", "ü", "ue"),
        ("abc", "", ""),
        ("abcabc", "bc", ""),
    ];
    for (s, pat, to) in cases {
        assert_eq!(replace(s, pat, to), s.replace(pat, to));
    }
}

#[test]
fn decimal_writes_numbers_without_leading_zeros() {
    assert_eq!(decimal(0), "0");
    assert_eq!(decimal(7), "7");
    assert_eq!(decimal(10), "10");
    assert_eq!(decimal(404), "404");
    assert_eq!(decimal(65535), "65535");
    assert_eq!(decimal(u64::MAX), "18446744073709551615");
}
