use iotics_cli::text::{contains_str, find_char_from, remove_all, split_once_char, starts_with_str, str_eq};

#[test]
fn remove_all_strips_every_occurrence() {
    assert_eq!(remove_all("https://myhost.iotics.space:10001", "https://"), "myhost.iotics.space:10001");
    assert_eq!(remove_all("a.iotics.spaceb.iotics.space", ".iotics.space"), "ab");
    assert_eq!(remove_all("abc", "xyz"), "abc");
    assert_eq!(remove_all("", ":10001"), "");
}

#[test]
fn remove_all_takes_leftmost_matches() {
    // leftmost, non-overlapping, as str::replace does
    assert_eq!(remove_all("aaa", "aa"), "a");
    assert_eq!(remove_all("abab", "aba"), "b");
}

#[test]
fn split_once_takes_the_first_separator() {
    assert_eq!(
        split_once_char("did:iotics:abc#key#extra", '#'),
        Some(("did:iotics:abc".to_string(), "key#extra".to_string()))
    );
    assert_eq!(split_once_char("#k", '#'), Some((String::new(), "k".to_string())));
    assert_eq!(split_once_char("plain", '#'), None);
}

#[test]
fn search_helpers_match_std_behaviour() {
    assert!(contains_str("myhost.dev.iotics.space", ".dev."));
    assert!(!contains_str("myhost.iotics.space", ".dev."));
    assert!(starts_with_str("application/json; charset", "application/json"));
    assert!(!starts_with_str("text/json", "application/json"));
    assert!(str_eq("same", "same"));
    assert!(!str_eq("same", "sam"));
    assert_eq!(find_char_from("a\nb\n", '\n', 2), 3);
    assert_eq!(find_char_from("ab", '\n', 0), 2);
}
