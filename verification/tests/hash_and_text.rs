use clip_history::hash::{hash_bytes, hash_string};
use clip_history::text::{basename, contains_ci, split_tokens, str_eq, trim_str, truncate_with_ellipsis};

#[test]
fn hash_empty_input_known_digest() {
    assert_eq!(
        hash_bytes(&[]),
        "e3b0c44298fc1c149afbf4c8996fb92427ae41e4649b934ca495991b7852b855"
    );
}

#[test]
fn hash_known_digest_abc() {
    assert_eq!(
        hash_bytes(b"abc"),
        "ba7816bf8f01cfea414140de5dae2223b00361a396177a9cb410ff61f20015ad"
    );
}

#[test]
fn hash_deterministic_across_calls() {
    let payload = b"the same bytes every time";
    let first = hash_bytes(payload);
    let second = hash_bytes(payload);
    let third = hash_bytes(&payload.to_vec());
    assert_eq!(first, second);
    assert_eq!(first, third);
    assert_eq!(first.len(), 64);
}

#[test]
fn hash_string_matches_byte_hash() {
    assert_eq!(hash_string("hello world"), hash_bytes(b"hello world"));
    assert_eq!(
        hash_string("hello world"),
        "b94d27b9934d3e08a52e52d7da7dabfac484efe37a5380ee9088f7ace2efcde9"
    );
}

#[test]
fn hash_differs_for_different_input() {
    assert_ne!(hash_string("a"), hash_string("b"));
}

#[test]
fn trim_removes_surrounding_whitespace() {
    assert_eq!(trim_str("  spaced out\t\n"), "spaced out");
    assert_eq!(trim_str("untouched"), "untouched");
    assert_eq!(trim_str(" \t\r\n "), "");
    assert_eq!(trim_str("\u{a0}nbsp padded\u{3000}"), "nbsp padded");
}

#[test]
fn split_tokens_maximal_runs() {
    let toks = split_tokens("  alpha\tbeta  gamma ");
    let toks: Vec<&str> = toks.iter().map(|t| t.as_str()).collect();
    assert_eq!(toks, vec!["alpha", "beta", "gamma"]);
    assert!(split_tokens("   ").is_empty());
    assert!(split_tokens("").is_empty());
}

#[test]
fn contains_ci_is_ascii_case_insensitive() {
    assert!(contains_ci("Hello World", "hello"));
    assert!(contains_ci("hello world", "O WOR"));
    assert!(!contains_ci("hello world", "goodbye"));
    assert!(contains_ci("anything", ""));
}

#[test]
fn truncate_with_ellipsis_cuts_and_marks() {
    assert_eq!(truncate_with_ellipsis("short", 10), "short");
    assert_eq!(truncate_with_ellipsis("exactly-ten", 11), "exactly-ten");
    assert_eq!(truncate_with_ellipsis("abcdefghij", 4), "abcd...");
}

#[test]
fn basename_takes_last_component() {
    assert_eq!(basename("C:\\Users\\someone\\notes.txt"), "notes.txt");
    assert_eq!(basename("/tmp/archive.tar.gz"), "archive.tar.gz");
    assert_eq!(basename("plain-name"), "plain-name");
    assert_eq!(basename("dir/sub/"), "sub");
    assert_eq!(basename(".."), "..");
}

#[test]
fn str_eq_compares_characters() {
    assert!(str_eq("same", "same"));
    assert!(!str_eq("same", "Same"));
    assert!(!str_eq("same", "samey"));
}
