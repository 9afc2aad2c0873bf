use disk_indexer::glob::{glob_match, glob_match_bytes};

#[test]
fn simple_glob_patterns_work() {
    assert!(glob_match("*.tmp", "nested/file.tmp"));
    assert!(glob_match("a?c", "abc"));
    assert!(!glob_match("a?c", "ac"));
}

#[test]
fn star_matches_any_run_including_separators() {
    assert!(glob_match("*", ""));
    assert!(glob_match("*", "a/b/c"));
    assert!(glob_match("a*b*c", "axxbyyc"));
    assert!(!glob_match("a*b*c", "axxbyy"));
    assert!(glob_match("**", "x"));
    assert!(glob_match("cache/*", "cache/a/b"));
    assert!(!glob_match("cache/*", "other/cache/a"));
}

#[test]
fn question_mark_takes_exactly_one_byte() {
    assert!(glob_match("??", "ab"));
    assert!(!glob_match("??", "a"));
    assert!(!glob_match("??", "abc"));
    assert!(glob_match("", ""));
    assert!(!glob_match("", "a"));
}

#[test]
fn backtracks_to_the_most_recent_star() {
    assert!(glob_match("*ab", "aab"));
    assert!(glob_match("*a*b", "xaxxab"));
    assert!(!glob_match("*a*b", "xaxxa"));
}

#[test]
fn a_pattern_star_facing_a_text_star_is_literal() {
    // The matcher consumes a pattern `*` that meets a text `*` as one byte.
    assert!(!glob_match_bytes(b"*", b"*x"));
    assert!(glob_match_bytes(b"*", b"x*"));
}
