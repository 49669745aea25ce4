use pwm::model::PasswordEntry;
use pwm::search::{fuzzy_match, run_search};

fn entry(name: &str, password: &str) -> PasswordEntry {
    PasswordEntry { name: name.to_string(), password: password.to_string() }
}

#[test]
fn fuzzy_empty_query_matches_with_zero() {
    assert_eq!(fuzzy_match("", "anything"), Some(0));
    assert_eq!(fuzzy_match("", ""), Some(0));
}

#[test]
fn fuzzy_scores_consecutive_and_early_matches() {
    // 15 + 5 (first third), then 20, then 20
    assert_eq!(fuzzy_match("abc", "abc"), Some(60));
    // 15 + 5, then a gap: 10
    assert_eq!(fuzzy_match("ac", "abc"), Some(30));
    // target of six: first third is positions 0 and 1
    assert_eq!(fuzzy_match("ABC", "xaybzc"), Some(40));
    assert_eq!(fuzzy_match("Git", "GITHUB"), Some(65));
}

#[test]
fn fuzzy_requires_the_order() {
    assert_eq!(fuzzy_match("cb", "abc"), None);
    assert_eq!(fuzzy_match("abcd", "abc"), None);
    assert_eq!(fuzzy_match("x", ""), None);
    assert!(fuzzy_match("ace", "abcde").is_some());
    assert!(fuzzy_match("eca", "abcde").is_none());
}

#[test]
fn fuzzy_ignores_case_of_both_sides() {
    assert_eq!(fuzzy_match("ÄB", "äb"), fuzzy_match("äb", "ÄB"));
    assert!(fuzzy_match("ÄB", "xäb").is_some());
}

#[test]
fn run_search_ranks_best_first_ties_in_order() {
    let es = vec![entry("github", "x"), entry("gitlab", "y"), entry("mail", "git")];
    assert_eq!(run_search("git", &es), vec![(0, 65), (1, 65), (2, 59)]);
    let es2 = vec![entry("zzz", "git"), entry("github", "1")];
    assert_eq!(run_search("git", &es2), vec![(1, 65), (0, 59)]);
}

#[test]
fn run_search_name_and_password_bonus() {
    let es = vec![entry("git", "git")];
    // both match with 60: the better one plus two
    assert_eq!(run_search("git", &es), vec![(0, 62)]);
}

#[test]
fn run_search_nothing_for_empty_or_command() {
    let es = vec![entry("github", "x")];
    assert!(run_search("", &es).is_empty());
    assert!(run_search("<cmd>list", &es).is_empty());
    assert!(run_search("qqq", &es).is_empty());
}

#[test]
fn parts_of_a_found_query_are_found() {
    assert!(fuzzy_match("ghub", "GitHub").is_some());
    assert!(fuzzy_match("gh", "GitHub").is_some());
    assert!(fuzzy_match("ub", "GitHub").is_some());
    assert!(fuzzy_match("ghz", "GitHub").is_none());
}
