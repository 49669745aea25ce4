use pwm::entries::{
    format_entries, format_entry, has_duplicate_name, matching_entries, position_named, remove_containing,
};
use pwm::history::{backups_to_delete, is_backup_name, sort_names};
use pwm::model::PasswordEntry;
use pwm::password::{filter_chars, generate_strong_password, mask, DIGITS, LOWER, SPECIAL, UPPER};

fn entry(name: &str, password: &str) -> PasswordEntry {
    PasswordEntry { name: name.to_string(), password: password.to_string() }
}

fn sample() -> Vec<PasswordEntry> {
    vec![entry("GitHub", "p1"), entry("gitlab", "p2"), entry("mail", "p3")]
}

fn names(es: &[PasswordEntry]) -> Vec<String> {
    es.iter().map(|e| e.name.clone()).collect()
}

fn strings(v: &[&str]) -> Vec<String> {
    v.iter().map(|s| s.to_string()).collect()
}

#[test]
fn duplicates_ignore_case_and_surrounding_space() {
    let es = sample();
    assert!(has_duplicate_name(&es, " GITHUB ", None));
    assert!(!has_duplicate_name(&es, "GITHUB", Some(0)));
    assert!(has_duplicate_name(&es, "Mail", Some(0)));
    assert!(!has_duplicate_name(&es, "git", None));
}

#[test]
fn matching_exact_or_contained() {
    let es = sample();
    assert_eq!(names(&matching_entries(&es, "GIT", false)), strings(&["GitHub", "gitlab"]));
    assert_eq!(names(&matching_entries(&es, "github", true)), strings(&["GitHub"]));
    assert!(matching_entries(&es, "git", true).is_empty());
}

#[test]
fn remove_every_containing_name() {
    let mut es = sample();
    assert_eq!(remove_containing(&mut es, "GIT"), 2);
    assert_eq!(names(&es), strings(&["mail"]));
    assert_eq!(remove_containing(&mut es, "zzz"), 0);
    assert_eq!(names(&es), strings(&["mail"]));
}

#[test]
fn position_of_first_named() {
    let es = vec![entry("a", "1"), entry("B", "2"), entry("b", "3")];
    assert_eq!(position_named(&es, "b"), Some(1));
    assert_eq!(position_named(&es, "c"), None);
}

#[test]
fn entry_lines() {
    let e = entry("GitHub", "p1");
    assert_eq!(format_entry(&e, true), "GitHub : p1");
    assert_eq!(format_entry(&e, false), "GitHub : ●●");
    assert_eq!(format_entries(&sample()[..2], false), "GitHub : ●●\ngitlab : ●●");
    assert_eq!(format_entries(&[], true), "");
}

#[test]
fn masks_and_filters() {
    assert_eq!(mask("abc"), "●●●");
    assert_eq!(mask(""), "");
    assert_eq!(mask("密码"), "●●");
    assert_eq!(filter_chars("a1é2 ", true), "a12 ");
    assert_eq!(filter_chars("a1é2 ", false), "12");
}

#[test]
fn strong_passwords() {
    for (asked, len) in [(16usize, 16usize), (0, 4), (3, 4), (4, 4), (64, 64)] {
        let p = generate_strong_password(asked);
        let cs: Vec<char> = p.chars().collect();
        assert_eq!(cs.len(), len);
        assert!(cs.iter().any(|c| LOWER.contains(*c)));
        assert!(cs.iter().any(|c| UPPER.contains(*c)));
        assert!(cs.iter().any(|c| DIGITS.contains(*c)));
        assert!(cs.iter().any(|c| SPECIAL.contains(*c)));
        let all = format!("{}{}{}{}", LOWER, UPPER, DIGITS, SPECIAL);
        assert!(cs.iter().all(|c| all.contains(*c)));
    }
}

#[test]
fn history_names_sorted() {
    assert_eq!(sort_names(&strings(&["vault.3", "vault.10", "vault.1"])), strings(&["vault.1", "vault.10", "vault.3"]));
    assert_eq!(sort_names(&vec![]), Vec::<String>::new());
}

#[test]
fn backups_by_extension() {
    assert!(is_backup_name("vault.1700000000"));
    assert!(is_backup_name("a."));
    assert!(!is_backup_name("vault.tmp"));
    assert!(!is_backup_name("vault"));
    assert!(!is_backup_name(".hidden"));
}

#[test]
fn oldest_backups_go_first() {
    let files = strings(&["vault.3", "vault.1", "x.tmp", "vault.2", "notes"]);
    assert_eq!(backups_to_delete(&files, 1), strings(&["vault.1", "vault.2"]));
    assert_eq!(backups_to_delete(&files, 3), Vec::<String>::new());
    assert_eq!(backups_to_delete(&files, 0), strings(&["vault.1", "vault.2", "vault.3"]));
}
