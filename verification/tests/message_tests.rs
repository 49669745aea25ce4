use pwm::message::{help_text, parse_pwm, PwmCommand};

fn parsed(s: &str) -> PwmCommand {
    parse_pwm(s).expect("a command")
}

#[test]
fn parse_list_and_plaintext_flag() {
    assert!(matches!(parsed("list"), PwmCommand::List { plaintext: false }));
    assert!(matches!(parsed("ls -p"), PwmCommand::List { plaintext: true }));
    assert!(matches!(parsed("list --plaintext"), PwmCommand::List { plaintext: true }));
}

#[test]
fn parse_get_flags() {
    match parsed("get github -f -c") {
        PwmCommand::Get { name, fuzzy, copy, plaintext } => {
            assert_eq!(name, "github");
            assert!(fuzzy && copy && !plaintext);
        }
        other => panic!("unexpected {:?}", other),
    }
    match parsed("get github --plaintext") {
        PwmCommand::Get { name, fuzzy, copy, plaintext } => {
            assert_eq!(name, "github");
            assert!(!fuzzy && !copy && plaintext);
        }
        other => panic!("unexpected {:?}", other),
    }
    assert!(parse_pwm("get").is_none());
}

#[test]
fn parse_add_with_and_without_password() {
    match parsed("add gmail mypass123") {
        PwmCommand::Add { name, password } => {
            assert_eq!(name, "gmail");
            assert_eq!(password, Some("mypass123".to_string()));
        }
        other => panic!("unexpected {:?}", other),
    }
    match parsed("add github") {
        PwmCommand::Add { name, password } => {
            assert_eq!(name, "github");
            assert_eq!(password, None);
        }
        other => panic!("unexpected {:?}", other),
    }
    assert!(parse_pwm("add").is_none());
}

#[test]
fn parse_rm_aliases() {
    for line in ["rm x", "remove x", "delete x"] {
        match parsed(line) {
            PwmCommand::Rm { name } => assert_eq!(name, "x"),
            other => panic!("unexpected {:?}", other),
        }
    }
    assert!(parse_pwm("rm").is_none());
}

#[test]
fn parse_mv_needs_two_names() {
    for line in ["mv old new", "rename old new"] {
        match parsed(line) {
            PwmCommand::Mv { old_name, new_name } => {
                assert_eq!(old_name, "old");
                assert_eq!(new_name, "new");
            }
            other => panic!("unexpected {:?}", other),
        }
    }
    assert!(parse_pwm("mv old").is_none());
}

#[test]
fn parse_export_and_import() {
    match parsed("export") {
        PwmCommand::Export { dir } => assert_eq!(dir, ""),
        other => panic!("unexpected {:?}", other),
    }
    match parsed("export /tmp/out") {
        PwmCommand::Export { dir } => assert_eq!(dir, "/tmp/out"),
        other => panic!("unexpected {:?}", other),
    }
    match parsed("import a.vault a.recovery") {
        PwmCommand::Import { vault_path, recovery_path } => {
            assert_eq!(vault_path, "a.vault");
            assert_eq!(recovery_path, "a.recovery");
        }
        other => panic!("unexpected {:?}", other),
    }
    assert!(parse_pwm("import a.vault").is_none());
}

#[test]
fn parse_history_and_restore() {
    assert!(matches!(parsed("history"), PwmCommand::History));
    assert!(matches!(parsed("hist"), PwmCommand::History));
    assert!(matches!(parsed("restore 3"), PwmCommand::Restore { index: 3 }));
    assert!(matches!(parsed("restore +4"), PwmCommand::Restore { index: 4 }));
    assert!(parse_pwm("restore x").is_none());
    assert!(parse_pwm("restore -1").is_none());
    assert!(parse_pwm("restore").is_none());
    assert!(parse_pwm("restore 99999999999999999999999").is_none());
}

#[test]
fn parse_meta_commands() {
    assert!(matches!(parsed("help"), PwmCommand::Help { subcommand: None }));
    match parsed("help add") {
        PwmCommand::Help { subcommand } => assert_eq!(subcommand, Some("add".to_string())),
        other => panic!("unexpected {:?}", other),
    }
    for line in ["version", "--version", "-v"] {
        assert!(matches!(parsed(line), PwmCommand::Version));
    }
    assert!(matches!(parsed("display"), PwmCommand::Display));
    assert!(matches!(parsed("unhide"), PwmCommand::Display));
    assert!(matches!(parsed("hide"), PwmCommand::Hide));
    assert!(matches!(parsed("login"), PwmCommand::Login));
    assert!(matches!(parsed("logout"), PwmCommand::Logout));
}

#[test]
fn parse_search_bar_prefix() {
    assert!(matches!(parsed("  <cmd>  list -p  "), PwmCommand::List { plaintext: true }));
    match parsed("<cmd>get x") {
        PwmCommand::Get { name, .. } => assert_eq!(name, "x"),
        other => panic!("unexpected {:?}", other),
    }
    assert!(parse_pwm("<cmd>").is_none());
    assert!(parse_pwm("<cmd>   ").is_none());
}

#[test]
fn parse_rejects_unknown_and_empty() {
    assert!(parse_pwm("").is_none());
    assert!(parse_pwm("   ").is_none());
    assert!(parse_pwm("frobnicate").is_none());
    assert!(parse_pwm("LIST").is_none());
}

#[test]
fn cmd_prefix_means_the_same_command() {
    for line in ["list -p", "get a -f", "add n p", "rm z", "restore 2", "help", "bogus"] {
        let plain = parse_pwm(line).map(|c| format!("{:?}", c));
        let prefixed = parse_pwm(&format!("<cmd>{}", line)).map(|c| format!("{:?}", c));
        assert_eq!(plain, prefixed);
    }
}

#[test]
fn help_text_lists_the_commands() {
    let h = help_text();
    assert!(h.starts_with("PWM — Password Manager\n"));
    assert!(h.contains("--password <密码>"));
    assert!(h.contains("restore <序号>"));
    assert!(h.ends_with("4. 交互式输入\n"));
}

#[test]
fn padded_search_bar_form_parses_like_the_line() {
    for line in ["list -p", "get a -f", "mv a b", "restore 1", "nothing"] {
        let plain = parse_pwm(line).map(|c| format!("{:?}", c));
        let padded = parse_pwm(&format!("  <cmd> {} ", line)).map(|c| format!("{:?}", c));
        assert_eq!(plain, padded);
    }
}

#[test]
fn same_words_same_command() {
    let pairs = [("get  x\t-p", " get x -p "), ("<cmd>ls", "<cmd> ls"), ("<cmd>add  n p", "  <cmd>add n   p")];
    for (a, b) in pairs {
        assert_eq!(parse_pwm(a).map(|c| format!("{:?}", c)), parse_pwm(b).map(|c| format!("{:?}", c)));
    }
}

#[test]
fn aliases_parse_alike() {
    let groups: [&[&str]; 6] = [
        &["list", "ls"],
        &["rm", "remove", "delete"],
        &["mv", "rename"],
        &["history", "hist"],
        &["display", "unhide"],
        &["version", "--version", "-v"],
    ];
    for rest in ["", " a b -p", "\tx"] {
        for g in groups {
            let first = parse_pwm(&format!("{}{}", g[0], rest)).map(|c| format!("{:?}", c));
            for w in &g[1..] {
                assert_eq!(parse_pwm(&format!("{}{}", w, rest)).map(|c| format!("{:?}", c)), first);
            }
        }
    }
}
