use pwm::cli::{
    check_typed_password, choose_master_password, cli_add, cli_get, cli_history_lines, cli_list, cli_mv, cli_rm,
    export_dir, generated_length, imported_message, invalid_index_message, join_args, restored_message,
    split_password_args, start, wants_manual, when_vault_missing, CliStart,
};
use pwm::message::{help_text, parse_pwm, PwmCommand};
use pwm::model::PasswordEntry;

fn entry(name: &str, password: &str) -> PasswordEntry {
    PasswordEntry { name: name.to_string(), password: password.to_string() }
}

fn strings(v: &[&str]) -> Vec<String> {
    v.iter().map(|s| s.to_string()).collect()
}

fn sample() -> Vec<PasswordEntry> {
    vec![entry("GitHub", "p1"), entry("gitlab", "p2")]
}

#[test]
fn password_argument_forms() {
    let (cmd, pwd) = split_password_args(&strings(&["--password=abc", "list"]));
    assert_eq!(cmd, strings(&["list"]));
    assert_eq!(pwd, Some("abc".to_string()));
    let (cmd, pwd) = split_password_args(&strings(&["list", "--password", "pw", "-p"]));
    assert_eq!(cmd, strings(&["list", "-p"]));
    assert_eq!(pwd, Some("pw".to_string()));
    let (cmd, pwd) = split_password_args(&strings(&["get", "x", "--password"]));
    assert_eq!(cmd, strings(&["get", "x"]));
    assert_eq!(pwd, None);
    let (cmd, pwd) = split_password_args(&strings(&["--password=a", "--password=b", "ls"]));
    assert_eq!(cmd, strings(&["ls"]));
    assert_eq!(pwd, Some("b".to_string()));
}

#[test]
fn both_password_forms_agree() {
    let a = split_password_args(&strings(&["add", "x", "--password=s3cret"]));
    let b = split_password_args(&strings(&["add", "x", "--password", "s3cret"]));
    assert_eq!(a, b);
}

#[test]
fn arguments_joined_for_the_parser() {
    assert_eq!(join_args(&strings(&["get", "x", "-p"])), "get x -p");
    assert_eq!(join_args(&vec![]), "");
    assert!(matches!(parse_pwm(&join_args(&strings(&["ls", "-p"]))), Some(PwmCommand::List { plaintext: true })));
}

#[test]
fn master_password_preference() {
    let s = |x: &str| Some(x.to_string());
    assert_eq!(choose_master_password(s("cli"), s("session"), s("env")), s("cli"));
    assert_eq!(choose_master_password(s(""), s("session"), s("env")), s("session"));
    assert_eq!(choose_master_password(None, s(""), s("env")), s("env"));
    assert_eq!(choose_master_password(None, None, s("")), None);
}

#[test]
fn start_decisions() {
    match start(&PwmCommand::Version) {
        CliStart::Print(t) => assert_eq!(t, "PWM Password Manager v1.0.0"),
        other => panic!("unexpected {:?}", other),
    }
    match start(&PwmCommand::Help { subcommand: None }) {
        CliStart::Print(t) => assert_eq!(t, help_text()),
        other => panic!("unexpected {:?}", other),
    }
    match start(&PwmCommand::Help { subcommand: Some("add".to_string()) }) {
        CliStart::Print(t) => assert_eq!(t, "`pwm help add` — 暂未实现详细帮助"),
        other => panic!("unexpected {:?}", other),
    }
    match start(&PwmCommand::Hide) {
        CliStart::Fail(t) => assert_eq!(t, "`display` 和 `hide` 命令仅在 GUI 搜索栏中有效"),
        other => panic!("unexpected {:?}", other),
    }
    assert!(matches!(start(&PwmCommand::Login), CliStart::Login));
    assert!(matches!(start(&PwmCommand::Logout), CliStart::Logout));
    assert!(matches!(start(&PwmCommand::List { plaintext: false }), CliStart::NeedsVault));
    assert!(matches!(start(&PwmCommand::History), CliStart::NeedsVault));
}

#[test]
fn list_lines() {
    assert_eq!(cli_list(&[], false), strings(&["（空）"]));
    assert_eq!(cli_list(&sample(), false), strings(&["GitHub : ●●", "gitlab : ●●"]));
    assert_eq!(cli_list(&sample(), true), strings(&["GitHub : p1", "gitlab : p2"]));
}

#[test]
fn get_exact_masked() {
    let o = cli_get(&sample(), "github", false, false, false);
    assert_eq!(o.lines, strings(&["GitHub : ●●"]));
    assert_eq!(o.clipboard, None);
    assert!(!o.save);
}

#[test]
fn get_copy_variants() {
    let o = cli_get(&sample(), "github", false, true, false);
    assert_eq!(o.lines, strings(&["GitHub : ●●", "(已复制到剪贴板)"]));
    assert_eq!(o.clipboard, Some("p1".to_string()));
    let o = cli_get(&sample(), "github", false, true, true);
    assert_eq!(o.lines, strings(&["GitHub : p1"]));
    assert_eq!(o.clipboard, Some("p1".to_string()));
    // fuzzy and copy without plain text: names only, nothing copied
    let o = cli_get(&sample(), "GIT", true, true, false);
    assert_eq!(o.lines, strings(&["已复制: GitHub", "已复制: gitlab"]));
    assert_eq!(o.clipboard, None);
    let o = cli_get(&sample(), "none", true, false, false);
    assert_eq!(o.lines, strings(&["未找到匹配: none"]));
}

#[test]
fn add_refuses_taken_names() {
    let mut es = sample();
    let o = cli_add(&mut es, "GITHUB", "x".to_string());
    assert_eq!(o.lines, strings(&["已存在同名密码: GITHUB"]));
    assert!(!o.save);
    assert_eq!(es.len(), 2);
    let o = cli_add(&mut es, "new", "pw".to_string());
    assert_eq!(o.lines, strings(&["已添加: new"]));
    assert!(o.save);
    assert_eq!(es.len(), 3);
    assert_eq!(es[2].name, "new");
    assert_eq!(es[2].password, "pw");
}

#[test]
fn rm_counts_removed() {
    let mut es = sample();
    let o = cli_rm(&mut es, "zzz");
    assert_eq!(o.lines, strings(&["未找到匹配: zzz"]));
    assert!(!o.save);
    let o = cli_rm(&mut es, "GIT");
    assert_eq!(o.lines, strings(&["已删除 2 个条目"]));
    assert!(o.save);
    assert!(es.is_empty());
}

#[test]
fn mv_renames_first_match() {
    let mut es = sample();
    let o = cli_mv(&mut es, "GITHUB", "hub");
    assert_eq!(o.lines, strings(&["已重命名: GITHUB → hub"]));
    assert!(o.save);
    assert_eq!(es[0].name, "hub");
    assert_eq!(es[0].password, "p1");
    let o = cli_mv(&mut es, "nope", "x");
    assert_eq!(o.lines, strings(&["未找到: nope"]));
    assert!(!o.save);
}

#[test]
fn history_listing() {
    assert_eq!(cli_history_lines(&vec![]), strings(&["暂无历史版本"]));
    assert_eq!(cli_history_lines(&strings(&["vault.1", "vault.2"])), strings(&["0. vault.1", "1. vault.2"]));
}

#[test]
fn messages_with_numbers() {
    assert_eq!(imported_message(3), "已导入 3 个条目");
    assert_eq!(restored_message(2), "已恢复到历史版本 #2");
    assert_eq!(invalid_index_message(17), "无效的序号: 17");
    assert_eq!(export_dir(""), "export_recovery");
    assert_eq!(export_dir("out"), "out");
}

#[test]
fn interactive_answers() {
    assert!(wants_manual(" S \n"));
    assert!(wants_manual("设置"));
    assert!(!wants_manual("a"));
    assert!(!wants_manual(""));
    assert_eq!(generated_length("\n"), 16);
    assert_eq!(generated_length("2\n"), 4);
    assert_eq!(generated_length("100"), 64);
    assert_eq!(generated_length(" 20 "), 20);
    assert_eq!(generated_length("abc"), 16);
    assert_eq!(check_typed_password("a", "a"), None);
    assert_eq!(check_typed_password("a", "b"), Some("两次输入的密码不一致，请重新输入".to_string()));
    assert_eq!(check_typed_password("", ""), Some("密码不能为空".to_string()));
}

#[test]
fn only_add_creates_a_missing_vault() {
    let add = PwmCommand::Add { name: "n".to_string(), password: None };
    assert_eq!(when_vault_missing(&add), Ok(()));
    assert_eq!(
        when_vault_missing(&PwmCommand::List { plaintext: false }),
        Err("保险库不存在，请先通过 GUI 创建或导入".to_string())
    );
}

#[test]
fn password_option_anywhere() {
    let a = split_password_args(&strings(&["get", "--password=pw", "x", "-p"]));
    let b = split_password_args(&strings(&["get", "--password", "pw", "x", "-p"]));
    assert_eq!(a, b);
    assert_eq!(a, (strings(&["get", "x", "-p"]), Some("pw".to_string())));
    assert_eq!(split_password_args(&strings(&["get", "x", "-p"])), (strings(&["get", "x", "-p"]), None));
}

#[test]
fn unknown_command_points_to_help() {
    let m = pwm::cli::unknown_command_message();
    assert_eq!(m, format!("未知命令。输入 `pwm help` 查看帮助\n{}", help_text()));
}
