use pwm::model::{LockedModel, Model, PasswordEntry, UnlockedModel};
use pwm::update::{update, Effect, KeyInput, Message};
use pwm::vault::VaultSettings;

fn entry(name: &str, password: &str) -> PasswordEntry {
    PasswordEntry { name: name.to_string(), password: password.to_string() }
}

fn unlocked(entries: Vec<PasswordEntry>) -> Model {
    Model::Unlocked(UnlockedModel::new(
        entries,
        [1u8; 16],
        [2u8; 32],
        "/tmp/passwords.vault".to_string(),
        "master".to_string(),
        VaultSettings { history_count: 5, verify_hash: true },
    ))
}

fn u(m: &Model) -> &UnlockedModel {
    match m {
        Model::Unlocked(u) => u,
        Model::Locked(_) => panic!("locked"),
    }
}

fn send(m: &mut Model, msg: Message) -> Vec<Effect> {
    update(m, msg)
}

fn type_search(m: &mut Model, q: &str) -> Vec<Effect> {
    send(m, Message::SearchChanged(q.to_string()))
}

#[test]
fn locked_submit_asks_to_open() {
    let mut m = Model::Locked(LockedModel {
        vault_path: "/v".to_string(),
        master_password: String::new(),
        error: None,
        is_new: true,
    });
    assert!(send(&mut m, Message::LockPasswordChanged("pw".to_string())).is_empty());
    let fx = send(&mut m, Message::LockSubmit);
    assert_eq!(fx.len(), 1);
    match &fx[0] {
        Effect::OpenVault { path, password, create } => {
            assert_eq!(path, "/v");
            assert_eq!(password, "pw");
            assert!(*create);
        }
        other => panic!("unexpected {:?}", other),
    }
    send(&mut m, Message::VaultFailed("bad".to_string()));
    match &m {
        Model::Locked(l) => assert_eq!(l.error, Some("bad".to_string())),
        _ => panic!("should stay locked"),
    }
    send(&mut m, Message::LockClearError);
    match &m {
        Model::Locked(l) => assert_eq!(l.error, None),
        _ => panic!("should stay locked"),
    }
}

#[test]
fn opening_unlocks_with_fresh_state() {
    let mut m = Model::Locked(LockedModel {
        vault_path: "/v".to_string(),
        master_password: "pw".to_string(),
        error: None,
        is_new: false,
    });
    let settings = VaultSettings { history_count: 7, verify_hash: false };
    let fx = send(&mut m, Message::VaultOpened(vec![entry("a", "1")], [3u8; 16], [4u8; 32], settings));
    assert!(fx.is_empty());
    let s = u(&m);
    assert_eq!(s.entries.len(), 1);
    assert_eq!(s.vault_path, "/v");
    assert_eq!(s.master_password, "pw");
    assert_eq!(s.settings_history_count, "7");
    assert!(!s.settings_verify);
    assert_eq!(s.random_length, "16");
    assert_eq!(s.vault_salt, [3u8; 16]);
}

#[test]
fn toggles_twice_restore() {
    let mut m = unlocked(vec![]);
    for msg in [Message::TogglePlaintext, Message::ToggleEditMode, Message::ToggleCopy] {
        let before = format!("{:?}", u(&m));
        let m1 = match &msg { Message::TogglePlaintext => Message::TogglePlaintext, Message::ToggleEditMode => Message::ToggleEditMode, _ => Message::ToggleCopy };
        assert!(send(&mut m, msg).is_empty());
        assert_ne!(format!("{:?}", u(&m)), before);
        assert!(send(&mut m, m1).is_empty());
        assert_eq!(format!("{:?}", u(&m)), before);
    }
}

#[test]
fn search_ranks_and_scrolls() {
    let mut m = unlocked(vec![entry("mail", "x"), entry("github", "y")]);
    let fx = type_search(&mut m, "git");
    assert_eq!(u(&m).search_results, vec![(1, 65)]);
    assert_eq!(u(&m).best_match, Some(1));
    assert_eq!(fx.len(), 2);
    assert!(matches!(fx[0], Effect::ScrollToRow(1)));
    assert!(matches!(fx[1], Effect::Persist));
    let fx = type_search(&mut m, "<cmd>li");
    assert!(fx.is_empty());
    assert!(u(&m).search_results.is_empty());
    assert_eq!(u(&m).best_match, None);
    assert_eq!(u(&m).search_query, "<cmd>li");
}

#[test]
fn toggle_search_focuses_and_clears() {
    let mut m = unlocked(vec![entry("a", "1")]);
    let fx = send(&mut m, Message::ToggleSearch);
    assert!(u(&m).show_search);
    assert!(matches!(fx[..], [Effect::FocusSearch, Effect::ScrollToTop]));
    type_search(&mut m, "a");
    assert!(send(&mut m, Message::ToggleSearch).is_empty());
    assert!(!u(&m).show_search);
    assert_eq!(u(&m).search_query, "");
    assert!(u(&m).search_results.is_empty());
}

#[test]
fn command_list_from_search_bar() {
    let mut m = unlocked(vec![entry("a", "xy"), entry("b", "z")]);
    send(&mut m, Message::ToggleSearch);
    type_search(&mut m, "<cmd>list");
    assert!(send(&mut m, Message::SearchSubmitted).is_empty());
    assert!(u(&m).cmd_result_visible);
    assert_eq!(u(&m).cmd_result_text, "a : ●●\nb : ●");
    assert!(!u(&m).show_search);
    assert_eq!(u(&m).search_query, "");
    let mut empty = unlocked(vec![]);
    type_search(&mut empty, "<cmd>ls -p");
    send(&mut empty, Message::SearchSubmitted);
    assert_eq!(u(&empty).cmd_result_text, "（空）");
}

#[test]
fn command_get_shows_plain_matches() {
    let mut m = unlocked(vec![entry("GitHub", "p1"), entry("mail", "p2")]);
    type_search(&mut m, "<cmd>get git");
    send(&mut m, Message::SearchSubmitted);
    assert_eq!(u(&m).cmd_result_text, "GitHub : p1");
    type_search(&mut m, "<cmd>get zz");
    send(&mut m, Message::SearchSubmitted);
    assert_eq!(u(&m).cmd_result_text, "未找到: zz");
}

#[test]
fn command_rm_saves_and_copies_report() {
    let mut m = unlocked(vec![entry("GitHub", "p1"), entry("gitlab", "p2"), entry("mail", "p3")]);
    send(&mut m, Message::ToggleSearch);
    type_search(&mut m, "<cmd>rm GIT");
    let fx = send(&mut m, Message::SearchSubmitted);
    assert_eq!(u(&m).entries.len(), 1);
    assert_eq!(u(&m).cmd_result_text, "已删除 2 条");
    assert_eq!(fx.len(), 2);
    assert!(matches!(fx[0], Effect::Persist));
    match &fx[1] {
        Effect::WriteClipboard(t) => assert_eq!(t, "已删除 2 条"),
        other => panic!("unexpected {:?}", other),
    }
    // the search bar stays as it was when something was removed
    assert!(u(&m).show_search);
    type_search(&mut m, "<cmd>rm none");
    assert!(send(&mut m, Message::SearchSubmitted).is_empty());
    assert_eq!(u(&m).cmd_result_text, "已删除 0 条");
    assert!(!u(&m).show_search);
}

#[test]
fn command_add_opens_dialog_or_refuses() {
    let mut m = unlocked(vec![entry("GitHub", "p1")]);
    type_search(&mut m, "<cmd>add new secret");
    send(&mut m, Message::SearchSubmitted);
    assert!(u(&m).show_add_dialog);
    assert_eq!(u(&m).new_name, "new");
    assert_eq!(u(&m).new_password, "secret");
    let mut m = unlocked(vec![entry("GitHub", "p1")]);
    type_search(&mut m, "<cmd>add github");
    send(&mut m, Message::SearchSubmitted);
    assert!(!u(&m).show_add_dialog);
    assert_eq!(u(&m).cmd_result_text, "已存在同名密码: github");
}

#[test]
fn command_mv_checks_target() {
    let mut m = unlocked(vec![entry("a", "1"), entry("b", "2")]);
    type_search(&mut m, "<cmd>mv A B");
    assert!(send(&mut m, Message::SearchSubmitted).is_empty());
    assert_eq!(u(&m).cmd_result_text, "目标名称已存在: B");
    type_search(&mut m, "<cmd>mv A c");
    let fx = send(&mut m, Message::SearchSubmitted);
    assert!(matches!(fx[..], [Effect::Persist]));
    assert_eq!(u(&m).entries[0].name, "c");
    assert_eq!(u(&m).cmd_result_text, "已重命名: A → c");
    type_search(&mut m, "<cmd>mv zz y");
    send(&mut m, Message::SearchSubmitted);
    assert_eq!(u(&m).cmd_result_text, "未找到: zz");
}

#[test]
fn command_misc_results() {
    let mut m = unlocked(vec![]);
    type_search(&mut m, "<cmd>version");
    send(&mut m, Message::SearchSubmitted);
    assert_eq!(u(&m).cmd_result_text, "PWM v1.0.0");
    type_search(&mut m, "<cmd>export");
    send(&mut m, Message::SearchSubmitted);
    assert_eq!(u(&m).cmd_result_text, "该命令仅在 CLI 中可用");
    type_search(&mut m, "<cmd>display");
    send(&mut m, Message::SearchSubmitted);
    assert!(u(&m).show_plaintext);
    type_search(&mut m, "<cmd>hide");
    send(&mut m, Message::SearchSubmitted);
    assert!(!u(&m).show_plaintext);
    type_search(&mut m, "plain words");
    assert!(send(&mut m, Message::SearchSubmitted).is_empty());
    assert_eq!(u(&m).search_query, "");
}

#[test]
fn add_dialog_flow() {
    let mut m = unlocked(vec![entry("GitHub", "p1")]);
    send(&mut m, Message::NewNameChanged("  new  ".to_string()));
    send(&mut m, Message::NewPasswordChanged("pé1".to_string()));
    send(&mut m, Message::ConfirmPasswordChanged("p1".to_string()));
    assert_eq!(u(&m).new_password, "p1");
    let fx = send(&mut m, Message::SubmitNewPassword);
    assert!(matches!(fx[..], [Effect::Persist]));
    assert_eq!(u(&m).entries.len(), 2);
    assert_eq!(u(&m).entries[1].name, "new");
    assert_eq!(u(&m).entries[1].password, "p1");
    assert_eq!(u(&m).confirm_password, "");
    assert!(!u(&m).show_add_dialog);
}

#[test]
fn add_dialog_refuses_duplicate_name() {
    let mut m = unlocked(vec![entry("GitHub", "p1")]);
    send(&mut m, Message::NewNameChanged("GITHUB".to_string()));
    send(&mut m, Message::NewPasswordChanged("x".to_string()));
    send(&mut m, Message::ConfirmPasswordChanged("x".to_string()));
    assert!(send(&mut m, Message::SubmitNewPassword).is_empty());
    assert_eq!(u(&m).entries.len(), 1);
    assert_eq!(u(&m).new_name_error, Some("已存在同名密码".to_string()));
    send(&mut m, Message::NewNameChanged("other".to_string()));
    assert_eq!(u(&m).new_name_error, None);
}

#[test]
fn add_dialog_mismatch_closes_without_adding() {
    let mut m = unlocked(vec![]);
    send(&mut m, Message::NewNameChanged("n".to_string()));
    send(&mut m, Message::NewPasswordChanged("a".to_string()));
    send(&mut m, Message::ConfirmPasswordChanged("b".to_string()));
    assert!(send(&mut m, Message::SubmitNewPassword).is_empty());
    assert!(u(&m).entries.is_empty());
    assert!(!u(&m).show_add_dialog);
}

#[test]
fn add_refreshes_search_results() {
    let mut m = unlocked(vec![entry("mail", "x")]);
    type_search(&mut m, "git");
    assert!(u(&m).search_results.is_empty());
    send(&mut m, Message::NewNameChanged("github".to_string()));
    send(&mut m, Message::NewPasswordChanged("y".to_string()));
    send(&mut m, Message::ConfirmPasswordChanged("y".to_string()));
    send(&mut m, Message::SubmitNewPassword);
    assert_eq!(u(&m).search_results, vec![(1, 65)]);
    assert_eq!(u(&m).best_match, Some(1));
}

#[test]
fn generated_password_fills_both_fields() {
    let mut m = unlocked(vec![]);
    send(&mut m, Message::RandomLengthChanged("1x2".to_string()));
    assert_eq!(u(&m).random_length, "12");
    assert!(send(&mut m, Message::GeneratePassword).is_empty());
    assert_eq!(u(&m).new_password.chars().count(), 12);
    assert_eq!(u(&m).new_password, u(&m).confirm_password);
    send(&mut m, Message::RandomLengthChanged("".to_string()));
    send(&mut m, Message::GeneratePassword);
    assert_eq!(u(&m).new_password.chars().count(), 16);
}

#[test]
fn edit_delete_and_copy() {
    let mut m = unlocked(vec![entry("a", "1"), entry("b", "2")]);
    let fx = send(&mut m, Message::EditEntryPassword(0, "néw".to_string()));
    assert!(matches!(fx[..], [Effect::Persist]));
    assert_eq!(u(&m).entries[0].password, "nw");
    let fx = send(&mut m, Message::CopyPassword(1));
    assert_eq!(fx.len(), 2);
    assert!(matches!(fx[0], Effect::ClearClipboardLater));
    match &fx[1] {
        Effect::WriteClipboard(t) => assert_eq!(t, "2"),
        other => panic!("unexpected {:?}", other),
    }
    assert!(send(&mut m, Message::CopyPassword(5)).is_empty());
    let fx = send(&mut m, Message::DeleteEntry(0));
    assert!(matches!(fx[..], [Effect::Persist]));
    assert_eq!(u(&m).entries.len(), 1);
    assert_eq!(u(&m).entries[0].name, "b");
    let fx = send(&mut m, Message::DeleteEntry(9));
    assert!(matches!(fx[..], [Effect::Persist]));
    assert_eq!(u(&m).entries.len(), 1);
}

#[test]
fn settings_round_trip_and_clamp() {
    let mut m = unlocked(vec![]);
    send(&mut m, Message::ToggleSettings);
    assert!(u(&m).settings_visible);
    assert_eq!(u(&m).settings_history_count, "5");
    let fx = send(&mut m, Message::SettingsSave);
    assert!(matches!(fx[..], [Effect::Persist]));
    assert_eq!(u(&m).settings, VaultSettings { history_count: 5, verify_hash: true });
    assert!(!u(&m).settings_visible);
    send(&mut m, Message::ToggleSettings);
    send(&mut m, Message::SettingsHistoryCountChanged("9x9".to_string()));
    assert_eq!(u(&m).settings_history_count, "99");
    send(&mut m, Message::SettingsVerifyToggled(false));
    send(&mut m, Message::SettingsSave);
    assert_eq!(u(&m).settings, VaultSettings { history_count: 10, verify_hash: false });
    send(&mut m, Message::ToggleSettings);
    send(&mut m, Message::SettingsHistoryCountChanged("".to_string()));
    send(&mut m, Message::SettingsSave);
    assert_eq!(u(&m).settings.history_count, 5);
}

#[test]
fn history_listing_and_restore() {
    let mut m = unlocked(vec![entry("a", "1")]);
    let fx = send(&mut m, Message::ToggleHistory);
    assert!(matches!(fx[..], [Effect::ListHistory]));
    send(&mut m, Message::HistoryListed(vec!["vault.2".to_string(), "vault.1".to_string()]));
    assert_eq!(u(&m).history_files, vec!["vault.1".to_string(), "vault.2".to_string()]);
    let fx = send(&mut m, Message::RestoreHistory(1));
    assert!(matches!(fx[..], [Effect::RestoreHistory(1)]));
    let fx = send(&mut m, Message::HistoryRestored(Ok(vec![entry("old", "o")])));
    assert!(matches!(fx[..], [Effect::Persist]));
    assert_eq!(u(&m).entries[0].name, "old");
    send(&mut m, Message::HistoryRestored(Err("boom".to_string())));
    assert_eq!(u(&m).import_status, Some("恢复失败: boom".to_string()));
    assert!(send(&mut m, Message::ToggleHistory).is_empty());
}

#[test]
fn export_and_import() {
    let mut m = unlocked(vec![entry("a", "1")]);
    send(&mut m, Message::ShowExportDialog);
    assert!(u(&m).show_export_dialog);
    let fx = send(&mut m, Message::ExportSubmit);
    assert!(matches!(fx[..], [Effect::Export]));
    send(&mut m, Message::ExportFinished(Ok("/x/export_recovery".to_string())));
    assert_eq!(u(&m).export_status, Some("已导出到: /x/export_recovery".to_string()));
    send(&mut m, Message::ExportFinished(Err("disk".to_string())));
    assert_eq!(u(&m).export_status, Some("导出失败: disk".to_string()));
    send(&mut m, Message::ShowImportDialog);
    send(&mut m, Message::ImportVaultPathChanged("v".to_string()));
    send(&mut m, Message::ImportRecoveryPathChanged("r".to_string()));
    let fx = send(&mut m, Message::ImportSubmit);
    match &fx[..] {
        [Effect::Import { vault_path, recovery_path }] => {
            assert_eq!(vault_path, "v");
            assert_eq!(recovery_path, "r");
        }
        other => panic!("unexpected {:?}", other),
    }
    send(&mut m, Message::ImportFinished(Err("bad".to_string())));
    assert_eq!(u(&m).import_status, Some("导入失败: bad".to_string()));
    let settings = VaultSettings { history_count: 2, verify_hash: false };
    let fx = send(&mut m, Message::ImportFinished(Ok((vec![entry("z", "9")], [8u8; 16], [9u8; 32], settings))));
    assert!(matches!(fx[..], [Effect::Persist]));
    assert_eq!(u(&m).entries[0].name, "z");
    assert_eq!(u(&m).enc_key, [9u8; 32]);
    assert_eq!(u(&m).vault_salt, [8u8; 16]);
    assert_eq!(u(&m).settings, settings);
    assert!(!u(&m).show_import_dialog);
}

#[test]
fn key_change_only_on_import() {
    let mut m = unlocked(vec![entry("a", "1")]);
    for msg in [
        Message::ToggleMenu,
        Message::SettingsSave,
        Message::DeleteEntry(0),
        Message::HistoryRestored(Ok(vec![])),
        Message::SearchChanged("<cmd>rm a".to_string()),
        Message::SearchSubmitted,
    ] {
        send(&mut m, msg);
        assert_eq!(u(&m).enc_key, [2u8; 32]);
        assert_eq!(u(&m).vault_salt, [1u8; 16]);
        assert_eq!(u(&m).master_password, "master");
    }
}

#[test]
fn escape_closes_one_thing_at_a_time() {
    let mut m = unlocked(vec![]);
    send(&mut m, Message::ToggleSearch);
    send(&mut m, Message::ShowExportDialog);
    type_search(&mut m, "<cmd>version");
    send(&mut m, Message::KeyPressed(KeyInput::Character("n".to_string()), true));
    assert!(u(&m).show_add_dialog);
    send(&mut m, Message::KeyPressed(KeyInput::Escape, false));
    assert!(!u(&m).show_add_dialog);
    assert!(u(&m).show_export_dialog);
    send(&mut m, Message::KeyPressed(KeyInput::Escape, false));
    assert!(!u(&m).show_export_dialog);
    assert!(u(&m).show_search);
    send(&mut m, Message::KeyPressed(KeyInput::Escape, false));
    assert!(!u(&m).show_search);
    assert_eq!(u(&m).search_query, "");
}

#[test]
fn shortcuts_need_ctrl_and_no_dialog() {
    let mut m = unlocked(vec![]);
    let fx = send(&mut m, Message::KeyPressed(KeyInput::Character("/".to_string()), true));
    assert!(matches!(fx[..], [Effect::FocusSearch, Effect::ScrollToTop]));
    assert!(u(&m).show_search);
    send(&mut m, Message::KeyPressed(KeyInput::Character("d".to_string()), false));
    assert!(!u(&m).show_plaintext);
    send(&mut m, Message::KeyPressed(KeyInput::Character("d".to_string()), true));
    assert!(u(&m).show_plaintext);
    send(&mut m, Message::KeyPressed(KeyInput::Character("i".to_string()), true));
    assert!(u(&m).edit_mode);
    send(&mut m, Message::KeyPressed(KeyInput::Character("c".to_string()), true));
    assert!(u(&m).show_copy);
    send(&mut m, Message::KeyPressed(KeyInput::Character("n".to_string()), true));
    assert!(u(&m).show_add_dialog);
    send(&mut m, Message::KeyPressed(KeyInput::Character("i".to_string()), true));
    assert!(u(&m).edit_mode);
    assert!(send(&mut m, Message::KeyPressed(KeyInput::Other, true)).is_empty());
}

#[test]
fn menu_closes_panels() {
    let mut m = unlocked(vec![]);
    send(&mut m, Message::ToggleMenu);
    assert!(u(&m).menu_open);
    send(&mut m, Message::ToggleSettings);
    assert!(u(&m).settings_visible);
    send(&mut m, Message::ToggleMenu);
    assert!(!u(&m).menu_open);
    assert!(!u(&m).settings_visible);
    assert!(!u(&m).show_history);
}

#[test]
fn names_stay_distinct_through_messages() {
    let mut m = unlocked(vec![entry("a", "1"), entry("B", "2")]);
    for (name, pw) in [("A", "x"), (" b ", "y"), ("c", "z")] {
        send(&mut m, Message::NewNameChanged(name.to_string()));
        send(&mut m, Message::NewPasswordChanged(pw.to_string()));
        send(&mut m, Message::ConfirmPasswordChanged(pw.to_string()));
        send(&mut m, Message::SubmitNewPassword);
    }
    type_search(&mut m, "<cmd>mv c a");
    send(&mut m, Message::SearchSubmitted);
    type_search(&mut m, "<cmd>rename c D");
    send(&mut m, Message::SearchSubmitted);
    let names: Vec<String> = u(&m).entries.iter().map(|e| e.name.to_lowercase()).collect();
    assert_eq!(names, vec!["a".to_string(), "b".to_string(), "d".to_string()]);
}
