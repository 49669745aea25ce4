//! The state machine behind the user interface: each message changes the
//! model and asks for effects (saving, clipboard, scrolling, file work),
//! which the caller performs; the outcome of file work comes back as a
//! message.

use vstd::prelude::*;
use crate::entries::{
    entry_line, entry_lines, first_named, format_entries, has_duplicate, has_duplicate_name,
    join_lines, matching, matching_entries, not_containing, position_named, remove_containing,
};
use crate::history::{sort_names, sorted_names, strs};
use crate::message::{parse_pwm, parse_spec, CommandView, PwmCommand, HELP_TEXT};
use crate::model::{
    entry_views, fresh_unlocked, EntryView, LockedModel, LockedView, Model, ModelView, PasswordEntry,
    UnlockedModel, UnlockedView,
};
use crate::password::{filter_chars, generate_strong_password, keep_chars, strong_password};
use crate::search::{is_ranking, run_search};
use crate::text::{
    chars_of, decimal, has_prefix, parse_usize, parse_usize_spec, starts_with, trim, trim_chars,
    string_from_chars, usize_to_string,
};
use crate::vault::{VaultSettings, SALT_LEN, KEY_LEN};
use zeroize::Zeroize;

verus! {

/// A key press, as far as the application tells keys apart.
#[derive(Debug, Clone)]
pub enum KeyInput {
    Escape,
    Character(String),
    Other,
}

/// Everything that can happen to the application.
#[derive(Debug)]
pub enum Message {
    // locked screen
    LockPasswordChanged(String),
    LockSubmit,
    LockClearError,
    /// The vault was opened (or created): entries, salt, key, settings.
    VaultOpened(Vec<PasswordEntry>, [u8; SALT_LEN], [u8; KEY_LEN], VaultSettings),
    /// Opening or creating the vault failed, with this message.
    VaultFailed(String),
    // unlocked
    ToggleMenu,
    ToggleSearch,
    TogglePlaintext,
    ToggleEditMode,
    ToggleCopy,
    SearchChanged(String),
    SearchSubmitted,
    HideAddDialog,
    NewNameChanged(String),
    NewPasswordChanged(String),
    ConfirmPasswordChanged(String),
    SubmitNewPassword,
    RandomLengthChanged(String),
    GeneratePassword,
    DeleteEntry(usize),
    EditEntryPassword(usize, String),
    CopyPassword(usize),
    // settings
    ToggleSettings,
    SettingsHistoryCountChanged(String),
    SettingsVerifyToggled(bool),
    SettingsSave,
    // export
    ShowExportDialog,
    HideExportDialog,
    ExportSubmit,
    /// The export finished: the directory written, or an error message.
    ExportFinished(Result<String, String>),
    // import
    ShowImportDialog,
    HideImportDialog,
    ImportVaultPathChanged(String),
    ImportRecoveryPathChanged(String),
    ImportSubmit,
    /// The import finished: entries, salt, key and settings, or an error.
    ImportFinished(Result<(Vec<PasswordEntry>, [u8; SALT_LEN], [u8; KEY_LEN], VaultSettings), String>),
    // timers
    CheckClipboardTimer,
    CheckInactivity,
    // command results
    HideCmdResult,
    // history
    ToggleHistory,
    /// The names found in the history directory.
    HistoryListed(Vec<String>),
    RestoreHistory(usize),
    /// A history version was read (its entries), or reading it failed.
    HistoryRestored(Result<Vec<PasswordEntry>, String>),
    // a command from elsewhere
    PwmCommand(PwmCommand),
    /// A key press, with whether the command modifier (Ctrl) was held.
    KeyPressed(KeyInput, bool),
}

/// Work that the caller performs after a message.
#[derive(Debug)]
pub enum Effect {
    /// Open the vault at `path` with `password`, or create it when `create`;
    /// answer with `VaultOpened` or `VaultFailed`.
    OpenVault { path: String, password: String, create: bool },
    /// Save the current entries and settings to the vault.
    Persist,
    /// Put the focus on the search field.
    FocusSearch,
    /// Scroll the entry list to the top.
    ScrollToTop,
    /// Scroll the entry list to a row.
    ScrollToRow(usize),
    /// Put text on the clipboard.
    WriteClipboard(String),
    /// Clear the clipboard a minute from now.
    ClearClipboardLater,
    /// List the history directory; answer with `HistoryListed`.
    ListHistory,
    /// Read the history version at this position; answer with
    /// `HistoryRestored` (no answer when there is no such version).
    RestoreHistory(usize),
    /// Write a recovery bundle; answer with `ExportFinished`.
    Export,
    /// Import from a recovery bundle; answer with `ImportFinished`.
    Import { vault_path: String, recovery_path: String },
}

/// The content of an effect.
pub enum EffectView {
    OpenVault { path: Seq<char>, password: Seq<char>, create: bool },
    Persist,
    FocusSearch,
    ScrollToTop,
    ScrollToRow(usize),
    WriteClipboard(Seq<char>),
    ClearClipboardLater,
    ListHistory,
    RestoreHistory(usize),
    Export,
    Import { vault_path: Seq<char>, recovery_path: Seq<char> },
}

impl View for Effect {
    type V = EffectView;

    open spec fn view(&self) -> EffectView {
        match self {
            Effect::OpenVault { path, password, create } =>
                EffectView::OpenVault { path: path@, password: password@, create: *create },
            Effect::Persist => EffectView::Persist,
            Effect::FocusSearch => EffectView::FocusSearch,
            Effect::ScrollToTop => EffectView::ScrollToTop,
            Effect::ScrollToRow(i) => EffectView::ScrollToRow(*i),
            Effect::WriteClipboard(s) => EffectView::WriteClipboard(s@),
            Effect::ClearClipboardLater => EffectView::ClearClipboardLater,
            Effect::ListHistory => EffectView::ListHistory,
            Effect::RestoreHistory(i) => EffectView::RestoreHistory(*i),
            Effect::Export => EffectView::Export,
            Effect::Import { vault_path, recovery_path } =>
                EffectView::Import { vault_path: vault_path@, recovery_path: recovery_path@ },
        }
    }
}

/// The views of a list of effects.
pub open spec fn effects_view(fx: Seq<Effect>) -> Seq<EffectView> {
    fx.map_values(|e: Effect| e@)
}

// ───────────────────────── the transition, stated ─────────────────────────

/// The entry that a ranking puts first.
pub open spec fn best_of(r: Seq<(usize, u32)>) -> Option<usize> {
    if r.len() > 0 { Some(r[0].0) } else { None }
}

/// The search bar closed and emptied.
pub open spec fn closed_search(u: UnlockedView) -> UnlockedView {
    UnlockedView { show_search: false, search_query: seq![], search_results: seq![], best_match: None, ..u }
}

/// After the entries changed: with a query typed, the results are those of
/// the query over the new entries; without one they stay.
pub open spec fn refreshed(u: UnlockedView, u2: UnlockedView) -> bool {
    if u.search_query.len() > 0 {
        is_ranking(u.search_query, u2.entries, u2.search_results) && u2.best_match == best_of(u2.search_results)
    } else {
        u2.search_results == u.search_results && u2.best_match == u.best_match
    }
}

/// The text of the `list` command.
pub open spec fn list_text(es: Seq<EntryView>, plaintext: bool) -> Seq<char> {
    if es.len() == 0 { "（空）"@ } else { join_lines(entry_lines(es, plaintext)) }
}

/// The text of the `get` command (always in plain text).
pub open spec fn get_text(es: Seq<EntryView>, name: Seq<char>) -> Seq<char> {
    let m = matching(es, name, false);
    if m.len() == 0 { "未找到: "@ + name } else { join_lines(entry_lines(m, true)) }
}

/// A command result shown, the search bar closed.
pub open spec fn shown(u: UnlockedView, text: Seq<char>) -> UnlockedView {
    closed_search(UnlockedView { cmd_result_text: text, cmd_result_visible: true, ..u })
}

/// What a `<cmd>` line typed in the search bar does.
pub open spec fn run_command(u: UnlockedView, cmd: CommandView, u2: UnlockedView, fx: Seq<EffectView>) -> bool {
    match cmd {
        CommandView::Display => u2 == closed_search(UnlockedView { show_plaintext: true, ..u }) && fx.len() == 0,
        CommandView::Hide => u2 == closed_search(UnlockedView { show_plaintext: false, ..u }) && fx.len() == 0,
        CommandView::List { plaintext } => u2 == shown(u, list_text(u.entries, plaintext)) && fx.len() == 0,
        CommandView::Get { name, .. } => u2 == shown(u, get_text(u.entries, name)) && fx.len() == 0,
        CommandView::Add { name, password } => fx.len() == 0 && if has_duplicate(u.entries, name, None) {
            u2 == shown(u, "已存在同名密码: "@ + name)
        } else {
            u2 == closed_search(UnlockedView {
                show_add_dialog: true,
                new_name: name,
                new_password: match password { Some(p) => p, None => seq![] },
                confirm_password: seq![],
                new_name_error: None,
                ..u
            })
        },
        CommandView::Rm { name } => {
            let kept = not_containing(u.entries, name);
            let text = "已删除 "@ + decimal((u.entries.len() - kept.len()) as nat) + " 条"@;
            if kept.len() < u.entries.len() {
                &&& u2 == UnlockedView { entries: kept, cmd_result_text: text, cmd_result_visible: true, ..u }
                &&& fx == seq![EffectView::Persist, EffectView::WriteClipboard(text)]
            } else {
                u2 == shown(UnlockedView { entries: kept, ..u }, text) && fx.len() == 0
            }
        },
        CommandView::Mv { old_name, new_name } => match first_named(u.entries, old_name) {
            None => u2 == shown(u, "未找到: "@ + old_name) && fx.len() == 0,
            Some(idx) => if has_duplicate(u.entries, new_name, Some(idx)) {
                u2 == shown(u, "目标名称已存在: "@ + new_name) && fx.len() == 0
            } else {
                &&& u2 == UnlockedView {
                    entries: u.entries.update(idx, EntryView { name: new_name, password: u.entries[idx].password }),
                    cmd_result_text: "已重命名: "@ + old_name + " → "@ + new_name,
                    cmd_result_visible: true,
                    ..u
                }
                &&& fx == seq![EffectView::Persist]
            },
        },
        CommandView::Help { .. } => u2 == shown(u, HELP_TEXT@) && fx.len() == 0,
        CommandView::Version => u2 == shown(u, "PWM v1.0.0"@) && fx.len() == 0,
        _ => u2 == shown(u, "该命令仅在 CLI 中可用"@) && fx.len() == 0,
    }
}

/// The length for a generated password: the typed number, 16 when it is
/// not a number.
pub open spec fn wanted_length(field: Seq<char>) -> usize {
    match parse_usize_spec(field) { Some(n) => n, None => 16 }
}

/// The history count that the settings field gives: the typed number (5
/// when it is not a number), at most 10.
pub open spec fn wanted_history_count(field: Seq<char>) -> usize {
    let n = match parse_usize_spec(field) { Some(n) => n, None => 5 };
    if n > 10 { 10 } else { n }
}

/// Showing the search bar (focused, list scrolled to the top), or hiding
/// and emptying it.
pub open spec fn toggle_search_post(u: UnlockedView, u2: UnlockedView, fx: Seq<EffectView>) -> bool {
    if !u.show_search {
        u2 == UnlockedView { show_search: true, ..u } && fx == seq![EffectView::FocusSearch, EffectView::ScrollToTop]
    } else {
        u2 == closed_search(u) && fx.len() == 0
    }
}

/// What a key press does.
pub open spec fn key_step(u: UnlockedView, key: KeyInput, command: bool, u2: UnlockedView, fx: Seq<EffectView>) -> bool {
    match key {
        KeyInput::Escape => fx.len() == 0 && u2 == if u.show_add_dialog {
            UnlockedView { show_add_dialog: false, confirm_password: seq![], ..u }
        } else if u.cmd_result_visible {
            UnlockedView { cmd_result_visible: false, ..u }
        } else if u.settings_visible {
            UnlockedView { settings_visible: false, ..u }
        } else if u.show_export_dialog {
            UnlockedView { show_export_dialog: false, ..u }
        } else if u.show_import_dialog {
            UnlockedView { show_import_dialog: false, ..u }
        } else if u.show_history {
            UnlockedView { show_history: false, ..u }
        } else if u.show_search {
            closed_search(u)
        } else {
            u
        },
        KeyInput::Character(c) => if command && c@ == "/"@ {
            if !u.show_add_dialog { toggle_search_post(u, u2, fx) } else { u2 == u && fx.len() == 0 }
        } else if command && c@ == "n"@ {
            fx.len() == 0 && u2 == if !u.show_add_dialog {
                UnlockedView { show_add_dialog: true, new_name: seq![], new_password: seq![], confirm_password: seq![], ..u }
            } else {
                u
            }
        } else if command && c@ == "i"@ {
            fx.len() == 0 && u2 == if !u.show_add_dialog { UnlockedView { edit_mode: !u.edit_mode, ..u } } else { u }
        } else if command && c@ == "c"@ {
            fx.len() == 0 && u2 == if !u.show_add_dialog { UnlockedView { show_copy: !u.show_copy, ..u } } else { u }
        } else if command && c@ == "d"@ {
            fx.len() == 0 && u2 == if !u.show_add_dialog { UnlockedView { show_plaintext: !u.show_plaintext, ..u } } else { u }
        } else {
            u2 == u && fx.len() == 0
        },
        KeyInput::Other => u2 == u && fx.len() == 0,
    }
}

/// What a message does to the unlocked application, and which effects it
/// asks for.
pub open spec fn unlocked_step(u: UnlockedView, msg: Message, u2: UnlockedView, fx: Seq<EffectView>) -> bool {
    match msg {
        Message::ToggleMenu => fx.len() == 0 && u2 == UnlockedView {
            menu_open: !u.menu_open,
            settings_visible: if u.menu_open { false } else { u.settings_visible },
            show_history: if u.menu_open { false } else { u.show_history },
            ..u
        },
        Message::ToggleSettings => fx.len() == 0 && u2 == UnlockedView {
            settings_visible: !u.settings_visible,
            show_history: false,
            settings_history_count: if !u.settings_visible { decimal(u.settings.history_count as nat) }
                else { u.settings_history_count },
            settings_verify: if !u.settings_visible { u.settings.verify_hash } else { u.settings_verify },
            ..u
        },
        Message::ToggleHistory => {
            &&& u2 == UnlockedView { show_history: !u.show_history, settings_visible: false, ..u }
            &&& fx == if !u.show_history { seq![EffectView::ListHistory] } else { seq![] }
        },
        Message::HistoryListed(files) => {
            &&& u2 == UnlockedView { history_files: u2.history_files, ..u }
            &&& u2.history_files.to_multiset() == strs(files@).to_multiset()
            &&& sorted_names(u2.history_files)
            &&& fx.len() == 0
        },
        Message::ToggleEditMode => u2 == UnlockedView { edit_mode: !u.edit_mode, ..u } && fx.len() == 0,
        Message::ToggleCopy => u2 == UnlockedView { show_copy: !u.show_copy, ..u } && fx.len() == 0,
        Message::TogglePlaintext => u2 == UnlockedView { show_plaintext: !u.show_plaintext, ..u } && fx.len() == 0,
        Message::ToggleSearch => toggle_search_post(u, u2, fx),
        Message::SearchChanged(q) => if has_prefix(q@, "<cmd>"@) {
            fx.len() == 0 && u2 == UnlockedView { search_query: q@, search_results: seq![], best_match: None, ..u }
        } else {
            &&& u2 == UnlockedView { search_query: q@, search_results: u2.search_results, best_match: u2.best_match, ..u }
            &&& is_ranking(q@, u.entries, u2.search_results)
            &&& u2.best_match == best_of(u2.search_results)
            &&& fx == match u2.best_match {
                Some(i) => seq![EffectView::ScrollToRow(i), EffectView::Persist],
                None => seq![],
            }
        },
        Message::SearchSubmitted => if has_prefix(u.search_query, "<cmd>"@) && parse_spec(u.search_query) is Some {
            run_command(u, parse_spec(u.search_query)->0, u2, fx)
        } else {
            u2 == closed_search(u) && fx.len() == 0
        },
        Message::HideAddDialog => fx.len() == 0
            && u2 == UnlockedView { show_add_dialog: false, confirm_password: seq![], ..u },
        Message::NewNameChanged(v) => fx.len() == 0 && u2 == UnlockedView { new_name: v@, new_name_error: None, ..u },
        Message::NewPasswordChanged(v) => fx.len() == 0
            && u2 == UnlockedView { new_password: keep_chars(v@, true), ..u },
        Message::ConfirmPasswordChanged(v) => fx.len() == 0
            && u2 == UnlockedView { confirm_password: keep_chars(v@, true), ..u },
        Message::RandomLengthChanged(v) => fx.len() == 0
            && u2 == UnlockedView { random_length: keep_chars(v@, false), ..u },
        Message::GeneratePassword => {
            &&& u2 == UnlockedView { new_password: u2.new_password, confirm_password: u2.new_password, ..u }
            &&& strong_password(wanted_length(u.random_length), u2.new_password)
            &&& fx.len() == 0
        },
        Message::SubmitNewPassword => {
            let name = trim(u.new_name);
            if name.len() == 0 || u.new_password.len() == 0 || u.new_password != u.confirm_password {
                fx.len() == 0 && u2 == UnlockedView {
                    show_add_dialog: false, confirm_password: seq![], new_name_error: None, ..u }
            } else if has_duplicate(u.entries, name, None) {
                fx.len() == 0 && u2 == UnlockedView { new_name_error: Some("已存在同名密码"@), ..u }
            } else {
                &&& u2 == UnlockedView {
                    entries: u.entries.push(EntryView { name, password: u.new_password }),
                    search_results: u2.search_results,
                    best_match: u2.best_match,
                    show_add_dialog: false,
                    confirm_password: seq![],
                    new_name_error: None,
                    ..u
                }
                &&& refreshed(u, u2)
                &&& fx == seq![EffectView::Persist]
            }
        },
        Message::EditEntryPassword(idx, v) => {
            &&& u2 == if idx < u.entries.len() {
                UnlockedView { entries: u.entries.update(idx as int,
                    EntryView { name: u.entries[idx as int].name, password: keep_chars(v@, true) }), ..u }
            } else {
                u
            }
            &&& fx == seq![EffectView::Persist]
        },
        Message::DeleteEntry(idx) => {
            &&& if idx < u.entries.len() {
                &&& u2 == UnlockedView { entries: u.entries.remove(idx as int),
                    search_results: u2.search_results, best_match: u2.best_match, ..u }
                &&& refreshed(u, u2)
            } else {
                u2 == u
            }
            &&& fx == seq![EffectView::Persist]
        },
        Message::CopyPassword(idx) => u2 == u && fx == if idx < u.entries.len() {
            seq![EffectView::ClearClipboardLater, EffectView::WriteClipboard(u.entries[idx as int].password)]
        } else {
            seq![]
        },
        Message::SettingsHistoryCountChanged(v) => fx.len() == 0
            && u2 == UnlockedView { settings_history_count: keep_chars(v@, false), ..u },
        Message::SettingsVerifyToggled(b) => fx.len() == 0 && u2 == UnlockedView { settings_verify: b, ..u },
        Message::SettingsSave => {
            &&& u2 == UnlockedView {
                settings: VaultSettings {
                    history_count: wanted_history_count(u.settings_history_count),
                    verify_hash: u.settings_verify,
                },
                settings_visible: false,
                ..u
            }
            &&& fx == seq![EffectView::Persist]
        },
        Message::ShowExportDialog => fx.len() == 0
            && u2 == UnlockedView { show_export_dialog: true, export_status: None, ..u },
        Message::HideExportDialog => fx.len() == 0
            && u2 == UnlockedView { show_export_dialog: false, export_status: None, ..u },
        Message::ExportSubmit => u2 == u && fx == seq![EffectView::Export],
        Message::ExportFinished(res) => fx.len() == 0 && u2 == UnlockedView {
            export_status: Some(match res { Ok(dir) => "已导出到: "@ + dir@, Err(e) => "导出失败: "@ + e@ }),
            ..u
        },
        Message::ShowImportDialog => fx.len() == 0
            && u2 == UnlockedView { show_import_dialog: true, import_status: None, ..u },
        Message::HideImportDialog => fx.len() == 0
            && u2 == UnlockedView { show_import_dialog: false, import_status: None, ..u },
        Message::ImportVaultPathChanged(v) => fx.len() == 0 && u2 == UnlockedView { import_vault_path: v@, ..u },
        Message::ImportRecoveryPathChanged(v) => fx.len() == 0
            && u2 == UnlockedView { import_recovery_path: v@, ..u },
        Message::ImportSubmit => u2 == u && fx == seq![EffectView::Import {
            vault_path: u.import_vault_path, recovery_path: u.import_recovery_path }],
        Message::ImportFinished(res) => match res {
            Ok(t) => {
                &&& u2 == UnlockedView {
                    entries: entry_views(t.0@),
                    vault_salt: t.1@,
                    enc_key: t.2@,
                    settings: t.3,
                    show_import_dialog: false,
                    import_status: None,
                    ..u
                }
                &&& fx == seq![EffectView::Persist]
            },
            Err(e) => fx.len() == 0 && u2 == UnlockedView { import_status: Some("导入失败: "@ + e@), ..u },
        },
        Message::RestoreHistory(idx) => u2 == u && fx == seq![EffectView::RestoreHistory(idx)],
        Message::HistoryRestored(res) => match res {
            Ok(es) => u2 == UnlockedView { entries: entry_views(es@), ..u } && fx == seq![EffectView::Persist],
            Err(e) => fx.len() == 0 && u2 == UnlockedView { import_status: Some("恢复失败: "@ + e@), ..u },
        },
        Message::HideCmdResult => fx.len() == 0 && u2 == UnlockedView { cmd_result_visible: false, ..u },
        Message::KeyPressed(key, command) => key_step(u, key, command, u2, fx),
        _ => u2 == u && fx.len() == 0,
    }
}


// ───────────────────────── the transition, computed ─────────────────────────

/// No effects.
fn no_effects() -> (fx: Vec<Effect>)
    ensures
        effects_view(fx@) == Seq::<EffectView>::empty(),
{
    let fx: Vec<Effect> = Vec::new();
    assert(effects_view(fx@) =~= Seq::<EffectView>::empty());
    fx
}

/// One effect.
fn one_effect(e: Effect) -> (fx: Vec<Effect>)
    ensures
        effects_view(fx@) == seq![e@],
{
    let mut fx: Vec<Effect> = Vec::new();
    fx.push(e);
    assert(effects_view(fx@) =~= seq![e@]);
    fx
}

/// Two effects.
fn two_effects(a: Effect, b: Effect) -> (fx: Vec<Effect>)
    ensures
        effects_view(fx@) == seq![a@, b@],
{
    let mut fx: Vec<Effect> = Vec::new();
    fx.push(a);
    fx.push(b);
    assert(effects_view(fx@) =~= seq![a@, b@]);
    fx
}

/// Closes and empties the search bar.
fn close_search(u: &mut UnlockedModel)
    ensures
        final(u)@ == closed_search(old(u)@),
{
    u.show_search = false;
    u.search_query = String::new();
    u.search_results = Vec::new();
    u.best_match = None;
    assert(u@.search_results =~= Seq::<(usize, u32)>::empty());
    assert(u@ == closed_search(old(u)@));
}

/// `prefix` followed by `s`.
fn prefixed(prefix: &str, s: &str) -> (r: String)
    ensures
        r@ == prefix@ + s@,
{
    let mut r = String::from_str(prefix);
    r.append(s);
    r
}

/// Whether a string starts with `<cmd>`.
fn is_command_line(s: &str) -> (r: bool)
    ensures
        r == has_prefix(s@, "<cmd>"@),
{
    let c = chars_of(s);
    let m = chars_of("<cmd>");
    starts_with(c.as_slice(), m.as_slice())
}

/// Reruns the search after the entries changed, when a query is typed.
fn refresh_search(u: &mut UnlockedModel, Ghost(before): Ghost<UnlockedView>)
    requires
        old(u)@.search_query == before.search_query,
        old(u)@.search_results == before.search_results,
        old(u)@.best_match == before.best_match,
    ensures
        final(u)@ == (UnlockedView { search_results: final(u)@.search_results, best_match: final(u)@.best_match, ..old(u)@ }),
        refreshed(before, final(u)@),
{
    if !u.search_query.as_str().is_empty() {
        let r = run_search(u.search_query.as_str(), u.entries.as_slice());
        let best = if r.len() > 0 { Some(r[0].0) } else { None };
        u.search_results = r;
        u.best_match = best;
    }
}

fn on_toggle_menu(u: &mut UnlockedModel) -> (fx: Vec<Effect>)
    ensures
        unlocked_step(old(u)@, Message::ToggleMenu, final(u)@, effects_view(fx@)),
{
    u.menu_open = !u.menu_open;
    if !u.menu_open {
        u.settings_visible = false;
        u.show_history = false;
    }
    no_effects()
}

fn on_toggle_settings(u: &mut UnlockedModel) -> (fx: Vec<Effect>)
    ensures
        unlocked_step(old(u)@, Message::ToggleSettings, final(u)@, effects_view(fx@)),
{
    u.settings_visible = !u.settings_visible;
    u.show_history = false;
    if u.settings_visible {
        u.settings_history_count = usize_to_string(u.settings.history_count);
        u.settings_verify = u.settings.verify_hash;
    }
    no_effects()
}

fn on_toggle_history(u: &mut UnlockedModel) -> (fx: Vec<Effect>)
    ensures
        unlocked_step(old(u)@, Message::ToggleHistory, final(u)@, effects_view(fx@)),
{
    u.show_history = !u.show_history;
    u.settings_visible = false;
    if u.show_history { one_effect(Effect::ListHistory) } else { no_effects() }
}

fn on_history_listed(u: &mut UnlockedModel, files: Vec<String>) -> (fx: Vec<Effect>)
    ensures
        unlocked_step(old(u)@, Message::HistoryListed(files), final(u)@, effects_view(fx@)),
{
    u.history_files = sort_names(&files);
    no_effects()
}

fn on_toggle_edit_mode(u: &mut UnlockedModel) -> (fx: Vec<Effect>)
    ensures
        unlocked_step(old(u)@, Message::ToggleEditMode, final(u)@, effects_view(fx@)),
{
    u.edit_mode = !u.edit_mode;
    no_effects()
}

fn on_toggle_copy(u: &mut UnlockedModel) -> (fx: Vec<Effect>)
    ensures
        unlocked_step(old(u)@, Message::ToggleCopy, final(u)@, effects_view(fx@)),
{
    u.show_copy = !u.show_copy;
    no_effects()
}

fn on_toggle_plaintext(u: &mut UnlockedModel) -> (fx: Vec<Effect>)
    ensures
        unlocked_step(old(u)@, Message::TogglePlaintext, final(u)@, effects_view(fx@)),
{
    u.show_plaintext = !u.show_plaintext;
    no_effects()
}

fn on_toggle_search(u: &mut UnlockedModel) -> (fx: Vec<Effect>)
    ensures
        unlocked_step(old(u)@, Message::ToggleSearch, final(u)@, effects_view(fx@)),
{
    if !u.show_search {
        u.show_search = true;
        two_effects(Effect::FocusSearch, Effect::ScrollToTop)
    } else {
        close_search(u);
        no_effects()
    }
}

fn on_hide_add_dialog(u: &mut UnlockedModel) -> (fx: Vec<Effect>)
    ensures
        unlocked_step(old(u)@, Message::HideAddDialog, final(u)@, effects_view(fx@)),
{
    u.show_add_dialog = false;
    u.confirm_password = String::new();
    no_effects()
}

fn on_new_name_changed(u: &mut UnlockedModel, v: String) -> (fx: Vec<Effect>)
    ensures
        unlocked_step(old(u)@, Message::NewNameChanged(v), final(u)@, effects_view(fx@)),
{
    u.new_name = v;
    u.new_name_error = None;
    no_effects()
}

fn on_new_password_changed(u: &mut UnlockedModel, v: String) -> (fx: Vec<Effect>)
    ensures
        unlocked_step(old(u)@, Message::NewPasswordChanged(v), final(u)@, effects_view(fx@)),
{
    u.new_password = filter_chars(v.as_str(), true);
    no_effects()
}

fn on_confirm_password_changed(u: &mut UnlockedModel, v: String) -> (fx: Vec<Effect>)
    ensures
        unlocked_step(old(u)@, Message::ConfirmPasswordChanged(v), final(u)@, effects_view(fx@)),
{
    u.confirm_password = filter_chars(v.as_str(), true);
    no_effects()
}

fn on_random_length_changed(u: &mut UnlockedModel, v: String) -> (fx: Vec<Effect>)
    ensures
        unlocked_step(old(u)@, Message::RandomLengthChanged(v), final(u)@, effects_view(fx@)),
{
    u.random_length = filter_chars(v.as_str(), false);
    no_effects()
}

fn on_history_count_changed(u: &mut UnlockedModel, v: String) -> (fx: Vec<Effect>)
    ensures
        unlocked_step(old(u)@, Message::SettingsHistoryCountChanged(v), final(u)@, effects_view(fx@)),
{
    u.settings_history_count = filter_chars(v.as_str(), false);
    no_effects()
}

fn on_verify_toggled(u: &mut UnlockedModel, b: bool) -> (fx: Vec<Effect>)
    ensures
        unlocked_step(old(u)@, Message::SettingsVerifyToggled(b), final(u)@, effects_view(fx@)),
{
    u.settings_verify = b;
    no_effects()
}

fn on_show_export_dialog(u: &mut UnlockedModel) -> (fx: Vec<Effect>)
    ensures
        unlocked_step(old(u)@, Message::ShowExportDialog, final(u)@, effects_view(fx@)),
{
    u.show_export_dialog = true;
    u.export_status = None;
    no_effects()
}

fn on_hide_export_dialog(u: &mut UnlockedModel) -> (fx: Vec<Effect>)
    ensures
        unlocked_step(old(u)@, Message::HideExportDialog, final(u)@, effects_view(fx@)),
{
    u.show_export_dialog = false;
    u.export_status = None;
    no_effects()
}

fn on_export_finished(u: &mut UnlockedModel, res: Result<String, String>) -> (fx: Vec<Effect>)
    ensures
        unlocked_step(old(u)@, Message::ExportFinished(res), final(u)@, effects_view(fx@)),
{
    let text = match res {
        Ok(dir) => prefixed("已导出到: ", dir.as_str()),
        Err(e) => prefixed("导出失败: ", e.as_str()),
    };
    u.export_status = Some(text);
    no_effects()
}

fn on_show_import_dialog(u: &mut UnlockedModel) -> (fx: Vec<Effect>)
    ensures
        unlocked_step(old(u)@, Message::ShowImportDialog, final(u)@, effects_view(fx@)),
{
    u.show_import_dialog = true;
    u.import_status = None;
    no_effects()
}

fn on_hide_import_dialog(u: &mut UnlockedModel) -> (fx: Vec<Effect>)
    ensures
        unlocked_step(old(u)@, Message::HideImportDialog, final(u)@, effects_view(fx@)),
{
    u.show_import_dialog = false;
    u.import_status = None;
    no_effects()
}

fn on_import_vault_path_changed(u: &mut UnlockedModel, v: String) -> (fx: Vec<Effect>)
    ensures
        unlocked_step(old(u)@, Message::ImportVaultPathChanged(v), final(u)@, effects_view(fx@)),
{
    u.import_vault_path = v;
    no_effects()
}

fn on_import_recovery_path_changed(u: &mut UnlockedModel, v: String) -> (fx: Vec<Effect>)
    ensures
        unlocked_step(old(u)@, Message::ImportRecoveryPathChanged(v), final(u)@, effects_view(fx@)),
{
    u.import_recovery_path = v;
    no_effects()
}

fn on_import_submit(u: &mut UnlockedModel) -> (fx: Vec<Effect>)
    ensures
        unlocked_step(old(u)@, Message::ImportSubmit, final(u)@, effects_view(fx@)),
{
    one_effect(Effect::Import {
        vault_path: u.import_vault_path.clone(),
        recovery_path: u.import_recovery_path.clone(),
    })
}

fn on_export_submit(u: &mut UnlockedModel) -> (fx: Vec<Effect>)
    ensures
        unlocked_step(old(u)@, Message::ExportSubmit, final(u)@, effects_view(fx@)),
{
    one_effect(Effect::Export)
}

fn on_restore_history(u: &mut UnlockedModel, idx: usize) -> (fx: Vec<Effect>)
    ensures
        unlocked_step(old(u)@, Message::RestoreHistory(idx), final(u)@, effects_view(fx@)),
{
    one_effect(Effect::RestoreHistory(idx))
}

fn on_hide_cmd_result(u: &mut UnlockedModel) -> (fx: Vec<Effect>)
    ensures
        unlocked_step(old(u)@, Message::HideCmdResult, final(u)@, effects_view(fx@)),
{
    u.cmd_result_visible = false;
    no_effects()
}


/// `Zeroize::zeroize` on a `String`: overwrites the bytes with zeros and
/// leaves the string empty (the crate zeroes the buffer, then clears it).
#[verifier::external_body]
fn zeroize_string(s: &mut String)
    ensures
        final(s)@ == Seq::<char>::empty(),
{
    s.zeroize();
}

#[verifier::rlimit(60)]
fn on_search_changed(u: &mut UnlockedModel, q: String) -> (fx: Vec<Effect>)
    ensures
        unlocked_step(old(u)@, Message::SearchChanged(q), final(u)@, effects_view(fx@)),
{
    if is_command_line(q.as_str()) {
        u.search_query = q;
        u.search_results = Vec::new();
        u.best_match = None;
        assert(u@.search_results =~= Seq::<(usize, u32)>::empty());
        return no_effects();
    }
    let r = run_search(q.as_str(), u.entries.as_slice());
    let best = if r.len() > 0 { Some(r[0].0) } else { None };
    u.search_query = q;
    u.search_results = r;
    u.best_match = best;
    match best {
        Some(i) => two_effects(Effect::ScrollToRow(i), Effect::Persist),
        None => no_effects(),
    }
}

fn on_generate_password(u: &mut UnlockedModel) -> (fx: Vec<Effect>)
    ensures
        unlocked_step(old(u)@, Message::GeneratePassword, final(u)@, effects_view(fx@)),
{
    let c = chars_of(u.random_length.as_str());
    let len = match parse_usize(c.as_slice()) {
        Some(n) => n,
        None => 16,
    };
    let pwd = generate_strong_password(len);
    u.new_password = pwd.clone();
    u.confirm_password = pwd;
    no_effects()
}

#[verifier::rlimit(60)]
fn on_submit_new_password(u: &mut UnlockedModel) -> (fx: Vec<Effect>)
    ensures
        unlocked_step(old(u)@, Message::SubmitNewPassword, final(u)@, effects_view(fx@)),
{
    let nc = chars_of(u.new_name.as_str());
    let tc = trim_chars(nc.as_slice());
    let name = string_from_chars(tc.as_slice());
    if name.as_str().is_empty() || u.new_password.as_str().is_empty() || u.new_password != u.confirm_password {
        u.show_add_dialog = false;
        u.confirm_password = String::new();
        u.new_name_error = None;
        return no_effects();
    }
    if has_duplicate_name(u.entries.as_slice(), name.as_str(), None) {
        u.new_name_error = Some(String::from_str("已存在同名密码"));
        return no_effects();
    }
    let ghost before = u@;
    let entry = PasswordEntry { name, password: u.new_password.clone() };
    u.entries.push(entry);
    assert(u@.entries =~= before.entries.push(EntryView { name: trim(before.new_name), password: before.new_password }));
    refresh_search(u, Ghost(before));
    u.show_add_dialog = false;
    u.confirm_password = String::new();
    u.new_name_error = None;
    one_effect(Effect::Persist)
}

fn on_edit_entry_password(u: &mut UnlockedModel, idx: usize, v: String) -> (fx: Vec<Effect>)
    ensures
        unlocked_step(old(u)@, Message::EditEntryPassword(idx, v), final(u)@, effects_view(fx@)),
{
    if idx < u.entries.len() {
        let ghost before = u@;
        let p = filter_chars(v.as_str(), true);
        let name = u.entries[idx].name.clone();
        u.entries.set(idx, PasswordEntry { name, password: p });
        assert(u@.entries =~= before.entries.update(idx as int,
            EntryView { name: before.entries[idx as int].name, password: keep_chars(v@, true) }));
    }
    one_effect(Effect::Persist)
}

fn on_delete_entry(u: &mut UnlockedModel, idx: usize) -> (fx: Vec<Effect>)
    ensures
        unlocked_step(old(u)@, Message::DeleteEntry(idx), final(u)@, effects_view(fx@)),
{
    if idx < u.entries.len() {
        let ghost before = u@;
        let mut removed = u.entries.remove(idx);
        zeroize_string(&mut removed.password);
        assert(u@.entries =~= before.entries.remove(idx as int));
        refresh_search(u, Ghost(before));
    }
    one_effect(Effect::Persist)
}

fn on_copy_password(u: &mut UnlockedModel, idx: usize) -> (fx: Vec<Effect>)
    ensures
        unlocked_step(old(u)@, Message::CopyPassword(idx), final(u)@, effects_view(fx@)),
{
    if idx < u.entries.len() {
        let p = u.entries[idx].password.clone();
        two_effects(Effect::ClearClipboardLater, Effect::WriteClipboard(p))
    } else {
        no_effects()
    }
}

fn on_settings_save(u: &mut UnlockedModel) -> (fx: Vec<Effect>)
    ensures
        unlocked_step(old(u)@, Message::SettingsSave, final(u)@, effects_view(fx@)),
{
    let c = chars_of(u.settings_history_count.as_str());
    let n = match parse_usize(c.as_slice()) {
        Some(n) => n,
        None => 5,
    };
    let hc = if n > 10 { 10 } else { n };
    u.settings = VaultSettings { history_count: hc, verify_hash: u.settings_verify };
    u.settings_visible = false;
    one_effect(Effect::Persist)
}

fn on_import_finished(
    u: &mut UnlockedModel,
    res: Result<(Vec<PasswordEntry>, [u8; SALT_LEN], [u8; KEY_LEN], VaultSettings), String>,
) -> (fx: Vec<Effect>)
    ensures
        unlocked_step(old(u)@, Message::ImportFinished(res), final(u)@, effects_view(fx@)),
{
    match res {
        Ok(t) => {
            let (entries, salt, key, settings) = t;
            u.entries = entries;
            u.vault_salt = salt;
            u.enc_key = key;
            u.settings = settings;
            u.show_import_dialog = false;
            u.import_status = None;
            one_effect(Effect::Persist)
        },
        Err(e) => {
            u.import_status = Some(prefixed("导入失败: ", e.as_str()));
            no_effects()
        },
    }
}

fn on_history_restored(u: &mut UnlockedModel, res: Result<Vec<PasswordEntry>, String>) -> (fx: Vec<Effect>)
    ensures
        unlocked_step(old(u)@, Message::HistoryRestored(res), final(u)@, effects_view(fx@)),
{
    match res {
        Ok(es) => {
            u.entries = es;
            one_effect(Effect::Persist)
        },
        Err(e) => {
            u.import_status = Some(prefixed("恢复失败: ", e.as_str()));
            no_effects()
        },
    }
}


/// Shows a command result and closes the search bar.
fn show_result(u: &mut UnlockedModel, text: String)
    ensures
        final(u)@ == shown(old(u)@, text@),
{
    u.cmd_result_text = text;
    u.cmd_result_visible = true;
    close_search(u);
}

fn cmd_show_plaintext(u: &mut UnlockedModel, show: bool) -> (fx: Vec<Effect>)
    ensures
        run_command(old(u)@, if show { CommandView::Display } else { CommandView::Hide }, final(u)@,
            effects_view(fx@)),
{
    u.show_plaintext = show;
    close_search(u);
    no_effects()
}

fn cmd_list(u: &mut UnlockedModel, plaintext: bool) -> (fx: Vec<Effect>)
    ensures
        run_command(old(u)@, CommandView::List { plaintext }, final(u)@, effects_view(fx@)),
{
    let text = if u.entries.len() == 0 {
        String::from_str("（空）")
    } else {
        format_entries(u.entries.as_slice(), plaintext)
    };
    show_result(u, text);
    no_effects()
}

fn cmd_get(u: &mut UnlockedModel, name: String, Ghost(c): Ghost<CommandView>) -> (fx: Vec<Effect>)
    requires
        c is Get,
        c->Get_name == name@,
    ensures
        run_command(old(u)@, c, final(u)@, effects_view(fx@)),
{
    let m = matching_entries(u.entries.as_slice(), name.as_str(), false);
    let text = if m.len() == 0 {
        prefixed("未找到: ", name.as_str())
    } else {
        format_entries(m.as_slice(), true)
    };
    show_result(u, text);
    no_effects()
}

fn cmd_add(u: &mut UnlockedModel, name: String, password: Option<String>) -> (fx: Vec<Effect>)
    ensures
        run_command(old(u)@, CommandView::Add { name: name@, password: crate::message::opt_str_view(password) },
            final(u)@, effects_view(fx@)),
{
    if has_duplicate_name(u.entries.as_slice(), name.as_str(), None) {
        let text = prefixed("已存在同名密码: ", name.as_str());
        show_result(u, text);
    } else {
        u.show_add_dialog = true;
        u.new_name = name;
        u.new_password = match password {
            Some(p) => p,
            None => String::new(),
        };
        u.confirm_password = String::new();
        u.new_name_error = None;
        close_search(u);
    }
    no_effects()
}

fn cmd_rm(u: &mut UnlockedModel, name: String) -> (fx: Vec<Effect>)
    ensures
        run_command(old(u)@, CommandView::Rm { name: name@ }, final(u)@, effects_view(fx@)),
{
    let removed = remove_containing(&mut u.entries, name.as_str());
    let mut text = String::from_str("已删除 ");
    let count = usize_to_string(removed);
    text.append(count.as_str());
    text.append(" 条");
    if removed > 0 {
        let copy = text.clone();
        u.cmd_result_text = text;
        u.cmd_result_visible = true;
        two_effects(Effect::Persist, Effect::WriteClipboard(copy))
    } else {
        show_result(u, text);
        no_effects()
    }
}

/// The first entry named `name` is the one that `position_named` finds.
pub proof fn lemma_first_named_pos(es: Seq<EntryView>, name: Seq<char>, r: Option<usize>)
    requires
        r is None ==> forall|i: int| 0 <= i < es.len() ==> !#[trigger] crate::entries::name_is(es[i], name),
        r is Some ==> {
            &&& r->0 < es.len()
            &&& crate::entries::name_is(es[r->0 as int], name)
            &&& forall|j: int| 0 <= j < r->0 ==> !#[trigger] crate::entries::name_is(es[j], name)
        },
    ensures
        first_named(es, name) == match r { None => None::<int>, Some(i) => Some(i as int) },
{
    if r is Some {
        let i = r->0 as int;
        assert(crate::entries::name_is(es[i], name));
        let c = choose|c: int| 0 <= c < es.len() && crate::entries::name_is(es[c], name)
            && forall|j: int| 0 <= j < c ==> !#[trigger] crate::entries::name_is(es[j], name);
        if c < i {
        } else if c > i {
            assert(!crate::entries::name_is(es[i], name));
        }
    }
}

fn cmd_mv(u: &mut UnlockedModel, old_name: String, new_name: String) -> (fx: Vec<Effect>)
    ensures
        run_command(old(u)@, CommandView::Mv { old_name: old_name@, new_name: new_name@ }, final(u)@,
            effects_view(fx@)),
{
    let pos = position_named(u.entries.as_slice(), old_name.as_str());
    proof {
        lemma_first_named_pos(u@.entries, old_name@, pos);
        assert forall|i: int| 0 <= i < u@.entries.len() implies u@.entries[i] == u.entries@[i]@ by {}
    }
    match pos {
        None => {
            let text = prefixed("未找到: ", old_name.as_str());
            show_result(u, text);
            no_effects()
        },
        Some(idx) => {
            if has_duplicate_name(u.entries.as_slice(), new_name.as_str(), Some(idx)) {
                let text = prefixed("目标名称已存在: ", new_name.as_str());
                show_result(u, text);
                no_effects()
            } else {
                let ghost before = u@;
                let password = u.entries[idx].password.clone();
                u.entries.set(idx, PasswordEntry { name: new_name.clone(), password });
                assert(u@.entries =~= before.entries.update(idx as int,
                    EntryView { name: new_name@, password: before.entries[idx as int].password }));
                let mut text = prefixed("已重命名: ", old_name.as_str());
                text.append(" → ");
                text.append(new_name.as_str());
                u.cmd_result_text = text;
                u.cmd_result_visible = true;
                one_effect(Effect::Persist)
            }
        },
    }
}

fn run_cmd(u: &mut UnlockedModel, cmd: PwmCommand) -> (fx: Vec<Effect>)
    ensures
        run_command(old(u)@, cmd@, final(u)@, effects_view(fx@)),
{
    let ghost c = cmd@;
    match cmd {
        PwmCommand::Display => cmd_show_plaintext(u, true),
        PwmCommand::Hide => cmd_show_plaintext(u, false),
        PwmCommand::List { plaintext } => cmd_list(u, plaintext),
        PwmCommand::Get { name, .. } => cmd_get(u, name, Ghost(c)),
        PwmCommand::Add { name, password } => cmd_add(u, name, password),
        PwmCommand::Rm { name } => cmd_rm(u, name),
        PwmCommand::Mv { old_name, new_name } => cmd_mv(u, old_name, new_name),
        PwmCommand::Help { .. } => {
            show_result(u, String::from_str(HELP_TEXT));
            no_effects()
        },
        PwmCommand::Version => {
            show_result(u, String::from_str("PWM v1.0.0"));
            no_effects()
        },
        _ => {
            show_result(u, String::from_str("该命令仅在 CLI 中可用"));
            no_effects()
        },
    }
}

fn on_search_submitted(u: &mut UnlockedModel) -> (fx: Vec<Effect>)
    ensures
        unlocked_step(old(u)@, Message::SearchSubmitted, final(u)@, effects_view(fx@)),
{
    if is_command_line(u.search_query.as_str()) {
        match parse_pwm(u.search_query.as_str()) {
            Some(cmd) => {
                return run_cmd(u, cmd);
            },
            None => {},
        }
    }
    close_search(u);
    no_effects()
}


fn on_escape(u: &mut UnlockedModel) -> (fx: Vec<Effect>)
    ensures
        key_step(old(u)@, KeyInput::Escape, false, final(u)@, effects_view(fx@)),
{
    if u.show_add_dialog {
        u.show_add_dialog = false;
        u.confirm_password = String::new();
    } else if u.cmd_result_visible {
        u.cmd_result_visible = false;
    } else if u.settings_visible {
        u.settings_visible = false;
    } else if u.show_export_dialog {
        u.show_export_dialog = false;
    } else if u.show_import_dialog {
        u.show_import_dialog = false;
    } else if u.show_history {
        u.show_history = false;
    } else if u.show_search {
        close_search(u);
    }
    no_effects()
}

#[verifier::rlimit(40)]
fn on_character(u: &mut UnlockedModel, c: String, command: bool) -> (fx: Vec<Effect>)
    ensures
        key_step(old(u)@, KeyInput::Character(c), command, final(u)@, effects_view(fx@)),
{
    let cc = chars_of(c.as_str());
    if command && crate::text::chars_eq_str(cc.as_slice(), "/") {
        if !u.show_add_dialog {
            let fx = on_toggle_search(u);
            assert(toggle_search_post(old(u)@, u@, effects_view(fx@)));
            fx
        } else {
            no_effects()
        }
    } else if command && crate::text::chars_eq_str(cc.as_slice(), "n") {
        if !u.show_add_dialog {
            u.show_add_dialog = true;
            u.new_name = String::new();
            u.new_password = String::new();
            u.confirm_password = String::new();
        }
        no_effects()
    } else if command && crate::text::chars_eq_str(cc.as_slice(), "i") {
        if !u.show_add_dialog {
            u.edit_mode = !u.edit_mode;
        }
        no_effects()
    } else if command && crate::text::chars_eq_str(cc.as_slice(), "c") {
        if !u.show_add_dialog {
            u.show_copy = !u.show_copy;
        }
        no_effects()
    } else if command && crate::text::chars_eq_str(cc.as_slice(), "d") {
        if !u.show_add_dialog {
            u.show_plaintext = !u.show_plaintext;
        }
        no_effects()
    } else {
        no_effects()
    }
}

fn on_key(u: &mut UnlockedModel, key: KeyInput, command: bool) -> (fx: Vec<Effect>)
    ensures
        unlocked_step(old(u)@, Message::KeyPressed(key, command), final(u)@, effects_view(fx@)),
{
    match key {
        KeyInput::Escape => on_escape(u),
        KeyInput::Character(c) => on_character(u, c, command),
        KeyInput::Other => no_effects(),
    }
}

/// Applies a message to the unlocked application.
pub fn step_unlocked(u: &mut UnlockedModel, msg: Message) -> (fx: Vec<Effect>)
    ensures
        unlocked_step(old(u)@, msg, final(u)@, effects_view(fx@)),
{
    match msg {
        Message::ToggleMenu => on_toggle_menu(u),
        Message::ToggleSettings => on_toggle_settings(u),
        Message::ToggleHistory => on_toggle_history(u),
        Message::HistoryListed(files) => on_history_listed(u, files),
        Message::ToggleEditMode => on_toggle_edit_mode(u),
        Message::ToggleCopy => on_toggle_copy(u),
        Message::TogglePlaintext => on_toggle_plaintext(u),
        Message::ToggleSearch => on_toggle_search(u),
        Message::SearchChanged(q) => on_search_changed(u, q),
        Message::SearchSubmitted => on_search_submitted(u),
        Message::HideAddDialog => on_hide_add_dialog(u),
        Message::NewNameChanged(v) => on_new_name_changed(u, v),
        Message::NewPasswordChanged(v) => on_new_password_changed(u, v),
        Message::ConfirmPasswordChanged(v) => on_confirm_password_changed(u, v),
        Message::RandomLengthChanged(v) => on_random_length_changed(u, v),
        Message::GeneratePassword => on_generate_password(u),
        Message::SubmitNewPassword => on_submit_new_password(u),
        Message::EditEntryPassword(idx, v) => on_edit_entry_password(u, idx, v),
        Message::DeleteEntry(idx) => on_delete_entry(u, idx),
        Message::CopyPassword(idx) => on_copy_password(u, idx),
        Message::SettingsHistoryCountChanged(v) => on_history_count_changed(u, v),
        Message::SettingsVerifyToggled(b) => on_verify_toggled(u, b),
        Message::SettingsSave => on_settings_save(u),
        Message::ShowExportDialog => on_show_export_dialog(u),
        Message::HideExportDialog => on_hide_export_dialog(u),
        Message::ExportSubmit => on_export_submit(u),
        Message::ExportFinished(res) => on_export_finished(u, res),
        Message::ShowImportDialog => on_show_import_dialog(u),
        Message::HideImportDialog => on_hide_import_dialog(u),
        Message::ImportVaultPathChanged(v) => on_import_vault_path_changed(u, v),
        Message::ImportRecoveryPathChanged(v) => on_import_recovery_path_changed(u, v),
        Message::ImportSubmit => on_import_submit(u),
        Message::ImportFinished(res) => on_import_finished(u, res),
        Message::RestoreHistory(idx) => on_restore_history(u, idx),
        Message::HistoryRestored(res) => on_history_restored(u, res),
        Message::HideCmdResult => on_hide_cmd_result(u),
        Message::KeyPressed(key, command) => on_key(u, key, command),
        _ => no_effects(),
    }
}

/// What a message does on the locked screen: typing, submitting (which
/// asks to open or create the vault), and the outcome of that.
pub open spec fn locked_step(l: LockedView, msg: Message, m2: ModelView, fx: Seq<EffectView>) -> bool {
    match msg {
        Message::LockPasswordChanged(p) => fx.len() == 0
            && m2 == ModelView::Locked(LockedView { master_password: p@, ..l }),
        Message::LockSubmit => m2 == ModelView::Locked(l) && fx == seq![EffectView::OpenVault {
            path: l.vault_path, password: l.master_password, create: l.is_new }],
        Message::LockClearError => fx.len() == 0 && m2 == ModelView::Locked(LockedView { error: None, ..l }),
        Message::VaultOpened(es, salt, key, settings) => fx.len() == 0 && m2 == ModelView::Unlocked(
            fresh_unlocked(entry_views(es@), salt@, key@, l.vault_path, l.master_password, settings)),
        Message::VaultFailed(e) => fx.len() == 0 && m2 == ModelView::Locked(LockedView { error: Some(e@), ..l }),
        _ => m2 == ModelView::Locked(l) && fx.len() == 0,
    }
}

/// What a message does to the application.
pub open spec fn update_spec(m: ModelView, msg: Message, m2: ModelView, fx: Seq<EffectView>) -> bool {
    match m {
        ModelView::Locked(l) => locked_step(l, msg, m2, fx),
        ModelView::Unlocked(u) => m2 is Unlocked && unlocked_step(u, msg, m2->Unlocked_0, fx),
    }
}

/// Applies a message to the locked screen (all but a successful opening).
fn step_locked(l: &mut LockedModel, msg: Message) -> (fx: Vec<Effect>)
    requires
        !(msg is VaultOpened),
    ensures
        locked_step(old(l)@, msg, ModelView::Locked(final(l)@), effects_view(fx@)),
{
    match msg {
        Message::LockPasswordChanged(p) => {
            l.master_password = p;
            no_effects()
        },
        Message::LockSubmit => one_effect(Effect::OpenVault {
            path: l.vault_path.clone(),
            password: l.master_password.clone(),
            create: l.is_new,
        }),
        Message::LockClearError => {
            l.error = None;
            no_effects()
        },
        Message::VaultFailed(e) => {
            l.error = Some(e);
            no_effects()
        },
        _ => no_effects(),
    }
}

/// Applies a message to the application and returns the effects to
/// perform.
pub fn update(model: &mut Model, message: Message) -> (fx: Vec<Effect>)
    ensures
        update_spec(old(model)@, message, final(model)@, effects_view(fx@)),
{
    match model {
        Model::Unlocked(u) => step_unlocked(u, message),
        Model::Locked(l) => {
            match message {
                Message::VaultOpened(es, salt, key, settings) => {
                    let path = l.vault_path.clone();
                    let password = l.master_password.clone();
                    *model = Model::Unlocked(UnlockedModel::new(es, salt, key, path, password, settings));
                    no_effects()
                },
                other => step_locked(l, other),
            }
        },
    }
}

} // verus!
