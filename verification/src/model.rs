//! The data that the application keeps: password entries and the two
//! top-level states of the user interface.

use vstd::prelude::*;
use crate::vault::{VaultSettings, SALT_LEN, KEY_LEN};
use crate::message::opt_str_view;
use crate::history::strs;
use crate::text::{decimal, usize_to_string};

verus! {

/// One stored password.
#[derive(Debug, Clone)]
pub struct PasswordEntry {
    pub name: String,
    pub password: String,
}

/// The mathematical content of an entry.
pub struct EntryView {
    pub name: Seq<char>,
    pub password: Seq<char>,
}

impl View for PasswordEntry {
    type V = EntryView;

    open spec fn view(&self) -> EntryView {
        EntryView { name: self.name@, password: self.password@ }
    }
}

/// The views of a sequence of entries.
pub open spec fn entry_views(s: Seq<PasswordEntry>) -> Seq<EntryView> {
    s.map_values(|e: PasswordEntry| e@)
}


/// The locked screen: the master password being typed.
#[derive(Debug, Clone)]
pub struct LockedModel {
    pub vault_path: String,
    pub master_password: String,
    pub error: Option<String>,
    /// No vault exists yet: submitting creates one.
    pub is_new: bool,
}

/// The state of the unlocked application.
#[derive(Debug)]
pub struct UnlockedModel {
    pub vault_path: String,
    pub vault_salt: [u8; SALT_LEN],
    pub enc_key: [u8; KEY_LEN],
    /// Kept to open history backups, each with its own salt.
    pub master_password: String,
    pub settings: VaultSettings,
    pub entries: Vec<PasswordEntry>,
    pub menu_open: bool,
    pub edit_mode: bool,
    pub show_copy: bool,
    pub show_plaintext: bool,
    pub show_search: bool,
    pub search_query: String,
    pub search_results: Vec<(usize, u32)>,
    pub best_match: Option<usize>,
    pub show_add_dialog: bool,
    pub new_name: String,
    pub new_name_error: Option<String>,
    pub new_password: String,
    pub confirm_password: String,
    pub random_length: String,
    pub settings_visible: bool,
    pub settings_history_count: String,
    pub settings_verify: bool,
    pub show_export_dialog: bool,
    pub export_status: Option<String>,
    pub show_import_dialog: bool,
    pub import_vault_path: String,
    pub import_recovery_path: String,
    pub import_status: Option<String>,
    pub cmd_result_visible: bool,
    pub cmd_result_text: String,
    pub show_history: bool,
    pub history_files: Vec<String>,
}

/// The top-level state.
#[derive(Debug)]
pub enum Model {
    Locked(LockedModel),
    Unlocked(UnlockedModel),
}

/// The content of the locked screen.
pub struct LockedView {
    pub vault_path: Seq<char>,
    pub master_password: Seq<char>,
    pub error: Option<Seq<char>>,
    pub is_new: bool,
}

/// The content of the unlocked application.
pub struct UnlockedView {
    pub vault_path: Seq<char>,
    pub vault_salt: Seq<u8>,
    pub enc_key: Seq<u8>,
    pub master_password: Seq<char>,
    pub settings: VaultSettings,
    pub entries: Seq<EntryView>,
    pub menu_open: bool,
    pub edit_mode: bool,
    pub show_copy: bool,
    pub show_plaintext: bool,
    pub show_search: bool,
    pub search_query: Seq<char>,
    pub search_results: Seq<(usize, u32)>,
    pub best_match: Option<usize>,
    pub show_add_dialog: bool,
    pub new_name: Seq<char>,
    pub new_name_error: Option<Seq<char>>,
    pub new_password: Seq<char>,
    pub confirm_password: Seq<char>,
    pub random_length: Seq<char>,
    pub settings_visible: bool,
    pub settings_history_count: Seq<char>,
    pub settings_verify: bool,
    pub show_export_dialog: bool,
    pub export_status: Option<Seq<char>>,
    pub show_import_dialog: bool,
    pub import_vault_path: Seq<char>,
    pub import_recovery_path: Seq<char>,
    pub import_status: Option<Seq<char>>,
    pub cmd_result_visible: bool,
    pub cmd_result_text: Seq<char>,
    pub show_history: bool,
    pub history_files: Seq<Seq<char>>,
}

/// The content of the top-level state.
pub enum ModelView {
    Locked(LockedView),
    Unlocked(UnlockedView),
}

impl View for LockedModel {
    type V = LockedView;

    open spec fn view(&self) -> LockedView {
        LockedView {
            vault_path: self.vault_path@,
            master_password: self.master_password@,
            error: opt_str_view(self.error),
            is_new: self.is_new,
        }
    }
}

impl View for UnlockedModel {
    type V = UnlockedView;

    open spec fn view(&self) -> UnlockedView {
        UnlockedView {
            vault_path: self.vault_path@,
            vault_salt: self.vault_salt@,
            enc_key: self.enc_key@,
            master_password: self.master_password@,
            settings: self.settings,
            entries: entry_views(self.entries@),
            menu_open: self.menu_open,
            edit_mode: self.edit_mode,
            show_copy: self.show_copy,
            show_plaintext: self.show_plaintext,
            show_search: self.show_search,
            search_query: self.search_query@,
            search_results: self.search_results@,
            best_match: self.best_match,
            show_add_dialog: self.show_add_dialog,
            new_name: self.new_name@,
            new_name_error: opt_str_view(self.new_name_error),
            new_password: self.new_password@,
            confirm_password: self.confirm_password@,
            random_length: self.random_length@,
            settings_visible: self.settings_visible,
            settings_history_count: self.settings_history_count@,
            settings_verify: self.settings_verify,
            show_export_dialog: self.show_export_dialog,
            export_status: opt_str_view(self.export_status),
            show_import_dialog: self.show_import_dialog,
            import_vault_path: self.import_vault_path@,
            import_recovery_path: self.import_recovery_path@,
            import_status: opt_str_view(self.import_status),
            cmd_result_visible: self.cmd_result_visible,
            cmd_result_text: self.cmd_result_text@,
            show_history: self.show_history,
            history_files: strs(self.history_files@),
        }
    }
}

impl View for Model {
    type V = ModelView;

    open spec fn view(&self) -> ModelView {
        match self {
            Model::Locked(l) => ModelView::Locked(l@),
            Model::Unlocked(u) => ModelView::Unlocked(u@),
        }
    }
}

/// The state right after unlocking: the vault's data, every panel closed,
/// every field empty, 16 as the length for generated passwords and the
/// settings fields showing the stored settings.
pub open spec fn fresh_unlocked(
    entries: Seq<EntryView>,
    salt: Seq<u8>,
    key: Seq<u8>,
    path: Seq<char>,
    password: Seq<char>,
    settings: VaultSettings,
) -> UnlockedView {
    UnlockedView {
        vault_path: path,
        vault_salt: salt,
        enc_key: key,
        master_password: password,
        settings,
        entries,
        menu_open: false,
        edit_mode: false,
        show_copy: false,
        show_plaintext: false,
        show_search: false,
        search_query: seq![],
        search_results: seq![],
        best_match: None,
        show_add_dialog: false,
        new_name: seq![],
        new_name_error: None,
        new_password: seq![],
        confirm_password: seq![],
        random_length: "16"@,
        settings_visible: false,
        settings_history_count: decimal(settings.history_count as nat),
        settings_verify: settings.verify_hash,
        show_export_dialog: false,
        export_status: None,
        show_import_dialog: false,
        import_vault_path: seq![],
        import_recovery_path: seq![],
        import_status: None,
        cmd_result_visible: false,
        cmd_result_text: seq![],
        show_history: false,
        history_files: seq![],
    }
}

impl UnlockedModel {
    /// The state right after unlocking a vault.
    pub fn new(
        entries: Vec<PasswordEntry>,
        vault_salt: [u8; SALT_LEN],
        enc_key: [u8; KEY_LEN],
        vault_path: String,
        master_password: String,
        settings: VaultSettings,
    ) -> (r: Self)
        ensures
            r@ == fresh_unlocked(entry_views(entries@), vault_salt@, enc_key@, vault_path@,
                master_password@, settings),
    {
        let r = UnlockedModel {
            vault_path,
            vault_salt,
            enc_key,
            master_password,
            settings,
            entries,
            menu_open: false,
            edit_mode: false,
            show_copy: false,
            show_plaintext: false,
            show_search: false,
            search_query: String::new(),
            search_results: Vec::new(),
            best_match: None,
            show_add_dialog: false,
            new_name: String::new(),
            new_name_error: None,
            new_password: String::new(),
            confirm_password: String::new(),
            random_length: String::from_str("16"),
            settings_visible: false,
            settings_history_count: usize_to_string(settings.history_count),
            settings_verify: settings.verify_hash,
            show_export_dialog: false,
            export_status: None,
            show_import_dialog: false,
            import_vault_path: String::new(),
            import_recovery_path: String::new(),
            import_status: None,
            cmd_result_visible: false,
            cmd_result_text: String::new(),
            show_history: false,
            history_files: Vec::new(),
        };
        assert(r@.search_results =~= Seq::<(usize, u32)>::empty());
        assert(r@.history_files =~= Seq::<Seq<char>>::empty());
        r
    }
}

} // verus!
