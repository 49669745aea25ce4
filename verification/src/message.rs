//! The command language shared by the command line and the search bar
//! (where a line starting with `<cmd>` is a command), and its parser.

use vstd::prelude::*;
use crate::text::{
    chars_of, chars_eq_str, has_prefix, parse_usize, parse_usize_spec, split_words, starts_with,
    string_from_chars, trim, trim_chars, views, words,
};

verus! {

/// A command of the `pwm` language.
#[derive(Debug, Clone)]
pub enum PwmCommand {
    /// Show passwords in plain text (search bar only).
    Display,
    /// Mask passwords again (search bar only).
    Hide,
    /// List every entry.
    List { plaintext: bool },
    /// Show the entries with a given name.
    Get { name: String, fuzzy: bool, copy: bool, plaintext: bool },
    /// Add an entry.
    Add { name: String, password: Option<String> },
    /// Remove entries.
    Rm { name: String },
    /// Export a recovery bundle.
    Export { dir: String },
    /// Import from a recovery bundle.
    Import { vault_path: String, recovery_path: String },
    /// List the saved history versions.
    History,
    /// Roll back to a history version.
    Restore { index: usize },
    /// Cache the master password for this terminal session.
    Login,
    /// Forget the cached master password.
    Logout,
    /// Rename an entry.
    Mv { old_name: String, new_name: String },
    /// Show help.
    Help { subcommand: Option<String> },
    /// Show the version.
    Version,
}

/// The mathematical content of a command: its strings as character sequences.
pub enum CommandView {
    Display,
    Hide,
    List { plaintext: bool },
    Get { name: Seq<char>, fuzzy: bool, copy: bool, plaintext: bool },
    Add { name: Seq<char>, password: Option<Seq<char>> },
    Rm { name: Seq<char> },
    Export { dir: Seq<char> },
    Import { vault_path: Seq<char>, recovery_path: Seq<char> },
    History,
    Restore { index: usize },
    Login,
    Logout,
    Mv { old_name: Seq<char>, new_name: Seq<char> },
    Help { subcommand: Option<Seq<char>> },
    Version,
}

/// The view of an optional string.
pub open spec fn opt_str_view(o: Option<String>) -> Option<Seq<char>> {
    match o {
        None => None,
        Some(s) => Some(s@),
    }
}

impl View for PwmCommand {
    type V = CommandView;

    open spec fn view(&self) -> CommandView {
        match self {
            PwmCommand::Display => CommandView::Display,
            PwmCommand::Hide => CommandView::Hide,
            PwmCommand::List { plaintext } => CommandView::List { plaintext: *plaintext },
            PwmCommand::Get { name, fuzzy, copy, plaintext } => CommandView::Get {
                name: name@, fuzzy: *fuzzy, copy: *copy, plaintext: *plaintext },
            PwmCommand::Add { name, password } => CommandView::Add {
                name: name@, password: opt_str_view(*password) },
            PwmCommand::Rm { name } => CommandView::Rm { name: name@ },
            PwmCommand::Export { dir } => CommandView::Export { dir: dir@ },
            PwmCommand::Import { vault_path, recovery_path } => CommandView::Import {
                vault_path: vault_path@, recovery_path: recovery_path@ },
            PwmCommand::History => CommandView::History,
            PwmCommand::Restore { index } => CommandView::Restore { index: *index },
            PwmCommand::Login => CommandView::Login,
            PwmCommand::Logout => CommandView::Logout,
            PwmCommand::Mv { old_name, new_name } => CommandView::Mv {
                old_name: old_name@, new_name: new_name@ },
            PwmCommand::Help { subcommand } => CommandView::Help { subcommand: opt_str_view(*subcommand) },
            PwmCommand::Version => CommandView::Version,
        }
    }
}

/// The view of an optional command.
pub open spec fn opt_command_view(o: Option<PwmCommand>) -> Option<CommandView> {
    match o {
        None => None,
        Some(c) => Some(c@),
    }
}

/// The command part of an input line: trimmed, and with a leading `<cmd>`
/// marker (and the whitespace after it) removed.
pub open spec fn command_line(input: Seq<char>) -> Seq<char> {
    let t = trim(input);
    if has_prefix(t, "<cmd>"@) {
        trim(t.skip(5))
    } else {
        t
    }
}

/// Whether any word of the line is `a` or `b`.
pub open spec fn has_flag(parts: Seq<Seq<char>>, a: Seq<char>, b: Seq<char>) -> bool {
    exists|i: int| 0 <= i < parts.len() && (#[trigger] parts[i] == a || parts[i] == b)
}

/// The word at `i`, when there is one.
pub open spec fn word_at(parts: Seq<Seq<char>>, i: int) -> Option<Seq<char>> {
    if 0 <= i < parts.len() { Some(parts[i]) } else { None }
}

/// The command that a line spells, word by word.
pub open spec fn parse_words(parts: Seq<Seq<char>>) -> Option<CommandView> {
    if parts.len() == 0 {
        None
    } else {
        let w = parts[0];
        if w == "display"@ || w == "unhide"@ {
            Some(CommandView::Display)
        } else if w == "hide"@ {
            Some(CommandView::Hide)
        } else if w == "list"@ || w == "ls"@ {
            Some(CommandView::List { plaintext: has_flag(parts, "--plaintext"@, "-p"@) })
        } else if w == "get"@ {
            if parts.len() < 2 {
                None
            } else {
                Some(CommandView::Get {
                    name: parts[1],
                    fuzzy: has_flag(parts, "--fuzzy"@, "-f"@),
                    copy: has_flag(parts, "--copy"@, "-c"@),
                    plaintext: has_flag(parts, "--plaintext"@, "-p"@),
                })
            }
        } else if w == "add"@ {
            if parts.len() < 2 {
                None
            } else {
                Some(CommandView::Add { name: parts[1], password: word_at(parts, 2) })
            }
        } else if w == "rm"@ || w == "remove"@ || w == "delete"@ {
            if parts.len() < 2 { None } else { Some(CommandView::Rm { name: parts[1] }) }
        } else if w == "login"@ {
            Some(CommandView::Login)
        } else if w == "logout"@ {
            Some(CommandView::Logout)
        } else if w == "mv"@ || w == "rename"@ {
            if parts.len() < 3 {
                None
            } else {
                Some(CommandView::Mv { old_name: parts[1], new_name: parts[2] })
            }
        } else if w == "export"@ {
            Some(CommandView::Export { dir: if parts.len() >= 2 { parts[1] } else { Seq::empty() } })
        } else if w == "import"@ {
            if parts.len() < 3 {
                None
            } else {
                Some(CommandView::Import { vault_path: parts[1], recovery_path: parts[2] })
            }
        } else if w == "history"@ || w == "hist"@ {
            Some(CommandView::History)
        } else if w == "restore"@ {
            if parts.len() < 2 {
                None
            } else {
                match parse_usize_spec(parts[1]) {
                    None => None,
                    Some(index) => Some(CommandView::Restore { index }),
                }
            }
        } else if w == "help"@ {
            Some(CommandView::Help { subcommand: word_at(parts, 1) })
        } else if w == "version"@ || w == "--version"@ || w == "-v"@ {
            Some(CommandView::Version)
        } else {
            None
        }
    }
}

/// The command that an input line spells.
pub open spec fn parse_spec(input: Seq<char>) -> Option<CommandView> {
    parse_words(words(command_line(input)))
}

/// Whether any word is `a` or `b`.
fn any_flag(parts: &Vec<Vec<char>>, a: &str, b: &str) -> (r: bool)
    ensures
        r == has_flag(views(parts@), a@, b@),
{
    let ghost ps = views(parts@);
    let mut i: usize = 0;
    while i < parts.len()
        invariant
            ps == views(parts@),
            i <= parts@.len(),
            forall|k: int| 0 <= k < i ==> !(#[trigger] ps[k] == a@ || ps[k] == b@),
        decreases parts@.len() - i,
    {
        if chars_eq_str(parts[i].as_slice(), a) || chars_eq_str(parts[i].as_slice(), b) {
            assert(ps[i as int] == parts@[i as int]@);
            return true;
        }
        i = i + 1;
    }
    false
}

/// The word at `i` as a string.
fn word_string(parts: &Vec<Vec<char>>, i: usize) -> (r: String)
    requires
        i < parts@.len(),
    ensures
        r@ == views(parts@)[i as int],
{
    string_from_chars(parts[i].as_slice())
}

/// Parses one line of the command language. In the search bar the line
/// starts with `<cmd>`; on the command line the arguments are joined by
/// spaces. Unknown commands and missing arguments give `None`.
pub fn parse_pwm(input: &str) -> (r: Option<PwmCommand>)
    ensures
        opt_command_view(r) == parse_spec(input@),
{
    let raw = chars_of(input);
    let t = trim_chars(raw.as_slice());
    let marker = chars_of("<cmd>");
    proof {
        reveal_strlit("<cmd>");
    }
    let cmdline = if starts_with(t.as_slice(), marker.as_slice()) {
        let mut rest: Vec<char> = Vec::new();
        let mut i: usize = 5;
        while i < t.len()
            invariant
                5 <= i <= t@.len(),
                t@.len() >= 5,
                rest@ == t@.subrange(5, i as int),
            decreases t@.len() - i,
        {
            rest.push(t[i]);
            i = i + 1;
            assert(rest@ =~= t@.subrange(5, i as int));
        }
        assert(rest@ =~= t@.skip(5));
        trim_chars(rest.as_slice())
    } else {
        t
    };
    assert(cmdline@ == command_line(input@));
    let parts = split_words(cmdline.as_slice());
    let ghost ps = views(parts@);
    assert(ps == words(command_line(input@)));
    if parts.len() == 0 {
        return None;
    }
    let n = parts.len();
    let w = parts[0].as_slice();
    assert(w@ == ps[0]);
    if chars_eq_str(w, "display") || chars_eq_str(w, "unhide") {
        Some(PwmCommand::Display)
    } else if chars_eq_str(w, "hide") {
        Some(PwmCommand::Hide)
    } else if chars_eq_str(w, "list") || chars_eq_str(w, "ls") {
        Some(PwmCommand::List { plaintext: any_flag(&parts, "--plaintext", "-p") })
    } else if chars_eq_str(w, "get") {
        if n < 2 {
            None
        } else {
            Some(PwmCommand::Get {
                name: word_string(&parts, 1),
                fuzzy: any_flag(&parts, "--fuzzy", "-f"),
                copy: any_flag(&parts, "--copy", "-c"),
                plaintext: any_flag(&parts, "--plaintext", "-p"),
            })
        }
    } else if chars_eq_str(w, "add") {
        if n < 2 {
            None
        } else {
            let password = if n >= 3 { Some(word_string(&parts, 2)) } else { None };
            Some(PwmCommand::Add { name: word_string(&parts, 1), password })
        }
    } else if chars_eq_str(w, "rm") || chars_eq_str(w, "remove") || chars_eq_str(w, "delete") {
        if n < 2 { None } else { Some(PwmCommand::Rm { name: word_string(&parts, 1) }) }
    } else if chars_eq_str(w, "login") {
        Some(PwmCommand::Login)
    } else if chars_eq_str(w, "logout") {
        Some(PwmCommand::Logout)
    } else if chars_eq_str(w, "mv") || chars_eq_str(w, "rename") {
        if n < 3 {
            None
        } else {
            Some(PwmCommand::Mv { old_name: word_string(&parts, 1), new_name: word_string(&parts, 2) })
        }
    } else if chars_eq_str(w, "export") {
        let dir = if n >= 2 { word_string(&parts, 1) } else { String::new() };
        Some(PwmCommand::Export { dir })
    } else if chars_eq_str(w, "import") {
        if n < 3 {
            None
        } else {
            Some(PwmCommand::Import {
                vault_path: word_string(&parts, 1),
                recovery_path: word_string(&parts, 2),
            })
        }
    } else if chars_eq_str(w, "history") || chars_eq_str(w, "hist") {
        Some(PwmCommand::History)
    } else if chars_eq_str(w, "restore") {
        if n < 2 {
            None
        } else {
            assert(parts@[1]@ == ps[1]);
            match parse_usize(parts[1].as_slice()) {
                None => None,
                Some(index) => Some(PwmCommand::Restore { index }),
            }
        }
    } else if chars_eq_str(w, "help") {
        let subcommand = if n >= 2 { Some(word_string(&parts, 1)) } else { None };
        Some(PwmCommand::Help { subcommand })
    } else if chars_eq_str(w, "version") || chars_eq_str(w, "--version") || chars_eq_str(w, "-v") {
        Some(PwmCommand::Version)
    } else {
        None
    }
}

/// The usage text of the command language.
pub const HELP_TEXT: &'static str = "PWM — Password Manager

用法（CLI）:  pwm [全局选项] <子命令> [参数]
用法（搜索栏）: <cmd><子命令> [参数]

全局选项:
  --password <密码>   直接传入主密码（优先级最高）
  --password=<密码>   等号语法

子命令:
  display             明文显示密码（仅搜索栏）
  hide                恢复遮罩（仅搜索栏）
  login               登录并缓存主密码（本次 terminal 有效）
  logout              登出清除缓存
  list, ls           列出所有条目
    -p, --plaintext   明文显示
  get <name>          查看条目（默认严格+遮罩）
    -f, --fuzzy       模糊匹配
    -p, --plaintext   明文显示
    -c, --copy        复制到剪贴板（-f -c 静默复制）
  add <name> [密码]   添加条目
                        未指定密码时交互式选择：
                          设置密码(s) — 两次确认
                          自动生成(a) — 可选位数(4-64)
  rm, remove <name>   删除条目
  mv, rename <旧> <新> 重命名
  export [目录]       导出恢复包
  import <vault> <recovery>  从恢复包导入
  history, hist       查看历史版本
  restore <序号>      回滚到指定历史版本
  help [子命令]       显示帮助
  version, -v         显示版本号

密码来源（优先级）:
  1. --password 参数
  2. 已缓存的 session（pwm login）
  3. PWM_PASSWORD 环境变量
  4. 交互式输入
";

/// The usage text of the command language.
pub fn help_text() -> (r: &'static str)
    ensures
        r@ == HELP_TEXT@,
{
    HELP_TEXT
}

} // verus!
