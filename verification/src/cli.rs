//! The decisions of the `pwm` command line: how the arguments are read,
//! where the master password comes from, and what each command prints and
//! changes. Reading files, prompting and printing are left to the caller.

use vstd::prelude::*;
use crate::entries::{
    clone_entry, entry_line, format_entry, has_duplicate, has_duplicate_name, matching, matching_entries,
    name_is, not_containing, position_named, remove_containing,
};
use crate::message::{opt_str_view, PwmCommand, CommandView, HELP_TEXT};
use crate::model::{entry_views, EntryView, PasswordEntry};
use crate::password::masked;
use crate::text::{
    chars_of, chars_eq_str, decimal, has_prefix, lower_str, parse_usize, parse_usize_spec, starts_with,
    str_lowercase, string_from_chars, trim, trim_chars, usize_to_string,
};
use crate::history::strs;

verus! {

// ───────────────────────── arguments ─────────────────────────

/// Reading the arguments left to right: the command words, the password
/// given with `--password=<p>` or `--password <p>` (the last one wins), and
/// whether the next argument is a password.
pub open spec fn scan_args(args: Seq<Seq<char>>) -> (Seq<Seq<char>>, Option<Seq<char>>, bool)
    decreases args.len(),
{
    if args.len() == 0 {
        (seq![], None, false)
    } else {
        let (cmd, pwd, skip) = scan_args(args.drop_last());
        let a = args.last();
        if skip {
            (cmd, Some(a), false)
        } else if has_prefix(a, "--password="@) {
            (cmd, Some(a.skip(11)), false)
        } else if a == "--password"@ {
            (cmd, pwd, true)
        } else {
            (cmd.push(a), pwd, false)
        }
    }
}

/// Separates the master password given on the command line from the
/// command words.
pub fn split_password_args(args: &Vec<String>) -> (r: (Vec<String>, Option<String>))
    ensures
        strs(r.0@) == scan_args(strs(args@)).0,
        opt_str_view(r.1) == scan_args(strs(args@)).1,
{
    let mut cmd_args: Vec<String> = Vec::new();
    let mut cli_password: Option<String> = None;
    let mut skip_next = false;
    let prefix = chars_of("--password=");
    proof {
        reveal_strlit("--password=");
    }
    let mut i: usize = 0;
    assert(strs(args@.take(0)) =~= Seq::<Seq<char>>::empty());
    assert(strs(cmd_args@) =~= Seq::<Seq<char>>::empty());
    while i < args.len()
        invariant
            i <= args@.len(),
            prefix@ == "--password="@,
            "--password="@.len() == 11,
            scan_args(strs(args@.take(i as int))) == (strs(cmd_args@), opt_str_view(cli_password), skip_next),
        decreases args@.len() - i,
    {
        let a = &args[i];
        assert(strs(args@.take(i + 1)).drop_last() =~= strs(args@.take(i as int)));
        assert(strs(args@.take(i + 1)).last() == a@);
        let ac = chars_of(a.as_str());
        if skip_next {
            cli_password = Some(a.clone());
            skip_next = false;
        } else if starts_with(ac.as_slice(), prefix.as_slice()) {
            let mut rest: Vec<char> = Vec::new();
            let mut k: usize = 11;
            while k < ac.len()
                invariant
                    11 <= k <= ac@.len(),
                    rest@ == ac@.subrange(11, k as int),
                decreases ac@.len() - k,
            {
                rest.push(ac[k]);
                k = k + 1;
                assert(rest@ =~= ac@.subrange(11, k as int));
            }
            assert(rest@ =~= ac@.skip(11));
            cli_password = Some(string_from_chars(rest.as_slice()));
        } else if chars_eq_str(ac.as_slice(), "--password") {
            skip_next = true;
        } else {
            let ghost old_c = cmd_args@;
            cmd_args.push(a.clone());
            assert(strs(cmd_args@) =~= strs(old_c).push(a@));
        }
        i = i + 1;
    }
    assert(args@.take(args@.len() as int) =~= args@);
    (cmd_args, cli_password)
}

/// Words joined by single spaces.
pub open spec fn join_spaced(words: Seq<Seq<char>>) -> Seq<char>
    decreases words.len(),
{
    if words.len() == 0 {
        seq![]
    } else if words.len() == 1 {
        words[0]
    } else {
        join_spaced(words.drop_last()) + " "@ + words.last()
    }
}

/// The command words as one line, for the parser.
pub fn join_args(args: &Vec<String>) -> (r: String)
    ensures
        r@ == join_spaced(strs(args@)),
{
    let mut s = String::new();
    let mut i: usize = 0;
    while i < args.len()
        invariant
            i <= args@.len(),
            s@ == join_spaced(strs(args@.take(i as int))),
        decreases args@.len() - i,
    {
        assert(strs(args@.take(i + 1)).drop_last() =~= strs(args@.take(i as int)));
        assert(strs(args@.take(i + 1)).last() == args@[i as int]@);
        if i > 0 {
            s.append(" ");
        }
        s.append(args[i].as_str());
        if i == 0 {
            assert(s@ =~= args@[0]@);
        }
        i = i + 1;
    }
    assert(args@.take(args@.len() as int) =~= args@);
    s
}

/// The master password in order of preference: a non-empty one given on
/// the command line, a non-empty cached session, a non-empty `PWM_PASSWORD`
/// environment variable; `None` means asking interactively.
pub open spec fn master_password_choice(
    cli: Option<Seq<char>>,
    session: Option<Seq<char>>,
    env: Option<Seq<char>>,
) -> Option<Seq<char>> {
    if cli is Some && cli->0.len() > 0 {
        cli
    } else if session is Some && session->0.len() > 0 {
        session
    } else if env is Some && env->0.len() > 0 {
        env
    } else {
        None
    }
}

/// Picks the master password from the sources that need no prompt.
pub fn choose_master_password(cli: Option<String>, session: Option<String>, env: Option<String>) -> (r: Option<String>)
    ensures
        opt_str_view(r) == master_password_choice(opt_str_view(cli), opt_str_view(session), opt_str_view(env)),
{
    match cli {
        Some(p) if !p.as_str().is_empty() => return Some(p),
        _ => {},
    }
    match session {
        Some(p) if !p.as_str().is_empty() => return Some(p),
        _ => {},
    }
    match env {
        Some(p) if !p.as_str().is_empty() => return Some(p),
        _ => {},
    }
    None
}

// ───────────────────────── commands without a vault ─────────────────────────

/// What the command line does before it needs the vault.
#[derive(Debug)]
pub enum CliStart {
    /// Print this text and stop.
    Print(String),
    /// Fail with this message.
    Fail(String),
    /// Prompt for the master password and cache it.
    Login,
    /// Forget the cached password.
    Logout,
    /// Open the vault and run the command.
    NeedsVault,
}

/// The first decision for a parsed command.
pub open spec fn start_spec(cmd: CommandView) -> (Seq<char>, u8) {
    match cmd {
        CommandView::Version => ("PWM Password Manager v1.0.0"@, 0u8),
        CommandView::Help { subcommand } => match subcommand {
            None => (HELP_TEXT@, 0u8),
            Some(sub) => ("`pwm help "@ + sub + "` — 暂未实现详细帮助"@, 0u8),
        },
        CommandView::Display | CommandView::Hide => ("`display` 和 `hide` 命令仅在 GUI 搜索栏中有效"@, 1u8),
        CommandView::Login => (seq![], 2u8),
        CommandView::Logout => (seq![], 3u8),
        _ => (seq![], 4u8),
    }
}

/// The kind and text of a first decision.
pub open spec fn start_view(s: CliStart) -> (Seq<char>, u8) {
    match s {
        CliStart::Print(t) => (t@, 0u8),
        CliStart::Fail(t) => (t@, 1u8),
        CliStart::Login => (seq![], 2u8),
        CliStart::Logout => (seq![], 3u8),
        CliStart::NeedsVault => (seq![], 4u8),
    }
}

/// Version and help print without a vault; `display` and `hide` are
/// refused; `login` and `logout` manage the session; the rest need the
/// vault.
pub fn start(cmd: &PwmCommand) -> (r: CliStart)
    ensures
        start_view(r) == start_spec(cmd@),
{
    match cmd {
        PwmCommand::Version => CliStart::Print(String::from_str("PWM Password Manager v1.0.0")),
        PwmCommand::Help { subcommand } => match subcommand {
            None => CliStart::Print(String::from_str(HELP_TEXT)),
            Some(sub) => {
                let mut t = String::from_str("`pwm help ");
                t.append(sub.as_str());
                t.append("` — 暂未实现详细帮助");
                CliStart::Print(t)
            },
        },
        PwmCommand::Display | PwmCommand::Hide => CliStart::Fail(String::from_str(
            "`display` 和 `hide` 命令仅在 GUI 搜索栏中有效")),
        PwmCommand::Login => CliStart::Login,
        PwmCommand::Logout => CliStart::Logout,
        _ => {
            proof {
                assert(start_spec(cmd@).1 == 4u8);
            }
            CliStart::NeedsVault
        },
    }
}

/// The error for a line that is no command: a pointer to `pwm help`, then
/// the help text.
pub fn unknown_command_message() -> (r: String)
    ensures
        r@ == "未知命令。输入 `pwm help` 查看帮助\n"@ + HELP_TEXT@,
{
    let mut t = String::from_str("未知命令。输入 `pwm help` 查看帮助\n");
    t.append(HELP_TEXT);
    t
}

/// When no vault exists yet: `add` creates one (`Ok`), every other command
/// fails with the message asking to create or import one first.
pub fn when_vault_missing(cmd: &PwmCommand) -> (r: Result<(), String>)
    ensures
        cmd@ is Add ==> r is Ok,
        !(cmd@ is Add) ==> r is Err && r->Err_0@ == "保险库不存在，请先通过 GUI 创建或导入"@,
{
    match cmd {
        PwmCommand::Add { .. } => Ok(()),
        _ => Err(String::from_str("保险库不存在，请先通过 GUI 创建或导入")),
    }
}

// ───────────────────────── commands on the vault ─────────────────────────

/// What a command printed and changed.
#[derive(Debug)]
pub struct CliOutcome {
    /// Lines to print, in order.
    pub lines: Vec<String>,
    /// Whether the vault must be saved.
    pub save: bool,
    /// Text to put on the clipboard.
    pub clipboard: Option<String>,
}

/// The lines that `list` prints.
pub open spec fn list_lines(es: Seq<EntryView>, plaintext: bool) -> Seq<Seq<char>> {
    (if es.len() == 0 { seq!["（空）"@] } else { seq![] })
        + Seq::new(es.len(), |i: int| entry_line(es[i], plaintext))
}

/// Lists every entry, masked unless `plaintext`.
pub fn cli_list(entries: &[PasswordEntry], plaintext: bool) -> (r: Vec<String>)
    ensures
        strs(r@) == list_lines(entry_views(entries@), plaintext),
{
    let ghost es = entry_views(entries@);
    let mut lines: Vec<String> = Vec::new();
    if entries.len() == 0 {
        lines.push(String::from_str("（空）"));
    }
    let ghost head = strs(lines@);
    let mut i: usize = 0;
    while i < entries.len()
        invariant
            es == entry_views(entries@),
            head == (if es.len() == 0 { seq!["（空）"@] } else { Seq::<Seq<char>>::empty() }),
            i <= entries@.len(),
            strs(lines@) == head + Seq::new(i as nat, |k: int| entry_line(es[k], plaintext)),
        decreases entries@.len() - i,
    {
        let ghost old_l = lines@;
        let line = format_entry(&entries[i], plaintext);
        assert(es[i as int] == entries@[i as int]@);
        assert(line@ == entry_line(es[i as int], plaintext));
        lines.push(line);
        assert(strs(lines@) =~= strs(old_l).push(entry_line(es[i as int], plaintext)));
        assert(strs(lines@) =~= head + Seq::new((i + 1) as nat, |k: int| entry_line(es[k], plaintext)));
        i = i + 1;
    }
    assert(Seq::new(entries@.len() as nat, |k: int| entry_line(es[k], plaintext))
        =~= Seq::new(es.len(), |i: int| entry_line(es[i], plaintext)));
    lines
}


/// Whether `get` also copies: asked for, and not a quiet fuzzy copy.
pub open spec fn copies(fuzzy: bool, copy: bool, plaintext: bool) -> bool {
    copy && !(fuzzy && !plaintext)
}

/// The line that `get` prints for one matched entry.
pub open spec fn get_line(e: EntryView, fuzzy: bool, copy: bool, plaintext: bool) -> Seq<char> {
    if plaintext {
        entry_line(e, true)
    } else if copy && fuzzy {
        "已复制: "@ + e.name
    } else {
        entry_line(e, false)
    }
}

/// What `get` prints: the matches (exact names unless `fuzzy`, ignoring
/// case), and a note when the first match was copied with its password
/// masked.
pub open spec fn get_lines(es: Seq<EntryView>, name: Seq<char>, fuzzy: bool, copy: bool, plaintext: bool) -> Seq<Seq<char>> {
    let m = matching(es, name, !fuzzy);
    if m.len() == 0 {
        seq!["未找到匹配: "@ + name]
    } else {
        Seq::new(m.len(), |i: int| get_line(m[i], fuzzy, copy, plaintext))
            + if copies(fuzzy, copy, plaintext) && !plaintext { seq!["(已复制到剪贴板)"@] } else { seq![] }
    }
}

/// What `get` puts on the clipboard: the first match's password, when it copies.
pub open spec fn get_clipboard(es: Seq<EntryView>, name: Seq<char>, fuzzy: bool, copy: bool, plaintext: bool) -> Option<Seq<char>> {
    let m = matching(es, name, !fuzzy);
    if m.len() > 0 && copies(fuzzy, copy, plaintext) { Some(m[0].password) } else { None }
}

/// The `get` command.
pub fn cli_get(entries: &[PasswordEntry], name: &str, fuzzy: bool, copy: bool, plaintext: bool) -> (r: CliOutcome)
    ensures
        strs(r.lines@) == get_lines(entry_views(entries@), name@, fuzzy, copy, plaintext),
        opt_str_view(r.clipboard) == get_clipboard(entry_views(entries@), name@, fuzzy, copy, plaintext),
        !r.save,
{
    let m = matching_entries(entries, name, !fuzzy);
    let ghost mv = entry_views(m@);
    let mut lines: Vec<String> = Vec::new();
    if m.len() == 0 {
        let mut t = String::from_str("未找到匹配: ");
        t.append(name);
        lines.push(t);
        assert(strs(lines@) =~= seq![t@]);
        return CliOutcome { lines, save: false, clipboard: None };
    }
    let mut i: usize = 0;
    while i < m.len()
        invariant
            mv == entry_views(m@),
            i <= m@.len(),
            strs(lines@) == Seq::new(i as nat, |k: int| get_line(mv[k], fuzzy, copy, plaintext)),
        decreases m@.len() - i,
    {
        let e = &m[i];
        assert(mv[i as int] == e@);
        let line = if plaintext {
            format_entry(e, true)
        } else if copy && fuzzy {
            let mut t = String::from_str("已复制: ");
            t.append(e.name.as_str());
            t
        } else {
            format_entry(e, false)
        };
        let ghost old_l = lines@;
        lines.push(line);
        assert(strs(lines@) =~= strs(old_l).push(get_line(mv[i as int], fuzzy, copy, plaintext)));
        assert(strs(lines@) =~= Seq::new((i + 1) as nat, |k: int| get_line(mv[k], fuzzy, copy, plaintext)));
        i = i + 1;
    }
    let ghost body = strs(lines@);
    let mut clipboard: Option<String> = None;
    if copy && !(fuzzy && !plaintext) {
        clipboard = Some(m[0].password.clone());
        if !plaintext {
            lines.push(String::from_str("(已复制到剪贴板)"));
            assert(strs(lines@) =~= body + seq!["(已复制到剪贴板)"@]);
        } else {
            assert(strs(lines@) =~= body + Seq::<Seq<char>>::empty());
        }
    } else {
        assert(strs(lines@) =~= body + Seq::<Seq<char>>::empty());
    }
    CliOutcome { lines, save: false, clipboard }
}

/// One line of output.
fn one_line(t: String) -> (r: Vec<String>)
    ensures
        strs(r@) == seq![t@],
{
    let mut v: Vec<String> = Vec::new();
    v.push(t);
    assert(strs(v@) =~= seq![t@]);
    v
}

/// `prefix` followed by `s`.
fn prefixed(prefix: &str, s: &str) -> (r: String)
    ensures
        r@ == prefix@ + s@,
{
    let mut r = String::from_str(prefix);
    r.append(s);
    r
}

/// The `add` command with its password settled: refused when the name is
/// taken (ignoring case and surrounding whitespace), otherwise the entry is
/// appended (with the name as typed) and the vault saved.
pub fn cli_add(entries: &mut Vec<PasswordEntry>, name: &str, password: String) -> (r: CliOutcome)
    ensures
        has_duplicate(entry_views(old(entries)@), name@, None) ==> {
            &&& entry_views(final(entries)@) == entry_views(old(entries)@)
            &&& strs(r.lines@) == seq!["已存在同名密码: "@ + name@]
            &&& !r.save
        },
        !has_duplicate(entry_views(old(entries)@), name@, None) ==> {
            &&& entry_views(final(entries)@) == entry_views(old(entries)@).push(EntryView { name: name@, password: password@ })
            &&& strs(r.lines@) == seq!["已添加: "@ + name@]
            &&& r.save
        },
        r.clipboard is None,
{
    if has_duplicate_name(entries.as_slice(), name, None) {
        return CliOutcome { lines: one_line(prefixed("已存在同名密码: ", name)), save: false, clipboard: None };
    }
    let ghost before = entry_views(entries@);
    entries.push(PasswordEntry { name: String::from_str(name), password });
    assert(entry_views(entries@) =~= before.push(EntryView { name: name@, password: password@ }));
    CliOutcome { lines: one_line(prefixed("已添加: ", name)), save: true, clipboard: None }
}

/// The `rm` command: removes every entry whose name contains `name`,
/// ignoring case; saves when something was removed.
pub fn cli_rm(entries: &mut Vec<PasswordEntry>, name: &str) -> (r: CliOutcome)
    ensures
        entry_views(final(entries)@) == not_containing(entry_views(old(entries)@), name@),
        r.save == (final(entries)@.len() < old(entries)@.len()),
        strs(r.lines@) == if final(entries)@.len() < old(entries)@.len() {
            seq!["已删除 "@ + decimal((old(entries)@.len() - final(entries)@.len()) as nat) + " 个条目"@]
        } else {
            seq!["未找到匹配: "@ + name@]
        },
        r.clipboard is None,
{
    let removed = remove_containing(entries, name);
    if removed == 0 {
        CliOutcome { lines: one_line(prefixed("未找到匹配: ", name)), save: false, clipboard: None }
    } else {
        let mut t = String::from_str("已删除 ");
        let n = usize_to_string(removed);
        t.append(n.as_str());
        t.append(" 个条目");
        CliOutcome { lines: one_line(t), save: true, clipboard: None }
    }
}

/// The `mv` command: renames the first entry named `old_name` (ignoring
/// case) to `new_name`, without checking the new name.
pub fn cli_mv(entries: &mut Vec<PasswordEntry>, old_name: &str, new_name: &str) -> (r: CliOutcome)
    ensures
        crate::entries::first_named(entry_views(old(entries)@), old_name@) is None ==> {
            &&& entry_views(final(entries)@) == entry_views(old(entries)@)
            &&& strs(r.lines@) == seq!["未找到: "@ + old_name@]
            &&& !r.save
        },
        crate::entries::first_named(entry_views(old(entries)@), old_name@) is Some ==> {
            let i = crate::entries::first_named(entry_views(old(entries)@), old_name@)->0;
            &&& entry_views(final(entries)@) == entry_views(old(entries)@).update(i,
                EntryView { name: new_name@, password: entry_views(old(entries)@)[i].password })
            &&& strs(r.lines@) == seq!["已重命名: "@ + old_name@ + " → "@ + new_name@]
            &&& r.save
        },
        r.clipboard is None,
{
    let pos = position_named(entries.as_slice(), old_name);
    let ghost before = entry_views(entries@);
    proof {
        assert forall|k: int| 0 <= k < entries@.len() implies before[k] == entries@[k]@ by {}
        crate::update::lemma_first_named_pos(before, old_name@, pos);
    }
    match pos {
        None => CliOutcome { lines: one_line(prefixed("未找到: ", old_name)), save: false, clipboard: None },
        Some(i) => {
            let password = entries[i].password.clone();
            entries.set(i, PasswordEntry { name: String::from_str(new_name), password });
            assert(entry_views(entries@) =~= before.update(i as int,
                EntryView { name: new_name@, password: before[i as int].password }));
            let mut t = prefixed("已重命名: ", old_name);
            t.append(" → ");
            t.append(new_name);
            CliOutcome { lines: one_line(t), save: true, clipboard: None }
        },
    }
}

/// What `history` prints for the sorted names of the history directory.
pub open spec fn history_lines(names: Seq<Seq<char>>) -> Seq<Seq<char>> {
    if names.len() == 0 {
        seq!["暂无历史版本"@]
    } else {
        Seq::new(names.len(), |i: int| decimal(i as nat) + ". "@ + names[i])
    }
}

/// The lines of the `history` command, numbered from 0.
pub fn cli_history_lines(sorted: &Vec<String>) -> (r: Vec<String>)
    ensures
        strs(r@) == history_lines(strs(sorted@)),
{
    if sorted.len() == 0 {
        return one_line(String::from_str("暂无历史版本"));
    }
    let ghost ns = strs(sorted@);
    let mut lines: Vec<String> = Vec::new();
    let mut i: usize = 0;
    while i < sorted.len()
        invariant
            ns == strs(sorted@),
            i <= sorted@.len(),
            strs(lines@) == Seq::new(i as nat, |k: int| decimal(k as nat) + ". "@ + ns[k]),
        decreases sorted@.len() - i,
    {
        let mut t = usize_to_string(i);
        t.append(". ");
        t.append(sorted[i].as_str());
        let ghost old_l = lines@;
        assert(ns[i as int] == sorted@[i as int]@);
        assert(t@ == decimal(i as nat) + ". "@ + ns[i as int]);
        lines.push(t);
        assert(strs(lines@) =~= strs(old_l).push(decimal(i as nat) + ". "@ + ns[i as int]));
        assert(strs(lines@) =~= Seq::new((i + 1) as nat, |k: int| decimal(k as nat) + ". "@ + ns[k]));
        i = i + 1;
    }
    lines
}

/// The message after importing `n` entries.
pub fn imported_message(n: usize) -> (r: String)
    ensures
        r@ == "已导入 "@ + decimal(n as nat) + " 个条目"@,
{
    let mut t = String::from_str("已导入 ");
    let c = usize_to_string(n);
    t.append(c.as_str());
    t.append(" 个条目");
    t
}

/// The message after restoring history version `index`.
pub fn restored_message(index: usize) -> (r: String)
    ensures
        r@ == "已恢复到历史版本 #"@ + decimal(index as nat),
{
    let mut t = String::from_str("已恢复到历史版本 #");
    let c = usize_to_string(index);
    t.append(c.as_str());
    t
}

/// The error for a history position that does not exist.
pub fn invalid_index_message(index: usize) -> (r: String)
    ensures
        r@ == "无效的序号: "@ + decimal(index as nat),
{
    let mut t = String::from_str("无效的序号: ");
    let c = usize_to_string(index);
    t.append(c.as_str());
    t
}

/// The directory to export to: the one given, `export_recovery` when none is.
pub fn export_dir(dir: &str) -> (r: String)
    ensures
        r@ == if dir@.len() == 0 { "export_recovery"@ } else { dir@ },
{
    if dir.is_empty() { String::from_str("export_recovery") } else { String::from_str(dir) }
}

/// Whether the answer to "set (s) or generate (a)" asks to set the password
/// by hand: `s` or `设置`, ignoring case and surrounding whitespace.
pub fn wants_manual(choice: &str) -> (r: bool)
    ensures
        r == (str_lowercase(trim(choice@)) == "s"@ || str_lowercase(trim(choice@)) == "设置"@),
{
    let t = trim_chars(chars_of(choice).as_slice());
    let ts = string_from_chars(t.as_slice());
    let l = lower_str(ts.as_str());
    let lc = chars_of(l.as_str());
    chars_eq_str(lc.as_slice(), "s") || chars_eq_str(lc.as_slice(), "设置")
}

/// The length of a generated password from the typed answer: the number
/// (16 when it is not one), kept between 4 and 64.
pub fn generated_length(input: &str) -> (r: usize)
    ensures
        r == ({
            let n = match parse_usize_spec(trim(input@)) { Some(n) => n, None => 16 };
            if n < 4 { 4 } else if n > 64 { 64 } else { n }
        }),
{
    let t = trim_chars(chars_of(input).as_slice());
    let n = match parse_usize(t.as_slice()) {
        Some(n) => n,
        None => 16,
    };
    if n < 4 { 4 } else if n > 64 { 64 } else { n }
}

/// Checks a password typed twice: `None` when it is accepted (both the same
/// and not empty), otherwise the message to show before asking again.
pub fn check_typed_password(first: &str, second: &str) -> (r: Option<String>)
    ensures
        first@ == second@ && first@.len() > 0 ==> r is None,
        first@ != second@ ==> opt_str_view(r) == Some("两次输入的密码不一致，请重新输入"@),
        first@ == second@ && first@.len() == 0 ==> opt_str_view(r) == Some("密码不能为空"@),
{
    let a = chars_of(first);
    let b = chars_of(second);
    if crate::text::chars_eq(a.as_slice(), b.as_slice()) {
        if a.len() > 0 { None } else { Some(String::from_str("密码不能为空")) }
    } else {
        Some(String::from_str("两次输入的密码不一致，请重新输入"))
    }
}

} // verus!
