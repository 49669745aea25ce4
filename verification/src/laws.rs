//! Properties of the library as a whole: what one call undoes or keeps, and
//! how the parts agree with each other.

use vstd::prelude::*;
use crate::cli::scan_args;
use crate::entries::{first_named, has_duplicate, name_contains, not_containing};
use crate::message::{command_line, has_flag, parse_spec, parse_words};
use crate::model::EntryView;
use crate::text::{
    all_digits, decimal, digit_char, digit_value, digits_value, has_prefix, is_ws, parse_usize_spec, str_lowercase,
    trim, trim_end, trim_start, unsigned_digits, word_len, words, lemma_word_len_bound,
};
use crate::update::{run_command, unlocked_step, update_spec, wanted_history_count, Message, EffectView};
use crate::message::CommandView;
use crate::search::{fuzzy_result, lowered, match_score, next_occurrence};
use crate::model::{ModelView, UnlockedView};
use crate::vault::{check_text, hash_mismatch, open_spec, spec_sha256_hex, law_check_line_accepted, VaultError};

verus! {

// ───────────────────────── text ─────────────────────────

/// Leading whitespace does not change the words.
proof fn lemma_words_trim_start(x: Seq<char>)
    ensures
        words(trim_start(x)) == words(x),
    decreases x.len(),
{
    if x.len() > 0 && is_ws(x[0]) {
        lemma_words_trim_start(x.drop_first());
    }
}

/// Appending whitespace does not change the length of the first word.
proof fn lemma_word_len_push_ws(y: Seq<char>, c: char)
    requires
        is_ws(c),
    ensures
        word_len(y.push(c)) == word_len(y),
    decreases y.len(),
{
    if y.len() > 0 && !is_ws(y[0]) {
        assert(y.push(c).drop_first() =~= y.drop_first().push(c));
        lemma_word_len_push_ws(y.drop_first(), c);
    }
}

/// Appending whitespace does not change the words.
proof fn lemma_words_push_ws(y: Seq<char>, c: char)
    requires
        is_ws(c),
    ensures
        words(y.push(c)) == words(y),
    decreases y.len(),
{
    let z = y.push(c);
    if y.len() == 0 {
        assert(z[0] == c);
        assert(z.drop_first() =~= Seq::<char>::empty());
        assert(words(z) == words(z.drop_first()));
        assert(words(z) =~= words(y));
    } else if is_ws(y[0]) {
        assert(z[0] == y[0]);
        assert(z.drop_first() =~= y.drop_first().push(c));
        lemma_words_push_ws(y.drop_first(), c);
        assert(words(z) == words(z.drop_first()));
        assert(words(y) == words(y.drop_first()));
        assert(words(z) =~= words(y));
    } else {
        lemma_word_len_push_ws(y, c);
        lemma_word_len_bound(y);
        lemma_word_len_bound(z);
        let k = word_len(y) as int;
        assert(z[0] == y[0]);
        assert(word_len(z) == k);
        assert(words(z) == seq![z.take(k)] + words(z.skip(k)));
        assert(words(y) == seq![y.take(k)] + words(y.skip(k)));
        assert(z.take(k) =~= y.take(k));
        assert(z.skip(k) =~= y.skip(k).push(c));
        lemma_words_push_ws(y.skip(k), c);
        assert(words(z.skip(k)) == words(y.skip(k)));
        assert(words(z) =~= words(y));
    }
}

/// Trailing whitespace does not change the words.
proof fn lemma_words_trim_end(x: Seq<char>)
    ensures
        words(trim_end(x)) == words(x),
    decreases x.len(),
{
    if x.len() > 0 && is_ws(x.last()) {
        lemma_words_trim_end(x.drop_last());
        assert(x =~= x.drop_last().push(x.last()));
        lemma_words_push_ws(x.drop_last(), x.last());
    }
}

/// Surrounding whitespace does not change the words.
proof fn lemma_words_trim(x: Seq<char>)
    ensures
        words(trim(x)) == words(x),
{
    lemma_words_trim_end(trim_start(x));
    lemma_words_trim_start(x);
}

/// Trailing whitespace after a text that ends in a non-space is trimmed
/// from the text's tail alone.
proof fn lemma_trim_end_concat(p: Seq<char>, s: Seq<char>)
    requires
        p.len() > 0,
        !is_ws(p.last()),
    ensures
        trim_end(p + s) == p + trim_end(s),
    decreases s.len(),
{
    if s.len() == 0 {
        assert(p + s =~= p);
        assert(p + trim_end(s) =~= p);
    } else if is_ws(s.last()) {
        assert((p + s).drop_last() =~= p + s.drop_last());
        lemma_trim_end_concat(p, s.drop_last());
    } else {
        assert((p + s).last() == s.last());
    }
}

/// A `<cmd>` line in the search bar means what the same line means on the
/// command line: one parser serves both.
pub proof fn law_cmd_prefix_same_command(s: Seq<char>)
    requires
        !has_prefix(trim(s), "<cmd>"@),
    ensures
        parse_spec("<cmd>"@ + s) == parse_spec(s),
{
    reveal_strlit("<cmd>");
    let p = "<cmd>"@;
    let x = p + s;
    assert(!is_ws(x[0]));
    assert(trim_start(x) == x);
    assert(!is_ws(p.last()));
    lemma_trim_end_concat(p, s);
    assert(trim(x) == p + trim_end(s));
    assert((p + trim_end(s)).take(5) =~= p);
    assert((p + trim_end(s)).skip(5) =~= trim_end(s));
    assert(command_line(x) == trim(trim_end(s)));
    lemma_words_trim(trim_end(s));
    lemma_words_trim_end(s);
    lemma_words_trim(s);
    assert(command_line(s) == trim(s));
}

/// A digit character reads back as its digit.
proof fn lemma_digit_char(d: nat)
    requires
        d < 10,
    ensures
        crate::text::is_digit(digit_char(d)),
        digit_value(digit_char(d)) == d,
{
    if d == 0 { assert(digit_char(d) == '0'); }
    else if d == 1 { assert(digit_char(d) == '1'); }
    else if d == 2 { assert(digit_char(d) == '2'); }
    else if d == 3 { assert(digit_char(d) == '3'); }
    else if d == 4 { assert(digit_char(d) == '4'); }
    else if d == 5 { assert(digit_char(d) == '5'); }
    else if d == 6 { assert(digit_char(d) == '6'); }
    else if d == 7 { assert(digit_char(d) == '7'); }
    else if d == 8 { assert(digit_char(d) == '8'); }
    else { assert(digit_char(d) == '9'); }
}

/// Whether every character of `w` is whitespace.
pub open spec fn all_ws(w: Seq<char>) -> bool {
    forall|i: int| 0 <= i < w.len() ==> is_ws(#[trigger] w[i])
}

/// Leading whitespace is trimmed away.
proof fn lemma_trim_start_ws_prefix(w: Seq<char>, y: Seq<char>)
    requires
        all_ws(w),
    ensures
        trim_start(w + y) == trim_start(y),
        words(w + y) == words(y),
    decreases w.len(),
{
    if w.len() == 0 {
        assert(w + y =~= y);
    } else {
        assert((w + y)[0] == w[0]);
        assert((w + y).drop_first() =~= w.drop_first() + y);
        assert(all_ws(w.drop_first()));
        lemma_trim_start_ws_prefix(w.drop_first(), y);
    }
}

/// Trailing whitespace is trimmed away.
proof fn lemma_trim_end_ws_suffix(y: Seq<char>, w: Seq<char>)
    requires
        all_ws(w),
    ensures
        trim_end(y + w) == trim_end(y),
    decreases w.len(),
{
    if w.len() == 0 {
        assert(y + w =~= y);
    } else {
        assert((y + w).last() == w.last());
        assert((y + w).drop_last() =~= y + w.drop_last());
        assert(all_ws(w.drop_last()));
        lemma_trim_end_ws_suffix(y, w.drop_last());
    }
}

/// The search-bar form with whitespace around the marker and the line,
/// `  <cmd>  s  `, means what `s` means on the command line (for a line that
/// does not itself start with the marker).
pub proof fn law_padded_cmd_same_command(w1: Seq<char>, w2: Seq<char>, s: Seq<char>, w3: Seq<char>)
    requires
        all_ws(w1),
        all_ws(w2),
        all_ws(w3),
        !has_prefix(trim(s), "<cmd>"@),
    ensures
        parse_spec(w1 + "<cmd>"@ + w2 + s + w3) == parse_spec(s),
{
    reveal_strlit("<cmd>");
    let p = "<cmd>"@;
    let z = w2 + s;
    let y = p + z;
    let x = w1 + "<cmd>"@ + w2 + s + w3;
    assert(x =~= w1 + (y + w3));
    lemma_trim_start_ws_prefix(w1, y + w3);
    assert((y + w3)[0] == '<');
    assert(trim_start(y + w3) == y + w3);
    lemma_trim_end_ws_suffix(y, w3);
    assert(!is_ws(p.last()));
    lemma_trim_end_concat(p, z);
    assert(trim(x) == p + trim_end(z));
    assert((p + trim_end(z)).take(5) =~= p);
    assert((p + trim_end(z)).skip(5) =~= trim_end(z));
    assert(command_line(x) == trim(trim_end(z)));
    lemma_words_trim(trim_end(z));
    lemma_words_trim_end(z);
    lemma_trim_start_ws_prefix(w2, s);
    lemma_words_trim(s);
    assert(command_line(s) == trim(s));
}

/// The words of a line after the search-bar marker is taken off the first
/// word (a first word that is just the marker disappears).
pub open spec fn marker_words(ws: Seq<Seq<char>>) -> Seq<Seq<char>> {
    if ws.len() > 0 && has_prefix(ws[0], "<cmd>"@) {
        (if ws[0].len() > 5 { seq![ws[0].skip(5)] } else { Seq::<Seq<char>>::empty() }) + ws.drop_first()
    } else {
        ws
    }
}

/// A trimmed text starts with a non-space.
proof fn lemma_trim_front(x: Seq<char>)
    ensures
        trim(x).len() == 0 || !is_ws(trim(x)[0]),
{
    let a = trim_start(x);
    lemma_trim_start_front(x);
    lemma_trim_end_back(a);
    if trim(x).len() > 0 {
        assert(trim(x)[0] == a[0]);
    }
}

/// A text whose first `j` characters are not spaces has a first word of at
/// least `j` characters.
proof fn lemma_word_len_at_least(t: Seq<char>, j: int)
    requires
        0 <= j <= t.len(),
        forall|i: int| 0 <= i < j ==> !is_ws(#[trigger] t[i]),
    ensures
        word_len(t) >= j,
    decreases j,
{
    if j > 0 {
        assert(!is_ws(t[0]));
        assert forall|i: int| 0 <= i < j - 1 implies !is_ws(#[trigger] t.drop_first()[i]) by {
            assert(t.drop_first()[i] == t[i + 1]);
        }
        lemma_word_len_at_least(t.drop_first(), j - 1);
    }
}

/// Skipping into the first word shortens it by as much.
proof fn lemma_word_len_skip(x: Seq<char>, j: int)
    requires
        0 <= j <= word_len(x),
    ensures
        word_len(x.skip(j)) == word_len(x) - j,
    decreases j,
{
    if j == 0 {
        assert(x.skip(0) =~= x);
    } else {
        lemma_word_len_bound(x);
        assert(x.len() > 0 && !is_ws(x[0]));
        assert(x.drop_first().skip(j - 1) =~= x.skip(j));
        lemma_word_len_skip(x.drop_first(), j - 1);
    }
}

/// The words of the command part of a line are the line's words with the
/// marker taken off.
pub proof fn lemma_command_words(x: Seq<char>)
    ensures
        words(command_line(x)) == marker_words(words(x)),
{
    reveal_strlit("<cmd>");
    let m = "<cmd>"@;
    let t = trim(x);
    lemma_words_trim(x);
    lemma_trim_front(x);
    if t.len() > 0 {
        lemma_word_len_bound(t);
        let k = word_len(t) as int;
        let w0 = t.take(k);
        assert(words(t) == seq![w0] + words(t.skip(k)));
        assert(words(x)[0] == w0);
        assert(words(x).drop_first() =~= words(t.skip(k)));
        if has_prefix(t, m) {
            assert forall|i: int| 0 <= i < 5 implies !is_ws(#[trigger] t[i]) by {
                assert(t[i] == t.take(5)[i]);
                assert(m[i] == '<' || m[i] == 'c' || m[i] == 'm' || m[i] == 'd' || m[i] == '>');
            }
            lemma_word_len_at_least(t, 5);
            assert(w0.take(5) =~= t.take(5));
            assert(has_prefix(w0, m));
            assert(command_line(x) == trim(t.skip(5)));
            lemma_words_trim(t.skip(5));
            if k > 5 {
                lemma_word_len_skip(t, 5);
                let u = t.skip(5);
                lemma_word_len_bound(u);
                assert(u.take(k - 5) =~= w0.skip(5));
                assert(u.skip(k - 5) =~= t.skip(k));
                assert(words(u) == seq![u.take(k - 5)] + words(u.skip(k - 5)));
                assert(words(command_line(x)) =~= marker_words(words(x)));
            } else {
                assert(k == 5);
                assert(marker_words(words(x)) =~= words(t.skip(k)));
            }
        } else {
            if has_prefix(w0, m) {
                assert(t.take(5) =~= w0.take(5));
            }
            assert(!has_prefix(w0, m));
        }
    } else {
        assert(words(t) =~= Seq::<Seq<char>>::empty());
    }
}

/// What a line means depends only on its words: two lines with the same
/// whitespace-separated words parse alike.
pub proof fn law_parse_depends_on_words(a: Seq<char>, b: Seq<char>)
    requires
        words(a) == words(b),
    ensures
        parse_spec(a) == parse_spec(b),
        parse_spec(a) == parse_words(marker_words(words(a))),
{
    lemma_command_words(a);
    lemma_command_words(b);
}

/// A word followed by nothing or by whitespace is the first word.
proof fn lemma_words_word_then(w: Seq<char>, r: Seq<char>)
    requires
        w.len() > 0,
        forall|i: int| 0 <= i < w.len() ==> !is_ws(#[trigger] w[i]),
        r.len() == 0 || is_ws(r[0]),
    ensures
        words(w + r) == seq![w] + words(r),
{
    let x = w + r;
    assert forall|i: int| 0 <= i < w.len() implies !is_ws(#[trigger] x[i]) by {
        assert(x[i] == w[i]);
    }
    lemma_word_len_at_least(x, w.len() as int);
    lemma_word_len_skip(x, w.len() as int);
    assert(x.skip(w.len() as int) =~= r);
    assert(word_len(r) == 0);
    assert(word_len(x) == w.len());
    assert(x.take(w.len() as int) =~= w);
}

/// A flag is found among the words after a first word that is no flag
/// exactly when it is found in the whole line.
proof fn lemma_has_flag_tail(w: Seq<char>, rest: Seq<Seq<char>>, a: Seq<char>, b: Seq<char>)
    requires
        w != a,
        w != b,
    ensures
        has_flag(seq![w] + rest, a, b) == has_flag(rest, a, b),
{
    let parts = seq![w] + rest;
    if has_flag(parts, a, b) {
        let i = choose|i: int| 0 <= i < parts.len() && (#[trigger] parts[i] == a || parts[i] == b);
        assert(i > 0);
        assert(parts[i] == rest[i - 1]);
    }
    if has_flag(rest, a, b) {
        let i = choose|i: int| 0 <= i < rest.len() && (#[trigger] rest[i] == a || rest[i] == b);
        assert(parts[i + 1] == rest[i]);
    }
}

/// A command word followed by nothing or whitespace: the line parses as the
/// word and the words after it.
proof fn lemma_first_word_parse(w: Seq<char>, r: Seq<char>)
    requires
        w.len() > 0,
        forall|i: int| 0 <= i < w.len() ==> !is_ws(#[trigger] w[i]),
        w[0] != '<',
        r.len() == 0 || is_ws(r[0]),
    ensures
        parse_spec(w + r) == parse_words(seq![w] + words(r)),
{
    reveal_strlit("<cmd>");
    lemma_words_word_then(w, r);
    lemma_command_words(w + r);
    if has_prefix(w, "<cmd>"@) {
        assert(w.take(5)[0] == w[0]);
    }
    assert(marker_words(seq![w] + words(r)) == seq![w] + words(r));
}

/// The literals of the command words, revealed.
proof fn lemma_command_word_literals()
    ensures
        "display"@ =~= seq!['d', 'i', 's', 'p', 'l', 'a', 'y'],
        "unhide"@ =~= seq!['u', 'n', 'h', 'i', 'd', 'e'],
        "hide"@ =~= seq!['h', 'i', 'd', 'e'],
        "list"@ =~= seq!['l', 'i', 's', 't'],
        "ls"@ =~= seq!['l', 's'],
        "get"@ =~= seq!['g', 'e', 't'],
        "add"@ =~= seq!['a', 'd', 'd'],
        "rm"@ =~= seq!['r', 'm'],
        "remove"@ =~= seq!['r', 'e', 'm', 'o', 'v', 'e'],
        "delete"@ =~= seq!['d', 'e', 'l', 'e', 't', 'e'],
        "login"@ =~= seq!['l', 'o', 'g', 'i', 'n'],
        "logout"@ =~= seq!['l', 'o', 'g', 'o', 'u', 't'],
        "mv"@ =~= seq!['m', 'v'],
        "rename"@ =~= seq!['r', 'e', 'n', 'a', 'm', 'e'],
        "export"@ =~= seq!['e', 'x', 'p', 'o', 'r', 't'],
        "import"@ =~= seq!['i', 'm', 'p', 'o', 'r', 't'],
        "history"@ =~= seq!['h', 'i', 's', 't', 'o', 'r', 'y'],
        "hist"@ =~= seq!['h', 'i', 's', 't'],
        "restore"@ =~= seq!['r', 'e', 's', 't', 'o', 'r', 'e'],
        "help"@ =~= seq!['h', 'e', 'l', 'p'],
        "version"@ =~= seq!['v', 'e', 'r', 's', 'i', 'o', 'n'],
        "--version"@ =~= seq!['-', '-', 'v', 'e', 'r', 's', 'i', 'o', 'n'],
        "-v"@ =~= seq!['-', 'v'],
{
    reveal_strlit("display");
    reveal_strlit("unhide");
    reveal_strlit("hide");
    reveal_strlit("list");
    reveal_strlit("ls");
    reveal_strlit("get");
    reveal_strlit("add");
    reveal_strlit("rm");
    reveal_strlit("remove");
    reveal_strlit("delete");
    reveal_strlit("login");
    reveal_strlit("logout");
    reveal_strlit("mv");
    reveal_strlit("rename");
    reveal_strlit("export");
    reveal_strlit("import");
    reveal_strlit("history");
    reveal_strlit("hist");
    reveal_strlit("restore");
    reveal_strlit("help");
    reveal_strlit("version");
    reveal_strlit("--version");
    reveal_strlit("-v");
}

/// `ls` and `list`.
proof fn lemma_alias_list(r: Seq<char>)
    requires
        r.len() == 0 || is_ws(r[0]),
    ensures
        parse_spec("ls"@ + r) == parse_spec("list"@ + r),
        parse_spec("list"@ + r) == Some(CommandView::List { plaintext: has_flag(words(r), "--plaintext"@, "-p"@) }),
{
    lemma_command_word_literals();
    assert((seq!["ls"@] + words(r))[0] == "ls"@);
    assert((seq!["list"@] + words(r))[0] == "list"@);
    reveal_strlit("ls");
    reveal_strlit("list");
    reveal_strlit("--plaintext");
    reveal_strlit("-p");
    lemma_first_word_parse("ls"@, r);
    lemma_first_word_parse("list"@, r);
    lemma_has_flag_tail("ls"@, words(r), "--plaintext"@, "-p"@);
    lemma_has_flag_tail("list"@, words(r), "--plaintext"@, "-p"@);
}

/// `rm`, `remove` and `delete`.
proof fn lemma_alias_rm(r: Seq<char>)
    requires
        r.len() == 0 || is_ws(r[0]),
    ensures
        parse_spec("remove"@ + r) == parse_spec("rm"@ + r),
        parse_spec("delete"@ + r) == parse_spec("rm"@ + r),
{
    lemma_command_word_literals();
    assert((seq!["rm"@] + words(r))[0] == "rm"@);
    assert((seq!["remove"@] + words(r))[0] == "remove"@);
    assert((seq!["delete"@] + words(r))[0] == "delete"@);
    reveal_strlit("rm");
    reveal_strlit("remove");
    reveal_strlit("delete");
    lemma_first_word_parse("rm"@, r);
    lemma_first_word_parse("remove"@, r);
    lemma_first_word_parse("delete"@, r);
}

/// `mv` and `rename`.
proof fn lemma_alias_mv(r: Seq<char>)
    requires
        r.len() == 0 || is_ws(r[0]),
    ensures
        parse_spec("rename"@ + r) == parse_spec("mv"@ + r),
{
    lemma_command_word_literals();
    assert((seq!["mv"@] + words(r))[0] == "mv"@);
    assert((seq!["rename"@] + words(r))[0] == "rename"@);
    reveal_strlit("mv");
    reveal_strlit("rename");
    lemma_first_word_parse("mv"@, r);
    lemma_first_word_parse("rename"@, r);
}

/// `history` and `hist`.
proof fn lemma_alias_history(r: Seq<char>)
    requires
        r.len() == 0 || is_ws(r[0]),
    ensures
        parse_spec("hist"@ + r) == parse_spec("history"@ + r),
        parse_spec("history"@ + r) == Some(CommandView::History),
{
    lemma_command_word_literals();
    assert((seq!["hist"@] + words(r))[0] == "hist"@);
    assert((seq!["history"@] + words(r))[0] == "history"@);
    reveal_strlit("hist");
    reveal_strlit("history");
    lemma_first_word_parse("hist"@, r);
    lemma_first_word_parse("history"@, r);
}

/// `display` and `unhide`.
proof fn lemma_alias_display(r: Seq<char>)
    requires
        r.len() == 0 || is_ws(r[0]),
    ensures
        parse_spec("unhide"@ + r) == parse_spec("display"@ + r),
        parse_spec("display"@ + r) == Some(CommandView::Display),
{
    lemma_command_word_literals();
    assert((seq!["display"@] + words(r))[0] == "display"@);
    assert((seq!["unhide"@] + words(r))[0] == "unhide"@);
    reveal_strlit("display");
    reveal_strlit("unhide");
    lemma_first_word_parse("display"@, r);
    lemma_first_word_parse("unhide"@, r);
}

/// `version`, `--version` and `-v`.
proof fn lemma_alias_version(r: Seq<char>)
    requires
        r.len() == 0 || is_ws(r[0]),
    ensures
        parse_spec("--version"@ + r) == parse_spec("version"@ + r),
        parse_spec("-v"@ + r) == parse_spec("version"@ + r),
        parse_spec("version"@ + r) == Some(CommandView::Version),
{
    lemma_command_word_literals();
    assert((seq!["version"@] + words(r))[0] == "version"@);
    assert((seq!["--version"@] + words(r))[0] == "--version"@);
    assert((seq!["-v"@] + words(r))[0] == "-v"@);
    reveal_strlit("version");
    reveal_strlit("--version");
    reveal_strlit("-v");
    lemma_first_word_parse("version"@, r);
    lemma_first_word_parse("--version"@, r);
    lemma_first_word_parse("-v"@, r);
}

/// Aliases of a command word parse alike, whatever follows them: `ls` and
/// `list`; `rm`, `remove` and `delete`; `mv` and `rename`; `history` and
/// `hist`; `display` and `unhide`; `version`, `--version` and `-v`.
pub proof fn law_command_aliases(r: Seq<char>)
    requires
        r.len() == 0 || is_ws(r[0]),
    ensures
        parse_spec("ls"@ + r) == parse_spec("list"@ + r),
        parse_spec("list"@ + r) == Some(CommandView::List { plaintext: has_flag(words(r), "--plaintext"@, "-p"@) }),
        parse_spec("remove"@ + r) == parse_spec("rm"@ + r),
        parse_spec("delete"@ + r) == parse_spec("rm"@ + r),
        parse_spec("rename"@ + r) == parse_spec("mv"@ + r),
        parse_spec("hist"@ + r) == parse_spec("history"@ + r),
        parse_spec("history"@ + r) == Some(CommandView::History),
        parse_spec("unhide"@ + r) == parse_spec("display"@ + r),
        parse_spec("display"@ + r) == Some(CommandView::Display),
        parse_spec("--version"@ + r) == parse_spec("version"@ + r),
        parse_spec("-v"@ + r) == parse_spec("version"@ + r),
        parse_spec("version"@ + r) == Some(CommandView::Version),
{
    lemma_alias_list(r);
    lemma_alias_rm(r);
    lemma_alias_mv(r);
    lemma_alias_history(r);
    lemma_alias_display(r);
    lemma_alias_version(r);
}

/// The value of a decimal representation is the number.
proof fn lemma_decimal_value(n: nat)
    ensures
        digits_value(decimal(n)) == n,
        all_digits(decimal(n)),
        decimal(n).len() > 0,
        crate::text::is_digit(decimal(n)[0]),
    decreases n,
{
    lemma_digit_char(n % 10);
    if n >= 10 {
        lemma_decimal_value(n / 10);
        let d = decimal(n / 10);
        assert(decimal(n) == d.push(digit_char(n % 10)));
        assert(decimal(n).drop_last() =~= d);
        assert(decimal(n).last() == digit_char(n % 10));
        assert((n / 10) * 10 + n % 10 == n) by (nonlinear_arith);
        assert(digits_value(decimal(n)) == digits_value(d) * 10 + digit_value(digit_char(n % 10)));
        assert forall|i: int| 0 <= i < decimal(n).len() implies crate::text::is_digit(#[trigger] decimal(n)[i]) by {
            if i < d.len() {
                assert(decimal(n)[i] == d[i]);
            }
        }
    } else {
        assert(decimal(n) == seq![digit_char(n)]);
        assert(decimal(n).drop_last() =~= Seq::<char>::empty());
        assert(digits_value(decimal(n)) == digits_value(Seq::<char>::empty()) * 10 + digit_value(digit_char(n)));
    }
}

/// Reading back a number written in decimal gives the number.
pub proof fn law_decimal_roundtrip(n: usize)
    ensures
        parse_usize_spec(decimal(n as nat)) == Some(n),
{
    lemma_decimal_value(n as nat);
    assert(unsigned_digits(decimal(n as nat)) == decimal(n as nat));
}

// ───────────────────────── fuzzy search ─────────────────────────

/// `idx` places `q[qi..]` in `t` at increasing positions, none before `from`.
pub open spec fn placed_in_order(q: Seq<char>, t: Seq<char>, qi: int, from: int, idx: Seq<int>) -> bool {
    &&& idx.len() == q.len() - qi
    &&& forall|i: int| 0 <= i < idx.len() ==> from <= #[trigger] idx[i] < t.len() && t[idx[i]] == q[qi + i]
    &&& forall|i: int, j: int| 0 <= i < j < idx.len() ==> #[trigger] idx[i] < #[trigger] idx[j]
}

/// The characters of `q` occur in `t` in the same order (not necessarily
/// next to each other).
pub open spec fn appears_in_order(q: Seq<char>, t: Seq<char>) -> bool {
    exists|idx: Seq<int>| #[trigger] placed_in_order(q, t, 0, 0, idx)
}

/// `next_occurrence` finds the first occurrence at or after `from`.
proof fn lemma_next_occurrence(t: Seq<char>, from: int, c: char)
    requires
        0 <= from,
    ensures
        match next_occurrence(t, from, c) {
            Some(p) => from <= p < t.len() && t[p] == c && forall|k: int| from <= k < p ==> t[k] != c,
            None => forall|k: int| from <= k < t.len() ==> t[k] != c,
        },
    decreases t.len() - from,
{
    if from < t.len() && t[from] != c {
        lemma_next_occurrence(t, from + 1, c);
    }
}

/// A greedy match places the query in order.
proof fn lemma_match_places(q: Seq<char>, t: Seq<char>, qi: int, from: int, prev: Option<int>)
    requires
        0 <= qi <= q.len(),
        0 <= from,
        match_score(q, t, qi, from, prev) is Some,
    ensures
        exists|idx: Seq<int>| #[trigger] placed_in_order(q, t, qi, from, idx),
    decreases q.len() - qi,
{
    if qi == q.len() {
        assert(placed_in_order(q, t, qi, from, Seq::<int>::empty()));
    } else {
        lemma_next_occurrence(t, from, q[qi]);
        let p = next_occurrence(t, from, q[qi])->0;
        lemma_match_places(q, t, qi + 1, p + 1, Some(p));
        let rest = choose|idx: Seq<int>| #[trigger] placed_in_order(q, t, qi + 1, p + 1, idx);
        let idx = seq![p] + rest;
        assert forall|i: int| 0 <= i < idx.len() implies from <= #[trigger] idx[i] < t.len() && t[idx[i]] == q[qi + i] by {
            if i > 0 {
                assert(idx[i] == rest[i - 1]);
            }
        }
        assert forall|i: int, j: int| 0 <= i < j < idx.len() implies #[trigger] idx[i] < #[trigger] idx[j] by {
            assert(idx[j] == rest[j - 1]);
            if i > 0 {
                assert(idx[i] == rest[i - 1]);
            }
        }
        assert(placed_in_order(q, t, qi, from, idx));
    }
}

/// Whenever the query can be placed in order, the greedy match succeeds.
proof fn lemma_placed_matches(q: Seq<char>, t: Seq<char>, qi: int, from: int, prev: Option<int>, idx: Seq<int>)
    requires
        0 <= qi <= q.len(),
        0 <= from,
        placed_in_order(q, t, qi, from, idx),
    ensures
        match_score(q, t, qi, from, prev) is Some,
    decreases q.len() - qi,
{
    if qi < q.len() {
        assert(t[idx[0]] == q[qi + 0]);
        lemma_next_occurrence(t, from, q[qi]);
        let p = next_occurrence(t, from, q[qi])->0;
        assert(p <= idx[0]);
        let rest = idx.drop_first();
        assert forall|i: int| 0 <= i < rest.len() implies p + 1 <= #[trigger] rest[i] < t.len() && t[rest[i]] == q[(qi + 1) + i] by {
            assert(rest[i] == idx[i + 1]);
            assert(idx[0] < idx[i + 1]);
        }
        assert forall|i: int, j: int| 0 <= i < j < rest.len() implies #[trigger] rest[i] < #[trigger] rest[j] by {
            assert(rest[i] == idx[i + 1] && rest[j] == idx[j + 1]);
        }
        lemma_placed_matches(q, t, qi + 1, p + 1, Some(p), rest);
    }
}

/// `fuzzy_match` finds a query exactly when the query's characters appear
/// in the target in the same order, ignoring case (an empty query is always
/// found).
pub proof fn law_fuzzy_match_in_order(query: Seq<char>, target: Seq<char>)
    ensures
        fuzzy_result(query, target) is Some
            <==> (query.len() == 0 || appears_in_order(lowered(query), lowered(target))),
{
    let q = lowered(query);
    let t = lowered(target);
    if query.len() > 0 {
        if match_score(q, t, 0, 0, None) is Some {
            lemma_match_places(q, t, 0, 0, None);
        }
        if appears_in_order(q, t) {
            let idx = choose|idx: Seq<int>| #[trigger] placed_in_order(q, t, 0, 0, idx);
            lemma_placed_matches(q, t, 0, 0, None, idx);
        }
    }
}

/// Lowercasing is character by character, so it distributes over
/// concatenation.
proof fn lemma_lowered_concat(a: Seq<char>, b: Seq<char>)
    ensures
        lowered(a + b) == lowered(a) + lowered(b),
    decreases b.len(),
{
    if b.len() == 0 {
        assert(a + b =~= a);
        assert(lowered(a) + lowered(b) =~= lowered(a));
    } else {
        assert((a + b).drop_last() =~= a + b.drop_last());
        assert((a + b).last() == b.last());
        lemma_lowered_concat(a, b.drop_last());
        assert(lowered(a + b) =~= lowered(a) + lowered(b));
    }
}

/// If a concatenation appears in order, so does each of its parts.
proof fn lemma_in_order_parts(a: Seq<char>, b: Seq<char>, t: Seq<char>)
    requires
        appears_in_order(a + b, t),
    ensures
        appears_in_order(a, t),
        appears_in_order(b, t),
{
    let q = a + b;
    let idx = choose|idx: Seq<int>| #[trigger] placed_in_order(q, t, 0, 0, idx);
    let ia = idx.take(a.len() as int);
    let ib = idx.skip(a.len() as int);
    assert forall|i: int| 0 <= i < ia.len() implies 0 <= #[trigger] ia[i] < t.len() && t[ia[i]] == a[0 + i] by {
        assert(ia[i] == idx[i]);
        assert(q[0 + i] == a[i]);
    }
    assert forall|i: int, j: int| 0 <= i < j < ia.len() implies #[trigger] ia[i] < #[trigger] ia[j] by {
        assert(ia[i] == idx[i] && ia[j] == idx[j]);
    }
    assert(placed_in_order(a, t, 0, 0, ia));
    assert forall|i: int| 0 <= i < ib.len() implies 0 <= #[trigger] ib[i] < t.len() && t[ib[i]] == b[0 + i] by {
        assert(ib[i] == idx[a.len() + i]);
        assert(q[0 + (a.len() + i)] == b[i]);
    }
    assert forall|i: int, j: int| 0 <= i < j < ib.len() implies #[trigger] ib[i] < #[trigger] ib[j] by {
        assert(ib[i] == idx[a.len() + i] && ib[j] == idx[a.len() + j]);
    }
    assert(placed_in_order(b, t, 0, 0, ib));
}

/// Extending a query never turns a miss into a match: when the
/// concatenation of two queries is found, each of them is found.
pub proof fn law_fuzzy_match_parts(q1: Seq<char>, q2: Seq<char>, target: Seq<char>)
    requires
        fuzzy_result(q1 + q2, target) is Some,
    ensures
        fuzzy_result(q1, target) is Some,
        fuzzy_result(q2, target) is Some,
{
    law_fuzzy_match_in_order(q1 + q2, target);
    law_fuzzy_match_in_order(q1, target);
    law_fuzzy_match_in_order(q2, target);
    if (q1 + q2).len() > 0 {
        lemma_lowered_concat(q1, q2);
        lemma_in_order_parts(lowered(q1), lowered(q2), lowered(target));
    }
}

// ───────────────────────── the vault ─────────────────────────

/// A file whose digest differs from the one its check line records is
/// refused as tampered with, whatever the password.
pub proof fn law_tampered_file_refused(original: Seq<u8>, data: Seq<u8>, password: Seq<char>)
    requires
        spec_sha256_hex(data) != spec_sha256_hex(original),
    ensures
        hash_mismatch(data, Some(check_text(original)), true),
        open_spec(data, password, Some(check_text(original)), true)
            == Err::<(Seq<u8>, Seq<u8>, Seq<u8>), VaultError>(VaultError::HashMismatch),
{
    law_check_line_accepted(original);
}

// ───────────────────────── entries ─────────────────────────

/// After `rm name` no remaining entry's name contains `name`, and every
/// entry whose name does not contain it is still there.
pub proof fn law_rm_removes_exactly_matching(es: Seq<EntryView>, name: Seq<char>)
    ensures
        forall|i: int| 0 <= i < not_containing(es, name).len()
            ==> !name_contains(#[trigger] not_containing(es, name)[i], name),
        forall|e: EntryView| es.contains(e) && !name_contains(e, name) ==> not_containing(es, name).contains(e),
        forall|e: EntryView| not_containing(es, name).contains(e) ==> es.contains(e),
    decreases es.len(),
{
    if es.len() > 0 {
        let init = es.drop_last();
        law_rm_removes_exactly_matching(init, name);
        let k = not_containing(init, name);
        let r = not_containing(es, name);
        assert forall|e: EntryView| es.contains(e) && !name_contains(e, name) implies r.contains(e) by {
            let j = choose|j: int| 0 <= j < es.len() && es[j] == e;
            if j < es.len() - 1 {
                assert(init[j] == e);
                assert(init.contains(e));
                let m = choose|m: int| 0 <= m < k.len() && k[m] == e;
                assert(r[m] == e);
            } else {
                assert(r[r.len() - 1] == e);
            }
        }
        if name_contains(es.last(), name) {
            assert(r == k);
        } else {
            assert(r == k.push(es.last()));
        }
        assert forall|e: EntryView| r.contains(e) implies es.contains(e) by {
            let j = choose|j: int| 0 <= j < r.len() && r[j] == e;
            if j < k.len() {
                assert(k[j] == e);
                assert(k.contains(e));
                assert(init.contains(e));
                let m = choose|m: int| 0 <= m < init.len() && init[m] == e;
                assert(init[m] == es[m]);
                assert(es[m] == e);
            } else {
                assert(es[es.len() - 1] == e);
            }
        }
        assert forall|i: int| 0 <= i < r.len() implies !name_contains(#[trigger] r[i], name) by {
            if i < k.len() {
                assert(r[i] == k[i]);
            }
        }
    }
}

/// Whether no two entries have names that are equal ignoring case.
pub open spec fn names_distinct(es: Seq<EntryView>) -> bool {
    forall|i: int, j: int| 0 <= i < es.len() && 0 <= j < es.len() && i != j
        ==> str_lowercase(#[trigger] es[i].name) != str_lowercase(#[trigger] es[j].name)
}

/// What is left after trimming the front starts with a non-space.
proof fn lemma_trim_start_front(s: Seq<char>)
    ensures
        trim_start(s).len() == 0 || !is_ws(trim_start(s)[0]),
    decreases s.len(),
{
    if s.len() > 0 && is_ws(s[0]) {
        lemma_trim_start_front(s.drop_first());
    }
}

/// What is left after trimming the back ends in a non-space, and is a
/// prefix of the text.
proof fn lemma_trim_end_back(s: Seq<char>)
    ensures
        trim_end(s).len() == 0 || !is_ws(trim_end(s).last()),
        trim_end(s).len() <= s.len(),
        trim_end(s) == s.take(trim_end(s).len() as int),
    decreases s.len(),
{
    if s.len() > 0 && is_ws(s.last()) {
        lemma_trim_end_back(s.drop_last());
        assert(s.drop_last().take(trim_end(s).len() as int) =~= s.take(trim_end(s).len() as int));
    } else {
        assert(s.take(s.len() as int) =~= s);
    }
}

/// Trimming twice is trimming once.
pub proof fn lemma_trim_idempotent(s: Seq<char>)
    ensures
        trim(trim(s)) == trim(s),
{
    let a = trim_start(s);
    let b = trim_end(a);
    lemma_trim_start_front(s);
    lemma_trim_end_back(a);
    if b.len() > 0 {
        assert(b[0] == a[0]);
    }
    assert(trim_start(b) == b);
    assert(trim_end(b) == b);
}

/// Appending an entry whose name no entry has (ignoring case, for a name
/// without surrounding whitespace) keeps the names distinct.
pub proof fn law_new_name_keeps_distinct(es: Seq<EntryView>, e: EntryView)
    requires
        names_distinct(es),
        trim(e.name) == e.name,
        !has_duplicate(es, e.name, None),
    ensures
        names_distinct(es.push(e)),
{
    let r = es.push(e);
    assert forall|i: int, j: int| 0 <= i < r.len() && 0 <= j < r.len() && i != j
        implies str_lowercase(#[trigger] r[i].name) != str_lowercase(#[trigger] r[j].name) by {
        if i < es.len() && j < es.len() {
            assert(r[i] == es[i] && r[j] == es[j]);
        } else if i < es.len() {
            assert(r[i] == es[i]);
            assert(str_lowercase(es[i].name) != str_lowercase(trim(e.name)));
        } else {
            assert(r[j] == es[j]);
            assert(str_lowercase(es[j].name) != str_lowercase(trim(e.name)));
        }
    }
}

/// Saving the add dialog never creates two entries whose names differ only
/// in case.
pub proof fn law_add_keeps_names_distinct(u: UnlockedView, u2: UnlockedView, fx: Seq<EffectView>)
    requires
        names_distinct(u.entries),
        unlocked_step(u, Message::SubmitNewPassword, u2, fx),
    ensures
        names_distinct(u2.entries),
{
    let name = trim(u.new_name);
    if !(name.len() == 0 || u.new_password.len() == 0 || u.new_password != u.confirm_password)
        && !has_duplicate(u.entries, name, None) {
        lemma_trim_idempotent(u.new_name);
        law_new_name_keeps_distinct(u.entries, EntryView { name, password: u.new_password });
    }
}

/// Among the entries named `name` there is a first one.
proof fn lemma_first_named_exists(es: Seq<EntryView>, name: Seq<char>, k: int)
    requires
        0 <= k < es.len(),
        crate::entries::name_is(es[k], name),
    ensures
        exists|c: int| 0 <= c < es.len() && crate::entries::name_is(es[c], name)
            && forall|j: int| 0 <= j < c ==> !#[trigger] crate::entries::name_is(es[j], name),
    decreases k,
{
    if exists|j: int| 0 <= j < k && #[trigger] crate::entries::name_is(es[j], name) {
        let j = choose|j: int| 0 <= j < k && #[trigger] crate::entries::name_is(es[j], name);
        lemma_first_named_exists(es, name, j);
    }
}

/// The first entry named `name`, when there is one, is in range.
proof fn lemma_first_named_in_range(es: Seq<EntryView>, name: Seq<char>)
    ensures
        first_named(es, name) is Some ==> 0 <= first_named(es, name)->0 < es.len(),
{
    if exists|i: int| 0 <= i < es.len() && #[trigger] crate::entries::name_is(es[i], name) {
        let k = choose|i: int| 0 <= i < es.len() && #[trigger] crate::entries::name_is(es[i], name);
        lemma_first_named_exists(es, name, k);
    }
}

/// Renaming from the search bar never creates two entries whose names
/// differ only in case (for a new name without surrounding whitespace, as
/// the command parser gives).
pub proof fn law_rename_keeps_names_distinct(u: UnlockedView, old_name: Seq<char>, new_name: Seq<char>,
    u2: UnlockedView, fx: Seq<EffectView>)
    requires
        names_distinct(u.entries),
        trim(new_name) == new_name,
        run_command(u, CommandView::Mv { old_name, new_name }, u2, fx),
    ensures
        names_distinct(u2.entries),
{
    lemma_first_named_in_range(u.entries, old_name);
    match first_named(u.entries, old_name) {
        None => {},
        Some(idx) => {
            if !has_duplicate(u.entries, new_name, Some(idx)) {
                let r = u2.entries;
                assert forall|i: int, j: int| 0 <= i < r.len() && 0 <= j < r.len() && i != j
                    implies str_lowercase(#[trigger] r[i].name) != str_lowercase(#[trigger] r[j].name) by {
                    if i != idx && j != idx {
                        assert(r[i] == u.entries[i] && r[j] == u.entries[j]);
                    } else if i == idx {
                        assert(r[j] == u.entries[j]);
                        assert(str_lowercase(u.entries[j].name) != str_lowercase(trim(new_name)));
                    } else {
                        assert(r[i] == u.entries[i]);
                        assert(str_lowercase(u.entries[i].name) != str_lowercase(trim(new_name)));
                    }
                }
            }
        },
    }
}

// ───────────────────────── the application ─────────────────────────

/// Toggling plain text, edit mode or the copy buttons twice leaves the
/// application as it was.
pub proof fn law_toggles_undo(u: UnlockedView, u1: UnlockedView, u2: UnlockedView,
    f1: Seq<EffectView>, f2: Seq<EffectView>, which: u8)
    requires
        which < 3,
        unlocked_step(u, if which == 0 { Message::TogglePlaintext } else if which == 1 { Message::ToggleEditMode }
            else { Message::ToggleCopy }, u1, f1),
        unlocked_step(u1, if which == 0 { Message::TogglePlaintext } else if which == 1 { Message::ToggleEditMode }
            else { Message::ToggleCopy }, u2, f2),
    ensures
        u2 == u,
        f1.len() == 0 && f2.len() == 0,
{
}

/// Opening the settings panel and saving it untouched keeps the settings
/// (for a stored history count within the allowed 0 to 10).
pub proof fn law_settings_reopen_keeps(u: UnlockedView, u1: UnlockedView, u2: UnlockedView,
    f1: Seq<EffectView>, f2: Seq<EffectView>)
    requires
        !u.settings_visible,
        u.settings.history_count <= 10,
        unlocked_step(u, Message::ToggleSettings, u1, f1),
        unlocked_step(u1, Message::SettingsSave, u2, f2),
    ensures
        u2.settings == u.settings,
        f2 == seq![EffectView::Persist],
{
    law_decimal_roundtrip(u.settings.history_count);
    assert(wanted_history_count(u1.settings_history_count) == u.settings.history_count);
}

/// Saving the settings never stores more than 10 history backups.
pub proof fn law_history_count_bounded(u: UnlockedView, u2: UnlockedView, fx: Seq<EffectView>)
    requires
        unlocked_step(u, Message::SettingsSave, u2, fx),
    ensures
        u2.settings.history_count <= 10,
{
}

/// Only an import changes the key and salt that the vault is saved with.
pub proof fn law_key_changes_only_on_import(u: UnlockedView, msg: Message, u2: UnlockedView, fx: Seq<EffectView>)
    requires
        unlocked_step(u, msg, u2, fx),
        !(msg is ImportFinished),
    ensures
        u2.enc_key == u.enc_key,
        u2.vault_salt == u.vault_salt,
        u2.master_password == u.master_password,
        u2.vault_path == u.vault_path,
{
}

/// Whether the entry names carry no surrounding whitespace and no two of
/// them are equal ignoring case.
pub open spec fn well_named(es: Seq<EntryView>) -> bool {
    &&& names_distinct(es)
    &&& forall|i: int| 0 <= i < es.len() ==> trim(#[trigger] es[i].name) == es[i].name
}

/// The first word of a text holds no whitespace.
proof fn lemma_word_chars(s: Seq<char>)
    ensures
        forall|i: int| 0 <= i < word_len(s) ==> !is_ws(#[trigger] s[i]),
    decreases s.len(),
{
    if s.len() > 0 && !is_ws(s[0]) {
        lemma_word_len_bound(s);
        lemma_word_chars(s.drop_first());
        assert forall|i: int| 0 <= i < word_len(s) implies !is_ws(#[trigger] s[i]) by {
            if i > 0 {
                assert(s[i] == s.drop_first()[i - 1]);
            }
        }
    }
}

/// Every word is its own trim.
proof fn lemma_words_trimmed(x: Seq<char>)
    ensures
        forall|i: int| 0 <= i < words(x).len() ==> trim(#[trigger] words(x)[i]) == words(x)[i],
    decreases x.len(),
{
    if x.len() > 0 {
        if is_ws(x[0]) {
            lemma_words_trimmed(x.drop_first());
            assert(words(x) == words(x.drop_first()));
        } else {
            lemma_word_len_bound(x);
            let k = word_len(x) as int;
            let w = x.take(k);
            lemma_words_trimmed(x.skip(k));
            lemma_word_chars(x);
            assert(w[0] == x[0]);
            assert(w.last() == x[k - 1]);
            assert(trim_start(w) == w);
            assert(trim_end(w) == w);
            assert(trim(w) == w);
            let ws = words(x);
            assert(ws == seq![w] + words(x.skip(k)));
            assert forall|i: int| 0 <= i < ws.len() implies trim(#[trigger] ws[i]) == ws[i] by {
                if i > 0 {
                    assert(ws[i] == words(x.skip(k))[i - 1]);
                }
            }
        }
    }
}

/// Removing every entry whose name contains a text keeps the names well formed.
proof fn lemma_not_containing_well_named(es: Seq<EntryView>, name: Seq<char>)
    requires
        well_named(es),
    ensures
        well_named(not_containing(es, name)),
    decreases es.len(),
{
    if es.len() > 0 {
        let init = es.drop_last();
        assert(well_named(init)) by {
            assert forall|i: int, j: int| 0 <= i < init.len() && 0 <= j < init.len() && i != j
                implies str_lowercase(#[trigger] init[i].name) != str_lowercase(#[trigger] init[j].name) by {
                assert(init[i] == es[i] && init[j] == es[j]);
            }
            assert forall|i: int| 0 <= i < init.len() implies trim(#[trigger] init[i].name) == init[i].name by {
                assert(init[i] == es[i]);
            }
        }
        lemma_not_containing_well_named(init, name);
        law_rm_removes_exactly_matching(init, name);
        let k = not_containing(init, name);
        if !name_contains(es.last(), name) {
            let r = k.push(es.last());
            assert forall|i: int, j: int| 0 <= i < r.len() && 0 <= j < r.len() && i != j
                implies str_lowercase(#[trigger] r[i].name) != str_lowercase(#[trigger] r[j].name) by {
                if i < k.len() && j < k.len() {
                    assert(r[i] == k[i] && r[j] == k[j]);
                } else if i < k.len() {
                    assert(r[i] == k[i]);
                    assert(k.contains(k[i]));
                    assert(init.contains(k[i]));
                    let m = choose|m: int| 0 <= m < init.len() && init[m] == k[i];
                    assert(init[m] == es[m]);
                    assert(es[m] == k[i]);
                    assert(r[j] == es[es.len() - 1]);
                } else {
                    assert(r[j] == k[j]);
                    assert(k.contains(k[j]));
                    assert(init.contains(k[j]));
                    let m = choose|m: int| 0 <= m < init.len() && init[m] == k[j];
                    assert(init[m] == es[m]);
                    assert(es[m] == k[j]);
                    assert(r[i] == es[es.len() - 1]);
                }
            }
            assert forall|i: int| 0 <= i < r.len() implies trim(#[trigger] r[i].name) == r[i].name by {
                if i < k.len() {
                    assert(r[i] == k[i]);
                } else {
                    assert(r[i] == es[es.len() - 1]);
                }
            }
        }
    }
}

/// Removing one entry keeps the names well formed.
proof fn lemma_remove_well_named(es: Seq<EntryView>, idx: int)
    requires
        well_named(es),
        0 <= idx < es.len(),
    ensures
        well_named(es.remove(idx)),
{
    let r = es.remove(idx);
    assert forall|i: int, j: int| 0 <= i < r.len() && 0 <= j < r.len() && i != j
        implies str_lowercase(#[trigger] r[i].name) != str_lowercase(#[trigger] r[j].name) by {
        let a = if i < idx { i } else { i + 1 };
        let b = if j < idx { j } else { j + 1 };
        assert(r[i] == es[a] && r[j] == es[b]);
    }
    assert forall|i: int| 0 <= i < r.len() implies trim(#[trigger] r[i].name) == r[i].name by {
        if i < idx { assert(r[i] == es[i]); } else { assert(r[i] == es[i + 1]); }
    }
}

/// Changing an entry but not its name keeps the names well formed.
proof fn lemma_update_same_name_well_named(es: Seq<EntryView>, idx: int, e: EntryView)
    requires
        well_named(es),
        0 <= idx < es.len(),
        e.name == es[idx].name,
    ensures
        well_named(es.update(idx, e)),
{
    let r = es.update(idx, e);
    assert forall|i: int, j: int| 0 <= i < r.len() && 0 <= j < r.len() && i != j
        implies str_lowercase(#[trigger] r[i].name) != str_lowercase(#[trigger] r[j].name) by {
        assert(r[i].name == es[i].name && r[j].name == es[j].name);
    }
    assert forall|i: int| 0 <= i < r.len() implies trim(#[trigger] r[i].name) == r[i].name by {
        assert(r[i].name == es[i].name);
    }
}

/// What a `<cmd>` line does keeps the names well formed.
proof fn lemma_command_well_named(u: UnlockedView, c: CommandView, u2: UnlockedView, fx: Seq<EffectView>)
    requires
        well_named(u.entries),
        run_command(u, c, u2, fx),
        c is Mv ==> trim(c->new_name) == c->new_name,
    ensures
        well_named(u2.entries),
{
    match c {
        CommandView::Rm { name } => {
            lemma_not_containing_well_named(u.entries, name);
        },
        CommandView::Mv { old_name, new_name } => {
            law_rename_keeps_names_distinct(u, old_name, new_name, u2, fx);
            lemma_first_named_in_range(u.entries, old_name);
            match first_named(u.entries, old_name) {
                None => {},
                Some(idx) => {
                    if !has_duplicate(u.entries, new_name, Some(idx)) {
                        let r = u2.entries;
                        assert forall|i: int| 0 <= i < r.len() implies trim(#[trigger] r[i].name) == r[i].name by {
                            if i != idx {
                                assert(r[i] == u.entries[i]);
                            }
                        }
                    }
                },
            }
        },
        _ => {},
    }
}

/// No message but an import or a history restore, which replace the entries
/// wholesale, lets two entry names become equal ignoring case or gives a
/// name surrounding whitespace; and no message locks the application again.
pub proof fn law_names_stay_distinct(m: ModelView, msg: Message, m2: ModelView, fx: Seq<EffectView>)
    requires
        m is Unlocked,
        well_named(m->Unlocked_0.entries),
        update_spec(m, msg, m2, fx),
        !(msg is ImportFinished),
        !(msg is HistoryRestored),
    ensures
        m2 is Unlocked,
        well_named(m2->Unlocked_0.entries),
{
    let u = m->Unlocked_0;
    let u2 = m2->Unlocked_0;
    match msg {
        Message::SubmitNewPassword => {
            let name = trim(u.new_name);
            if !(name.len() == 0 || u.new_password.len() == 0 || u.new_password != u.confirm_password)
                && !has_duplicate(u.entries, name, None) {
                lemma_trim_idempotent(u.new_name);
                let e = EntryView { name, password: u.new_password };
                law_new_name_keeps_distinct(u.entries, e);
                let r = u.entries.push(e);
                assert forall|i: int| 0 <= i < r.len() implies trim(#[trigger] r[i].name) == r[i].name by {
                    if i < u.entries.len() {
                        assert(r[i] == u.entries[i]);
                    }
                }
            }
        },
        Message::EditEntryPassword(idx, v) => {
            if idx < u.entries.len() {
                lemma_update_same_name_well_named(u.entries, idx as int,
                    EntryView { name: u.entries[idx as int].name, password: crate::password::keep_chars(v@, true) });
            }
        },
        Message::DeleteEntry(idx) => {
            if idx < u.entries.len() {
                lemma_remove_well_named(u.entries, idx as int);
            }
        },
        Message::SearchSubmitted => {
            if has_prefix(u.search_query, "<cmd>"@) && parse_spec(u.search_query) is Some {
                let c = parse_spec(u.search_query)->0;
                let parts = words(command_line(u.search_query));
                lemma_words_trimmed(command_line(u.search_query));
                if c is Mv {
                    assert(parts.len() >= 3 && c->new_name == parts[2]);
                }
                lemma_command_well_named(u, c, u2, fx);
            }
        },
        _ => {},
    }
}

// ───────────────────────── the command line ─────────────────────────

/// `--password=<p>` and `--password <p>` give the same command words and the
/// same password.
pub proof fn law_password_flag_forms(args: Seq<Seq<char>>, p: Seq<char>)
    requires
        !scan_args(args).2,
    ensures
        scan_args(args.push("--password="@ + p)).0 == scan_args(args.push("--password"@).push(p)).0,
        scan_args(args.push("--password="@ + p)).1 == scan_args(args.push("--password"@).push(p)).1,
        scan_args(args.push("--password="@ + p)).1 == Some(p),
{
    reveal_strlit("--password=");
    reveal_strlit("--password");
    let a = "--password="@ + p;
    assert(args.push(a).drop_last() =~= args);
    assert(a.take(11) =~= "--password="@);
    assert(a.skip(11) =~= p);
    let b = args.push("--password"@);
    assert(b.drop_last() =~= args);
    assert(!has_prefix("--password"@, "--password="@));
    assert(b.last() == "--password"@);
    assert(scan_args(b) == (scan_args(args).0, scan_args(args).1, true));
    assert(b.push(p).drop_last() =~= b);
    assert(b.push(p).last() == p);
    assert(scan_args(b.push(p)) == (scan_args(args).0, Some(p), false));
    assert(args.push(a).last() == a);
    assert(has_prefix(a, "--password="@));
    assert(scan_args(args.push(a)) == (scan_args(args).0, Some(p), false));
}

/// One step of reading the arguments (what `scan_args` does with the next one).
pub open spec fn scan_step(st: (Seq<Seq<char>>, Option<Seq<char>>, bool), a: Seq<char>)
    -> (Seq<Seq<char>>, Option<Seq<char>>, bool) {
    if st.2 {
        (st.0, Some(a), false)
    } else if has_prefix(a, "--password="@) {
        (st.0, Some(a.skip(11)), false)
    } else if a == "--password"@ {
        (st.0, st.1, true)
    } else {
        (st.0.push(a), st.1, false)
    }
}

/// Reading `b` on from the state `st`.
pub open spec fn scan_fold(st: (Seq<Seq<char>>, Option<Seq<char>>, bool), b: Seq<Seq<char>>)
    -> (Seq<Seq<char>>, Option<Seq<char>>, bool)
    decreases b.len(),
{
    if b.len() == 0 { st } else { scan_step(scan_fold(st, b.drop_last()), b.last()) }
}

/// Whether no argument is a password option.
pub open spec fn option_free(args: Seq<Seq<char>>) -> bool {
    forall|i: int| 0 <= i < args.len()
        ==> !has_prefix(#[trigger] args[i], "--password="@) && args[i] != "--password"@
}

/// Reading `a + b` is reading `a`, then `b` from where `a` left off.
proof fn lemma_scan_append(a: Seq<Seq<char>>, b: Seq<Seq<char>>)
    ensures
        scan_args(a + b) == scan_fold(scan_args(a), b),
    decreases b.len(),
{
    if b.len() == 0 {
        assert(a + b =~= a);
    } else {
        assert((a + b).drop_last() =~= a + b.drop_last());
        assert((a + b).last() == b.last());
        lemma_scan_append(a, b.drop_last());
    }
}

/// Arguments that are no password option are command words, in order.
proof fn lemma_fold_free(st: (Seq<Seq<char>>, Option<Seq<char>>, bool), b: Seq<Seq<char>>)
    requires
        !st.2,
        option_free(b),
    ensures
        scan_fold(st, b) == (st.0 + b, st.1, false),
    decreases b.len(),
{
    if b.len() == 0 {
        assert(st.0 + b =~= st.0);
    } else {
        assert(option_free(b.drop_last()));
        lemma_fold_free(st, b.drop_last());
        let x = b.last();
        assert(!has_prefix(b[b.len() - 1], "--password="@) && b[b.len() - 1] != "--password"@);
        assert((st.0 + b.drop_last()).push(x) =~= st.0 + b);
    }
}

/// Without password options, the arguments are all command words.
proof fn lemma_scan_free(a: Seq<Seq<char>>)
    requires
        option_free(a),
    ensures
        scan_args(a) == (a, Option::<Seq<char>>::None, false),
{
    let e = Seq::<Seq<char>>::empty();
    lemma_scan_append(e, a);
    assert(e + a =~= a);
    lemma_fold_free(scan_args(e), a);
    assert(e + a =~= a);
}

/// `--password=<p>` and `--password <p>` may stand anywhere among the
/// arguments and mean the same. Among arguments that are no password
/// options, either form takes the password `p` out and leaves the other
/// arguments, in order, as the command words.
pub proof fn law_password_anywhere(before: Seq<Seq<char>>, after: Seq<Seq<char>>, p: Seq<char>)
    ensures
        !scan_args(before).2 ==> scan_args(before.push("--password="@ + p) + after)
            == scan_args(before.push("--password"@).push(p) + after),
        option_free(before) && option_free(after) ==> {
            &&& scan_args(before.push("--password="@ + p) + after) == (before + after, Some(p), false)
            &&& scan_args(before + after) == (before + after, Option::<Seq<char>>::None, false)
        },
{
    reveal_strlit("--password=");
    reveal_strlit("--password");
    let a = before.push("--password="@ + p);
    let b = before.push("--password"@).push(p);
    lemma_scan_append(a, after);
    lemma_scan_append(b, after);
    if !scan_args(before).2 {
        law_password_flag_forms(before, p);
        let x = "--password="@ + p;
        assert(a.drop_last() =~= before);
        assert(a.last() == x);
        assert(x.take(11) =~= "--password="@);
        assert(has_prefix(x, "--password="@));
        assert(!scan_args(a).2);
        assert(b.drop_last() =~= before.push("--password"@));
        assert(before.push("--password"@).drop_last() =~= before);
        assert(scan_args(before.push("--password"@)).2);
        assert(!scan_args(b).2);
        assert(scan_args(a) == scan_args(b));
    }
    if option_free(before) && option_free(after) {
        lemma_scan_free(before);
        let x = "--password="@ + p;
        assert(a.drop_last() =~= before);
        assert(a.last() == x);
        assert(x.take(11) =~= "--password="@);
        assert(x.skip(11) =~= p);
        assert(scan_args(a) == (before, Some(p), false));
        lemma_fold_free(scan_args(a), after);
        assert forall|i: int| 0 <= i < (before + after).len() implies
            !has_prefix(#[trigger] (before + after)[i], "--password="@) && (before + after)[i] != "--password"@ by {
            if i < before.len() {
                assert((before + after)[i] == before[i]);
            } else {
                assert((before + after)[i] == after[i - before.len()]);
            }
        }
        lemma_scan_free(before + after);
    }
}

// ───────────────────────── what the commands show ─────────────────────────

/// A `get` line takes its name from the second word and each option from
/// whether any word is that option's long or short form: `--fuzzy`/`-f`,
/// `--copy`/`-c`, `--plaintext`/`-p`.
pub proof fn law_get_options(s: Seq<char>)
    requires
        words(s).len() >= 2,
        words(s)[0] == "get"@,
    ensures
        parse_spec(s) == Some(CommandView::Get {
            name: words(s)[1],
            fuzzy: exists|i: int| 0 <= i < words(s).len() && (#[trigger] words(s)[i] == "--fuzzy"@ || words(s)[i] == "-f"@),
            copy: exists|i: int| 0 <= i < words(s).len() && (#[trigger] words(s)[i] == "--copy"@ || words(s)[i] == "-c"@),
            plaintext: exists|i: int| 0 <= i < words(s).len()
                && (#[trigger] words(s)[i] == "--plaintext"@ || words(s)[i] == "-p"@),
        }),
{
    reveal_strlit("<cmd>");
    lemma_command_word_literals();
    law_parse_depends_on_words(s, s);
    let ws = words(s);
    assert(marker_words(ws) == ws);
}

/// A `list` (or `ls`) line shows passwords in plain text exactly when some
/// word is `--plaintext` or `-p`.
pub proof fn law_list_option(s: Seq<char>)
    requires
        words(s).len() >= 1,
        words(s)[0] == "list"@ || words(s)[0] == "ls"@,
    ensures
        parse_spec(s) == Some(CommandView::List {
            plaintext: exists|i: int| 0 <= i < words(s).len()
                && (#[trigger] words(s)[i] == "--plaintext"@ || words(s)[i] == "-p"@),
        }),
{
    reveal_strlit("<cmd>");
    lemma_command_word_literals();
    law_parse_depends_on_words(s, s);
    let ws = words(s);
    assert(marker_words(ws) == ws);
}

/// An entry's name contains a text, ignoring case, exactly when the
/// lowercased text sits somewhere inside the lowercased name: anything
/// before it, anything after it.
pub proof fn law_name_contains_is_substring(e: EntryView, name: Seq<char>)
    ensures
        forall|x: Seq<char>, y: Seq<char>| str_lowercase(e.name) == #[trigger] (x + str_lowercase(name) + y)
            ==> name_contains(e, name),
        name_contains(e, name) ==> exists|x: Seq<char>, y: Seq<char>|
            str_lowercase(e.name) == #[trigger] (x + str_lowercase(name) + y),
{
    let hay = str_lowercase(e.name);
    let n = str_lowercase(name);
    assert forall|x: Seq<char>, y: Seq<char>| hay == #[trigger] (x + n + y) implies name_contains(e, name) by {
        assert(hay.subrange(x.len() as int, (x.len() + n.len()) as int) =~= n);
    }
    if name_contains(e, name) {
        let i = choose|i: int| 0 <= i && i + n.len() <= hay.len() && #[trigger] hay.subrange(i, i + n.len()) == n;
        let x = hay.take(i);
        let y = hay.skip(i + n.len());
        assert(hay =~= x + n + y);
    }
}

/// The entries that `get` and the search bar's `get` find: exactly the
/// entries whose name contains the text (or, for an exact lookup, equals
/// it), ignoring case.
pub proof fn law_matching_contents(es: Seq<EntryView>, name: Seq<char>, exact: bool)
    ensures
        forall|e: EntryView| #[trigger] crate::entries::matching(es, name, exact).contains(e) <==> (es.contains(e)
            && if exact { str_lowercase(e.name) == str_lowercase(name) } else { name_contains(e, name) }),
    decreases es.len(),
{
    if es.len() > 0 {
        let init = es.drop_last();
        law_matching_contents(init, name, exact);
        let k = crate::entries::matching(init, name, exact);
        let r = crate::entries::matching(es, name, exact);
        assert forall|e: EntryView| #[trigger] r.contains(e) <==> (es.contains(e)
            && if exact { str_lowercase(e.name) == str_lowercase(name) } else { name_contains(e, name) }) by {
            if r.contains(e) {
                let j = choose|j: int| 0 <= j < r.len() && r[j] == e;
                if j < k.len() {
                    assert(k[j] == e);
                    assert(k.contains(e));
                    assert(init.contains(e));
                    let m = choose|m: int| 0 <= m < init.len() && init[m] == e;
                    assert(es[m] == init[m]);
                } else {
                    assert(es[es.len() - 1] == e);
                }
            }
            if es.contains(e) && (if exact { str_lowercase(e.name) == str_lowercase(name) } else { name_contains(e, name) }) {
                let j = choose|j: int| 0 <= j < es.len() && es[j] == e;
                if j < es.len() - 1 {
                    assert(init[j] == e);
                    assert(init.contains(e));
                    assert(k.contains(e));
                    let m = choose|m: int| 0 <= m < k.len() && k[m] == e;
                    assert(r[m] == e);
                } else {
                    assert(r[r.len() - 1] == e);
                }
            }
        }
    }
}

/// What the search bar's `get` shows: one `name : password` line per
/// entry whose name contains the text, in entry order, with the password in
/// plain text, joined by newlines; or "未找到: " and the text.
pub proof fn law_get_text_every_match(es: Seq<EntryView>, name: Seq<char>)
    ensures
        crate::entries::matching(es, name, false).len() == 0
            ==> crate::update::get_text(es, name) == "未找到: "@ + name,
        crate::entries::matching(es, name, false).len() > 0 ==> crate::update::get_text(es, name)
            == crate::entries::join_lines(Seq::new(crate::entries::matching(es, name, false).len(),
                |i: int| crate::entries::matching(es, name, false)[i].name + " : "@
                    + crate::entries::matching(es, name, false)[i].password)),
{
    let m = crate::entries::matching(es, name, false);
    assert(crate::entries::entry_lines(m, true) =~= Seq::new(m.len(), |i: int| m[i].name + " : "@ + m[i].password));
}

/// The joined lines: one line alone is itself; each further line follows a
/// newline.
pub proof fn law_join_lines(lines: Seq<Seq<char>>, x: Seq<char>)
    ensures
        crate::entries::join_lines(seq![x]) == x,
        lines.len() > 0 ==> crate::entries::join_lines(lines.push(x))
            == crate::entries::join_lines(lines) + "\n"@ + x,
{
    assert(lines.push(x).drop_last() =~= lines);
}

/// What `list` shows, on the command line and in the search bar: one
/// `name : password` line per entry in order, the password in plain text
/// with `plaintext` and otherwise one `●` per character; "（空）" when there
/// are no entries.
pub proof fn law_list_shows_entries(es: Seq<EntryView>)
    ensures
        es.len() == 0 ==> crate::update::list_text(es, true) == "（空）"@
            && crate::update::list_text(es, false) == "（空）"@,
        es.len() > 0 ==> crate::update::list_text(es, true)
            == crate::entries::join_lines(Seq::new(es.len(), |i: int| es[i].name + " : "@ + es[i].password)),
        es.len() > 0 ==> crate::update::list_text(es, false)
            == crate::entries::join_lines(Seq::new(es.len(),
                |i: int| es[i].name + " : "@ + Seq::new(es[i].password.len(), |k: int| '●'))),
        forall|i: int| 0 <= i < es.len() ==> crate::cli::list_lines(es, true)[i]
            == es[i].name + " : "@ + es[i].password,
        forall|i: int| 0 <= i < es.len() ==> crate::cli::list_lines(es, false)[i]
            == es[i].name + " : "@ + Seq::new(es[i].password.len(), |k: int| '●'),
        es.len() > 0 ==> crate::cli::list_lines(es, true).len() == es.len(),
        es.len() == 0 ==> crate::cli::list_lines(es, true) == seq!["（空）"@],
{
    assert(crate::entries::entry_lines(es, true) =~= Seq::new(es.len(), |i: int| es[i].name + " : "@ + es[i].password));
    assert(crate::entries::entry_lines(es, false) =~= Seq::new(es.len(),
        |i: int| es[i].name + " : "@ + Seq::new(es[i].password.len(), |k: int| '●')));
    if es.len() > 0 {
        assert(crate::cli::list_lines(es, true) =~= Seq::new(es.len(), |i: int| crate::entries::entry_line(es[i], true)));
        assert(crate::cli::list_lines(es, false) =~= Seq::new(es.len(), |i: int| crate::entries::entry_line(es[i], false)));
    } else {
        assert(crate::cli::list_lines(es, true) =~= seq!["（空）"@]);
    }
}

/// How an entry is scored against a query: a hit on both name and password
/// scores two more than the better of the two hits; a hit on the name alone
/// scores the name's hit; a hit on the password alone one less than that
/// hit (not below zero); no hit, no score.
pub proof fn law_entry_score(q: Seq<char>, e: EntryView)
    ensures
        ({
            let a = fuzzy_result(q, e.name);
            let b = fuzzy_result(q, e.password);
            let r = crate::search::entry_score(q, e);
            &&& (a is Some && b is Some) ==> {
                &&& r is Some
                &&& (a->0 + 2 < 0x1_0000_0000 && b->0 + 2 < 0x1_0000_0000) ==> {
                    &&& r->0 >= a->0 + 2
                    &&& r->0 >= b->0 + 2
                    &&& (r->0 == a->0 + 2 || r->0 == b->0 + 2)
                }
            }
            &&& (a is Some && b is None) ==> r == a
            &&& (a is None && b is Some) ==> r is Some && (r->0 + 1 == b->0 || (b->0 == 0 && r->0 == 0))
            &&& (a is None && b is None) ==> r is None
        }),
{
}

/// Every hit names an entry that matches, with its score; every matching
/// entry is a hit.
proof fn lemma_hits_contents(q: Seq<char>, es: Seq<EntryView>)
    requires
        es.len() <= usize::MAX,
    ensures
        forall|k: usize, sc: u32| #[trigger] crate::search::hits(q, es).contains((k, sc))
            <==> (k < es.len() && crate::search::entry_score(q, es[k as int]) == Some(sc)),
    decreases es.len(),
{
    if es.len() > 0 {
        let init = es.drop_last();
        lemma_hits_contents(q, init);
        crate::search::lemma_hits_increasing(q, init);
        let h = crate::search::hits(q, init);
        let hs = crate::search::hits(q, es);
        let last = (es.len() - 1) as usize;
        assert forall|k: usize, sc: u32| #[trigger] hs.contains((k, sc))
            <==> (k < es.len() && crate::search::entry_score(q, es[k as int]) == Some(sc)) by {
            if hs.contains((k, sc)) {
                let j = choose|j: int| 0 <= j < hs.len() && hs[j] == (k, sc);
                if j < h.len() {
                    assert(hs[j] == h[j]);
                    assert(h.contains((k, sc)));
                    assert(init[k as int] == es[k as int]);
                } else {
                    assert(k == last);
                }
            }
            if k < es.len() && crate::search::entry_score(q, es[k as int]) == Some(sc) {
                if k < last {
                    assert(init[k as int] == es[k as int]);
                    assert(h.contains((k, sc)));
                    let j = choose|j: int| 0 <= j < h.len() && h[j] == (k, sc);
                    assert(hs[j] == h[j]);
                } else {
                    assert(hs[hs.len() - 1] == (k, sc));
                }
            }
        }
    }
}

/// A ranking lists exactly the entries that match, each once with its
/// score, the higher score first and equal scores in entry order.
pub proof fn law_ranking_best_first(q: Seq<char>, es: Seq<EntryView>, r: Seq<(usize, u32)>)
    requires
        es.len() <= usize::MAX,
        q.len() > 0,
        !has_prefix(q, "<cmd>"@),
        crate::search::is_ranking(q, es, r),
    ensures
        forall|i: int, j: int| 0 <= i < j < r.len() ==> (#[trigger] r[i]).1 >= (#[trigger] r[j]).1,
        forall|i: int, j: int| 0 <= i < j < r.len() && r[i].1 == r[j].1 ==> (#[trigger] r[i]).0 < (#[trigger] r[j]).0,
        forall|k: usize, sc: u32| #[trigger] r.contains((k, sc))
            <==> (k < es.len() && crate::search::entry_score(q, es[k as int]) == Some(sc)),
{
    reveal(crate::search::is_ranking);
    lemma_hits_contents(q, es);
    assert forall|k: usize, sc: u32| #[trigger] r.contains((k, sc))
        <==> (k < es.len() && crate::search::entry_score(q, es[k as int]) == Some(sc)) by {
        assert(r.contains((k, sc)) <==> crate::search::hits(q, es).contains((k, sc)));
    }
}

} // verus!
