//! Operations on the list of entries that the command line and the user
//! interface share: name lookups (case-insensitive), removal, renaming and
//! the text lines that show entries.

use vstd::prelude::*;
use crate::model::{PasswordEntry, EntryView, entry_views};
use crate::password::{mask, masked};
use crate::text::{
    chars_of, contains_chars, lower_str, occurs_in, str_lowercase, string_from_chars, trim, trim_chars,
};

verus! {

/// Whether some entry other than the one at `skip` has the name `name`,
/// ignoring case and the whitespace around `name`.
pub open spec fn has_duplicate(es: Seq<EntryView>, name: Seq<char>, skip: Option<int>) -> bool {
    exists|i: int| 0 <= i < es.len() && skip != Some(i)
        && #[trigger] str_lowercase(es[i].name) == str_lowercase(trim(name))
}

/// Lowercases a sequence of characters (as `str::to_lowercase`).
fn lower_chars_str(s: &[char]) -> (r: Vec<char>)
    ensures
        r@ == str_lowercase(s@),
{
    let st = string_from_chars(s);
    let l = lower_str(st.as_str());
    chars_of(l.as_str())
}

/// Whether another entry (any but `skip`) already has `name`, ignoring case
/// and surrounding whitespace.
pub fn has_duplicate_name(entries: &[PasswordEntry], name: &str, skip: Option<usize>) -> (r: bool)
    ensures
        r == has_duplicate(entry_views(entries@), name@, match skip { None => None, Some(k) => Some(k as int) }),
{
    let ghost es = entry_views(entries@);
    let ghost sk: Option<int> = match skip { None => None, Some(k) => Some(k as int) };
    let nc = chars_of(name);
    let t = trim_chars(nc.as_slice());
    let target = lower_chars_str(t.as_slice());
    let mut i: usize = 0;
    while i < entries.len()
        invariant
            es == entry_views(entries@),
            sk == match skip { None => None, Some(k) => Some(k as int) },
            target@ == str_lowercase(trim(name@)),
            i <= entries@.len(),
            forall|k: int| 0 <= k < i ==> !(sk != Some(k)
                && #[trigger] str_lowercase(es[k].name) == str_lowercase(trim(name@))),
        decreases entries@.len() - i,
    {
        let l = lower_str(entries[i].name.as_str());
        let lc = chars_of(l.as_str());
        let not_skipped = match skip { None => true, Some(k) => k != i };
        if not_skipped && crate::text::chars_eq(lc.as_slice(), target.as_slice()) {
            assert(es[i as int].name == entries@[i as int].name@);
            return true;
        }
        assert(es[i as int].name == entries@[i as int].name@);
        i = i + 1;
    }
    false
}

/// Whether the entry's name contains `name`, ignoring case.
pub open spec fn name_contains(e: EntryView, name: Seq<char>) -> bool {
    occurs_in(str_lowercase(e.name), str_lowercase(name))
}

/// Whether the entry's name is `name`, ignoring case.
pub open spec fn name_is(e: EntryView, name: Seq<char>) -> bool {
    str_lowercase(e.name) == str_lowercase(name)
}

/// Whether the entry's name contains `name` (or, when `exact`, is `name`),
/// ignoring case.
pub open spec fn name_matches(e: EntryView, name: Seq<char>, exact: bool) -> bool {
    if exact { name_is(e, name) } else { name_contains(e, name) }
}

/// The entries whose name matches, in order.
pub open spec fn matching(es: Seq<EntryView>, name: Seq<char>, exact: bool) -> Seq<EntryView>
    decreases es.len(),
{
    if es.len() == 0 {
        seq![]
    } else if name_matches(es.last(), name, exact) {
        matching(es.drop_last(), name, exact).push(es.last())
    } else {
        matching(es.drop_last(), name, exact)
    }
}

/// The entries whose name does not contain `name`, in order.
pub open spec fn not_containing(es: Seq<EntryView>, name: Seq<char>) -> Seq<EntryView>
    decreases es.len(),
{
    if es.len() == 0 {
        seq![]
    } else if name_contains(es.last(), name) {
        not_containing(es.drop_last(), name)
    } else {
        not_containing(es.drop_last(), name).push(es.last())
    }
}

/// Whether an entry's name matches `lname` (already lowercased).
fn matches_lowered(e: &PasswordEntry, lname: &Vec<char>, exact: bool, Ghost(name): Ghost<Seq<char>>) -> (r: bool)
    requires
        lname@ == str_lowercase(name),
    ensures
        r == name_matches(e@, name, exact),
{
    let l = lower_str(e.name.as_str());
    let lc = chars_of(l.as_str());
    if exact {
        crate::text::chars_eq(lc.as_slice(), lname.as_slice())
    } else {
        contains_chars(lc.as_slice(), lname.as_slice())
    }
}

/// Clones an entry.
pub fn clone_entry(e: &PasswordEntry) -> (r: PasswordEntry)
    ensures
        r@ == e@,
{
    PasswordEntry { name: e.name.clone(), password: e.password.clone() }
}

/// The entries whose name is (`exact`) or contains `name`, ignoring case.
pub fn matching_entries(entries: &[PasswordEntry], name: &str, exact: bool) -> (r: Vec<PasswordEntry>)
    ensures
        entry_views(r@) == matching(entry_views(entries@), name@, exact),
{
    let ghost es = entry_views(entries@);
    let lname = lower_chars_str(chars_of(name).as_slice());
    let mut r: Vec<PasswordEntry> = Vec::new();
    let mut i: usize = 0;
    while i < entries.len()
        invariant
            es == entry_views(entries@),
            lname@ == str_lowercase(name@),
            i <= entries@.len(),
            entry_views(r@) == matching(es.take(i as int), name@, exact),
        decreases entries@.len() - i,
    {
        assert(es.take(i + 1).drop_last() =~= es.take(i as int));
        assert(es.take(i + 1).last() == entries@[i as int]@);
        if matches_lowered(&entries[i], &lname, exact, Ghost(name@)) {
            let ghost old_r = r@;
            r.push(clone_entry(&entries[i]));
            assert(entry_views(r@) =~= entry_views(old_r).push(entries@[i as int]@));
        }
        i = i + 1;
    }
    assert(es.take(entries@.len() as int) =~= es);
    r
}

/// Removes every entry whose name contains `name`, ignoring case; returns
/// how many were removed.
pub fn remove_containing(entries: &mut Vec<PasswordEntry>, name: &str) -> (removed: usize)
    ensures
        entry_views(final(entries)@) == not_containing(entry_views(old(entries)@), name@),
        removed == old(entries)@.len() - final(entries)@.len(),
{
    let ghost es = entry_views(entries@);
    let lname = lower_chars_str(chars_of(name).as_slice());
    let mut kept: Vec<PasswordEntry> = Vec::new();
    let mut i: usize = 0;
    while i < entries.len()
        invariant
            es == entry_views(entries@),
            lname@ == str_lowercase(name@),
            i <= entries@.len(),
            kept@.len() <= i,
            entry_views(kept@) == not_containing(es.take(i as int), name@),
        decreases entries@.len() - i,
    {
        assert(es.take(i + 1).drop_last() =~= es.take(i as int));
        assert(es.take(i + 1).last() == entries@[i as int]@);
        if !matches_lowered(&entries[i], &lname, false, Ghost(name@)) {
            let ghost old_k = kept@;
            kept.push(clone_entry(&entries[i]));
            assert(entry_views(kept@) =~= entry_views(old_k).push(entries@[i as int]@));
        }
        i = i + 1;
    }
    assert(es.take(entries@.len() as int) =~= es);
    let removed = entries.len() - kept.len();
    *entries = kept;
    removed
}

/// The position of the first entry named `name`, ignoring case.
pub open spec fn first_named(es: Seq<EntryView>, name: Seq<char>) -> Option<int> {
    if exists|i: int| 0 <= i < es.len() && #[trigger] name_is(es[i], name) {
        Some(choose|i: int| 0 <= i < es.len() && name_is(es[i], name)
            && forall|j: int| 0 <= j < i ==> !#[trigger] name_is(es[j], name))
    } else {
        None
    }
}

/// The position of the first entry named `name`, ignoring case.
pub fn position_named(entries: &[PasswordEntry], name: &str) -> (r: Option<usize>)
    ensures
        r is None ==> forall|i: int| 0 <= i < entries@.len() ==> !#[trigger] name_is(entries@[i]@, name@),
        r is Some ==> {
            &&& r->0 < entries@.len()
            &&& name_is(entries@[r->0 as int]@, name@)
            &&& forall|j: int| 0 <= j < r->0 ==> !#[trigger] name_is(entries@[j]@, name@)
        },
{
    let lname = lower_chars_str(chars_of(name).as_slice());
    let mut i: usize = 0;
    while i < entries.len()
        invariant
            lname@ == str_lowercase(name@),
            i <= entries@.len(),
            forall|j: int| 0 <= j < i ==> !#[trigger] name_is(entries@[j]@, name@),
        decreases entries@.len() - i,
    {
        if matches_lowered(&entries[i], &lname, true, Ghost(name@)) {
            return Some(i);
        }
        i = i + 1;
    }
    None
}

/// The line that shows an entry: `name : password`, the password masked
/// unless `plaintext`.
pub open spec fn entry_line(e: EntryView, plaintext: bool) -> Seq<char> {
    e.name + " : "@ + if plaintext { e.password } else { masked(e.password) }
}

/// Lines joined by newlines.
pub open spec fn join_lines(lines: Seq<Seq<char>>) -> Seq<char>
    decreases lines.len(),
{
    if lines.len() == 0 {
        seq![]
    } else if lines.len() == 1 {
        lines[0]
    } else {
        join_lines(lines.drop_last()) + "\n"@ + lines.last()
    }
}

/// The lines of a list of entries.
pub open spec fn entry_lines(es: Seq<EntryView>, plaintext: bool) -> Seq<Seq<char>> {
    Seq::new(es.len(), |i: int| entry_line(es[i], plaintext))
}

/// The line that shows an entry.
pub fn format_entry(e: &PasswordEntry, plaintext: bool) -> (r: String)
    ensures
        r@ == entry_line(e@, plaintext),
{
    let mut s = e.name.clone();
    s.append(" : ");
    if plaintext {
        s.append(e.password.as_str());
    } else {
        let m = mask(e.password.as_str());
        s.append(m.as_str());
    }
    s
}

/// The entries' lines joined by newlines.
pub fn format_entries(entries: &[PasswordEntry], plaintext: bool) -> (r: String)
    ensures
        r@ == join_lines(entry_lines(entry_views(entries@), plaintext)),
{
    let ghost es = entry_views(entries@);
    let mut s = String::new();
    let mut i: usize = 0;
    while i < entries.len()
        invariant
            es == entry_views(entries@),
            i <= entries@.len(),
            s@ == join_lines(entry_lines(es.take(i as int), plaintext)),
        decreases entries@.len() - i,
    {
        let line = format_entry(&entries[i], plaintext);
        let ghost ls = entry_lines(es.take(i + 1), plaintext);
        assert(ls.drop_last() =~= entry_lines(es.take(i as int), plaintext));
        assert(ls.last() == line@);
        if i > 0 {
            s.append("\n");
        }
        s.append(line.as_str());
        if i == 0 {
            assert(s@ =~= line@);
        }
        i = i + 1;
    }
    assert(es.take(entries@.len() as int) =~= es);
    s
}

} // verus!
