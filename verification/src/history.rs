//! History backups: which files of the backup directory count as backups,
//! their order (by name, which for `vault.<seconds>` is the order in time),
//! and which of them to delete so that only the newest ones stay.

use vstd::prelude::*;
use crate::text::{chars_of, chars_eq_str};

verus! {

/// Lexicographic order of character sequences (the order of `str` and of
/// file names in one directory).
pub open spec fn lex_le(a: Seq<char>, b: Seq<char>) -> bool
    decreases a.len(),
{
    if a.len() == 0 {
        true
    } else if b.len() == 0 {
        false
    } else if (a[0] as u32) != (b[0] as u32) {
        (a[0] as u32) < (b[0] as u32)
    } else {
        lex_le(a.drop_first(), b.drop_first())
    }
}

/// Any two sequences are ordered one way or the other.
pub proof fn lemma_lex_total(a: Seq<char>, b: Seq<char>)
    ensures
        lex_le(a, b) || lex_le(b, a),
    decreases a.len(),
{
    if a.len() > 0 && b.len() > 0 && (a[0] as u32) == (b[0] as u32) {
        lemma_lex_total(a.drop_first(), b.drop_first());
    }
}

/// The order is transitive.
pub proof fn lemma_lex_trans(a: Seq<char>, b: Seq<char>, c: Seq<char>)
    requires
        lex_le(a, b),
        lex_le(b, c),
    ensures
        lex_le(a, c),
    decreases a.len(),
{
    if a.len() > 0 && b.len() > 0 && c.len() > 0 && (a[0] as u32) == (b[0] as u32) && (b[0] as u32) == (c[0] as u32) {
        lemma_lex_trans(a.drop_first(), b.drop_first(), c.drop_first());
    }
}

/// The views of a sequence of strings.
pub open spec fn strs(s: Seq<String>) -> Seq<Seq<char>> {
    s.map_values(|x: String| x@)
}

/// Each name is at most every later one.
pub open spec fn sorted_names(s: Seq<Seq<char>>) -> bool {
    forall|i: int, j: int| 0 <= i < j < s.len() ==> lex_le(#[trigger] s[i], #[trigger] s[j])
}

/// Compares two character sequences lexicographically.
fn lex_le_exec(a: &[char], b: &[char]) -> (r: bool)
    ensures
        r == lex_le(a@, b@),
{
    let mut i: usize = 0;
    assert(a@.skip(0) =~= a@ && b@.skip(0) =~= b@);
    while i < a.len() && i < b.len() && (a[i] as u32) == (b[i] as u32)
        invariant
            i <= a@.len(),
            i <= b@.len(),
            lex_le(a@, b@) == lex_le(a@.skip(i as int), b@.skip(i as int)),
        decreases a@.len() - i,
    {
        assert(a@.skip(i as int).drop_first() =~= a@.skip(i + 1));
        assert(b@.skip(i as int).drop_first() =~= b@.skip(i + 1));
        i = i + 1;
    }
    if i == a.len() {
        true
    } else if i == b.len() {
        false
    } else {
        assert(a@.skip(i as int)[0] == a@[i as int]);
        assert(b@.skip(i as int)[0] == b@[i as int]);
        (a[i] as u32) < (b[i] as u32)
    }
}

/// Sorts names in ascending order (stable).
pub fn sort_names(names: &Vec<String>) -> (r: Vec<String>)
    ensures
        strs(r@).to_multiset() == strs(names@).to_multiset(),
        sorted_names(strs(r@)),
{
    let mut r: Vec<String> = Vec::new();
    let mut m: usize = 0;
    assert(strs(r@) =~= Seq::<Seq<char>>::empty());
    assert(strs(names@.take(0)) =~= Seq::<Seq<char>>::empty());
    while m < names.len()
        invariant
            m <= names@.len(),
            strs(r@).to_multiset() == strs(names@.take(m as int)).to_multiset(),
            sorted_names(strs(r@)),
        decreases names@.len() - m,
    {
        let x = names[m].clone();
        assert(x@ == names@[m as int]@);
        let xc = chars_of(names[m].as_str());
        let mut p: usize = 0;
        let ghost rs = strs(r@);
        while p < r.len() && lex_le_exec(chars_of(r[p].as_str()).as_slice(), xc.as_slice())
            invariant
                rs == strs(r@),
                xc@ == names@[m as int]@,
                p <= r@.len(),
                forall|k: int| 0 <= k < p ==> lex_le(#[trigger] rs[k], xc@),
            decreases r@.len() - p,
        {
            p = p + 1;
        }
        assert forall|k: int| p <= k < rs.len() implies lex_le(xc@, #[trigger] rs[k]) by {
            lemma_lex_total(rs[p as int], xc@);
            if k > p {
                lemma_lex_trans(xc@, rs[p as int], rs[k]);
            }
        }
        let ghost old_r = r@;
        r.insert(p, x);
        proof {
            let xs = xc@;
            assert(strs(r@) =~= rs.insert(p as int, xs));
            rs.insert_ensures(p as int, xs);
            vstd::seq_lib::to_multiset_insert(rs, p as int, xs);
            assert(strs(names@.take(m + 1)) =~= strs(names@.take(m as int)).push(xs));
            strs(names@.take(m as int)).to_multiset_ensures();
            let ns = strs(r@);
            assert forall|i: int, j: int| 0 <= i < j < ns.len() implies lex_le(#[trigger] ns[i], #[trigger] ns[j]) by {
                if j < p {
                    assert(ns[i] == rs[i] && ns[j] == rs[j]);
                } else if j == p {
                    assert(ns[i] == rs[i]);
                } else if i < p {
                    assert(ns[i] == rs[i] && ns[j] == rs[j - 1]);
                    lemma_lex_trans(rs[i], xs, rs[j - 1]);
                } else if i == p {
                    assert(ns[j] == rs[j - 1]);
                } else {
                    assert(ns[i] == rs[i - 1] && ns[j] == rs[j - 1]);
                }
            }
        }
        m = m + 1;
    }
    assert(names@.take(names@.len() as int) =~= names@);
    r
}


/// The position of the last `.` in `s`.
pub open spec fn last_dot(s: Seq<char>) -> Option<int>
    decreases s.len(),
{
    if s.len() == 0 {
        None
    } else if s.last() == '.' {
        Some(s.len() - 1)
    } else {
        last_dot(s.drop_last())
    }
}

/// The extension of a file name, as `Path::extension` documents it: none
/// without an embedded `.`, none for a name that begins with its only `.`,
/// otherwise what follows the final `.`.
pub open spec fn extension(name: Seq<char>) -> Option<Seq<char>> {
    match last_dot(name) {
        None => None,
        Some(i) => if i == 0 { None } else { Some(name.skip(i + 1)) },
    }
}

/// Whether a file of the history directory counts as a backup: it has an
/// extension and the extension is not `tmp`.
pub open spec fn is_backup(name: Seq<char>) -> bool {
    extension(name) is Some && extension(name)->0 != "tmp"@
}

/// The backups among `names`, in their order.
pub open spec fn backups(names: Seq<Seq<char>>) -> Seq<Seq<char>>
    decreases names.len(),
{
    if names.len() == 0 {
        seq![]
    } else if is_backup(names.last()) {
        backups(names.drop_last()).push(names.last())
    } else {
        backups(names.drop_last())
    }
}

/// Whether `name` counts as a backup.
pub fn is_backup_name(name: &str) -> (r: bool)
    ensures
        r == is_backup(name@),
{
    let c = chars_of(name);
    let n = c.len();
    let mut i = n;
    assert(c@.take(n as int) =~= c@);
    while i > 0 && c[i - 1] != '.'
        invariant
            i <= n,
            n == c@.len(),
            last_dot(c@) == last_dot(c@.take(i as int)),
        decreases i,
    {
        assert(c@.take(i as int).drop_last() =~= c@.take(i - 1));
        i = i - 1;
    }
    if i == 0 {
        return false;
    }
    assert(c@.take(i as int).last() == '.');
    if i == 1 {
        return false;
    }
    let mut ext: Vec<char> = Vec::new();
    let mut k = i;
    while k < n
        invariant
            i <= k <= n,
            n == c@.len(),
            ext@ == c@.subrange(i as int, k as int),
        decreases n - k,
    {
        ext.push(c[k]);
        k = k + 1;
        assert(ext@ =~= c@.subrange(i as int, k as int));
    }
    assert(ext@ =~= c@.skip(i as int));
    !chars_eq_str(ext.as_slice(), "tmp")
}

/// The history backups to delete so that at most `keep` remain: the
/// oldest ones, that is the first ones in name order.
pub fn backups_to_delete(names: &Vec<String>, keep: usize) -> (r: Vec<String>)
    ensures
        exists|sorted: Seq<Seq<char>>| {
            &&& sorted.to_multiset() == backups(strs(names@)).to_multiset()
            &&& sorted_names(sorted)
            &&& strs(r@) == if sorted.len() > keep { sorted.take(sorted.len() - keep) } else { seq![] }
        },
        r@.len() == if backups(strs(names@)).len() > keep { backups(strs(names@)).len() - keep } else { 0 },
{
    let mut f: Vec<String> = Vec::new();
    let mut i: usize = 0;
    assert(strs(f@) =~= backups(strs(names@.take(0))));
    while i < names.len()
        invariant
            i <= names@.len(),
            strs(f@) == backups(strs(names@.take(i as int))),
        decreases names@.len() - i,
    {
        assert(strs(names@.take(i + 1)).drop_last() =~= strs(names@.take(i as int)));
        assert(strs(names@.take(i + 1)).last() == names@[i as int]@);
        if is_backup_name(names[i].as_str()) {
            let ghost old_f = f@;
            f.push(names[i].clone());
            assert(strs(f@) =~= strs(old_f).push(names@[i as int]@));
        }
        i = i + 1;
    }
    assert(names@.take(names@.len() as int) =~= names@);
    let sorted = sort_names(&f);
    let ghost ss = strs(sorted@);
    proof {
        ss.to_multiset_ensures();
        strs(f@).to_multiset_ensures();
    }
    assert(ss.len() == strs(f@).len());
    let mut r: Vec<String> = Vec::new();
    if sorted.len() > keep {
        let cut = sorted.len() - keep;
        let mut k: usize = 0;
        while k < cut
            invariant
                ss == strs(sorted@),
                cut <= sorted@.len(),
                k <= cut,
                strs(r@) == ss.take(k as int),
            decreases cut - k,
        {
            let ghost old_r = r@;
            let name = sorted[k].clone();
            assert(name@ == ss[k as int]);
            r.push(name);
            assert(strs(r@) =~= strs(old_r).push(ss[k as int]));
            assert(strs(r@) =~= ss.take(k + 1));
            k = k + 1;
        }
    } else {
        assert(strs(r@) =~= Seq::<Seq<char>>::empty());
    }
    assert(strs(r@) == if ss.len() > keep { ss.take(ss.len() - keep) } else { seq![] });
    r
}

} // verus!
