//! Fuzzy, fzf-style search over the stored entries.

use vstd::prelude::*;
use crate::model::{PasswordEntry, EntryView, entry_views};
use crate::text::{char_lowercase, chars_of, lower_char, starts_with, has_prefix};

verus! {

/// The per-character lowercase mapping of `s`, concatenated.
pub open spec fn lowered(s: Seq<char>) -> Seq<char>
    decreases s.len(),
{
    if s.len() == 0 {
        seq![]
    } else {
        lowered(s.drop_last()) + char_lowercase(s.last())
    }
}

/// The first position at or after `from` where `t` holds `c`.
pub open spec fn next_occurrence(t: Seq<char>, from: int, c: char) -> Option<int>
    decreases t.len() - from,
{
    if from < 0 || from >= t.len() {
        None
    } else if t[from] == c {
        Some(from)
    } else {
        next_occurrence(t, from + 1, c)
    }
}

/// Points for a match at position `p` of a target of length `n`, after a
/// previous match at `prev`: 15 for the first match, 20 when it follows the
/// previous one directly, 10 otherwise, and 5 more inside the first third.
pub open spec fn step_score(n: int, prev: Option<int>, p: int) -> int {
    (match prev {
        None => 15int,
        Some(x) => if p == x + 1 { 20int } else { 10int },
    }) + (if p < n / 3 { 5int } else { 0int })
}

/// Greedy left-to-right matching of `q[qi..]` against `t[from..]`: each query
/// character takes its first occurrence after the previous match. The total
/// score, or `None` when some query character finds no occurrence.
pub open spec fn match_score(q: Seq<char>, t: Seq<char>, qi: int, from: int, prev: Option<int>) -> Option<int>
    decreases q.len() - qi,
{
    if qi < 0 || qi >= q.len() {
        Some(0)
    } else {
        match next_occurrence(t, from, q[qi]) {
            None => None,
            Some(p) => match match_score(q, t, qi + 1, p + 1, Some(p)) {
                None => None,
                Some(s) => Some(step_score(t.len() as int, prev, p) + s),
            },
        }
    }
}

/// The score of `query` against `target`, as an unbounded integer.
pub open spec fn fuzzy_score(query: Seq<char>, target: Seq<char>) -> Option<int> {
    if query.len() == 0 {
        Some(0)
    } else {
        match_score(lowered(query), lowered(target), 0, 0, None)
    }
}

/// What `fuzzy_match` returns: the score reduced to 32 bits.
pub open spec fn fuzzy_result(query: Seq<char>, target: Seq<char>) -> Option<u32> {
    match fuzzy_score(query, target) {
        None => None,
        Some(s) => Some((s % 0x1_0000_0000) as u32),
    }
}

/// The lowercase mapping of every character of `s`, concatenated.
fn lowered_chars(s: &str) -> (r: Vec<char>)
    ensures
        r@ == lowered(s@),
{
    let cs = chars_of(s);
    let mut r: Vec<char> = Vec::new();
    let mut i: usize = 0;
    while i < cs.len()
        invariant
            cs@ == s@,
            i <= cs@.len(),
            r@ == lowered(cs@.take(i as int)),
        decreases cs@.len() - i,
    {
        let l = lower_char(cs[i]);
        let mut j: usize = 0;
        let ghost before = r@;
        while j < l.len()
            invariant
                j <= l@.len(),
                r@ == before + l@.take(j as int),
            decreases l@.len() - j,
        {
            r.push(l[j]);
            j = j + 1;
            assert(r@ =~= before + l@.take(j as int));
        }
        assert(l@.take(l@.len() as int) =~= l@);
        assert(cs@.take(i + 1).drop_last() =~= cs@.take(i as int));
        i = i + 1;
    }
    assert(cs@.take(cs@.len() as int) =~= cs@);
    r
}

/// Adds a known amount to an optional score.
pub open spec fn plus(a: int, o: Option<int>) -> Option<int> {
    match o {
        None => None,
        Some(x) => Some(a + x),
    }
}

/// Fzf-style fuzzy matching: every character of the (lowercased) query must
/// appear in order in the (lowercased) target; the greedy match is scored.
/// Returns `None` when the query does not match.
pub fn fuzzy_match(query: &str, target: &str) -> (r: Option<u32>)
    ensures
        r == fuzzy_result(query@, target@),
{
    if query.is_empty() {
        return Some(0);
    }
    let q = lowered_chars(query);
    let t = lowered_chars(target);
    let n = t.len();
    let mut qi: usize = 0;
    let mut score: u128 = 0;
    let mut prev: Option<usize> = None;
    let mut ti: usize = 0;
    while ti < n
        invariant
            q@ == lowered(query@),
            t@ == lowered(target@),
            n == t@.len(),
            ti <= n,
            qi <= q@.len(),
            score <= 25 * ti,
            prev matches Some(p) ==> p < ti,
            match_score(q@, t@, 0, 0, None) == plus(score as int, match_score(q@, t@, qi as int, ti as int,
                match prev { None => None, Some(p) => Some(p as int) })),
        decreases n - ti,
    {
        let ghost gprev: Option<int> = match prev { None => None, Some(p) => Some(p as int) };
        let tc = t[ti];
        if qi < q.len() && tc == q[qi] {
            let base: u128 = match prev {
                Some(p) => if ti == p + 1 { 20 } else { 10 },
                None => 15,
            };
            let bonus: u128 = if ti < n / 3 { 5 } else { 0 };
            assert(step_score(n as int, gprev, ti as int) == base + bonus);
            score = score + base + bonus;
            qi = qi + 1;
            prev = Some(ti);
        } else if qi < q.len() {
            assert(next_occurrence(t@, ti as int, q@[qi as int]) == next_occurrence(t@, ti + 1, q@[qi as int]));
        }
        ti = ti + 1;
    }
    if qi < q.len() {
        assert(next_occurrence(t@, n as int, q@[qi as int]) is None);
    }
    if qi == q.len() {
        let r32: u32 = (score % 0x1_0000_0000u128) as u32;
        Some(r32)
    } else {
        None
    }
}


/// The combined score of an entry: a hit on the name counts fully, a hit
/// on both name and password earns two extra points, a hit on the password
/// alone costs one point.
pub open spec fn entry_score(query: Seq<char>, e: EntryView) -> Option<u32> {
    match (fuzzy_result(query, e.name), fuzzy_result(query, e.password)) {
        (Some(a), Some(b)) => Some((((if a >= b { a as int } else { b as int }) + 2) % 0x1_0000_0000) as u32),
        (Some(a), None) => Some(a),
        (None, Some(b)) => Some(if b >= 1 { (b - 1) as u32 } else { 0u32 }),
        (None, None) => None,
    }
}

/// The `(index, score)` pairs of the entries that match, in entry order.
pub open spec fn hits(query: Seq<char>, es: Seq<EntryView>) -> Seq<(usize, u32)>
    decreases es.len(),
{
    if es.len() == 0 {
        seq![]
    } else {
        let h = hits(query, es.drop_last());
        match entry_score(query, es.last()) {
            Some(sc) => h.push(((es.len() - 1) as usize, sc)),
            None => h,
        }
    }
}

/// `a` is listed before `b`: a higher score first, ties in entry order.
pub open spec fn ranks_before(a: (usize, u32), b: (usize, u32)) -> bool {
    a.1 > b.1 || (a.1 == b.1 && a.0 < b.0)
}

/// Every element of `r` is listed before every later one.
pub open spec fn strictly_ranked(r: Seq<(usize, u32)>) -> bool {
    forall|i: int, j: int| 0 <= i < j < r.len() ==> ranks_before(#[trigger] r[i], #[trigger] r[j])
}

/// The hits name distinct entries, in increasing order, all below `es.len()`.
pub proof fn lemma_hits_increasing(query: Seq<char>, es: Seq<EntryView>)
    requires
        es.len() <= usize::MAX,
    ensures
        forall|i: int, j: int| 0 <= i < j < hits(query, es).len() ==>
            (#[trigger] hits(query, es)[i]).0 < (#[trigger] hits(query, es)[j]).0,
        forall|i: int| 0 <= i < hits(query, es).len() ==> (#[trigger] hits(query, es)[i]).0 < es.len(),
        hits(query, es).len() <= es.len(),
    decreases es.len(),
{
    if es.len() > 0 {
        let h = hits(query, es.drop_last());
        lemma_hits_increasing(query, es.drop_last());
        let hs = hits(query, es);
        assert forall|i: int, j: int| 0 <= i < j < hs.len() implies (#[trigger] hs[i]).0 < (#[trigger] hs[j]).0 by {
            match entry_score(query, es.last()) {
                Some(sc) => {
                    assert(hs == h.push(((es.len() - 1) as usize, sc)));
                    if j >= h.len() {
                        assert(hs[i] == h[i]);
                        assert(h[i].0 < es.len() - 1);
                    } else {
                        assert(hs[i] == h[i] && hs[j] == h[j]);
                    }
                },
                None => {
                    assert(hs == h);
                },
            }
        }
    }
}

/// Whether `r` is the ranking of `es` against `query`: nothing for an
/// empty query or a `<cmd>` line; otherwise exactly the hits, best score
/// first, ties in entry order.
#[verifier::opaque]
pub open spec fn is_ranking(query: Seq<char>, es: Seq<EntryView>, r: Seq<(usize, u32)>) -> bool {
    if query.len() == 0 || has_prefix(query, "<cmd>"@) {
        r.len() == 0
    } else {
        &&& r.len() == hits(query, es).len()
        &&& forall|x: (usize, u32)| r.contains(x) <==> hits(query, es).contains(x)
        &&& strictly_ranked(r)
    }
}

/// Ranks every entry against `query` (no ranking for an empty query or a
/// `<cmd>` line): the matching entries, best score first, ties in entry order.
pub fn run_search(query: &str, entries: &[PasswordEntry]) -> (r: Vec<(usize, u32)>)
    ensures
        is_ranking(query@, entry_views(entries@), r@),
{
    reveal(is_ranking);
    let qc = chars_of(query);
    let cmd = chars_of("<cmd>");
    if query.is_empty() || starts_with(qc.as_slice(), cmd.as_slice()) {
        return Vec::new();
    }
    let ghost es = entry_views(entries@);
    // collect the hits in entry order
    let mut h: Vec<(usize, u32)> = Vec::new();
    let mut i: usize = 0;
    while i < entries.len()
        invariant
            es == entry_views(entries@),
            i <= entries@.len(),
            h@ == hits(query@, es.take(i as int)),
        decreases entries@.len() - i,
    {
        let e = &entries[i];
        let name = fuzzy_match(query, e.name.as_str());
        let pass = fuzzy_match(query, e.password.as_str());
        assert(es.take(i + 1).drop_last() =~= es.take(i as int));
        assert(es.take(i + 1).last() == e@);
        match (name, pass) {
            (Some(a), Some(b)) => {
                let m: u64 = if a >= b { a as u64 } else { b as u64 };
                let sc: u32 = ((m + 2) % 0x1_0000_0000u64) as u32;
                h.push((i, sc));
            },
            (Some(a), None) => {
                h.push((i, a));
            },
            (None, Some(b)) => {
                h.push((i, b.saturating_sub(1)));
            },
            (None, None) => {},
        }
        i = i + 1;
    }
    assert(es.take(entries@.len() as int) =~= es);
    proof {
        lemma_hits_increasing(query@, es);
    }
    // stable insertion into a ranked list
    let mut r: Vec<(usize, u32)> = Vec::new();
    let mut m: usize = 0;
    while m < h.len()
        invariant
            h@ == hits(query@, es),
            forall|a: int, b: int| 0 <= a < b < h@.len() ==> (#[trigger] h@[a]).0 < (#[trigger] h@[b]).0,
            m <= h@.len(),
            r@.len() == m,
            strictly_ranked(r@),
            forall|x: (usize, u32)| r@.contains(x) <==> h@.take(m as int).contains(x),
        decreases h@.len() - m,
    {
        let x = h[m];
        // every element already placed names an earlier entry
        assert forall|k: int| 0 <= k < r@.len() implies (#[trigger] r@[k]).0 < x.0 by {
            assert(r@.contains(r@[k]));
            let j = choose|j: int| 0 <= j < m && #[trigger] h@.take(m as int)[j] == r@[k];
            assert(h@[j] == r@[k]);
        }
        let mut p: usize = 0;
        while p < r.len() && (r[p].1 > x.1 || (r[p].1 == x.1 && r[p].0 < x.0))
            invariant
                p <= r@.len(),
                forall|k: int| 0 <= k < p ==> ranks_before(#[trigger] r@[k], x),
            decreases r@.len() - p,
        {
            p = p + 1;
        }
        assert forall|k: int| p <= k < r@.len() implies ranks_before(x, #[trigger] r@[k]) by {
            assert(!ranks_before(r@[p as int], x));
            if k > p {
                assert(ranks_before(r@[p as int], r@[k]));
            }
        }
        let ghost old_r = r@;
        r.insert(p, x);
        proof {
            old_r.insert_ensures(p as int, x);
            assert(h@.take(m + 1) =~= h@.take(m as int).push(x));
            assert forall|y: (usize, u32)| r@.contains(y) <==> h@.take(m + 1).contains(y) by {
                if r@.contains(y) {
                    let k = choose|k: int| 0 <= k < r@.len() && #[trigger] r@[k] == y;
                    if k < p {
                        assert(old_r.contains(y));
                    } else if k > p {
                        assert(old_r[k - 1] == y);
                        assert(old_r.contains(y));
                    }
                    if y != x {
                        assert(h@.take(m as int).contains(y));
                        let j = choose|j: int| 0 <= j < m && #[trigger] h@.take(m as int)[j] == y;
                        assert(h@.take(m + 1)[j] == y);
                    } else {
                        assert(h@.take(m + 1)[m as int] == y);
                    }
                }
                if h@.take(m + 1).contains(y) {
                    let j = choose|j: int| 0 <= j < m + 1 && #[trigger] h@.take(m + 1)[j] == y;
                    if j < m {
                        assert(h@.take(m as int)[j] == y);
                        assert(old_r.contains(y));
                        let k = choose|k: int| 0 <= k < old_r.len() && #[trigger] old_r[k] == y;
                        if k < p {
                            assert(r@[k] == y);
                        } else {
                            assert(r@[k + 1] == y);
                        }
                    } else {
                        assert(r@[p as int] == y);
                    }
                }
            }
        }
        m = m + 1;
    }
    assert(h@.take(h@.len() as int) =~= h@);
    r
}

} // verus!
