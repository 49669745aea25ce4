//! Password helpers: strong random passwords, masking for display, and the
//! character filters of the input fields.

use vstd::prelude::*;
use rand::seq::SliceRandom;
use crate::text::{chars_of, string_from_chars, is_digit, is_ascii_digit};

verus! {

/// Lowercase letters.
pub const LOWER: &'static str = "abcdefghijklmnopqrstuvwxyz";
/// Uppercase letters.
pub const UPPER: &'static str = "ABCDEFGHIJKLMNOPQRSTUVWXYZ";
/// Decimal digits.
pub const DIGITS: &'static str = "0123456789";
/// Special characters.
pub const SPECIAL: &'static str = "!@#$%^&*()-_=+[]{}|;:,.<>?";

/// `SliceRandom::choose` with the thread-local generator: one element of a
/// non-empty slice, picked at random. Only membership is claimed.
#[verifier::external_body]
fn choose_char(set: &[char]) -> (c: char)
    requires
        set@.len() > 0,
    ensures
        set@.contains(c),
{
    *set.choose(&mut rand::thread_rng()).unwrap()
}

/// `SliceRandom::shuffle` with the thread-local generator: a random
/// permutation. Claimed: the same characters, each as often as before (the
/// source only swaps elements).
#[verifier::external_body]
fn shuffle_chars(v: &mut Vec<char>)
    ensures
        final(v)@.to_multiset() == old(v)@.to_multiset(),
{
    v.shuffle(&mut rand::thread_rng());
}

/// The alphabet of generated passwords: all four classes.
pub open spec fn alphabet() -> Seq<char> {
    LOWER@ + UPPER@ + DIGITS@ + SPECIAL@
}

/// What a generated password for `length` is: `max(length, 4)` characters
/// with at least one lowercase letter, one uppercase letter, one digit and
/// one special character, all drawn from the four classes.
pub open spec fn strong_password(length: usize, r: Seq<char>) -> bool {
    &&& r.len() == if length < 4 { 4 } else { length }
    &&& exists|i: int| 0 <= i < r.len() && LOWER@.contains(#[trigger] r[i])
    &&& exists|i: int| 0 <= i < r.len() && UPPER@.contains(#[trigger] r[i])
    &&& exists|i: int| 0 <= i < r.len() && DIGITS@.contains(#[trigger] r[i])
    &&& exists|i: int| 0 <= i < r.len() && SPECIAL@.contains(#[trigger] r[i])
    &&& forall|i: int| 0 <= i < r.len() ==> alphabet().contains(#[trigger] r[i])
}

/// A random password of `max(length, 4)` characters with at least one
/// lowercase letter, one uppercase letter, one digit and one special
/// character, all drawn from the four classes.
pub fn generate_strong_password(length: usize) -> (r: String)
    ensures
        strong_password(length, r@),
{
    proof {
        reveal_strlit("abcdefghijklmnopqrstuvwxyz");
        reveal_strlit("ABCDEFGHIJKLMNOPQRSTUVWXYZ");
        reveal_strlit("0123456789");
        reveal_strlit("!@#$%^&*()-_=+[]{}|;:,.<>?");
    }
    let lower = chars_of(LOWER);
    let upper = chars_of(UPPER);
    let digits = chars_of(DIGITS);
    let special = chars_of(SPECIAL);
    let mut all: Vec<char> = Vec::new();
    all.append(&mut lower.clone());
    all.append(&mut upper.clone());
    all.append(&mut digits.clone());
    all.append(&mut special.clone());
    assert(all@ =~= alphabet());
    let n = if length < 4 { 4 } else { length };
    let mut chars: Vec<char> = Vec::new();
    chars.push(choose_char(lower.as_slice()));
    chars.push(choose_char(upper.as_slice()));
    chars.push(choose_char(digits.as_slice()));
    chars.push(choose_char(special.as_slice()));
    proof {
        assert forall|c: char| LOWER@.contains(c) implies alphabet().contains(c) by {
            let i = choose|i: int| 0 <= i < LOWER@.len() && LOWER@[i] == c;
            assert(alphabet()[i] == c);
        }
        assert forall|c: char| UPPER@.contains(c) implies alphabet().contains(c) by {
            let i = choose|i: int| 0 <= i < UPPER@.len() && UPPER@[i] == c;
            assert(alphabet()[26 + i] == c);
        }
        assert forall|c: char| DIGITS@.contains(c) implies alphabet().contains(c) by {
            let i = choose|i: int| 0 <= i < DIGITS@.len() && DIGITS@[i] == c;
            assert(alphabet()[52 + i] == c);
        }
        assert forall|c: char| SPECIAL@.contains(c) implies alphabet().contains(c) by {
            let i = choose|i: int| 0 <= i < SPECIAL@.len() && SPECIAL@[i] == c;
            assert(alphabet()[62 + i] == c);
        }
    }
    let mut k: usize = 4;
    while k < n
        invariant
            4 <= k <= n,
            n == if length < 4 { 4 } else { length },
            chars@.len() == k,
            all@ == alphabet(),
            LOWER@.contains(chars@[0]),
            UPPER@.contains(chars@[1]),
            DIGITS@.contains(chars@[2]),
            SPECIAL@.contains(chars@[3]),
            forall|i: int| 0 <= i < chars@.len() ==> alphabet().contains(#[trigger] chars@[i]),
        decreases n - k,
    {
        chars.push(choose_char(all.as_slice()));
        k = k + 1;
    }
    let ghost before = chars@;
    shuffle_chars(&mut chars);
    proof {
        before.to_multiset_ensures();
        chars@.to_multiset_ensures();
        lemma_permuted_contains(before, chars@, before[0]);
        lemma_permuted_contains(before, chars@, before[1]);
        lemma_permuted_contains(before, chars@, before[2]);
        lemma_permuted_contains(before, chars@, before[3]);
        assert forall|i: int| 0 <= i < chars@.len() implies alphabet().contains(#[trigger] chars@[i]) by {
            assert(chars@.contains(chars@[i]));
            lemma_permuted_contains(chars@, before, chars@[i]);
            let j = choose|j: int| 0 <= j < before.len() && before[j] == chars@[i];
            assert(alphabet().contains(before[j]));
        }
    }
    string_from_chars(chars.as_slice())
}

/// What one sequence holds, a permutation of it holds too.
proof fn lemma_permuted_contains(a: Seq<char>, b: Seq<char>, x: char)
    requires
        a.to_multiset() == b.to_multiset(),
        a.contains(x),
    ensures
        b.contains(x),
{
    a.to_multiset_ensures();
    b.to_multiset_ensures();
    assert(a.to_multiset().count(x) > 0);
    assert(b.to_multiset().count(x) > 0);
}

/// A mask character per character of the password.
pub open spec fn masked(p: Seq<char>) -> Seq<char> {
    Seq::new(p.len(), |i: int| '●')
}

/// The password hidden behind one `●` per character.
pub fn mask(password: &str) -> (r: String)
    ensures
        r@ == masked(password@),
{
    let p = chars_of(password);
    let mut m: Vec<char> = Vec::new();
    let mut i: usize = 0;
    while i < p.len()
        invariant
            i <= p@.len(),
            m@ == masked(p@.take(i as int)),
        decreases p@.len() - i,
    {
        m.push('●');
        i = i + 1;
        assert(m@ =~= masked(p@.take(i as int)));
    }
    assert(p@.take(p@.len() as int) =~= p@);
    string_from_chars(m.as_slice())
}

/// The characters of `s` that satisfy `keep`, in order.
pub open spec fn keep_chars(s: Seq<char>, ascii_only: bool) -> Seq<char>
    decreases s.len(),
{
    if s.len() == 0 {
        seq![]
    } else {
        let rest = keep_chars(s.drop_last(), ascii_only);
        let c = s.last();
        if (ascii_only && (c as u32) < 128) || (!ascii_only && is_digit(c)) {
            rest.push(c)
        } else {
            rest
        }
    }
}

/// `s` without its non-ASCII characters (`ascii_only`), or only its ASCII
/// digits (otherwise).
pub fn filter_chars(s: &str, ascii_only: bool) -> (r: String)
    ensures
        r@ == keep_chars(s@, ascii_only),
{
    let c = chars_of(s);
    let mut out: Vec<char> = Vec::new();
    let mut i: usize = 0;
    while i < c.len()
        invariant
            i <= c@.len(),
            c@ == s@,
            out@ == keep_chars(c@.take(i as int), ascii_only),
        decreases c@.len() - i,
    {
        let ch = c[i];
        assert(c@.take(i + 1).drop_last() =~= c@.take(i as int));
        if (ascii_only && (ch as u32) < 128) || (!ascii_only && is_ascii_digit(ch)) {
            out.push(ch);
        }
        i = i + 1;
    }
    assert(c@.take(c@.len() as int) =~= c@);
    string_from_chars(out.as_slice())
}

} // verus!
