//! What the library relies on from `std` for building text, beyond what
//! `vstd` already specifies, and comparison of texts character by character.

use vstd::prelude::*;
use vstd::std_specs::iter::IteratorSpec;

verus! {

/// `String::push` appends the character to the end of the string and leaves
/// what was there before in place.
pub assume_specification[ String::push ](s: &mut String, ch: char)
    ensures
        final(s)@ == old(s)@.push(ch),
;

/// Whether `a` and `b` hold the same characters.
pub fn text_eq(a: &str, b: &str) -> (same: bool)
    ensures
        same == (a@ == b@),
{
    let mut xs = a.chars();
    let mut ys = b.chars();
    let ghost mut n: int = 0;
    loop
        invariant
            xs.obeys_prophetic_iter_laws(),
            ys.obeys_prophetic_iter_laws(),
            0 <= n <= a@.len(),
            n <= b@.len(),
            xs.remaining() == a@.skip(n),
            ys.remaining() == b@.skip(n),
            a@.take(n) == b@.take(n),
        decreases a@.len() - n,
    {
        let x = xs.next();
        let y = ys.next();
        match (x, y) {
            (None, None) => {
                assert(a@.take(n) =~= a@);
                assert(b@.take(n) =~= b@);
                return true;
            },
            (Some(c), Some(d)) => {
                assert(c == a@[n] && d == b@[n]);
                if c != d {
                    return false;
                }
                proof {
                    assert(a@.skip(n).drop_first() =~= a@.skip(n + 1));
                    assert(b@.skip(n).drop_first() =~= b@.skip(n + 1));
                    assert(a@.take(n + 1) =~= a@.take(n).push(c));
                    assert(b@.take(n + 1) =~= b@.take(n).push(d));
                    n = n + 1;
                }
            },
            _ => {
                assert(a@.len() != b@.len());
                return false;
            },
        }
    }
}

/// The code of `c`, with the lower-case ASCII letters mapped to their
/// upper-case ones.
pub open spec fn ascii_fold(c: char) -> u32 {
    if 'a' <= c <= 'z' {
        (c as u32 - 32) as u32
    } else {
        c as u32
    }
}

/// `a` and `b` are equal up to the case of their ASCII letters.
pub open spec fn same_ignoring_ascii_case(a: Seq<char>, b: Seq<char>) -> bool {
    a.len() == b.len() && forall|i: int|
        0 <= i < a.len() ==> ascii_fold(#[trigger] a[i]) == ascii_fold(b[i])
}

fn ascii_fold_of(c: char) -> (code: u32)
    ensures
        code == ascii_fold(c),
{
    let code: u32 = c as u32;
    if 97 <= code && code <= 122 {
        code - 32
    } else {
        code
    }
}

/// Whether `a` and `b` are equal up to the case of their ASCII letters.
pub fn text_eq_ignoring_ascii_case(a: &str, b: &str) -> (same: bool)
    ensures
        same == same_ignoring_ascii_case(a@, b@),
{
    let mut xs = a.chars();
    let mut ys = b.chars();
    let ghost mut n: int = 0;
    loop
        invariant
            xs.obeys_prophetic_iter_laws(),
            ys.obeys_prophetic_iter_laws(),
            0 <= n <= a@.len(),
            n <= b@.len(),
            xs.remaining() == a@.skip(n),
            ys.remaining() == b@.skip(n),
            forall|i: int| 0 <= i < n ==> ascii_fold(#[trigger] a@[i]) == ascii_fold(b@[i]),
        decreases a@.len() - n,
    {
        let x = xs.next();
        let y = ys.next();
        match (x, y) {
            (None, None) => {
                return true;
            },
            (Some(c), Some(d)) => {
                assert(c == a@[n] && d == b@[n]);
                if ascii_fold_of(c) != ascii_fold_of(d) {
                    return false;
                }
                proof {
                    assert(a@.skip(n).drop_first() =~= a@.skip(n + 1));
                    assert(b@.skip(n).drop_first() =~= b@.skip(n + 1));
                    n = n + 1;
                }
            },
            _ => {
                assert(a@.len() != b@.len());
                return false;
            },
        }
    }
}

} // verus!
