//! Quoting of a variable name as one POSIX shell word, which is how a name
//! is written into a script. The quoting itself is done by the
//! `shell-escape` crate.

use std::borrow::Cow;
use vstd::prelude::*;

verus! {

/// Characters that a shell word can hold without quoting: ASCII letters and
/// digits and `-`, `_`, `=`, `/`, `,`, `.`, `+`.
pub open spec fn is_plain_word_char(c: char) -> bool {
    ||| 'a' <= c <= 'z'
    ||| 'A' <= c <= 'Z'
    ||| '0' <= c <= '9'
    ||| c == '-'
    ||| c == '_'
    ||| c == '='
    ||| c == '/'
    ||| c == ','
    ||| c == '.'
    ||| c == '+'
}

/// A text that needs no quoting: not empty, and plain characters only.
pub open spec fn is_plain_word(s: Seq<char>) -> bool {
    s.len() > 0 && forall|i: int| 0 <= i < s.len() ==> is_plain_word_char(#[trigger] s[i])
}

/// What one character turns into between the quotes of a quoted word: a
/// quote or an exclamation mark closes the quotes, stands behind a
/// backslash, and opens them again; any other character stands as it is.
pub open spec fn quoted_word_char(c: char) -> Seq<char> {
    if c == '\'' || c == '!' {
        seq!['\'', '\\', c, '\'']
    } else {
        seq![c]
    }
}

/// The characters of `s`, each as [`quoted_word_char`] gives it.
pub open spec fn quoted_word_body(s: Seq<char>) -> Seq<char>
    decreases s.len(),
{
    if s.len() == 0 {
        Seq::empty()
    } else {
        quoted_word_char(s[0]) + quoted_word_body(s.skip(1))
    }
}

/// `s` as one shell word: `s` itself where it is a plain word, else its
/// quoted body between single quotes.
pub open spec fn shell_word(s: Seq<char>) -> Seq<char> {
    if is_plain_word(s) {
        s
    } else {
        seq!['\''] + quoted_word_body(s) + seq!['\'']
    }
}

/// Calls `shell_escape::unix::escape`.
///
/// Trusted: the contract restates that function. It hands back its argument
/// where the argument is not empty and holds none but the characters of
/// [`is_plain_word_char`]. Otherwise it builds a new string: a single quote,
/// then each character of the argument in turn, where `'` and `!` are
/// written as `'\'` followed by the character and `'`, then a single quote.
#[verifier::external_body]
pub(crate) fn unix_escape<'a>(s: &'a str) -> (word: Cow<'a, str>)
    ensures
        word@ == shell_word(s@),
{
    shell_escape::unix::escape(Cow::Borrowed(s))
}

/// The text that a borrowed-or-owned string holds.
pub(crate) fn cow_text<'a>(c: &'a Cow<'a, str>) -> (text: &'a str)
    ensures
        text@ == c@,
{
    match c {
        Cow::Borrowed(b) => b,
        Cow::Owned(o) => o.as_str(),
    }
}

} // verus!
