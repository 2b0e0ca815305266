//! Escaping of arbitrary text for the inside of a double-quoted xonsh
//! (Python) string literal, which is how the path of the host executable is
//! written into the hook.

use crate::escape::fits_literal;
use vstd::prelude::*;
use vstd::std_specs::iter::IteratorSpec;

verus! {

/// The two-character sequence that stands for `c` inside a double-quoted
/// literal, for the three characters that cannot stand there as they are:
/// the double quote, the backslash and the line feed.
pub open spec fn dq_escape_sequence(c: char) -> Option<Seq<char>> {
    if c == '"' {
        Some(seq!['\\', '"'])
    } else if c == '\\' {
        Some(seq!['\\', '\\'])
    } else if c == '\n' {
        Some(seq!['\\', 'n'])
    } else {
        None
    }
}

/// What one character of the input turns into.
pub open spec fn dq_escaped_char(c: char) -> Seq<char> {
    match dq_escape_sequence(c) {
        Some(e) => e,
        None => seq![c],
    }
}

/// The escaped form of `s` for a double-quoted literal: every character
/// replaced by its escape sequence where it has one, and kept where it has
/// none.
pub open spec fn dq_escaped(s: Seq<char>) -> Seq<char>
    decreases s.len(),
{
    if s.len() == 0 {
        Seq::empty()
    } else {
        dq_escaped_char(s[0]) + dq_escaped(s.skip(1))
    }
}

/// No character of `s` needs an escape sequence in a double-quoted literal.
pub open spec fn is_dq_clean(s: Seq<char>) -> bool {
    forall|i: int| 0 <= i < s.len() ==> dq_escape_sequence(#[trigger] s[i]) is None
}

/// The character that a backslash followed by `c` stands for in a
/// double-quoted literal, for the three sequences that the escaper writes.
pub open spec fn dq_escape_target(c: char) -> Option<char> {
    if c == '"' {
        Some('"')
    } else if c == '\\' {
        Some('\\')
    } else if c == 'n' {
        Some('\n')
    } else {
        None
    }
}

/// Characters that the interpreter does not accept as they are inside a
/// double-quoted literal: the double quote ends the literal, a line break
/// (line feed or carriage return) ends the line before the literal is
/// closed, and source text holds no NUL.
pub open spec fn breaks_dq_literal(c: char) -> bool {
    c == '"' || c == '\n' || c == '\r' || c == '\0'
}

/// The text that the interpreter reads from `"` + `body` + `"`.
///
/// A model of double-quoted literals as far as the escaper uses them. It
/// answers `None` where `body` holds a character that breaks the literal, a
/// backslash at its end, or a backslash sequence other than the three of
/// [`dq_escape_target`]: wherever it answers with a text, that text is what
/// the literal evaluates to.
pub open spec fn dq_literal_value(body: Seq<char>) -> Option<Seq<char>>
    decreases body.len(),
{
    if body.len() == 0 {
        Some(Seq::empty())
    } else if body[0] == '\\' {
        if body.len() < 2 {
            None
        } else {
            match (dq_escape_target(body[1]), dq_literal_value(body.skip(2))) {
                (Some(c), Some(rest)) => Some(seq![c] + rest),
                _ => None,
            }
        }
    } else if breaks_dq_literal(body[0]) {
        None
    } else {
        match dq_literal_value(body.skip(1)) {
            Some(rest) => Some(seq![body[0]] + rest),
            None => None,
        }
    }
}

/// Escaping distributes over concatenation.
pub proof fn lemma_dq_escaped_concat(a: Seq<char>, b: Seq<char>)
    ensures
        dq_escaped(a + b) == dq_escaped(a) + dq_escaped(b),
    decreases a.len(),
{
    if a.len() == 0 {
        assert(a + b =~= b);
        assert(dq_escaped(a) + dq_escaped(b) =~= dq_escaped(b));
    } else {
        assert((a + b).skip(1) =~= a.skip(1) + b);
        lemma_dq_escaped_concat(a.skip(1), b);
        assert(dq_escaped(a + b) =~= dq_escaped(a) + dq_escaped(b));
    }
}

/// Escaping one more character appends what that character turns into.
pub proof fn lemma_dq_escaped_push(s: Seq<char>, c: char)
    ensures
        dq_escaped(s.push(c)) == dq_escaped(s) + dq_escaped_char(c),
{
    assert(s.push(c) =~= s + seq![c]);
    lemma_dq_escaped_concat(s, seq![c]);
    assert(seq![c].skip(1).len() == 0);
    assert(dq_escaped(seq![c]) =~= dq_escaped_char(c) + dq_escaped(seq![c].skip(1)));
}

/// Clean text is its own escaped form.
pub proof fn lemma_dq_escaped_clean(s: Seq<char>)
    requires
        is_dq_clean(s),
    ensures
        dq_escaped(s) == s,
    decreases s.len(),
{
    if s.len() > 0 {
        assert(dq_escape_sequence(s[0]) is None);
        assert forall|i: int| 0 <= i < s.skip(1).len() implies dq_escape_sequence(
            #[trigger] s.skip(1)[i],
        ) is None by {
            assert(s.skip(1)[i] == s[i + 1]);
        }
        lemma_dq_escaped_clean(s.skip(1));
        assert(seq![s[0]] + s.skip(1) =~= s);
    }
}

/// Escaping round trip: the interpreter reads the escaped form of `s`, put
/// between double quotes, back as exactly `s`. This holds for every text of
/// double quotes, backslashes, line feeds and ordinary characters, in any
/// combination.
pub proof fn lemma_dq_escape_round_trip(s: Seq<char>)
    requires
        fits_literal(s),
    ensures
        dq_literal_value(dq_escaped(s)) == Some(s),
    decreases s.len(),
{
    if s.len() > 0 {
        let c = s[0];
        let rest = s.skip(1);
        assert(fits_literal(rest)) by {
            assert forall|i: int| 0 <= i < rest.len() implies #[trigger] rest[i] != '\r'
                && rest[i] != '\0' by {
                assert(rest[i] == s[i + 1]);
            }
        }
        lemma_dq_escape_round_trip(rest);
        let e = dq_escaped(s);
        assert(e == dq_escaped_char(c) + dq_escaped(rest));
        assert(seq![c] + rest =~= s);
        if dq_escape_sequence(c) is Some {
            assert(e[0] == '\\');
            assert(e.skip(2) =~= dq_escaped(rest));
            assert(dq_escape_target(e[1]) == Some(c));
        } else {
            assert(e[0] == c);
            assert(s[0] != '\r' && s[0] != '\0');
            assert(!breaks_dq_literal(c));
            assert(e.skip(1) =~= dq_escaped(rest));
        }
    }
}

/// The escape sequence for `ch` in a double-quoted literal, or `None` where
/// `ch` needs none.
pub fn xonsh_escape_dq_char(ch: char) -> (res: Option<&'static str>)
    ensures
        match res {
            Some(s) => dq_escape_sequence(ch) == Some(s@),
            None => dq_escape_sequence(ch) is None,
        },
{
    proof {
        reveal_strlit("\\\"");
        reveal_strlit("\\\\");
        reveal_strlit("\\n");
    }
    match ch {
        '"' => {
            assert("\\\""@ =~= seq!['\\', '"']);
            Some("\\\"")
        },
        '\\' => {
            assert("\\\\"@ =~= seq!['\\', '\\']);
            Some("\\\\")
        },
        '\n' => {
            assert("\\n"@ =~= seq!['\\', 'n']);
            Some("\\n")
        },
        _ => None,
    }
}

/// Escapes `input` for the inside of a double-quoted literal.
pub fn xonsh_escape_dq(input: &str) -> (res: String)
    ensures
        res@ == dq_escaped(input@),
{
    let mut out = String::new();
    let mut chars = input.chars();
    let ghost mut n: int = 0;
    assert(dq_escaped(input@.take(0)) =~= Seq::<char>::empty());
    loop
        invariant
            chars.obeys_prophetic_iter_laws(),
            0 <= n <= input@.len(),
            chars.remaining() == input@.skip(n),
            out@ == dq_escaped(input@.take(n)),
        decreases input@.len() - n,
    {
        match chars.next() {
            None => {
                assert(input@.take(n) =~= input@);
                return out;
            },
            Some(ch) => {
                proof {
                    assert(ch == input@[n]);
                    assert(input@.skip(n).drop_first() =~= input@.skip(n + 1));
                    assert(input@.take(n + 1) =~= input@.take(n).push(ch));
                    lemma_dq_escaped_push(input@.take(n), ch);
                }
                match xonsh_escape_dq_char(ch) {
                    Some(sequence) => out.append(sequence),
                    None => out.push(ch),
                }
                proof {
                    n = n + 1;
                }
            },
        }
    }
}

} // verus!
