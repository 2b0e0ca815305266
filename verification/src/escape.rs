//! Escaping of arbitrary text for the inside of a single-quoted xonsh
//! (Python) string literal.

use crate::ascii::{lemma_ascii_char_in_encoding, lemma_encode_concat, lemma_first_byte_ascii};
use std::borrow::Cow;
use vstd::prelude::*;
use vstd::std_specs::iter::IteratorSpec;
use vstd::string::StringSliceAdditionalSpecFns;
use vstd::utf8::*;

verus! {

/// The two-character sequence that stands for `c` inside a single-quoted
/// literal, for the three characters that cannot stand there as they are:
/// the quote, the backslash and the line feed.
pub open spec fn escape_sequence(c: char) -> Option<Seq<char>> {
    if c == '\'' {
        Some(seq!['\\', '\''])
    } else if c == '\\' {
        Some(seq!['\\', '\\'])
    } else if c == '\n' {
        Some(seq!['\\', 'n'])
    } else {
        None
    }
}

/// What one character of the input turns into.
pub open spec fn escaped_char(c: char) -> Seq<char> {
    match escape_sequence(c) {
        Some(e) => e,
        None => seq![c],
    }
}

/// The escaped form of `s`: every character replaced by its escape sequence
/// where it has one, and kept where it has none.
pub open spec fn escaped(s: Seq<char>) -> Seq<char>
    decreases s.len(),
{
    if s.len() == 0 {
        Seq::empty()
    } else {
        escaped_char(s[0]) + escaped(s.skip(1))
    }
}

/// No character of `s` needs an escape sequence.
pub open spec fn is_clean(s: Seq<char>) -> bool {
    forall|i: int| 0 <= i < s.len() ==> escape_sequence(#[trigger] s[i]) is None
}

/// Escaping distributes over concatenation.
pub proof fn lemma_escaped_concat(a: Seq<char>, b: Seq<char>)
    ensures
        escaped(a + b) == escaped(a) + escaped(b),
    decreases a.len(),
{
    if a.len() == 0 {
        assert(a + b =~= b);
        assert(escaped(a) + escaped(b) =~= escaped(b));
    } else {
        assert((a + b).skip(1) =~= a.skip(1) + b);
        lemma_escaped_concat(a.skip(1), b);
        assert(escaped(a + b) =~= escaped(a) + escaped(b));
    }
}

/// Escaping one more character appends what that character turns into.
pub proof fn lemma_escaped_push(s: Seq<char>, c: char)
    ensures
        escaped(s.push(c)) == escaped(s) + escaped_char(c),
{
    assert(s.push(c) =~= s + seq![c]);
    lemma_escaped_concat(s, seq![c]);
    assert(seq![c].skip(1).len() == 0);
    assert(escaped(seq![c]) =~= escaped_char(c) + escaped(seq![c].skip(1)));
}

/// Clean text is its own escaped form.
pub proof fn lemma_escaped_clean(s: Seq<char>)
    requires
        is_clean(s),
    ensures
        escaped(s) == s,
    decreases s.len(),
{
    if s.len() > 0 {
        assert(escape_sequence(s[0]) is None);
        assert forall|i: int| 0 <= i < s.skip(1).len() implies escape_sequence(
            #[trigger] s.skip(1)[i],
        ) is None by {
            assert(s.skip(1)[i] == s[i + 1]);
        }
        lemma_escaped_clean(s.skip(1));
        assert(seq![s[0]] + s.skip(1) =~= s);
    }
}

/// The character that a backslash followed by `c` stands for in a literal,
/// for the three sequences that the escaper writes.
pub open spec fn escape_target(c: char) -> Option<char> {
    if c == '\'' {
        Some('\'')
    } else if c == '\\' {
        Some('\\')
    } else if c == 'n' {
        Some('\n')
    } else {
        None
    }
}

/// Characters that the interpreter does not accept as they are inside a
/// single-quoted literal: the quote ends the literal, a line break (line
/// feed or carriage return) ends the line before the literal is closed, and
/// source text holds no NUL.
pub open spec fn breaks_literal(c: char) -> bool {
    c == '\'' || c == '\n' || c == '\r' || c == '\0'
}

/// The text that the interpreter reads from `'` + `body` + `'`.
///
/// A model of single-quoted literals as far as the escaper uses them. It
/// answers `None` where `body` holds a character that breaks the literal, a
/// backslash at its end, or a backslash sequence other than the three of
/// [`escape_target`]: wherever it answers with a text, that text is what the
/// literal evaluates to.
pub open spec fn literal_value(body: Seq<char>) -> Option<Seq<char>>
    decreases body.len(),
{
    if body.len() == 0 {
        Some(Seq::empty())
    } else if body[0] == '\\' {
        if body.len() < 2 {
            None
        } else {
            match (escape_target(body[1]), literal_value(body.skip(2))) {
                (Some(c), Some(rest)) => Some(seq![c] + rest),
                _ => None,
            }
        }
    } else if breaks_literal(body[0]) {
        None
    } else {
        match literal_value(body.skip(1)) {
            Some(rest) => Some(seq![body[0]] + rest),
            None => None,
        }
    }
}

/// No character of `s` is a carriage return or a NUL, which the escaper
/// passes through and a literal cannot hold.
pub open spec fn fits_literal(s: Seq<char>) -> bool {
    forall|i: int| 0 <= i < s.len() ==> #[trigger] s[i] != '\r' && s[i] != '\0'
}

/// Escaping round trip: the interpreter reads the escaped form of `s`, put
/// between single quotes, back as exactly `s`. This holds for every text of
/// quotes, backslashes, line feeds and ordinary characters, in any
/// combination.
pub proof fn lemma_escape_round_trip(s: Seq<char>)
    requires
        fits_literal(s),
    ensures
        literal_value(escaped(s)) == Some(s),
    decreases s.len(),
{
    if s.len() > 0 {
        let c = s[0];
        let rest = s.skip(1);
        assert(fits_literal(rest)) by {
            assert forall|i: int| 0 <= i < rest.len() implies #[trigger] rest[i] != '\r'
                && rest[i] != '\0' by {
                assert(rest[i] == s[i + 1]);
            }
        }
        lemma_escape_round_trip(rest);
        let e = escaped(s);
        assert(e == escaped_char(c) + escaped(rest));
        assert(seq![c] + rest =~= s);
        if escape_sequence(c) is Some {
            assert(e[0] == '\\');
            assert(e.skip(2) =~= escaped(rest));
            assert(escape_target(e[1]) == Some(c));
        } else {
            assert(e[0] == c);
            assert(s[0] != '\r' && s[0] != '\0');
            assert(!breaks_literal(c));
            assert(e.skip(1) =~= escaped(rest));
        }
    }
}

/// The escape sequence for `ch`, or `None` where `ch` needs none.
pub fn xonsh_escape_char(ch: char) -> (res: Option<&'static str>)
    ensures
        match res {
            Some(s) => escape_sequence(ch) == Some(s@),
            None => escape_sequence(ch) is None,
        },
{
    proof {
        reveal_strlit("\\'");
        reveal_strlit("\\\\");
        reveal_strlit("\\n");
    }
    match ch {
        '\'' => {
            assert("\\'"@ =~= seq!['\\', '\'']);
            Some("\\'")
        },
        '\\' => {
            assert("\\\\"@ =~= seq!['\\', '\\']);
            Some("\\\\")
        },
        '\n' => {
            assert("\\n"@ =~= seq!['\\', 'n']);
            Some("\\n")
        },
        _ => None,
    }
}

/// The byte is the code of a quote, a backslash or a line feed.
pub open spec fn is_special_byte(b: u8) -> bool {
    b == 0x27 || b == 0x5c || b == 0x0a
}

/// Text whose encoding holds no special byte is clean.
proof fn lemma_clean_bytes(s: Seq<char>)
    requires
        forall|j: int| 0 <= j < encode_utf8(s).len() ==> !is_special_byte(#[trigger] encode_utf8(s)[j]),
    ensures
        is_clean(s),
{
    assert forall|i: int| 0 <= i < s.len() implies escape_sequence(#[trigger] s[i]) is None by {
        if escape_sequence(s[i]) is Some {
            let j = lemma_ascii_char_in_encoding(s, i);
            assert(is_special_byte(encode_utf8(s)[j]));
        }
    }
}

/// Appends the escaped form of `text` to `out`, character by character.
fn push_escaped(out: &mut String, text: &str)
    ensures
        final(out)@ == old(out)@ + escaped(text@),
{
    let ghost start = out@;
    let mut chars = text.chars();
    let ghost mut n: int = 0;
    assert(start + escaped(text@.take(0)) =~= start);
    loop
        invariant
            chars.obeys_prophetic_iter_laws(),
            0 <= n <= text@.len(),
            chars.remaining() == text@.skip(n),
            start == old(out)@,
            out@ == start + escaped(text@.take(n)),
        decreases text@.len() - n,
    {
        match chars.next() {
            None => {
                assert(text@.take(n) =~= text@);
                return ;
            },
            Some(ch) => {
                proof {
                    assert(ch == text@[n]);
                    assert(text@.skip(n).drop_first() =~= text@.skip(n + 1));
                    assert(text@.take(n + 1) =~= text@.take(n).push(ch));
                    lemma_escaped_push(text@.take(n), ch);
                }
                match xonsh_escape_char(ch) {
                    Some(sequence) => out.append(sequence),
                    None => out.push(ch),
                }
                proof {
                    n = n + 1;
                }
            },
        }
    }
}

/// Escapes `input` for the inside of a single-quoted literal.
///
/// The input is read once. Input without a quote, a backslash or a line
/// feed comes back borrowed, with no allocation. Any other input comes back
/// as a new string: what stands before the first such character is copied
/// as it is, and the rest is escaped character by character.
pub fn xonsh_escape_sq(input: &str) -> (res: Cow<'_, str>)
    ensures
        res@ == escaped(input@),
        is_clean(input@) ==> res == Cow::<str>::Borrowed(input),
        !is_clean(input@) ==> res is Owned,
{
    let bytes = input.as_bytes();
    proof {
        encode_utf8_valid_utf8(input@);
    }
    let mut k: usize = 0;
    while k < bytes.len()
        invariant
            0 <= k <= bytes.len(),
            bytes@ == encode_utf8(input@),
            valid_utf8(bytes@),
            forall|j: int| 0 <= j < k ==> !is_special_byte(#[trigger] bytes@[j]),
        decreases bytes.len() - k,
    {
        let b = bytes[k];
        if b == 0x27 || b == 0x5c || b == 0x0a {
            proof {
                is_char_boundary_iff_not_is_continuation_byte(bytes@, k as int);
            }
            let (head, tail) = input.split_at(k);
            proof {
                let hb = bytes@.subrange(0, k as int);
                let tb = bytes@.subrange(k as int, bytes@.len() as int);
                assert(encode_utf8(head@) == hb);
                assert(encode_utf8(tail@) == tb);
                lemma_encode_concat(head@, tail@);
                assert(hb + tb =~= bytes@);
                encode_utf8_decode_utf8(head@ + tail@);
                encode_utf8_decode_utf8(input@);
                assert(head@ + tail@ == input@);
                lemma_clean_bytes(head@);
                lemma_escaped_clean(head@);
                lemma_escaped_concat(head@, tail@);
                assert(tb[0] == b);
                lemma_first_byte_ascii(tail@);
                let c = tail@[0];
                char_u32_cast(c, c as u32);
                assert(0x27u32 as char == '\'' && 0x5cu32 as char == '\\' && 0x0au32 as char
                    == '\n');
                assert(c as u32 == b);
                assert(escape_sequence(c) is Some);
                assert(input@[head@.len() as int] == tail@[0]);
            }
            let mut out = String::new();
            out.append(head);
            push_escaped(&mut out, tail);
            return Cow::Owned(out);
        }
        k += 1;
    }
    proof {
        lemma_clean_bytes(input@);
        lemma_escaped_clean(input@);
    }
    Cow::Borrowed(input)
}

} // verus!
