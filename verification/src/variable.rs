//! The two kinds of environment variable: those that hold one opaque text,
//! and those that hold a list of paths.

use crate::text::{ascii_fold, same_ignoring_ascii_case, text_eq_ignoring_ascii_case};
use vstd::prelude::*;

verus! {

/// What the value of an environment variable is.
#[derive(Clone, Copy, Debug, PartialEq, Eq, Structural)]
pub enum VariableKind {
    /// One opaque text.
    Scalar,
    /// An ordered list of paths, joined by the path-list separator.
    PathList,
}

/// The kind of the variable named `key`: a path list where `key` is `PATH`,
/// `MANPATH` or `INFOPATH` in any mix of upper and lower case, and a scalar
/// for every other name.
pub open spec fn kind_of(key: Seq<char>) -> VariableKind {
    if same_ignoring_ascii_case(key, "PATH"@) || same_ignoring_ascii_case(key, "MANPATH"@)
        || same_ignoring_ascii_case(key, "INFOPATH"@) {
        VariableKind::PathList
    } else {
        VariableKind::Scalar
    }
}

/// The kind of a variable does not depend on the case of its name.
pub proof fn lemma_kind_ignores_case(a: Seq<char>, b: Seq<char>)
    requires
        same_ignoring_ascii_case(a, b),
    ensures
        kind_of(a) == kind_of(b),
{
    lemma_same_name(a, b, "PATH"@);
    lemma_same_name(a, b, "MANPATH"@);
    lemma_same_name(a, b, "INFOPATH"@);
}

/// Two texts that are equal up to case are equal up to case to the same
/// names.
proof fn lemma_same_name(a: Seq<char>, b: Seq<char>, name: Seq<char>)
    requires
        same_ignoring_ascii_case(a, b),
    ensures
        same_ignoring_ascii_case(a, name) == same_ignoring_ascii_case(b, name),
{
    if same_ignoring_ascii_case(a, name) {
        assert forall|i: int| 0 <= i < b.len() implies ascii_fold(#[trigger] b[i]) == ascii_fold(
            name[i],
        ) by {
            assert(ascii_fold(a[i]) == ascii_fold(b[i]));
            assert(ascii_fold(a[i]) == ascii_fold(name[i]));
        }
    }
    if same_ignoring_ascii_case(b, name) {
        assert forall|i: int| 0 <= i < a.len() implies ascii_fold(#[trigger] a[i]) == ascii_fold(
            name[i],
        ) by {
            assert(ascii_fold(a[i]) == ascii_fold(b[i]));
            assert(ascii_fold(b[i]) == ascii_fold(name[i]));
        }
    }
}

/// Tells whether the variable named `key` holds a path list or a scalar.
pub fn classify(key: &str) -> (kind: VariableKind)
    ensures
        kind == kind_of(key@),
{
    if text_eq_ignoring_ascii_case(key, "PATH") || text_eq_ignoring_ascii_case(key, "MANPATH")
        || text_eq_ignoring_ascii_case(key, "INFOPATH") {
        VariableKind::PathList
    } else {
        VariableKind::Scalar
    }
}

} // verus!
