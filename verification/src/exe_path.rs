//! The path of the host executable, together with the directory that holds
//! it.

use std::path::Path;
use vstd::prelude::*;
use vstd::std_specs::iter::IteratorSpec;

verus! {

/// `prefix` is the beginning of `whole`, and shorter than it.
pub open spec fn is_proper_prefix(prefix: Seq<char>, whole: Seq<char>) -> bool {
    prefix.len() < whole.len() && whole.take(prefix.len() as int) == prefix
}

/// The path of the host executable and its parent directory, both as text.
///
/// The directory is what is left of the path when its final component is
/// taken away, so it is always a proper prefix of the path.
pub struct ExecutablePath {
    path: String,
    dir: String,
}

/// Calls `std::path::Path::parent` on the path that `path` spells: the path
/// without its final component, where it has one.
///
/// Trusted, with nothing stated of the result: whether a path has a parent,
/// and which, depends on the platform's path syntax. What comes back is
/// checked where it is used.
#[verifier::external_body]
fn parent_of(path: &str) -> (dir: Option<String>) {
    match Path::new(path).parent() {
        Some(parent) => Some(parent.to_string_lossy().into_owned()),
        None => None,
    }
}

/// Whether `prefix` is the beginning of `whole` and shorter than it.
fn starts_with_shorter(whole: &str, prefix: &str) -> (res: bool)
    ensures
        res == is_proper_prefix(prefix@, whole@),
{
    let mut ws = whole.chars();
    let mut ps = prefix.chars();
    let ghost mut n: int = 0;
    loop
        invariant
            ws.obeys_prophetic_iter_laws(),
            ps.obeys_prophetic_iter_laws(),
            0 <= n <= whole@.len(),
            n <= prefix@.len(),
            ws.remaining() == whole@.skip(n),
            ps.remaining() == prefix@.skip(n),
            whole@.take(n) == prefix@.take(n),
        decreases prefix@.len() - n,
    {
        let p = ps.next();
        let w = ws.next();
        match (p, w) {
            (None, Some(_)) => {
                assert(prefix@.take(n) =~= prefix@);
                return true;
            },
            (None, None) => {
                return false;
            },
            (Some(_), None) => {
                return false;
            },
            (Some(c), Some(d)) => {
                assert(c == prefix@[n] && d == whole@[n]);
                if c != d {
                    proof {
                        if prefix@.len() < whole@.len() {
                            assert(whole@.take(prefix@.len() as int)[n] == d);
                        }
                    }
                    return false;
                }
                proof {
                    assert(whole@.skip(n).drop_first() =~= whole@.skip(n + 1));
                    assert(prefix@.skip(n).drop_first() =~= prefix@.skip(n + 1));
                    assert(whole@.take(n + 1) =~= whole@.take(n).push(d));
                    assert(prefix@.take(n + 1) =~= prefix@.take(n).push(c));
                    n = n + 1;
                }
            },
        }
    }
}

impl ExecutablePath {
    #[verifier::type_invariant]
    spec fn dir_is_prefix(self) -> bool {
        is_proper_prefix(self.dir@, self.path@)
    }

    /// The path, as text.
    pub closed spec fn path_text(&self) -> Seq<char> {
        self.path@
    }

    /// The parent directory, as text.
    pub closed spec fn dir_text(&self) -> Seq<char> {
        self.dir@
    }

    /// The executable at `path`, with the parent directory that the
    /// platform's path syntax gives it. `None` where the path has no parent:
    /// the empty path, and a path that ends in a root.
    pub fn new(path: &str) -> (exe: Option<ExecutablePath>)
        ensures
            exe matches Some(e) ==> e.path_text() == path@ && is_proper_prefix(
                e.dir_text(),
                path@,
            ),
            path@.len() == 0 ==> exe is None,
    {
        Self::with_parent(path, parent_of(path))
    }

    /// The executable at `path` in the directory `dir`. `None` unless `dir`
    /// is the beginning of `path` and shorter than it.
    pub fn with_dir(path: &str, dir: &str) -> (exe: Option<ExecutablePath>)
        ensures
            exe is Some <==> is_proper_prefix(dir@, path@),
            exe matches Some(e) ==> e.path_text() == path@ && e.dir_text() == dir@,
    {
        if starts_with_shorter(path, dir) {
            Some(ExecutablePath { path: path.to_owned(), dir: dir.to_owned() })
        } else {
            None
        }
    }

    /// The executable at `path`, given what was found for its parent
    /// directory: `None` where nothing was found, or where what was found is
    /// not the beginning of `path` and shorter than it.
    pub fn with_parent(path: &str, parent: Option<String>) -> (exe: Option<ExecutablePath>)
        ensures
            match parent {
                Some(dir) => {
                    &&& exe is Some <==> is_proper_prefix(dir@, path@)
                    &&& exe matches Some(e) ==> e.path_text() == path@ && e.dir_text() == dir@
                },
                None => exe is None,
            },
    {
        match parent {
            Some(dir) => {
                if starts_with_shorter(path, dir.as_str()) {
                    Some(ExecutablePath { path: path.to_owned(), dir })
                } else {
                    None
                }
            },
            None => None,
        }
    }

    /// The path.
    pub fn path(&self) -> (text: &str)
        ensures
            text@ == self.path_text(),
    {
        self.path.as_str()
    }

    /// The parent directory: the beginning of the path, and shorter than it.
    pub fn dir(&self) -> (text: &str)
        ensures
            text@ == self.dir_text(),
            is_proper_prefix(self.dir_text(), self.path_text()),
    {
        proof {
            use_type_invariant(self);
        }
        self.dir.as_str()
    }
}

} // verus!
