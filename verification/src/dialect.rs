//! The shells for which scripts can be written, and their lookup by name.

use crate::exe_path::ExecutablePath;
use crate::text::text_eq;
use crate::xonsh::{activate_script, set_env_script, unset_env_script, Xonsh, DEACTIVATE_SCRIPT};
use vstd::prelude::*;

verus! {

/// A supported shell.
#[derive(Clone, Copy, Debug, PartialEq, Eq, Structural)]
pub enum Dialect {
    /// The xonsh shell.
    Xonsh,
}

/// Why no shell was selected.
#[derive(Clone, Copy, Debug, PartialEq, Eq, Structural)]
pub enum ConfigError {
    /// The name is that of no supported shell.
    UnknownDialect,
}

/// The shell that goes by `name`, if there is one. Names are matched as
/// they are written.
pub open spec fn dialect_named(name: Seq<char>) -> Option<Dialect> {
    if name == Xonsh::NAME@ {
        Some(Dialect::Xonsh)
    } else {
        None
    }
}

impl Dialect {
    /// Selects a shell by its name. A name that no supported shell goes by
    /// is an error: no shell stands in for it.
    pub fn from_name(name: &str) -> (found: Result<Dialect, ConfigError>)
        ensures
            match dialect_named(name@) {
                Some(dialect) => found == Ok::<Dialect, ConfigError>(dialect),
                None => found == Err::<Dialect, ConfigError>(ConfigError::UnknownDialect),
            },
    {
        if text_eq(name, Xonsh::NAME) {
            Ok(Dialect::Xonsh)
        } else {
            Err(ConfigError::UnknownDialect)
        }
    }

    /// The name that selects this shell.
    pub fn name(&self) -> (name: &'static str)
        ensures
            dialect_named(name@) == Some(*self),
    {
        match self {
            Dialect::Xonsh => Xonsh::NAME,
        }
    }

    /// The script that activates the hook, in this shell's syntax.
    pub fn activate(&self, exe: &ExecutablePath, path_list: &str) -> (script: String)
        ensures
            script@ == activate_script(exe.path_text(), exe.dir_text(), path_list@),
    {
        match self {
            Dialect::Xonsh => (Xonsh {  }).activate(exe, path_list),
        }
    }

    /// The script that removes the hook, in this shell's syntax.
    pub fn deactivate(&self) -> (script: String)
        ensures
            script@ == DEACTIVATE_SCRIPT@,
    {
        match self {
            Dialect::Xonsh => (Xonsh {  }).deactivate(),
        }
    }

    /// The script that sets the variable `k` to `v`, in this shell's syntax.
    pub fn set_env(&self, k: &str, v: &str) -> (script: String)
        ensures
            script@ == set_env_script(k@, v@),
    {
        match self {
            Dialect::Xonsh => (Xonsh {  }).set_env(k, v),
        }
    }

    /// The script that removes the variable `k`, in this shell's syntax.
    pub fn unset_env(&self, k: &str) -> (script: String)
        ensures
            script@ == unset_env_script(k@),
    {
        match self {
            Dialect::Xonsh => (Xonsh {  }).unset_env(k),
        }
    }
}

} // verus!
