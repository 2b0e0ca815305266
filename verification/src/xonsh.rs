//! The scripts for the xonsh shell.
//!
//! xonsh keeps its own environment (`XSH.env`) beside the one that child
//! processes see (`os.environ`), and does not carry a change of the first
//! over to the second. Every script that changes a variable therefore
//! writes twice: first to xonsh's environment, then to the process
//! environment, with the value read back from the first.

use crate::escape::{escaped, xonsh_escape_sq};
use crate::escape_dq::{dq_escaped, xonsh_escape_dq};
use crate::exe_path::ExecutablePath;
use crate::path_list::{is_dir_in_path, join_with, path_segments, split_path_list};
use crate::shell_word::{cow_text, shell_word, unix_escape};
use crate::variable::{classify, kind_of, VariableKind};
use vstd::prelude::*;

verus! {

/// The imports that the activation script starts with.
pub const ACTIVATE_IMPORTS: &'static str = "import sys, subprocess
from os               import environ
from xonsh.built_ins  import XSH

";

/// The statements that add a directory to `PATH`, up to the directory.
pub const PATH_ADD_HEAD: &'static str = "envx = XSH.env
envx['PATH'].add('";

/// The statements that add a directory to `PATH`, from the directory on.
pub const PATH_ADD_TAIL: &'static str = "')
environ['PATH'] = envx.get_detyped('PATH')

";

/// The hook and its registration, up to the path of the executable.
pub const HOOK_HEAD: &'static str = "def listen_prompt(): # Hook Events
  ctx = XSH.ctx

  rtx_hook_proc  = subprocess.run([\"";

/// The hook and its registration, from the path of the executable on.
pub const HOOK_TAIL: &'static str = "\",'hook-env','-s','xonsh'],capture_output=True)
  rtx_hook       = rtx_hook_proc.stdout
  rtx_hook_err   = rtx_hook_proc.stderr

  if rtx_hook_err:
    print(rtx_hook_err.decode().rstrip(), file=sys.stderr)
  if rtx_hook:
    execx(rtx_hook.decode(), 'exec', ctx, filename='rtx')

XSH.builtins.events.on_pre_prompt(listen_prompt) # Activate hook: before showing the prompt
";

/// The script that removes the hook.
pub const DEACTIVATE_SCRIPT: &'static str = "from xonsh.built_ins  import XSH

hooks = {
  'on_pre_prompt' : ['listen_prompt'],
}
for   hook_type in hooks:
  hook_fns = hooks[hook_type]
  for hook_fn   in hook_fns:
    hndl = getattr(XSH.builtins.events, hook_type)
    for fn in hndl:
      if fn.__name__ == hook_fn:
        hndl.remove(fn)
        break
";

/// The imports and the binding that the scripts for one variable start with.
pub const VARIABLE_HEAD: &'static str = "from os               import environ
from xonsh.built_ins  import XSH

envx = XSH.env
";

/// `body` between single quotes.
pub open spec fn quoted(body: Seq<char>) -> Seq<char> {
    seq!['\''] + body + seq!['\'']
}

/// The literal for the text `value`: its escaped form between single quotes.
pub open spec fn text_literal(value: Seq<char>) -> Seq<char> {
    quoted(escaped(value))
}

/// The literals for the texts of `segments`, in order.
pub open spec fn segment_literals(segments: Seq<Seq<char>>) -> Seq<Seq<char>> {
    Seq::new(segments.len(), |i: int| text_literal(segments[i]))
}

/// The list literal that holds `segments`, in order: their literals between
/// square brackets, with a comma and a space between each two.
pub open spec fn list_literal(segments: Seq<Seq<char>>) -> Seq<char> {
    seq!['['] + join_with(segment_literals(segments), seq![',', ' ']) + seq![']']
}

/// The literal for the value of the variable `key`: a list of the segments
/// of `value` where `key` names a path list, and one text otherwise.
pub open spec fn value_literal(key: Seq<char>, value: Seq<char>) -> Seq<char> {
    match kind_of(key) {
        VariableKind::Scalar => text_literal(value),
        VariableKind::PathList => list_literal(path_segments(value)),
    }
}

/// The statements that add `dir` to `PATH`, in xonsh's environment and then
/// in the process environment.
pub open spec fn path_add_statements(dir: Seq<char>) -> Seq<char> {
    PATH_ADD_HEAD@ + escaped(dir) + PATH_ADD_TAIL@
}

/// The definition of the hook that runs the executable at `exe` before each
/// prompt, and its registration. The path stands in a double-quoted literal,
/// escaped for it.
pub open spec fn hook_statements(exe: Seq<char>) -> Seq<char> {
    HOOK_HEAD@ + dq_escaped(exe) + HOOK_TAIL@
}

/// The activation script for the executable at `exe` in the directory `dir`,
/// in a session whose `PATH` is `path_list`: the imports; the statements
/// that add `dir` to `PATH`, unless it is one of its segments already; the
/// hook and its registration.
pub open spec fn activate_script(exe: Seq<char>, dir: Seq<char>, path_list: Seq<char>) -> Seq<
    char,
> {
    ACTIVATE_IMPORTS@ + (if path_segments(path_list).contains(dir) {
        Seq::empty()
    } else {
        path_add_statements(dir)
    }) + hook_statements(exe)
}

/// The script that sets the variable that is written `word` to what
/// `literal` evaluates to: the assignment in xonsh's environment, then the
/// one in the process environment, which reads the value back from the
/// first under the same name.
pub open spec fn assignment_script(word: Seq<char>, literal: Seq<char>) -> Seq<char> {
    VARIABLE_HEAD@ + "envx[   '"@ + word + "'] = "@ + literal + "\nenviron['"@ + word
        + "'] = envx.get_detyped('"@ + word + "')\n"@
}

/// The script that sets the variable `key` to `value`.
pub open spec fn set_env_script(key: Seq<char>, value: Seq<char>) -> Seq<char> {
    assignment_script(shell_word(key), value_literal(key, value))
}

/// The script that removes the variable that is written `word` from xonsh's
/// environment and from the process environment. Each removal names a
/// default, so that a variable that is not set is no error.
pub open spec fn removal_script(word: Seq<char>) -> Seq<char> {
    VARIABLE_HEAD@ + "envx.pop(   '"@ + word + "',None)\nenviron.pop('"@ + word + "',None)\n"@
}

/// The script that removes the variable `key`.
pub open spec fn unset_env_script(key: Seq<char>) -> Seq<char> {
    removal_script(shell_word(key))
}

/// Appends the list literal that holds `segments` to `out`.
fn push_list_literal(out: &mut String, segments: &Vec<String>)
    ensures
        final(out)@ == old(out)@ + list_literal(segments.deep_view()),
{
    let ghost start = out@;
    let ghost all = segment_literals(segments.deep_view());
    let ghost sep = seq![',', ' '];
    proof {
        reveal_strlit("[");
        reveal_strlit("]");
        reveal_strlit(", ");
        reveal_strlit("'");
        assert("["@ =~= seq!['[']);
        assert("]"@ =~= seq![']']);
        assert(", "@ =~= sep);
        assert("'"@ =~= seq!['\'']);
    }
    out.append("[");
    let mut i: usize = 0;
    assert(start + seq!['['] + join_with(all.take(0), sep) =~= start + seq!['[']);
    while i < segments.len()
        invariant
            0 <= i <= segments.len(),
            all == segment_literals(segments.deep_view()),
            all.len() == segments.len(),
            sep == seq![',', ' '],
            ", "@ == sep,
            "'"@ == seq!['\''],
            out@ == start + seq!['['] + join_with(all.take(i as int), sep),
        decreases segments.len() - i,
    {
        let ghost before = join_with(all.take(i as int), sep);
        if i > 0 {
            out.append(", ");
        }
        let body = xonsh_escape_sq(segments[i].as_str());
        out.append("'");
        out.append(cow_text(&body));
        out.append("'");
        proof {
            let next = all.take(i as int + 1);
            assert(segments.deep_view()[i as int] == segments[i as int]@);
            assert(next.last() == text_literal(segments[i as int]@));
            assert(next.drop_last() =~= all.take(i as int));
            if i == 0 {
                assert(before =~= Seq::<char>::empty());
            }
            assert(out@ =~= start + seq!['['] + join_with(next, sep));
        }
        i += 1;
    }
    out.append("]");
    proof {
        assert(all.take(i as int) =~= all);
        assert(out@ =~= start + list_literal(segments.deep_view()));
    }
}

/// The xonsh shell.
#[derive(Default)]
pub struct Xonsh {}

impl Xonsh {
    /// The name under which the host executable knows this shell.
    pub const NAME: &'static str = "xonsh";

    /// The script that activates the hook in a session.
    ///
    /// `exe` is the host executable and `path_list` the session's current
    /// `PATH`. The script adds the directory of the executable to `PATH`
    /// unless it is one of its segments already, and registers a hook that
    /// runs the executable before each prompt and evaluates what it prints
    /// in the session. The directory and the path of the executable are
    /// each escaped for the literal that they stand in.
    pub fn activate(&self, exe: &ExecutablePath, path_list: &str) -> (script: String)
        ensures
            script@ == activate_script(exe.path_text(), exe.dir_text(), path_list@),
    {
        let dir = exe.dir();
        let mut out = String::new();
        out.append(ACTIVATE_IMPORTS);
        if !is_dir_in_path(dir, path_list) {
            let dir_esc = xonsh_escape_sq(dir);
            out.append(PATH_ADD_HEAD);
            out.append(cow_text(&dir_esc));
            out.append(PATH_ADD_TAIL);
        }
        let exe_esc = xonsh_escape_dq(exe.path());
        out.append(HOOK_HEAD);
        out.append(exe_esc.as_str());
        out.append(HOOK_TAIL);
        assert(out@ =~= activate_script(exe.path_text(), exe.dir_text(), path_list@));
        out
    }

    /// The script that removes the hook from a session. It looks for the
    /// hook by its name and removes it where it finds it, so it can be
    /// evaluated in a session that holds no hook.
    pub fn deactivate(&self) -> (script: String)
        ensures
            script@ == DEACTIVATE_SCRIPT@,
    {
        DEACTIVATE_SCRIPT.to_owned()
    }

    /// The script that sets the variable `k` to `v`.
    ///
    /// The name is written as a shell word. The value is written as a text
    /// literal, or, where `k` names a path list, as a list literal of its
    /// segments.
    pub fn set_env(&self, k: &str, v: &str) -> (script: String)
        ensures
            script@ == set_env_script(k@, v@),
    {
        let word = unix_escape(k);
        let word = cow_text(&word);
        let mut out = String::new();
        out.append(VARIABLE_HEAD);
        out.append("envx[   '");
        out.append(word);
        out.append("'] = ");
        match classify(k) {
            VariableKind::Scalar => {
                let body = xonsh_escape_sq(v);
                proof {
                    reveal_strlit("'");
                    assert("'"@ =~= seq!['\'']);
                }
                out.append("'");
                out.append(cow_text(&body));
                out.append("'");
            },
            VariableKind::PathList => {
                let segments = split_path_list(v);
                push_list_literal(&mut out, &segments);
            },
        }
        out.append("\nenviron['");
        out.append(word);
        out.append("'] = envx.get_detyped('");
        out.append(word);
        out.append("')\n");
        assert(out@ =~= set_env_script(k@, v@));
        out
    }

    /// The script that removes the variable `k`, whether it is set or not.
    pub fn unset_env(&self, k: &str) -> (script: String)
        ensures
            script@ == unset_env_script(k@),
    {
        let word = unix_escape(k);
        let word = cow_text(&word);
        let mut out = String::new();
        out.append(VARIABLE_HEAD);
        out.append("envx.pop(   '");
        out.append(word);
        out.append("',None)\nenviron.pop('");
        out.append(word);
        out.append("',None)\n");
        assert(out@ =~= unset_env_script(k@));
        out
    }
}

} // verus!
