//! Shell integration for the xonsh shell: generation of the script text that
//! installs and removes the prompt hook and that sets and unsets environment
//! variables in a running session.

pub mod ascii;
pub mod dialect;
pub mod escape;
pub mod escape_dq;
pub mod exe_path;
pub mod path_list;
pub mod shell_word;
pub mod text;
pub mod variable;
pub mod xonsh;
