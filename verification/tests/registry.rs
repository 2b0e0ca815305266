use rtx_shell::dialect::{ConfigError, Dialect};
use rtx_shell::exe_path::ExecutablePath;
use rtx_shell::xonsh::Xonsh;

#[test]
fn xonsh_is_found_by_name() {
    assert_eq!(Dialect::from_name("xonsh"), Ok(Dialect::Xonsh));
    assert_eq!(Dialect::Xonsh.name(), "xonsh");
    assert_eq!(Xonsh::NAME, "xonsh");
}

#[test]
fn unknown_names_are_errors() {
    assert_eq!(Dialect::from_name(""), Err(ConfigError::UnknownDialect));
    assert_eq!(Dialect::from_name("Xonsh"), Err(ConfigError::UnknownDialect));
    assert_eq!(Dialect::from_name("xonsh "), Err(ConfigError::UnknownDialect));
    assert_eq!(Dialect::from_name("bash"), Err(ConfigError::UnknownDialect));
}

#[test]
fn dialect_writes_the_scripts_of_its_shell() {
    let dialect = Dialect::from_name("xonsh").unwrap();
    let shell = Xonsh::default();
    let exe = ExecutablePath::new("/some/dir/rtx").unwrap();
    assert_eq!(dialect.activate(&exe, "/bin"), shell.activate(&exe, "/bin"));
    assert_eq!(dialect.deactivate(), shell.deactivate());
    assert_eq!(dialect.set_env("FOO", "1"), shell.set_env("FOO", "1"));
    assert_eq!(dialect.unset_env("FOO"), shell.unset_env("FOO"));
    assert!(dialect.activate(&exe, "/bin").contains("'hook-env','-s','xonsh'"));
}

#[test]
fn executable_path_has_its_parent_directory() {
    let exe = ExecutablePath::new("/some/dir/rtx").unwrap();
    assert_eq!(exe.path(), "/some/dir/rtx");
    assert_eq!(exe.dir(), "/some/dir");
    let exe = ExecutablePath::new("/rtx").unwrap();
    assert_eq!(exe.dir(), "/");
    assert!(ExecutablePath::new("").is_none());
    assert!(ExecutablePath::new("/").is_none());
}

#[test]
fn executable_path_from_parts_wants_a_proper_prefix() {
    let exe = ExecutablePath::with_dir("/some/dir/rtx", "/some/dir").unwrap();
    assert_eq!(exe.path(), "/some/dir/rtx");
    assert_eq!(exe.dir(), "/some/dir");
    assert!(ExecutablePath::with_dir("rtx", "").is_some());
    assert!(ExecutablePath::with_dir("/some/dir/rtx", "/other").is_none());
    assert!(ExecutablePath::with_dir("/some/dir/rtx", "/some/dir/rtx").is_none());
    assert!(ExecutablePath::with_dir("/some", "/some/dir").is_none());
    assert!(ExecutablePath::with_dir("", "").is_none());
}

#[test]
fn executable_path_from_a_found_parent() {
    let exe = ExecutablePath::with_parent("/a/b", Some(String::from("/a"))).unwrap();
    assert_eq!(exe.path(), "/a/b");
    assert_eq!(exe.dir(), "/a");
    assert!(ExecutablePath::with_parent("/a/b", Some(String::from("/b"))).is_none());
    assert!(ExecutablePath::with_parent("/a/b", Some(String::from("/a/b"))).is_none());
    assert!(ExecutablePath::with_parent("/", None).is_none());
    assert!(ExecutablePath::with_parent("/a/b", None).is_none());
}
