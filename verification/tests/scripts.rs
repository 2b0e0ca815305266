use rtx_shell::exe_path::ExecutablePath;
use rtx_shell::xonsh::Xonsh;

const HOOK: &str = "def listen_prompt(): # Hook Events
  ctx = XSH.ctx

  rtx_hook_proc  = subprocess.run([\"/some/dir/rtx\",'hook-env','-s','xonsh'],capture_output=True)
  rtx_hook       = rtx_hook_proc.stdout
  rtx_hook_err   = rtx_hook_proc.stderr

  if rtx_hook_err:
    print(rtx_hook_err.decode().rstrip(), file=sys.stderr)
  if rtx_hook:
    execx(rtx_hook.decode(), 'exec', ctx, filename='rtx')

XSH.builtins.events.on_pre_prompt(listen_prompt) # Activate hook: before showing the prompt
";

const IMPORTS: &str = "import sys, subprocess
from os               import environ
from xonsh.built_ins  import XSH

";

#[test]
fn test_hook_init() {
    let exe = ExecutablePath::new("/some/dir/rtx").unwrap();
    let script = Xonsh::default().activate(&exe, "/usr/local/bin:/usr/bin:/bin");
    let expected = format!(
        "{}{}{}",
        IMPORTS,
        "envx = XSH.env\nenvx['PATH'].add('/some/dir')\nenviron['PATH'] = envx.get_detyped('PATH')\n\n",
        HOOK
    );
    assert_eq!(script, expected);
}

#[test]
fn test_set_env() {
    assert_eq!(
        Xonsh::default().set_env("FOO", "1"),
        "from os               import environ
from xonsh.built_ins  import XSH

envx = XSH.env
envx[   'FOO'] = '1'
environ['FOO'] = envx.get_detyped('FOO')
"
    );
}

#[test]
fn test_unset_env() {
    assert_eq!(
        Xonsh::default().unset_env("FOO"),
        "from os               import environ
from xonsh.built_ins  import XSH

envx = XSH.env
envx.pop(   'FOO',None)
environ.pop('FOO',None)
"
    );
}

#[test]
fn activate_omits_path_statement_when_dir_is_listed() {
    let exe = ExecutablePath::new("/some/dir/rtx").unwrap();
    let script = Xonsh::default().activate(&exe, "/usr/bin:/some/dir:/bin");
    assert_eq!(script, format!("{}{}", IMPORTS, HOOK));
}

#[test]
fn activate_adds_tool_dir_when_absent() {
    let exe = ExecutablePath::new("/opt/tool/bin/tool").unwrap();
    let script = Xonsh::default().activate(&exe, "/usr/bin:/bin");
    assert!(script.contains("envx['PATH'].add('/opt/tool/bin')\n"));
    assert!(script.contains("environ['PATH'] = envx.get_detyped('PATH')\n"));
    assert!(script.contains("subprocess.run([\"/opt/tool/bin/tool\",'hook-env','-s','xonsh']"));
    assert!(script.contains("XSH.builtins.events.on_pre_prompt(listen_prompt)"));
}

#[test]
fn activate_keeps_hook_when_tool_dir_is_present() {
    let exe = ExecutablePath::new("/opt/tool/bin/tool").unwrap();
    let script = Xonsh::default().activate(&exe, "/usr/bin:/opt/tool/bin");
    assert!(!script.contains(".add("));
    assert!(!script.contains("environ['PATH']"));
    assert!(script.contains("subprocess.run([\"/opt/tool/bin/tool\",'hook-env','-s','xonsh']"));
    assert!(script.contains("XSH.builtins.events.on_pre_prompt(listen_prompt)"));
}

#[test]
fn activate_matches_whole_segments_only() {
    let exe = ExecutablePath::new("/opt/tool/bin/tool").unwrap();
    let script = Xonsh::default().activate(&exe, "/opt/tool/bin2:/x/opt/tool/bin");
    assert!(script.contains("envx['PATH'].add('/opt/tool/bin')\n"));
}

#[test]
fn activate_escapes_the_directory() {
    let exe = ExecutablePath::with_dir("/o'd/rtx", "/o'd").unwrap();
    let script = Xonsh::default().activate(&exe, "");
    assert!(script.contains("envx['PATH'].add('/o\\'d')\n"));
}

#[test]
fn deactivate_script_is_fixed() {
    let expected = "from xonsh.built_ins  import XSH

hooks = {
  'on_pre_prompt' : ['listen_prompt'],
}
for   hook_type in hooks:
  hook_fns = hooks[hook_type]
  for hook_fn   in hook_fns:
    hndl = getattr(XSH.builtins.events, hook_type)
    for fn in hndl:
      if fn.__name__ == hook_fn:
        hndl.remove(fn)
        break
";
    assert_eq!(Xonsh::default().deactivate(), expected);
    assert_eq!(Xonsh::default().deactivate(), Xonsh::default().deactivate());
}

#[test]
fn set_env_escapes_quote_backslash_and_line_feed() {
    let script = Xonsh::default().set_env("FOO", "a'b\\c\nd");
    assert_eq!(
        script,
        "from os               import environ
from xonsh.built_ins  import XSH

envx = XSH.env
envx[   'FOO'] = 'a\\'b\\\\c\\nd'
environ['FOO'] = envx.get_detyped('FOO')
"
    );
}

#[test]
fn set_env_renders_path_as_list() {
    assert_eq!(
        Xonsh::default().set_env("PATH", "/a:/b:/c"),
        "from os               import environ
from xonsh.built_ins  import XSH

envx = XSH.env
envx[   'PATH'] = ['/a', '/b', '/c']
environ['PATH'] = envx.get_detyped('PATH')
"
    );
}

#[test]
fn set_env_renders_lower_case_path_list_names_as_lists() {
    let script = Xonsh::default().set_env("manpath", "/m");
    assert!(script.contains("envx[   'manpath'] = ['/m']\n"));
    let script = Xonsh::default().set_env("InfoPath", "");
    assert!(script.contains("envx[   'InfoPath'] = ['']\n"));
}

#[test]
fn set_env_escapes_each_segment() {
    let script = Xonsh::default().set_env("PATH", "/it's:/b\\c");
    assert!(script.contains("envx[   'PATH'] = ['/it\\'s', '/b\\\\c']\n"));
}

#[test]
fn set_env_quotes_names_that_are_not_plain_words() {
    let script = Xonsh::default().set_env("a b", "1");
    assert!(script.contains("envx[   ''a b''] = '1'\n"));
    assert!(script.contains("environ[''a b''] = envx.get_detyped(''a b'')\n"));
}

#[test]
fn unset_env_quotes_names_that_are_not_plain_words() {
    let script = Xonsh::default().unset_env("it's!");
    assert!(script.contains("envx.pop(   ''it'\\''s'\\!''',None)\n"));
    assert!(script.contains("environ.pop(''it'\\''s'\\!''',None)\n"));
    let script = Xonsh::default().unset_env("");
    assert!(script.contains("envx.pop(   '''',None)\n"));
}

#[test]
fn activate_escapes_the_path_of_the_executable() {
    let exe = ExecutablePath::with_dir("/o\"x/b\\in/tool", "/o\"x/b\\in").unwrap();
    let script = Xonsh::default().activate(&exe, "/usr/bin");
    assert!(script.contains(
        "  rtx_hook_proc  = subprocess.run([\"/o\\\"x/b\\\\in/tool\",'hook-env','-s','xonsh'],capture_output=True)\n"
    ));
    assert!(script.contains("envx['PATH'].add('/o\"x/b\\\\in')\n"));
}

#[test]
fn activate_escapes_a_line_feed_in_the_path() {
    let exe = ExecutablePath::with_dir("/a\nb/tool", "/a\nb").unwrap();
    let script = Xonsh::default().activate(&exe, "/a\nb");
    assert_eq!(script, format!("{}{}", IMPORTS, HOOK.replace("/some/dir/rtx", "/a\\nb/tool")));
}

#[test]
fn activate_keeps_a_single_quote_in_the_path() {
    let exe = ExecutablePath::with_dir("/o'd/rtx", "/o'd").unwrap();
    let script = Xonsh::default().activate(&exe, "/o'd");
    assert!(script.contains("subprocess.run([\"/o'd/rtx\",'hook-env'"));
}
