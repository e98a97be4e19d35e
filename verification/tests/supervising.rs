use vistula_updater::cinnamon::parse_theme_output;
use vistula_updater::commands::{
    have_command, resolve, CommandError, CommandResult, CommandSpec,
};
use vistula_updater::supervisor::{assemble_result, StreamSupervisor};
use vistula_updater::text::{replace_all_str, split_lines, split_ws, trim_str};

#[test]
fn test_have_command() {
    assert!(have_command("ls"));
    assert!(!have_command("nonexistent_command_xyz"));
}

#[test]
fn test_resolve_passthrough() {
    let spec = CommandSpec {
        program: "echo".to_string(),
        arguments: vec!["hello".to_string()],
        elevate: false,
    };
    let inv = resolve(&spec).unwrap();
    assert_eq!(inv.executable, "echo");
    assert_eq!(inv.arguments, vec!["hello".to_string()]);
}

#[test]
fn test_resolve_elevated() {
    let spec = CommandSpec {
        program: "pacman".to_string(),
        arguments: vec!["-Syu".to_string()],
        elevate: true,
    };
    let inv = resolve(&spec).unwrap();
    assert_eq!(inv.executable, "pkexec");
    assert_eq!(inv.arguments, vec!["pacman".to_string(), "-Syu".to_string()]);
}

#[test]
fn test_resolve_rejects_empty_program() {
    let spec = CommandSpec {
        program: String::new(),
        arguments: Vec::new(),
        elevate: false,
    };
    assert!(matches!(resolve(&spec), Err(CommandError::InvalidSpec)));
}

#[test]
fn test_resolve_is_repeatable() {
    let spec = CommandSpec {
        program: "flatpak".to_string(),
        arguments: vec!["update".to_string()],
        elevate: true,
    };
    let first = resolve(&spec).unwrap();
    let second = resolve(&spec).unwrap();
    assert_eq!(first.executable, second.executable);
    assert_eq!(first.arguments, second.arguments);
}

#[test]
fn test_success_is_exit_code_zero() {
    let ok = CommandResult {
        exit_code: 0,
        stdout: String::new(),
        stderr: String::new(),
    };
    let failed = CommandResult {
        exit_code: 1,
        stdout: String::new(),
        stderr: String::new(),
    };
    assert!(ok.success());
    assert!(!failed.success());
}

#[test]
fn test_supervisor_hello_run() {
    let mut sup = StreamSupervisor::new();
    sup.on_stdout_line("hello");
    sup.on_stdout_eof();
    sup.on_stderr_eof();
    let result = sup.finish(Some(0));
    assert_eq!(result.exit_code, 0);
    assert_eq!(result.stdout, "hello\n");
    assert_eq!(result.stderr, "");
    assert!(result.success());
}

#[test]
fn test_supervisor_keeps_line_order() {
    let mut sup = StreamSupervisor::new();
    sup.on_stdout_line("one");
    sup.on_stderr_line("warning");
    sup.on_stdout_line("two");
    sup.on_stdout_line("three");
    sup.on_stdout_eof();
    sup.on_stderr_eof();
    let result = sup.finish(Some(2));
    assert_eq!(result.stdout, "one\ntwo\nthree\n");
    assert_eq!(result.stderr, "warning\n");
    assert_eq!(result.exit_code, 2);
    assert!(!result.success());
}

#[test]
fn test_supervisor_sentinel_exit_code() {
    let mut sup = StreamSupervisor::new();
    sup.on_stdout_eof();
    sup.on_stderr_eof();
    let result = sup.finish(None);
    assert_eq!(result.exit_code, -1);
    assert_eq!(result.stdout, "");
    assert_eq!(result.stderr, "");
}

#[test]
fn test_concurrent_supervisors_stay_independent() {
    let mut first = StreamSupervisor::new();
    let mut second = StreamSupervisor::new();
    first.on_stdout_line("alpha");
    second.on_stdout_line("beta");
    first.on_stderr_line("oops");
    second.on_stdout_line("gamma");
    first.on_stdout_eof();
    first.on_stderr_eof();
    second.on_stdout_eof();
    second.on_stderr_eof();
    let r1 = first.finish(Some(0));
    let r2 = second.finish(Some(1));
    assert_eq!(r1.stdout, "alpha\n");
    assert_eq!(r1.stderr, "oops\n");
    assert_eq!(r2.stdout, "beta\ngamma\n");
    assert_eq!(r2.stderr, "");
}

#[test]
fn test_assemble_result_passthrough() {
    let r = assemble_result(Some(7), "out".to_string(), "err".to_string());
    assert_eq!(r.exit_code, 7);
    assert_eq!(r.stdout, "out");
    assert_eq!(r.stderr, "err");
    let s = assemble_result(None, String::new(), String::new());
    assert_eq!(s.exit_code, -1);
}

#[test]
fn test_parse_theme_output_strips_quotes() {
    assert_eq!(parse_theme_output("'Mint-Y-Dark'\n"), Some("Mint-Y-Dark".to_string()));
    assert_eq!(parse_theme_output("plain\n"), Some("plain".to_string()));
    assert_eq!(parse_theme_output("''\n"), None);
    assert_eq!(parse_theme_output("   \n"), None);
}

#[test]
fn test_split_lines_handles_crlf() {
    let lines = split_lines("a\r\nb\nc");
    assert_eq!(lines, vec!["a".to_string(), "b".to_string(), "c".to_string()]);
    let empty: Vec<String> = Vec::new();
    assert_eq!(split_lines(""), empty);
}

#[test]
fn test_split_ws_collapses_runs() {
    let toks = split_ws("  one \t two\nthree ");
    assert_eq!(
        toks,
        vec!["one".to_string(), "two".to_string(), "three".to_string()]
    );
}

#[test]
fn test_trim_and_replace() {
    assert_eq!(trim_str("  padded\t"), "padded");
    assert_eq!(replace_all_str("aXbXc", "X", "--"), "a--b--c");
    assert_eq!(replace_all_str("aaa", "aa", "b"), "ba");
}
