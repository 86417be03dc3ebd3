use mdtest::directive::{CodeBlock, CodeTy};
use mdtest::step::{file_exist_outcome, file_paths, shell_outcome, shell_script, spawn_failure, Failure};
use std::path::Path;

#[test]
fn script_starts_with_strict_mode() {
    let mut b = CodeBlock::new(CodeTy::Shell);
    b.append("exit 0\n");
    assert_eq!(shell_script(&b), "set -euo pipefail\nexit 0\n");
}

#[test]
fn successful_shell_exit_is_success() {
    assert!(shell_outcome("exit 0\n", true, "out", "err").is_ok());
}

#[test]
fn failing_shell_exit_reports_body_and_streams() {
    match shell_outcome("exit 1\n", false, "some out", "some err") {
        Err(Failure::ShellScript(m)) => {
            assert!(m.contains("exit 1"));
            assert_eq!(
                m,
                "shell:\n\ncode {\nexit 1\n\n}\n\nstdout {\nsome out\n}\n\nstderr {\nsome err\n}"
            );
        }
        other => panic!("unexpected outcome {:?}", other),
    }
}

#[test]
fn spawn_failure_keeps_system_text() {
    let f = spawn_failure("No such file or directory (os error 2)");
    assert_eq!(f.message(), "No such file or directory (os error 2)");
    assert!(matches!(f, Failure::ShellExecution(_)));
}

#[test]
fn file_paths_are_nonempty_lines() {
    assert_eq!(file_paths("a\n\nb\r\nc"), vec!["a", "b", "c"]);
    assert_eq!(file_paths("/etc/x\n"), vec!["/etc/x"]);
    assert_eq!(file_paths(""), Vec::<String>::new());
    assert_eq!(file_paths("\n\n"), Vec::<String>::new());
    assert_eq!(file_paths(" spaced path \n"), vec![" spaced path "]);
}

#[test]
fn existing_paths_succeed() {
    let paths = file_paths("/\n/.\n");
    let exists: Vec<bool> = paths.iter().map(|p| Path::new(p).exists()).collect();
    assert!(file_exist_outcome(&paths, &exists).is_ok());
}

#[test]
fn missing_path_is_named_exactly() {
    let paths = file_paths("/\n/does/not/exist\n/also/missing\n");
    let exists: Vec<bool> = paths.iter().map(|p| Path::new(p).exists()).collect();
    match file_exist_outcome(&paths, &exists) {
        Err(Failure::MissingFile(m)) => {
            assert_eq!(m, "file-exist: /does/not/exist does not exist");
        }
        other => panic!("unexpected outcome {:?}", other),
    }
}

#[test]
fn unreported_paths_are_not_judged() {
    let paths = vec!["a".to_string(), "b".to_string()];
    assert!(file_exist_outcome(&paths, &vec![true]).is_ok());
    assert!(file_exist_outcome(&paths, &vec![]).is_ok());
}

#[test]
fn failure_message_is_the_diagnostic() {
    let f = shell_outcome("false", false, "", "").unwrap_err();
    assert_eq!(f.message(), "shell:\n\ncode {\nfalse\n}\n\nstdout {\n\n}\n\nstderr {\n\n}");
    let g = f.duplicate();
    assert_eq!(g.message(), f.message());
}
