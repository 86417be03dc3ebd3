use mdtest::executor::{Request, Run};
use mdtest::step::{shell_outcome, Failure};

fn shell_code(r: Request) -> String {
    match r {
        Request::Shell { script, code } => {
            assert_eq!(script, format!("set -euo pipefail\n{}", code));
            code
        }
        other => panic!("expected a shell request, got {:?}", other),
    }
}

#[test]
fn document_without_fences_finishes() {
    let mut run = Run::new("# Title\n\nSome *text* and `sh` inline.\n\n    indented code\n");
    assert!(matches!(run.next_request(), Request::Finished));
}

#[test]
fn unrecognized_fences_run_nothing() {
    let mut run = Run::new("```rust\nfn main() {}\n```\n\n```\nplain\n```\n");
    assert!(matches!(run.next_request(), Request::Finished));
}

#[test]
fn ignored_block_never_runs() {
    let mut run = Run::new("```sh, ignore\nexit 1\n```\n");
    assert!(matches!(run.next_request(), Request::Finished));
}

#[test]
fn bogus_modifier_is_not_a_test() {
    let mut run = Run::new("```sh, bogus\nexit 1\n```\n");
    assert!(matches!(run.next_request(), Request::Finished));
}

#[test]
fn shell_block_is_requested_with_its_body() {
    let mut run = Run::new("Intro\n\n```sh\nexit 0\n```\n");
    assert_eq!(shell_code(run.next_request()), "exit 0\n");
    run.complete(Ok(()));
    assert!(matches!(run.next_request(), Request::Finished));
}

#[test]
fn file_exist_block_is_requested_with_its_paths() {
    let mut run = Run::new("```file-exist\nREADME.md\n\nsrc/lib.rs\n```\n");
    match run.next_request() {
        Request::FileExist { code, paths } => {
            assert_eq!(code, "README.md\n\nsrc/lib.rs\n");
            assert_eq!(paths, vec!["README.md", "src/lib.rs"]);
        }
        other => panic!("expected a file request, got {:?}", other),
    }
}

#[test]
fn second_failure_stops_the_third_block() {
    let doc = "```sh\necho one\n```\n\n```sh\nexit 1\n```\n\n```sh\necho three\n```\n";
    let mut run = Run::new(doc);
    assert_eq!(shell_code(run.next_request()), "echo one\n");
    run.complete(Ok(()));
    let second = shell_code(run.next_request());
    assert_eq!(second, "exit 1\n");
    run.complete(shell_outcome(&second, false, "", ""));
    match run.next_request() {
        Request::Halted(Failure::ShellScript(m)) => assert!(m.contains("exit 1")),
        other => panic!("expected the run to halt, got {:?}", other),
    }
    assert!(matches!(run.next_request(), Request::Halted(_)));
}

#[test]
fn steps_come_in_document_order() {
    let doc = "```sh\na\n```\n\n```sh,ignore\nb\n```\n\n```file-exist\nc\n```\n\n```sh\nd\n```\n";
    let mut run = Run::new(doc);
    assert_eq!(shell_code(run.next_request()), "a\n");
    run.complete(Ok(()));
    assert!(matches!(run.next_request(), Request::FileExist { .. }));
    run.complete(Ok(()));
    assert_eq!(shell_code(run.next_request()), "d\n");
    run.complete(Ok(()));
    assert!(matches!(run.next_request(), Request::Finished));
}

#[test]
fn first_failure_is_kept() {
    let mut run = Run::new("```sh\nx\n```\n");
    let _ = run.next_request();
    run.complete(Err(Failure::MissingFile("first".to_string())));
    run.complete(Err(Failure::MissingFile("second".to_string())));
    match run.next_request() {
        Request::Halted(f) => assert_eq!(f.message(), "first"),
        other => panic!("expected the run to halt, got {:?}", other),
    }
}

#[test]
fn unclosed_fence_ends_with_the_document() {
    let mut run = Run::new("```sh\nexit 1\n");
    assert_eq!(shell_code(run.next_request()), "exit 1\n");
}
