use mdtest::directive::{parse_code_info, CodeBlock, CodeTy};

fn parsed(info: &str) -> Option<(CodeTy, bool, String)> {
    parse_code_info(info).map(|b| (b.ty, b.ignore, b.code))
}

#[test]
fn sh_is_a_shell_step() {
    assert_eq!(parsed("sh"), Some((CodeTy::Shell, false, String::new())));
}

#[test]
fn file_exist_is_a_file_step() {
    assert_eq!(parsed("file-exist"), Some((CodeTy::FileExist, false, String::new())));
}

#[test]
fn ignore_modifier_sets_skip() {
    assert_eq!(parsed("sh, ignore"), Some((CodeTy::Shell, true, String::new())));
    assert_eq!(parsed("file-exist,ignore"), Some((CodeTy::FileExist, true, String::new())));
    assert_eq!(parsed("sh,ignore,ignore"), Some((CodeTy::Shell, true, String::new())));
}

#[test]
fn unknown_modifier_invalidates_directive() {
    assert_eq!(parsed("sh, bogus"), None);
    assert_eq!(parsed("sh, ignore, bogus"), None);
    assert_eq!(parsed("sh,"), None);
    assert_eq!(parsed("sh, IGNORE"), None);
}

#[test]
fn unknown_kind_is_not_a_step() {
    assert_eq!(parsed(""), None);
    assert_eq!(parsed("rust"), None);
    assert_eq!(parsed("ignore"), None);
    assert_eq!(parsed("shell"), None);
    assert_eq!(parsed("s h"), None);
    assert_eq!(parsed(",sh"), None);
}

#[test]
fn whitespace_around_tokens_is_ignored() {
    assert_eq!(parsed("sh , ignore"), parsed("sh,ignore"));
    assert_eq!(parsed("sh , ignore"), Some((CodeTy::Shell, true, String::new())));
    assert_eq!(parsed("  file-exist\t"), Some((CodeTy::FileExist, false, String::new())));
    assert_eq!(parsed("\u{3000}sh\u{a0},\u{2003}ignore\n"), Some((CodeTy::Shell, true, String::new())));
}

#[test]
fn new_block_is_empty_and_not_skipped() {
    let b = CodeBlock::new(CodeTy::FileExist);
    assert_eq!(b.ty, CodeTy::FileExist);
    assert!(!b.ignore);
    assert_eq!(b.code, "");
}

#[test]
fn append_grows_the_body() {
    let mut b = CodeBlock::new(CodeTy::Shell);
    b.append("echo a\n");
    b.append("");
    b.append("echo é\n");
    assert_eq!(b.code, "echo a\necho é\n");
    assert_eq!(b.ty, CodeTy::Shell);
    assert!(!b.ignore);
}
