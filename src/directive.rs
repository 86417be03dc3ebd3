//! Test steps and the info-string directive that opens one.
use crate::text::{range_equals, split_on, split_ranges, trim, trimmed_range, lemma_split_nonempty};
use vstd::prelude::*;

verus! {

/// What a step does with its body.
#[derive(PartialEq, Eq, Structural, Clone, Copy, Debug)]
pub enum CodeTy {
    /// The body is a script for a POSIX shell.
    Shell,
    /// Each line of the body names a path that must exist.
    FileExist,
}

/// One step of the test plan: its kind, whether it is skipped, and its body.
#[derive(Debug)]
pub struct CodeBlock {
    pub ty: CodeTy,
    pub ignore: bool,
    pub code: String,
}

/// The mathematical value of a `CodeBlock`.
pub struct StepModel {
    pub ty: CodeTy,
    pub ignore: bool,
    pub code: Seq<char>,
}

impl View for CodeBlock {
    type V = StepModel;

    open spec fn view(&self) -> StepModel {
        StepModel { ty: self.ty, ignore: self.ignore, code: self.code@ }
    }
}

pub open spec fn word_sh() -> Seq<char> {
    seq!['s', 'h']
}

pub open spec fn word_file_exist() -> Seq<char> {
    seq!['f', 'i', 'l', 'e', '-', 'e', 'x', 'i', 's', 't']
}

pub open spec fn word_ignore() -> Seq<char> {
    seq!['i', 'g', 'n', 'o', 'r', 'e']
}

/// The kind that a directive's first token selects.
pub open spec fn kind_of(tok: Seq<char>) -> Option<CodeTy> {
    if tok == word_sh() {
        Some(CodeTy::Shell)
    } else if tok == word_file_exist() {
        Some(CodeTy::FileExist)
    } else {
        None
    }
}

/// The step that an info string opens, with an empty body, if it is a directive:
/// comma-separated tokens, trimmed, the first a kind and every other one `ignore`.
pub open spec fn parse_info(info: Seq<char>) -> Option<StepModel> {
    let toks = split_on(info, ',');
    match kind_of(trim(toks[0])) {
        Some(ty) => if forall|j: int| 1 <= j < toks.len() ==> trim(#[trigger] toks[j]) == word_ignore() {
            Some(StepModel { ty, ignore: toks.len() > 1, code: Seq::empty() })
        } else {
            None
        },
        None => None,
    }
}

impl CodeBlock {
    /// A step of the given kind, not skipped, with an empty body.
    pub fn new(ty: CodeTy) -> (r: CodeBlock)
        ensures
            r@ == (StepModel { ty, ignore: false, code: Seq::empty() }),
    {
        CodeBlock { ty: ty, ignore: false, code: String::new() }
    }

    /// Appends `text` to the body.
    pub fn append(&mut self, text: &str)
        ensures
            final(self)@ == (StepModel { code: old(self)@.code + text@, ..old(self)@ }),
    {
        self.code.append(text)
    }
}

/// Parses a fence's info string into a fresh step, or `None` where the string is
/// not a directive.
pub fn parse_code_info(info: &str) -> (r: Option<CodeBlock>)
    ensures
        match r {
            Some(b) => parse_info(info@) == Some(b@),
            None => parse_info(info@) is None,
        },
{
    proof {
        lemma_split_nonempty(info@, ',');
    }
    let ranges = split_ranges(info, ',');
    let ghost toks = split_on(info@, ',');
    let (lo, hi) = trimmed_range(info, ranges[0].0, ranges[0].1);
    let sh = vec!['s', 'h'];
    let file_exist = vec!['f', 'i', 'l', 'e', '-', 'e', 'x', 'i', 's', 't'];
    let ignore_word = vec!['i', 'g', 'n', 'o', 'r', 'e'];
    let mut code = if range_equals(info, lo, hi, &sh) {
        CodeBlock::new(CodeTy::Shell)
    } else if range_equals(info, lo, hi, &file_exist) {
        CodeBlock::new(CodeTy::FileExist)
    } else {
        return None;
    };
    let mut j: usize = 1;
    while j < ranges.len()
        invariant
            1 <= j <= ranges@.len(),
            ranges@.len() == toks.len(),
            toks == split_on(info@, ','),
            ignore_word@ == word_ignore(),
            kind_of(trim(toks[0])) == Some(code@.ty),
            code@.code == Seq::<char>::empty(),
            code@.ignore == (j > 1),
            forall|m: int|
                0 <= m < ranges@.len() ==> #[trigger] ranges@[m].0 <= ranges@[m].1 <= info@.len()
                    && info@.subrange(ranges@[m].0 as int, ranges@[m].1 as int) == toks[m],
            forall|m: int| 1 <= m < j ==> trim(#[trigger] toks[m]) == word_ignore(),
        decreases ranges@.len() - j,
    {
        let (a, b) = trimmed_range(info, ranges[j].0, ranges[j].1);
        if range_equals(info, a, b, &ignore_word) {
            code.ignore = true;
        } else {
            return None;
        }
        j = j + 1;
    }
    Some(code)
}

} // verus!
