//! What a step asks of the machine, and how its outcome is judged and reported.
use crate::directive::CodeBlock;
use crate::text::{split_on, split_ranges, lemma_split_nonempty};
use vstd::prelude::*;

verus! {

/// Why a run failed, each with its diagnostic text.
#[derive(Debug)]
pub enum Failure {
    /// The shell could not be spawned or fed; the text is the system's error.
    ShellExecution(String),
    /// The script ran and exited unsuccessfully.
    ShellScript(String),
    /// A `file-exist` step named a path that does not exist.
    MissingFile(String),
}

/// The mathematical value of a `Failure`.
pub enum FailureModel {
    ShellExecution(Seq<char>),
    ShellScript(Seq<char>),
    MissingFile(Seq<char>),
}

impl FailureModel {
    pub open spec fn message(self) -> Seq<char> {
        match self {
            FailureModel::ShellExecution(m) => m,
            FailureModel::ShellScript(m) => m,
            FailureModel::MissingFile(m) => m,
        }
    }
}

impl View for Failure {
    type V = FailureModel;

    open spec fn view(&self) -> FailureModel {
        match self {
            Failure::ShellExecution(m) => FailureModel::ShellExecution(m@),
            Failure::ShellScript(m) => FailureModel::ShellScript(m@),
            Failure::MissingFile(m) => FailureModel::MissingFile(m@),
        }
    }
}

impl Failure {
    /// The diagnostic text.
    pub fn message(&self) -> (r: String)
        ensures
            r@ == self@.message(),
    {
        match self {
            Failure::ShellExecution(m) => m.clone(),
            Failure::ShellScript(m) => m.clone(),
            Failure::MissingFile(m) => m.clone(),
        }
    }

    /// A failure equal to this one.
    pub fn duplicate(&self) -> (r: Failure)
        ensures
            r@ == self@,
    {
        match self {
            Failure::ShellExecution(m) => Failure::ShellExecution(m.clone()),
            Failure::ShellScript(m) => Failure::ShellScript(m.clone()),
            Failure::MissingFile(m) => Failure::MissingFile(m.clone()),
        }
    }
}

/// The line put before every script: stop at the first failing command, on an
/// unset variable, and on a failing pipeline segment.
pub open spec fn shell_prelude() -> Seq<char> {
    "set -euo pipefail\n"@
}

/// The diagnostic of a script that exited unsuccessfully.
pub open spec fn shell_report(code: Seq<char>, out: Seq<char>, err: Seq<char>) -> Seq<char> {
    "shell:\n\ncode {\n"@ + code + "\n}\n\nstdout {\n"@ + out + "\n}\n\nstderr {\n"@ + err
        + "\n}"@
}

/// The diagnostic of a path that does not exist.
pub open spec fn missing_report(path: Seq<char>) -> Seq<char> {
    "file-exist: "@ + path + " does not exist"@
}

/// `line` without a final carriage return.
pub open spec fn strip_cr(line: Seq<char>) -> Seq<char> {
    if line.len() > 0 && line.last() == '\r' {
        line.drop_last()
    } else {
        line
    }
}

/// The non-empty ones among `lines`, each without a final carriage return.
pub open spec fn kept_lines(lines: Seq<Seq<char>>) -> Seq<Seq<char>>
    decreases lines.len(),
{
    if lines.len() == 0 {
        Seq::empty()
    } else {
        let prev = kept_lines(lines.drop_last());
        let l = strip_cr(lines.last());
        if l.len() == 0 {
            prev
        } else {
            prev.push(l)
        }
    }
}

/// The paths that a `file-exist` body names: its non-empty lines, in order. A line
/// ends at `\n` or `\r\n`; a last line with no line ending is kept as it is.
pub open spec fn file_list(body: Seq<char>) -> Seq<Seq<char>> {
    let toks = split_on(body, '\n');
    let init = kept_lines(toks.drop_last());
    if toks.last().len() == 0 {
        init
    } else {
        init.push(toks.last())
    }
}

/// The views of a sequence of strings.
pub open spec fn string_views(v: Seq<String>) -> Seq<Seq<char>> {
    v.map_values(|s: String| s@)
}

/// The index of the first path reported missing, among the first `n`.
pub open spec fn first_missing(exists: Seq<bool>, n: int) -> Option<int>
    decreases n,
{
    if n <= 0 {
        None
    } else {
        match first_missing(exists, n - 1) {
            Some(i) => Some(i),
            None => if !exists[n - 1] {
                Some(n - 1)
            } else {
                None
            },
        }
    }
}

/// The smaller of two lengths.
pub open spec fn common_len(a: nat, b: nat) -> int {
    if a < b {
        a as int
    } else {
        b as int
    }
}

/// The script handed to the shell for a `sh` step: the prelude, then the body.
pub fn shell_script(block: &CodeBlock) -> (r: String)
    ensures
        r@ == shell_prelude() + block@.code,
{
    let mut s = String::from_str("set -euo pipefail\n");
    s.append(block.code.as_str());
    s
}

/// The outcome of a script that ran: success exactly when the shell exited
/// successfully, else a failure that shows the body, stdout and stderr.
pub fn shell_outcome(code: &str, success: bool, stdout: &str, stderr: &str) -> (r: Result<
    (),
    Failure,
>)
    ensures
        success ==> r is Ok,
        !success ==> (r matches Err(f) && f@ == FailureModel::ShellScript(
            shell_report(code@, stdout@, stderr@),
        )),
{
    if success {
        return Ok(());
    }
    let mut m = String::from_str("shell:\n\ncode {\n");
    m.append(code);
    m.append("\n}\n\nstdout {\n");
    m.append(stdout);
    m.append("\n}\n\nstderr {\n");
    m.append(stderr);
    m.append("\n}");
    Err(Failure::ShellScript(m))
}

/// The failure of a shell that could not be spawned or fed, with the system's text.
pub fn spawn_failure(err: &str) -> (r: Failure)
    ensures
        r@ == FailureModel::ShellExecution(err@),
{
    Failure::ShellExecution(String::from_str(err))
}

/// The paths that a `file-exist` body names, in order.
pub fn file_paths(body: &str) -> (r: Vec<String>)
    ensures
        string_views(r@) == file_list(body@),
{
    proof {
        lemma_split_nonempty(body@, '\n');
    }
    let ranges = split_ranges(body, '\n');
    let ghost toks = split_on(body@, '\n');
    let last = ranges.len() - 1;
    let mut paths: Vec<String> = Vec::new();
    let mut j: usize = 0;
    while j < last
        invariant
            last + 1 == ranges@.len() == toks.len(),
            j <= last,
            forall|m: int|
                0 <= m < ranges@.len() ==> #[trigger] ranges@[m].0 <= ranges@[m].1 <= body@.len()
                    && body@.subrange(ranges@[m].0 as int, ranges@[m].1 as int) == toks[m],
            string_views(paths@) == kept_lines(toks.take(j as int)),
        decreases last - j,
    {
        let (lo, hi) = ranges[j];
        let ghost line = toks[j as int];
        let hi2 = if hi > lo && body.get_char(hi - 1) == '\r' {
            hi - 1
        } else {
            hi
        };
        assert(toks.take(j + 1).drop_last() =~= toks.take(j as int));
        assert(body@.subrange(lo as int, hi2 as int) =~= strip_cr(line));
        if hi2 > lo {
            let p = String::from_str(body.substring_char(lo, hi2));
            paths.push(p);
        }
        assert(string_views(paths@) =~= kept_lines(toks.take(j + 1)));
        j = j + 1;
    }
    assert(toks.take(last as int) =~= toks.drop_last());
    let (lo, hi) = ranges[last];
    if hi > lo {
        paths.push(String::from_str(body.substring_char(lo, hi)));
    }
    assert(string_views(paths@) =~= file_list(body@));
    paths
}

/// The outcome of a `file-exist` step, given for each path in order whether it
/// exists: a failure naming the first path reported missing, else success.
/// Paths beyond the reports given are not judged.
pub fn file_exist_outcome(paths: &Vec<String>, exists: &Vec<bool>) -> (r: Result<(), Failure>)
    ensures
        first_missing(exists@, common_len(paths@.len(), exists@.len())) is None ==> r is Ok,
        forall|i: int|
            first_missing(exists@, common_len(paths@.len(), exists@.len())) == Some(i) ==> (
            r matches Err(f) && f@ == FailureModel::MissingFile(missing_report(paths@[i]@))),
{
    let n = if paths.len() < exists.len() {
        paths.len()
    } else {
        exists.len()
    };
    let mut i: usize = 0;
    while i < n
        invariant
            i <= n <= paths@.len(),
            n <= exists@.len(),
            n as int == common_len(paths@.len(), exists@.len()),
            first_missing(exists@, i as int) is None,
        decreases n - i,
    {
        if !exists[i] {
            let mut m = String::from_str("file-exist: ");
            m.append(paths[i].as_str());
            m.append(" does not exist");
            assert(first_missing(exists@, i + 1) == Some(i as int));
            proof {
                lemma_first_missing_stays(exists@, i + 1, n as int);
                assert(first_missing(exists@, n as int) == Some(i as int));
            }
            return Err(Failure::MissingFile(m));
        }
        i = i + 1;
    }
    Ok(())
}

proof fn lemma_first_missing_stays(exists: Seq<bool>, k: int, n: int)
    requires
        k <= n,
        first_missing(exists, k) is Some,
    ensures
        first_missing(exists, n) == first_missing(exists, k),
    decreases n - k,
{
    if k < n {
        lemma_first_missing_stays(exists, k, n - 1);
    }
}

} // verus!
