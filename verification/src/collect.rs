//! Candidate names of many source files at once.
//!
//! Every file is read, whatever becomes of the others. Where all of them
//! yield their candidates the modules come back in the order of the files;
//! where some do not, the failures of all of them come back in one report.

use crate::handles::{elm_tree, parse_elm, path_text, path_words};
use crate::query::{candidates_by_query, failing_pattern, get_all_exposed_values_query};
use crate::query::{OutsideSource, Patterns};
use std::path::PathBuf;
use vstd::prelude::*;
use vstd::string::StringExecFns;

verus! {

/// The candidate names found in one source file.
pub struct TestModule {
    pub path: PathBuf,
    pub tests: Vec<String>,
}

/// Why a file yields no candidates.
#[derive(Clone, Copy, Debug, PartialEq, Eq, Structural)]
pub enum FileFault {
    /// The grammar made no syntax tree of the file.
    NoTree,
    /// The tree of the file holds a span that delimits no text of the file.
    OutsideSource(OutsideSource),
}

impl FileFault {
    /// The fault in words.
    pub open spec fn words(self) -> Seq<char> {
        match self {
            FileFault::NoTree => "the grammar made no syntax tree"@,
            FileFault::OutsideSource(_) => "a node lies outside the source text"@,
        }
    }

    /// The fault in words.
    pub fn describe(&self) -> (words: &'static str)
        ensures
            words@ == self.words(),
    {
        match self {
            FileFault::NoTree => "the grammar made no syntax tree",
            FileFault::OutsideSource(_) => "a node lies outside the source text",
        }
    }
}

/// The texts of a list of owned names.
pub open spec fn owned_texts(names: Seq<String>) -> Seq<Seq<char>> {
    names.map_values(|name: String| name@)
}

/// The candidate names of a source text: those that the patterns find in
/// the tree that the grammar makes of it.
pub open spec fn file_candidates(source: Seq<char>) -> Result<Seq<Seq<char>>, FileFault> {
    match elm_tree(source) {
        None => Err(FileFault::NoTree),
        Some(tree) => match candidates_by_query(tree, source) {
            Ok(names) => Ok(names),
            Err(span) => Err(FileFault::OutsideSource(span)),
        },
    }
}

/// The line that reports a fault of the file at a path.
pub open spec fn fault_line(path: PathBuf, fault: FileFault) -> Seq<char> {
    path_words(path) + ": "@ + fault.words() + "\n"@
}

/// What the report says of one file: nothing where the file yields its
/// candidates, else the line with its path and the fault.
pub open spec fn report_line(path: PathBuf, source: Seq<char>) -> Seq<char> {
    match file_candidates(source) {
        Ok(_) => Seq::empty(),
        Err(fault) => fault_line(path, fault),
    }
}

/// The report on some files: the lines of those that fail, in their order.
pub open spec fn report(files: Seq<(PathBuf, String)>) -> Seq<char>
    decreases files.len(),
{
    if files.len() == 0 {
        Seq::empty()
    } else {
        report(files.drop_last()) + report_line(files.last().0, files.last().1@)
    }
}

/// Whether every one of some files yields its candidates.
pub open spec fn all_resolve(files: Seq<(PathBuf, String)>) -> bool {
    forall|i: int| 0 <= i < files.len() ==> (#[trigger] file_candidates(files[i].1@)) is Ok
}

/// Whether `modules` are the modules of `files`, one for each in order, with
/// its path and its candidate names.
pub open spec fn modules_of(modules: Seq<TestModule>, files: Seq<(PathBuf, String)>) -> bool {
    &&& modules.len() == files.len()
    &&& forall|i: int|
        0 <= i < files.len() ==> {
            &&& (#[trigger] modules[i]).path == files[i].0
            &&& file_candidates(files[i].1@) == Ok::<Seq<Seq<char>>, FileFault>(
                owned_texts(modules[i].tests@),
            )
        }
}

/// Whether `outcome` is what collecting the candidates of `files` comes to:
/// their modules where every file yields its candidates, else the report.
pub open spec fn collected(
    outcome: Result<Vec<TestModule>, String>,
    files: Seq<(PathBuf, String)>,
) -> bool {
    match outcome {
        Ok(modules) => all_resolve(files) && modules_of(modules@, files),
        Err(message) => !all_resolve(files) && message@ == report(files),
    }
}

/// The line that reports a fault of the file at a path.
pub fn failure_line(path: &PathBuf, fault: FileFault) -> (line: String)
    ensures
        line@ == fault_line(*path, fault),
{
    let mut line = path_text(path);
    line.append(": ");
    line.append(fault.describe());
    line.append("\n");
    line
}

/// The candidate names of one source text, as owned strings.
pub fn resolve_file(patterns: &Patterns, source: &str) -> (names: Result<Vec<String>, FileFault>)
    ensures
        match names {
            Ok(names) => file_candidates(source@) == Ok::<Seq<Seq<char>>, FileFault>(
                owned_texts(names@),
            ),
            Err(fault) => file_candidates(source@) == Err::<Seq<Seq<char>>, FileFault>(fault),
        },
{
    let tree = match parse_elm(source) {
        Some(tree) => tree,
        None => {
            return Err(FileFault::NoTree);
        },
    };
    let borrowed = match get_all_exposed_values_query(patterns, &tree, source) {
        Ok(names) => names,
        Err(span) => {
            return Err(FileFault::OutsideSource(span));
        },
    };
    let mut owned: Vec<String> = Vec::new();
    let mut at: usize = 0;
    while at < borrowed.len()
        invariant
            at <= borrowed.len(),
            owned@.len() == at,
            forall|k: int| 0 <= k < at ==> (#[trigger] owned@[k])@ == borrowed@[k]@,
        decreases borrowed.len() - at,
    {
        owned.push(borrowed[at].to_owned());
        at += 1;
    }
    proof {
        assert(owned_texts(owned@) =~= crate::names::texts(borrowed@));
    }
    Ok(owned)
}

/// A report with one line more is longer than the report before it, and a
/// file that yields its candidates adds no line.
pub proof fn lemma_report_grows(files: Seq<(PathBuf, String)>)
    requires
        files.len() > 0,
    ensures
        report(files) == report(files.drop_last()) + report_line(files.last().0, files.last().1@),
        file_candidates(files.last().1@) is Ok ==> report(files) == report(files.drop_last()),
        file_candidates(files.last().1@) is Err ==> report(files).len() > 0,
{
    reveal_strlit("\n");
    let line = report_line(files.last().0, files.last().1@);
    if file_candidates(files.last().1@) is Ok {
        assert(report(files.drop_last()) + line =~= report(files.drop_last()));
    } else {
        assert("\n"@.len() == 1);
    }
}

/// The report is empty just where every file yields its candidates.
pub proof fn lemma_report_empty(files: Seq<(PathBuf, String)>)
    ensures
        report(files).len() == 0 <==> all_resolve(files),
    decreases files.len(),
{
    if files.len() > 0 {
        let before = files.drop_last();
        lemma_report_grows(files);
        lemma_report_empty(before);
        if all_resolve(files) {
            assert forall|i: int| 0 <= i < before.len() implies (#[trigger] file_candidates(
                before[i].1@,
            )) is Ok by {
                assert(before[i] == files[i]);
            }
            assert(file_candidates(files[files.len() - 1].1@) is Ok);
        }
        if report(files).len() == 0 {
            assert forall|i: int| 0 <= i < files.len() implies (#[trigger] file_candidates(
                files[i].1@,
            )) is Ok by {
                if i < before.len() {
                    assert(before[i] == files[i]);
                }
            }
        }
    }
}

/// The candidate names of each of some source files, found with patterns
/// that the caller holds.
pub fn all_tests_with(patterns: &Patterns, test_sources: Vec<(PathBuf, String)>) -> (outcome: Result<
    Vec<TestModule>,
    String,
>)
    ensures
        collected(outcome, test_sources@),
{
    let ghost files = test_sources@;
    let mut modules: Vec<TestModule> = Vec::new();
    let mut message = String::new();
    let mut failed = false;
    for file in rest: test_sources
        invariant
            files == rest.seq(),
            message@ == report(files.take(rest.index() as int)),
            failed == (message@.len() > 0),
            !failed ==> modules_of(modules@, files.take(rest.index() as int)),
    {
        let ghost done = files.take(rest.index() as int);
        let ghost next = files.take(rest.index() + 1);
        proof {
            assert(next.drop_last() =~= done);
            assert(next.last() == file);
            lemma_report_grows(next);
        }
        let (path, source) = file;
        match resolve_file(patterns, source.as_str()) {
            Ok(tests) => {
                if !failed {
                    modules.push(TestModule { path, tests });
                }
            },
            Err(fault) => {
                failed = true;
                let line = failure_line(&path, fault);
                message.append(line.as_str());
            },
        }
    }
    proof {
        assert(files.take(files.len() as int) =~= files);
        lemma_report_empty(files);
    }
    if failed {
        Err(message)
    } else {
        Ok(modules)
    }
}

/// What `all_tests` says where a pattern does not compile.
pub open spec fn pattern_message(pattern: Seq<char>) -> Seq<char> {
    "the grammar refuses the pattern "@ + pattern
}

/// Whether `outcome` is what `all_tests` comes to on `files`: the refusal of
/// the first pattern that does not compile, else what collecting comes to.
pub open spec fn tested(
    outcome: Result<Vec<TestModule>, String>,
    files: Seq<(PathBuf, String)>,
) -> bool {
    match failing_pattern() {
        Some(pattern) => outcome is Err && outcome->Err_0@ == pattern_message(pattern),
        None => collected(outcome, files),
    }
}

/// Finds all possible tests, which is all candidate names, in each of some
/// source files.
pub fn all_tests(test_sources: Vec<(PathBuf, String)>) -> (outcome: Result<Vec<TestModule>, String>)
    ensures
        tested(outcome, test_sources@),
{
    match Patterns::new() {
        Ok(patterns) => all_tests_with(&patterns, test_sources),
        Err(error) => {
            let mut message = String::from_str("the grammar refuses the pattern ");
            message.append(error.pattern);
            Err(message)
        },
    }
}

} // verus!
