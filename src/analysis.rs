//! Analysis of a whole project: the files under `tests/` and `examples/`
//! are left out, every other file is analysed.

use vstd::prelude::*;
use vstd::string::StringExecFns;
use crate::ast_walker::{findings_of, locations, AstWalker, LocationView, PanicLocation};
use crate::dir_walker::{path_join, path_starts_with, FsPath, PathView};

verus! {

/// When the report may use colours.
#[derive(Clone, Copy, Debug, PartialEq, Eq, Structural)]
pub enum Color {
    Auto,
    Always,
    Never,
}

impl Color {
    /// Whether output may carry colour codes: unless colours are switched off.
    pub fn uses_ansi(&self) -> (r: bool)
        ensures
            r == !(*self == Color::Never),
    {
        !matches!(self, Color::Never)
    }
}

/// The settings of a run.
pub struct Config {
    /// The manifest of the project to analyse; its directory is the root.
    pub manifest_path: Option<String>,
    pub color: Color,
}

/// A source file of the project: its path and its text.
pub struct SourceFile {
    pub path: FsPath,
    pub source_code: String,
}

pub open spec fn relative(name: Seq<char>) -> PathView {
    PathView { absolute: false, parts: seq![name] }
}

pub open spec fn tests_dir() -> Seq<char> {
    seq!['t', 'e', 's', 't', 's']
}

pub open spec fn examples_dir() -> Seq<char> {
    seq!['e', 'x', 'a', 'm', 'p', 'l', 'e', 's']
}

/// A file is analysed unless it lies under `root/tests` or `root/examples`.
pub open spec fn analysed(path: PathView, root: PathView) -> bool {
    !path_starts_with(path, path_join(root, relative(tests_dir())))
        && !path_starts_with(path, path_join(root, relative(examples_dir())))
}

/// The findings of one file of the project at `root`.
pub open spec fn package_findings(root: PathView, path: PathView, s: Seq<char>) -> Seq<LocationView> {
    if analysed(path, root) {
        findings_of(s)
    } else {
        seq![]
    }
}

/// The findings of the files, in order.
pub open spec fn project_findings(root: PathView, files: Seq<SourceFile>) -> Seq<LocationView>
    decreases files.len(),
{
    if files.len() == 0 {
        seq![]
    } else {
        project_findings(root, files.drop_last()) + package_findings(
            root,
            files.last().path@,
            files.last().source_code@,
        )
    }
}

fn relative_path(name: &str) -> (r: FsPath)
    ensures
        r@ == relative(name@),
{
    let mut parts: Vec<String> = Vec::new();
    parts.push(String::from_str(name));
    let r = FsPath { absolute: false, parts };
    assert(r@.parts =~= seq![name@]);
    r
}

/// Whether the file at `path` is analysed: it is not under `root/tests` nor
/// under `root/examples`.
pub fn is_analysed(path: &FsPath, root: &FsPath) -> (r: bool)
    ensures
        r == analysed(path@, root@),
{
    let tests_name = "tests";
    let examples_name = "examples";
    proof {
        reveal_strlit("tests");
        reveal_strlit("examples");
    }
    assert(tests_name@ =~= tests_dir());
    assert(examples_name@ =~= examples_dir());
    let tests = relative_path(tests_name);
    let examples = relative_path(examples_name);
    let skip_cause_test = path.starts_with(&root.join(&tests));
    let skip_cause_example = path.starts_with(&root.join(&examples));
    !(skip_cause_test || skip_cause_example)
}

/// Analyses one file of the project at `root`, whose text is `source_code`.
pub fn analyse_package(path: &FsPath, root: &FsPath, source_code: &String) -> (r: Vec<PanicLocation>)
    ensures
        locations(r@) == package_findings(root@, path@, source_code@),
{
    if is_analysed(path, root) {
        let walker = AstWalker::new_with_source(String::new(), source_code.clone());
        walker.process()
    } else {
        let r: Vec<PanicLocation> = Vec::new();
        assert(locations(r@) =~= seq![]);
        r
    }
}

/// Analyses the files of the project at `root`, in order, and gathers their
/// findings.
pub fn get_analysis(root: &FsPath, files: &Vec<SourceFile>) -> (r: Vec<PanicLocation>)
    ensures
        locations(r@) == project_findings(root@, files@),
{
    let mut result: Vec<PanicLocation> = Vec::new();
    let mut i: usize = 0;
    assert(locations(result@) =~= project_findings(root@, files@.subrange(0, 0)));
    while i < files.len()
        invariant
            i <= files@.len(),
            locations(result@) == project_findings(root@, files@.subrange(0, i as int)),
        decreases files@.len() - i,
    {
        let mut found = analyse_package(&files[i].path, root, &files[i].source_code);
        let ghost before = result@;
        let ghost added = found@;
        result.append(&mut found);
        proof {
            let fs = files@.subrange(0, i + 1);
            assert(fs.drop_last() =~= files@.subrange(0, i as int));
            assert(locations(result@) =~= locations(before) + locations(added));
        }
        i = i + 1;
    }
    assert(files@.subrange(0, i as int) =~= files@);
    result
}

} // verus!
