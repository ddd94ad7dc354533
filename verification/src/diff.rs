//! Showing differences: which files differ, which of them to show, and how
//! git is asked to show them.

use crate::split::{pieces_view, split, split_spec};
use crate::text::{str_eq, strings_view, to_chars, to_string};
use vstd::prelude::*;
use vstd::string::StringExecFns;

verus! {

/// The options of the diff command.
#[derive(Debug)]
pub struct DiffOptions {
    /// Show the whole diff instead of a summary.
    pub extended: bool,
    /// The one file to show the diff for.
    pub file: Option<String>,
    /// Let the user select the files.
    pub selector: bool,
}

/// Why no diff is shown.
#[derive(Clone, Copy, Debug, PartialEq, Eq, Structural)]
pub enum DiffProblem {
    NotARepository,
    FileNotInDiff,
    NoChanges,
}

/// The files to show the diff for, and whether the user selects among
/// them first.
#[derive(Debug)]
pub struct DiffSelection {
    pub files: Vec<String>,
    pub ask: bool,
}

/// The first `n` of `pieces` without the empty ones.
pub open spec fn non_empty(pieces: Seq<Seq<char>>, n: int) -> Seq<Seq<char>>
    decreases n,
{
    if n <= 0 || n > pieces.len() {
        Seq::empty()
    } else if pieces[n - 1].len() == 0 {
        non_empty(pieces, n - 1)
    } else {
        non_empty(pieces, n - 1).push(pieces[n - 1])
    }
}

/// The files that `git diff --name-only` printed: what stands between the
/// line feeds, empty names left out.
pub open spec fn diff_files(output: Seq<char>) -> Seq<Seq<char>> {
    non_empty(split_spec(output, "\n"@), split_spec(output, "\n"@).len() as int)
}

/// Reads what `git diff --name-only` printed.
pub fn get_diff_files(output: &str) -> (files: Vec<String>)
    ensures
        strings_view(files@) == diff_files(output@),
{
    let pieces = split(&to_chars(output), &to_chars("\n"));
    let ghost all = pieces_view(pieces@);
    let mut files: Vec<String> = Vec::new();
    let mut i: usize = 0;
    assert(strings_view(files@) =~= Seq::<Seq<char>>::empty());
    while i < pieces.len()
        invariant
            i <= pieces@.len(),
            all == pieces_view(pieces@),
            strings_view(files@) == non_empty(all, i as int),
        decreases pieces@.len() - i,
    {
        assert(all[i as int] == pieces@[i as int]@);
        if pieces[i].len() > 0 {
            let ghost before = strings_view(files@);
            files.push(to_string(&pieces[i]));
            assert(strings_view(files@) =~= before.push(all[i as int]));
        }
        i += 1;
    }
    files
}

/// `file` is among `files`.
pub open spec fn lists(files: Seq<String>, file: Seq<char>) -> bool {
    exists|i: int| 0 <= i < files.len() && (#[trigger] files[i])@ == file
}

/// Decides whether a file is among the files that differ.
pub fn is_file_in_diff(file: &str, files: &Vec<String>) -> (found: bool)
    ensures
        found == lists(files@, file@),
{
    let mut i: usize = 0;
    while i < files.len()
        invariant
            i <= files@.len(),
            forall|k: int| 0 <= k < i ==> (#[trigger] files@[k])@ != file@,
        decreases files@.len() - i,
    {
        if str_eq(files[i].as_str(), file) {
            return true;
        }
        i += 1;
    }
    false
}

/// Decides which files a diff is about, given whether this is a
/// repository and which files differ.
///
/// Outside a repository there is nothing to show. A file named in the
/// options is the only one shown, and must be among the files that
/// differ; without one, all files that differ are shown. The user selects
/// among them when the options say so.
pub fn show_diff(options: &DiffOptions, is_repository: bool, changed: Vec<String>) -> (result: Result<
    DiffSelection,
    DiffProblem,
>)
    ensures
        match result {
            Ok(selection) => {
                &&& is_repository
                &&& selection.ask == options.selector
                &&& match options.file {
                    Some(file) => lists(changed@, file@) && strings_view(selection.files@)
                        == seq![file@],
                    None => selection.files == changed,
                }
            },
            Err(problem) => if !is_repository {
                problem == DiffProblem::NotARepository
            } else {
                &&& problem == DiffProblem::FileNotInDiff
                &&& options.file matches Some(file)
                &&& !lists(changed@, file@)
            },
        },
{
    if !is_repository {
        return Err(DiffProblem::NotARepository);
    }
    match &options.file {
        Some(file) => {
            if !is_file_in_diff(file.as_str(), &changed) {
                return Err(DiffProblem::FileNotInDiff);
            }
            let mut files: Vec<String> = Vec::new();
            files.push(file.clone());
            assert(strings_view(files@) =~= seq![file@]);
            Ok(DiffSelection { files, ask: options.selector })
        },
        None => Ok(DiffSelection { files: changed, ask: options.selector }),
    }
}

/// The arguments with which git shows the diff of `files`: in colour, and
/// as a minimal, compact summary unless the whole diff is asked for.
pub open spec fn diff_arguments(files: Seq<Seq<char>>, extended: bool) -> Seq<Seq<char>> {
    if extended {
        seq!["diff"@, "--color"@] + files
    } else {
        seq!["diff"@, "--color"@, "--minimal"@, "--compact-summary"@] + files
    }
}

/// The arguments with which git shows the diff of `files`, or the news
/// that nothing changed when there is no file.
pub fn show_diff_for_files(files: &Vec<String>, extended: bool) -> (result: Result<
    Vec<String>,
    DiffProblem,
>)
    ensures
        match result {
            Ok(args) => files@.len() > 0 && strings_view(args@) == diff_arguments(
                strings_view(files@),
                extended,
            ),
            Err(problem) => files@.len() == 0 && problem == DiffProblem::NoChanges,
        },
{
    if files.len() == 0 {
        return Err(DiffProblem::NoChanges);
    }
    let mut args: Vec<String> = Vec::new();
    args.push(String::from_str("diff"));
    args.push(String::from_str("--color"));
    if !extended {
        args.push(String::from_str("--minimal"));
        args.push(String::from_str("--compact-summary"));
    }
    let ghost head = strings_view(args@);
    assert(head =~= if extended {
        seq!["diff"@, "--color"@]
    } else {
        seq!["diff"@, "--color"@, "--minimal"@, "--compact-summary"@]
    });
    let mut i: usize = 0;
    while i < files.len()
        invariant
            i <= files@.len(),
            strings_view(args@) == head + strings_view(files@).subrange(0, i as int),
        decreases files@.len() - i,
    {
        let ghost before = strings_view(args@);
        args.push(files[i].clone());
        assert(strings_view(args@) =~= before.push(files@[i as int]@));
        assert(before.push(files@[i as int]@) =~= head + strings_view(files@).subrange(
            0,
            i as int + 1,
        ));
        i += 1;
    }
    assert(strings_view(files@).subrange(0, files@.len() as int) =~= strings_view(files@));
    Ok(args)
}

impl DiffProblem {
    /// What the user is told.
    pub fn to_string(&self) -> (s: String)
        ensures
            s@ == match self {
                DiffProblem::NotARepository => "Not a git repository (or any of the parent directories)"@,
                DiffProblem::FileNotInDiff => "File not in diff"@,
                DiffProblem::NoChanges => "No changes"@,
            },
    {
        match self {
            DiffProblem::NotARepository => String::from_str(
                "Not a git repository (or any of the parent directories)",
            ),
            DiffProblem::FileNotInDiff => String::from_str("File not in diff"),
            DiffProblem::NoChanges => String::from_str("No changes"),
        }
    }
}

} // verus!
