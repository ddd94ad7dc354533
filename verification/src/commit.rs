//! Committing: the files that git reports as changed, the options of the
//! commit commands, the commit message, and the steps from staging to
//! pushing.

use crate::numbers::{decimal, to_decimal};
use crate::split::{copy_chars, lines, lines_of, pieces_view, MalformedLine};
use crate::text::{
    push_chars, push_str, str_eq, strings_view, to_chars, to_string, trim, trimmed,
};
use vstd::prelude::*;
use vstd::string::StringExecFns;

verus! {

/// A changed file: its name and the two characters by which git tells how
/// it changed.
#[derive(Debug)]
pub struct File {
    pub name: String,
    pub status: String,
}

/// The options of the commit commands.
#[derive(Debug)]
pub struct CommitOptions {
    /// Do not push after committing.
    pub no_push: bool,
    /// Do not ask for a label, whatever the configuration says.
    pub skip_fancy: bool,
    /// Ask for a label, whatever the configuration says.
    pub force_fancy: bool,
    /// The commit message, if it was given on the command line.
    pub commit_message: Option<String>,
}

/// Why there is nothing to commit.
#[derive(Clone, Copy, Debug, PartialEq, Eq, Structural)]
pub enum CommitProblem {
    NotARepository,
    NoFiles,
}

/// The commands of a commit, in the order in which they run.
#[derive(Clone, Copy, Debug, PartialEq, Eq, Structural)]
pub enum CommitStage {
    Add,
    Commit,
    Push,
}

/// What follows a command of a commit.
#[derive(Clone, Copy, Debug, PartialEq, Eq, Structural)]
pub enum CommitStep {
    /// Run the next command.
    Run(CommitStage),
    /// The command failed: report it and give up.
    Failed(CommitStage),
    /// Everything that was asked for is done.
    Finished,
}

/// Whether a selection of files can be accepted, and if not, why.
#[derive(Debug)]
pub enum Validation {
    Valid,
    Invalid(String),
}

impl File {
    /// The file as it is offered for selection: status, a space, name.
    pub fn to_string(&self) -> (s: String)
        ensures
            s@ == self.status@ + " "@ + self.name@,
    {
        String::from_str(self.status.as_str()).concat(" ").concat(self.name.as_str())
    }
}

/// `file` is what a line of `git status --short` holds: the first two
/// characters are the status, the rest, trimmed, is the name.
pub open spec fn file_of(file: File, line: Seq<char>) -> bool {
    &&& file.status@ == line.subrange(0, 2)
    &&& file.name@ == trimmed(line.subrange(2, line.len() as int))
}

/// Reads what `git status --short` printed: one file per line.
///
/// `Ok` exactly when every line has the two characters of a status;
/// otherwise the first line that is too short is handed back.
pub fn get_files_to_commit(output: &str) -> (result: Result<Vec<File>, MalformedLine>)
    ensures
        result is Ok <==> forall|i: int|
            0 <= i < lines_of(output@).len() ==> (#[trigger] lines_of(output@)[i]).len() >= 2,
        result matches Ok(files) ==> {
            &&& files@.len() == lines_of(output@).len()
            &&& forall|i: int|
                0 <= i < files@.len() ==> file_of(#[trigger] files@[i], lines_of(output@)[i])
        },
        result matches Err(error) ==> exists|k: int|
            {
                &&& 0 <= k < lines_of(output@).len()
                &&& (#[trigger] lines_of(output@)[k]).len() < 2
                &&& error.line@ == lines_of(output@)[k]
                &&& forall|i: int| 0 <= i < k ==> (#[trigger] lines_of(output@)[i]).len() >= 2
            },
{
    let found = lines(&to_chars(output));
    let ghost all = lines_of(output@);
    let mut files: Vec<File> = Vec::new();
    let mut i: usize = 0;
    while i < found.len()
        invariant
            i <= found@.len(),
            all == pieces_view(found@),
            all == lines_of(output@),
            files@.len() == i,
            forall|k: int| 0 <= k < i ==> (#[trigger] all[k]).len() >= 2,
            forall|k: int| 0 <= k < i ==> file_of(#[trigger] files@[k], all[k]),
        decreases found@.len() - i,
    {
        let line = &found[i];
        assert(all[i as int] == line@);
        if line.len() < 2 {
            return Err(MalformedLine { line: to_string(line) });
        }
        let status = copy_chars(line, 0, 2);
        let rest = copy_chars(line, 2, line.len());
        files.push(File { name: to_string(&trim(&rest)), status: to_string(&status) });
        i += 1;
    }
    Ok(files)
}

/// Git reported changes when `git status --short` printed anything.
pub fn are_files_to_commit(output: &str) -> (any: bool)
    ensures
        any == (output@.len() > 0),
{
    output.unicode_len() > 0
}

/// Decides whether a commit can be made here: in a repository, with
/// changes to commit; the repository is looked at first.
pub fn is_valid_commit(is_repository: bool, has_files: bool) -> (result: Result<(), CommitProblem>)
    ensures
        result == if !is_repository {
            Err::<(), CommitProblem>(CommitProblem::NotARepository)
        } else if !has_files {
            Err::<(), CommitProblem>(CommitProblem::NoFiles)
        } else {
            Ok::<(), CommitProblem>(())
        },
{
    if !is_repository {
        return Err(CommitProblem::NotARepository);
    }
    if !has_files {
        return Err(CommitProblem::NoFiles);
    }
    Ok(())
}

impl CommitProblem {
    /// What the user is told.
    pub fn to_string(&self) -> (s: String)
        ensures
            s@ == match self {
                CommitProblem::NotARepository => "Not a git repository"@,
                CommitProblem::NoFiles => "No files to commit"@,
            },
    {
        match self {
            CommitProblem::NotARepository => String::from_str("Not a git repository"),
            CommitProblem::NoFiles => String::from_str("No files to commit"),
        }
    }
}

/// An argument list names an option when one of the arguments is the
/// option.
pub open spec fn names_option(args: Seq<String>, option: Seq<char>) -> bool {
    exists|i: int| 0 <= i < args.len() && (#[trigger] args[i])@ == option
}

fn has_option(args: &Vec<String>, option: &str) -> (found: bool)
    ensures
        found == names_option(args@, option@),
{
    let mut i: usize = 0;
    while i < args.len()
        invariant
            i <= args@.len(),
            forall|k: int| 0 <= k < i ==> (#[trigger] args@[k])@ != option@,
        decreases args@.len() - i,
    {
        if str_eq(args[i].as_str(), option) {
            return true;
        }
        i += 1;
    }
    false
}

impl CommitOptions {
    /// The options that a list of arguments names: `--no-push`,
    /// `--skip-fancy` and `--force-fancy`, each on when it occurs among
    /// the arguments. No message is taken from them.
    pub fn new(args: &Vec<String>) -> (options: CommitOptions)
        ensures
            options.no_push == names_option(args@, "--no-push"@),
            options.skip_fancy == names_option(args@, "--skip-fancy"@),
            options.force_fancy == names_option(args@, "--force-fancy"@),
            options.commit_message is None,
    {
        CommitOptions {
            no_push: has_option(args, "--no-push"),
            skip_fancy: has_option(args, "--skip-fancy"),
            force_fancy: has_option(args, "--force-fancy"),
            commit_message: None,
        }
    }

    /// Whether the user is asked for a label: as the configuration says,
    /// unless an option forces it or forbids it; forbidding wins.
    pub fn use_fancy(&self, configured: bool) -> (fancy: bool)
        ensures
            fancy == if self.skip_fancy {
                false
            } else if self.force_fancy {
                true
            } else {
                configured
            },
    {
        let mut fancy = configured;
        if self.force_fancy {
            fancy = true;
        }
        if self.skip_fancy {
            fancy = false;
        }
        fancy
    }
}

impl Default for CommitOptions {
    fn default() -> (options: CommitOptions)
        ensures
            !options.no_push,
            !options.skip_fancy,
            !options.force_fancy,
            options.commit_message is None,
    {
        CommitOptions { no_push: false, skip_fancy: false, force_fancy: false, commit_message: None }
    }
}

/// A fancy commit message: the label's emoji, a space, the message, an
/// empty line, the description.
pub fn fancy_message(emoji: &str, message: &str, description: &str) -> (text: String)
    ensures
        text@ == emoji@ + " "@ + message@ + "\n\n"@ + description@,
{
    String::from_str(emoji).concat(" ").concat(message).concat("\n\n").concat(description)
}

/// Judges a selection of files by their number: at least one must be
/// selected.
pub fn validate_file_selection(selected: usize) -> (validation: Validation)
    ensures
        match validation {
            Validation::Valid => selected > 0,
            Validation::Invalid(reason) => selected == 0 && reason@
                == "You must select at least one file"@,
        },
{
    if selected == 0 {
        return Validation::Invalid(String::from_str("You must select at least one file"));
    }
    Validation::Valid
}

/// What follows a command: a failure ends the commit, adding is followed
/// by committing, committing by pushing unless pushing is switched off,
/// and pushing by nothing.
pub open spec fn step_after(stage: CommitStage, succeeded: bool, no_push: bool) -> CommitStep {
    if !succeeded {
        CommitStep::Failed(stage)
    } else {
        match stage {
            CommitStage::Add => CommitStep::Run(CommitStage::Commit),
            CommitStage::Commit => if no_push {
                CommitStep::Finished
            } else {
                CommitStep::Run(CommitStage::Push)
            },
            CommitStage::Push => CommitStep::Finished,
        }
    }
}

/// Decides what follows a command of a commit.
pub fn commit_files(stage: CommitStage, succeeded: bool, no_push: bool) -> (step: CommitStep)
    ensures
        step == step_after(stage, succeeded, no_push),
{
    if !succeeded {
        return CommitStep::Failed(stage);
    }
    match stage {
        CommitStage::Add => CommitStep::Run(CommitStage::Commit),
        CommitStage::Commit => if no_push {
            CommitStep::Finished
        } else {
            CommitStep::Run(CommitStage::Push)
        },
        CommitStage::Push => CommitStep::Finished,
    }
}

/// The arguments with which git runs a command of a commit.
pub open spec fn stage_arguments(stage: CommitStage, names: Seq<Seq<char>>, message: Seq<char>) -> Seq<
    Seq<char>,
> {
    match stage {
        CommitStage::Add => seq!["add"@] + names,
        CommitStage::Commit => seq!["commit"@, "-m"@, message],
        CommitStage::Push => seq!["push"@],
    }
}

/// The names of the files.
pub open spec fn names_of(files: Seq<File>) -> Seq<Seq<char>> {
    Seq::new(files.len(), |i: int| files[i].name@)
}

/// The arguments with which git runs a command of a commit of `files`
/// with `message`.
pub fn arguments_for(stage: CommitStage, files: &Vec<File>, message: &str) -> (args: Vec<String>)
    ensures
        strings_view(args@) == stage_arguments(stage, names_of(files@), message@),
{
    let mut args: Vec<String> = Vec::new();
    match stage {
        CommitStage::Add => {
            args.push(String::from_str("add"));
            let mut i: usize = 0;
            while i < files.len()
                invariant
                    i <= files@.len(),
                    strings_view(args@) == seq!["add"@] + names_of(files@).subrange(0, i as int),
                decreases files@.len() - i,
            {
                let ghost before = strings_view(args@);
                args.push(files[i].name.clone());
                assert(strings_view(args@) =~= before.push(files@[i as int].name@));
                assert(before.push(files@[i as int].name@) =~= seq!["add"@] + names_of(
                    files@,
                ).subrange(0, i as int + 1));
                i += 1;
            }
            assert(names_of(files@).subrange(0, files@.len() as int) =~= names_of(files@));
        },
        CommitStage::Commit => {
            args.push(String::from_str("commit"));
            args.push(String::from_str("-m"));
            args.push(String::from_str(message));
            assert(strings_view(args@) =~= seq!["commit"@, "-m"@, message@]);
        },
        CommitStage::Push => {
            args.push(String::from_str("push"));
            assert(strings_view(args@) =~= seq!["push"@]);
        },
    }
    args
}

impl CommitStage {
    /// What the user is told when the command fails.
    pub fn failure_message(&self) -> (s: String)
        ensures
            s@ == match self {
                CommitStage::Add => "Failed to add files"@,
                CommitStage::Commit => "Failed to commit files"@,
                CommitStage::Push => "Failed to push files"@,
            },
    {
        match self {
            CommitStage::Add => String::from_str("Failed to add files"),
            CommitStage::Commit => String::from_str("Failed to commit files"),
            CommitStage::Push => String::from_str("Failed to push files"),
        }
    }
}

/// What the user is told after a commit of `count` files.
pub open spec fn summary(count: nat) -> Seq<char> {
    if count == 1 {
        "Successfully commited 1 file"@
    } else {
        "Successfully commited "@ + decimal(count) + " files"@
    }
}

/// What the user is told after a commit of `count` files.
pub fn commit_summary(count: usize) -> (s: String)
    ensures
        s@ == summary(count as nat),
{
    if count == 1 {
        String::from_str("Successfully commited 1 file")
    } else {
        let mut text: Vec<char> = Vec::new();
        push_str(&mut text, "Successfully commited ");
        push_chars(&mut text, &to_decimal(count));
        push_str(&mut text, " files");
        assert(text@ =~= "Successfully commited "@ + decimal(count as nat) + " files"@);
        to_string(&text)
    }
}

} // verus!
