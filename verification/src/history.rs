//! The commit history: parsing the delimited log and paging through it.
//!
//! Each line of the log holds the fields of one commit, separated by a
//! delimiter that commit subjects do not contain. The pager is a list
//! without a filter: Up and Down move the selection, Enter opens the
//! selected commit, `q` leaves.

use crate::keys::{KeyCode, KeyEvent};
use crate::out::{
    color_code, format_bold, format_color, format_dim, format_underline, wrapped, Color,
};
use crate::split::{lines, lines_of, pieces_view, split, split_spec, MalformedLine};
use crate::numbers::{decimal, to_decimal};
use crate::text::{push_chars, push_str, strings_view, to_chars, to_string};
use crate::window::{
    available_rows, law_selected_row_is_visible, offset_for, rows_available, scroll_offset,
    window_rows, window_size,
};
use vstd::prelude::*;
use vstd::string::StringExecFns;

verus! {

/// The most commits the pager shows at once.
pub const MAX_COMMIT_ROWS: usize = 10;

/// The rows of the terminal that the pager leaves to its surroundings.
pub const RESERVED_ROWS: u16 = 3;

/// One commit of the log.
#[derive(Debug)]
pub struct Commit {
    pub hash: String,
    pub message: String,
    pub date: String,
    pub author: String,
}

/// The delimiter between the fields of a commit.
pub open spec fn delimiter() -> Seq<char> {
    seq!['-', '_', '-']
}

/// The fields of a line.
pub open spec fn fields_of(line: Seq<char>) -> Seq<Seq<char>> {
    split_spec(line, delimiter())
}

/// A line holds a commit when it has at least four fields.
pub open spec fn holds_commit(line: Seq<char>) -> bool {
    fields_of(line).len() >= 4
}

/// `commit` is what `line` holds: its first four fields, in the order
/// hash, subject, date, author.
pub open spec fn commit_of(commit: Commit, line: Seq<char>) -> bool {
    &&& commit.hash@ == fields_of(line)[0]
    &&& commit.message@ == fields_of(line)[1]
    &&& commit.date@ == fields_of(line)[2]
    &&& commit.author@ == fields_of(line)[3]
}

fn delimiter_chars() -> (d: Vec<char>)
    ensures
        d@ == delimiter(),
{
    let mut d: Vec<char> = Vec::new();
    d.push('-');
    d.push('_');
    d.push('-');
    assert(d@ =~= delimiter());
    d
}

/// Reads one line of the log.
///
/// A line with at least four fields gives the commit made of the first
/// four; any other line is handed back as malformed.
pub fn parse_commit_chars(line: &Vec<char>) -> (result: Result<Commit, MalformedLine>)
    ensures
        result is Ok <==> holds_commit(line@),
        result matches Ok(commit) ==> commit_of(commit, line@),
        result matches Err(error) ==> error.line@ == line@,
{
    let separator = delimiter_chars();
    let fields = split(line, &separator);
    let ghost all = pieces_view(fields@);
    if fields.len() >= 4 {
        assert(all[0] == fields@[0]@ && all[1] == fields@[1]@ && all[2] == fields@[2]@ && all[3]
            == fields@[3]@);
        Ok(
            Commit {
                hash: to_string(&fields[0]),
                message: to_string(&fields[1]),
                date: to_string(&fields[2]),
                author: to_string(&fields[3]),
            },
        )
    } else {
        Err(MalformedLine { line: to_string(line) })
    }
}

/// Reads one line of the log, given as a string.
pub fn parse_commit_line(line: &str) -> (result: Result<Commit, MalformedLine>)
    ensures
        result is Ok <==> holds_commit(line@),
        result matches Ok(commit) ==> commit_of(commit, line@),
        result matches Err(error) ==> error.line@ == line@,
{
    let chars = to_chars(line);
    parse_commit_chars(&chars)
}

/// Reads the log: one commit per line, in the order of the lines.
///
/// `Ok` exactly when every line holds a commit; otherwise the first line
/// that does not is handed back.
pub fn parse_log(output: &str) -> (result: Result<Vec<Commit>, MalformedLine>)
    ensures
        result is Ok <==> forall|i: int|
            0 <= i < lines_of(output@).len() ==> holds_commit(#[trigger] lines_of(output@)[i]),
        result matches Ok(commits) ==> {
            &&& commits@.len() == lines_of(output@).len()
            &&& forall|i: int|
                0 <= i < commits@.len() ==> commit_of(#[trigger] commits@[i], lines_of(output@)[i])
        },
        result matches Err(error) ==> exists|k: int|
            {
                &&& 0 <= k < lines_of(output@).len()
                &&& !holds_commit(#[trigger] lines_of(output@)[k])
                &&& error.line@ == lines_of(output@)[k]
                &&& forall|i: int| 0 <= i < k ==> holds_commit(#[trigger] lines_of(output@)[i])
            },
{
    let chars = to_chars(output);
    let found = lines(&chars);
    let ghost all = lines_of(output@);
    let mut commits: Vec<Commit> = Vec::new();
    let mut i: usize = 0;
    while i < found.len()
        invariant
            i <= found@.len(),
            all == pieces_view(found@),
            all == lines_of(output@),
            commits@.len() == i,
            forall|k: int| 0 <= k < i ==> holds_commit(#[trigger] all[k]),
            forall|k: int| 0 <= k < i ==> commit_of(#[trigger] commits@[k], all[k]),
        decreases found@.len() - i,
    {
        assert(all[i as int] == found@[i as int]@);
        match parse_commit_chars(&found[i]) {
            Ok(commit) => {
                commits.push(commit);
            },
            Err(error) => {
                assert(!holds_commit(all[i as int]));
                return Err(error);
            },
        }
        i += 1;
    }
    Ok(commits)
}

/// The options of the history command.
#[derive(Debug)]
pub struct CommitHistoryOptions {
    /// The number of commits to show; ten when not given.
    pub limit: Option<usize>,
    /// Show only the commits of this author.
    pub author: Option<String>,
    /// The branch to show the commits of; the current one when not given.
    pub branch: Option<String>,
    /// Show the commits of all branches.
    pub all: bool,
    /// Show only the commits that touch this file.
    pub file: Option<String>,
    /// Show the commit with this hash.
    pub hash: Option<String>,
}

/// The pager as a mathematical value: how many commits there are, which of
/// them is selected, and how many the window holds.
pub struct PagerModel {
    pub count: int,
    pub selected: int,
    pub window: int,
}

/// What a key does to the pager.
#[derive(Clone, Copy, Debug, PartialEq, Eq, Structural)]
pub enum PagerStep {
    /// The selection may have moved: draw the window again.
    Redraw,
    /// The key means nothing to the pager.
    Ignore,
    /// `q`: leave the pager.
    Quit,
    /// Enter: show the selected commit in full.
    ShowDetail,
}

impl PagerModel {
    /// There is a commit, the selection is a commit, and the window has
    /// between one row and one row per commit.
    pub open spec fn wf(self) -> bool {
        &&& 0 <= self.selected < self.count
        &&& 1 <= self.window <= self.count
    }

    /// The first commit that the window shows.
    pub open spec fn offset(self) -> int {
        scroll_offset(self.selected, self.count, self.window)
    }

    /// What the key does.
    pub open spec fn step(self, event: KeyEvent) -> PagerStep {
        match event.code {
            KeyCode::Down => PagerStep::Redraw,
            KeyCode::Up => PagerStep::Redraw,
            KeyCode::Enter => PagerStep::ShowDetail,
            KeyCode::Char(c) => if c == 'q' {
                PagerStep::Quit
            } else {
                PagerStep::Ignore
            },
            _ => PagerStep::Ignore,
        }
    }

    /// The pager after the key: Down selects the next commit, Up the
    /// previous one, both stopping at the ends; no other key changes
    /// anything.
    pub open spec fn apply(self, event: KeyEvent) -> PagerModel {
        match event.code {
            KeyCode::Down => if self.selected + 1 < self.count {
                PagerModel { selected: self.selected + 1, ..self }
            } else {
                self
            },
            KeyCode::Up => if self.selected > 0 {
                PagerModel { selected: self.selected - 1, ..self }
            } else {
                self
            },
            _ => self,
        }
    }
}

/// Every key takes a well-formed pager to a well-formed pager, and in
/// every well-formed pager the selected commit is inside the window.
pub proof fn law_pager_selection_in_window(pager: PagerModel, event: KeyEvent)
    requires
        pager.wf(),
    ensures
        pager.apply(event).wf(),
        0 <= pager.offset() <= pager.selected < pager.offset() + pager.window,
        pager.offset() + pager.window <= pager.count,
{
    law_selected_row_is_visible(pager.selected, pager.count, pager.window);
}

/// The history being paged through.
#[derive(Debug)]
pub struct Pager {
    pub commits: Vec<Commit>,
    pub selected: usize,
    pub offset: usize,
    pub window: usize,
}

impl View for Pager {
    type V = PagerModel;

    open spec fn view(&self) -> PagerModel {
        PagerModel {
            count: self.commits@.len() as int,
            selected: self.selected as int,
            window: self.window as int,
        }
    }
}

impl Pager {
    /// The model is well-formed and the offset is the one it derives.
    pub open spec fn wf(&self) -> bool {
        &&& self@.wf()
        &&& self.offset == self@.offset()
    }

    /// Decides whether the pager is well-formed.
    pub fn is_wf(&self) -> (valid: bool)
        ensures
            valid == self.wf(),
    {
        let count = self.commits.len();
        self.selected < count && 1 <= self.window && self.window <= count && self.offset
            == offset_for(self.selected, count, self.window)
    }

    /// A pager over `commits` on a terminal of `terminal_rows` rows
    /// (`None` when that is unknown).
    ///
    /// `None` exactly when there is no commit: there is then nothing to
    /// page through, and nothing is drawn or read. Otherwise the first
    /// commit is selected and the window starts at the top.
    pub fn new(commits: Vec<Commit>, terminal_rows: Option<u16>) -> (pager: Option<Pager>)
        ensures
            pager is None <==> commits@.len() == 0,
            pager matches Some(p) ==> {
                &&& p.wf()
                &&& p.commits == commits
                &&& p.selected == 0
                &&& p.offset == 0
                &&& p.window == window_rows(
                    commits@.len() as int,
                    available_rows(terminal_rows, RESERVED_ROWS as int),
                    MAX_COMMIT_ROWS as int,
                )
            },
    {
        let count = commits.len();
        if count == 0 {
            return None;
        }
        let window = window_size(count, rows_available(terminal_rows, RESERVED_ROWS), MAX_COMMIT_ROWS);
        Some(Pager { commits, selected: 0, offset: offset_for(0, count, window), window })
    }

    /// Handles one key.
    pub fn handle_key(&mut self, event: KeyEvent) -> (step: PagerStep)
        requires
            old(self).wf(),
        ensures
            step == old(self)@.step(event),
            final(self)@ == old(self)@.apply(event),
            final(self).commits == old(self).commits,
            final(self).wf(),
    {
        let count = self.commits.len();
        match event.code {
            KeyCode::Down => {
                if self.selected + 1 < count {
                    self.selected += 1;
                }
                self.offset = offset_for(self.selected, count, self.window);
                PagerStep::Redraw
            },
            KeyCode::Up => {
                if self.selected > 0 {
                    self.selected -= 1;
                }
                self.offset = offset_for(self.selected, count, self.window);
                PagerStep::Redraw
            },
            KeyCode::Enter => PagerStep::ShowDetail,
            KeyCode::Char(c) => if c == 'q' {
                PagerStep::Quit
            } else {
                PagerStep::Ignore
            },
            _ => PagerStep::Ignore,
        }
    }

    /// The selected commit.
    pub fn selected_commit(&self) -> (commit: &Commit)
        requires
            self.wf(),
        ensures
            *commit == self.commits@[self.selected as int],
    {
        &self.commits[self.selected]
    }

    /// The rows of the window, top to bottom: one per commit from the
    /// window's first on, as many as the window holds, the selected one
    /// marked.
    pub fn rows(&self) -> (rows: Vec<String>)
        requires
            self.wf(),
        ensures
            rows@.len() == self.window,
            forall|k: int|
                0 <= k < rows@.len() ==> (#[trigger] rows@[k])@ == row_text(
                    self.commits@[self.offset + k],
                    self.offset + k == self.selected,
                ),
    {
        proof {
            law_selected_row_is_visible(
                self.selected as int,
                self.commits@.len() as int,
                self.window as int,
            );
        }
        let count = self.commits.len();
        let mut rows: Vec<String> = Vec::new();
        let mut k: usize = 0;
        while k < self.window
            invariant
                k <= self.window,
                count == self.commits@.len(),
                self.offset + self.window <= self.commits@.len(),
                rows@.len() == k,
                forall|m: int|
                    0 <= m < k ==> (#[trigger] rows@[m])@ == row_text(
                        self.commits@[self.offset + m],
                        self.offset + m == self.selected,
                    ),
            decreases self.window - k,
        {
            let index = self.offset + k;
            rows.push(commit_row(&self.commits[index], index == self.selected));
            k += 1;
        }
        rows
    }
}

/// A commit as a row of the pager: a marker if it is selected, the hash
/// dimmed and in brackets, the subject, the date in green and the author
/// in blue.
pub open spec fn row_text(commit: Commit, selected: bool) -> Seq<char> {
    (if selected {
        "> "@
    } else {
        "  "@
    }) + wrapped("\x1B[2m"@, "("@ + commit.hash@ + ")"@) + " - "@ + commit.message@ + " ("@
        + wrapped("\x1B["@ + color_code(Color::Green) + "m"@, commit.date@) + ") ~ "@ + wrapped(
        "\x1B["@ + color_code(Color::Blue) + "m"@,
        commit.author@,
    )
}

/// Formats a commit as a row of the pager.
pub fn commit_row(commit: &Commit, selected: bool) -> (row: String)
    ensures
        row@ == row_text(*commit, selected),
{
    let hash = String::from_str("(").concat(commit.hash.as_str()).concat(")");
    let marker = if selected {
        "> "
    } else {
        "  "
    };
    String::from_str(marker).concat(format_dim(hash.as_str()).as_str()).concat(" - ").concat(
        commit.message.as_str(),
    ).concat(" (").concat(format_color(commit.date.as_str(), Color::Green).as_str()).concat(
        ") ~ ",
    ).concat(format_color(commit.author.as_str(), Color::Blue).as_str())
}

/// What the user is told when the log holds no commit.
pub const NO_COMMITS: &'static str = "\nNo commits found\n";

/// The format in which git is asked to print each commit of the log:
/// short hash, subject, relative date and author, delimited.
pub const LOG_FORMAT: &'static str = "--pretty=format:%h-_-%s-_-%cr-_-%an";

/// The argument that makes git list the commits of every branch.
pub const ALL_BRANCHES: &'static str = "--all";

/// The format in which git is asked to print the head of one commit: hash,
/// author, e-mail address, date, subject and body, delimited.
pub const SHOW_FORMAT: &'static str = "--pretty=format:%H-_-%an-_-%ae-_-%ad-_-%s-_-%b";

/// How the history command starts.
#[derive(Debug)]
pub enum HistoryStart {
    /// The log holds no commit: say `NO_COMMITS` and stop.
    NoCommits,
    /// Page through the commits.
    Browse(Pager),
}

/// Starts the history from what `git log` printed, on a terminal of
/// `terminal_rows` rows (`None` when that is unknown).
///
/// The pager's window is the least of the terminal's rows less those
/// reserved, `MAX_COMMIT_ROWS` and the number of commits, and starts at
/// the first commit.
///
/// A log without lines ends the command at once: there is no pager, so
/// nothing is drawn and no key is read. A line that does not hold a commit
/// is handed back. Otherwise the pager holds the commits in the order of
/// the log.
pub fn commit_history(output: &str, terminal_rows: Option<u16>) -> (result: Result<
    HistoryStart,
    MalformedLine,
>)
    ensures
        result is Ok <==> forall|i: int|
            0 <= i < lines_of(output@).len() ==> holds_commit(#[trigger] lines_of(output@)[i]),
        match result {
            Ok(HistoryStart::NoCommits) => lines_of(output@).len() == 0,
            Ok(HistoryStart::Browse(pager)) => {
                &&& lines_of(output@).len() > 0
                &&& pager.wf()
                &&& pager.selected == 0
                &&& pager.offset == 0
                &&& pager.window == window_rows(
                    lines_of(output@).len() as int,
                    available_rows(terminal_rows, RESERVED_ROWS as int),
                    MAX_COMMIT_ROWS as int,
                )
                &&& pager.commits@.len() == lines_of(output@).len()
                &&& forall|i: int|
                    0 <= i < pager.commits@.len() ==> commit_of(
                        #[trigger] pager.commits@[i],
                        lines_of(output@)[i],
                    )
            },
            Err(error) => exists|k: int|
                {
                    &&& 0 <= k < lines_of(output@).len()
                    &&& !holds_commit(#[trigger] lines_of(output@)[k])
                    &&& error.line@ == lines_of(output@)[k]
                    &&& forall|i: int| 0 <= i < k ==> holds_commit(#[trigger] lines_of(output@)[i])
                },
        },
{
    match parse_log(output) {
        Ok(commits) => match Pager::new(commits, terminal_rows) {
            Some(pager) => Ok(HistoryStart::Browse(pager)),
            None => Ok(HistoryStart::NoCommits),
        },
        Err(error) => Err(error),
    }
}

/// The text of an option that may be missing: nothing when it is.
pub open spec fn text_of(option: Option<String>) -> Seq<char> {
    match option {
        Some(text) => text@,
        None => Seq::empty(),
    }
}

impl CommitHistoryOptions {
    /// The number of commits asked for: ten unless the options say
    /// otherwise.
    pub open spec fn limit_or_default(self) -> nat {
        match self.limit {
            Some(limit) => limit as nat,
            None => 10,
        }
    }

    /// The branch is not named and not every branch is asked for, so the
    /// current branch is the one to show.
    pub open spec fn wants_current_branch(self) -> bool {
        text_of(self.branch).len() == 0 && !self.all
    }

    /// The branch to show where not every branch is asked for: the one
    /// that is named, or `current`, the current one, when none is.
    pub open spec fn branch_or(self, current: Seq<char>) -> Seq<char> {
        if text_of(self.branch).len() == 0 {
            current
        } else {
            text_of(self.branch)
        }
    }

    /// What git is told to list: every branch when all are asked for, the
    /// branch to show otherwise. (The command line does not take a branch
    /// together with all branches; should both be set, all are listed.)
    pub open spec fn revision(self, current: Seq<char>) -> Seq<char> {
        if self.all {
            ALL_BRANCHES@
        } else {
            self.branch_or(current)
        }
    }

    /// What the heading calls the branches shown.
    pub open spec fn branches_shown(self, current: Seq<char>) -> Seq<char> {
        if self.all {
            "all branches"@
        } else {
            self.branch_or(current)
        }
    }

    /// The arguments with which git prints the log, `current` being the
    /// current branch.
    pub open spec fn log_arguments(self, current: Seq<char>) -> Seq<Seq<char>> {
        let fixed = seq![
            "log"@,
            "--oneline"@,
            "--decorate"@,
            "--color"@,
            LOG_FORMAT@,
            "--full-history"@,
            "-"@ + decimal(self.limit_or_default()),
            "--author="@ + text_of(self.author),
            self.revision(current),
        ];
        if text_of(self.file).len() > 0 {
            fixed.push(text_of(self.file))
        } else {
            fixed
        }
    }

    /// The line above the log: whose commits are shown, for which file,
    /// on which branch, or on all of them.
    pub open spec fn heading(self, current: Seq<char>) -> Seq<char> {
        "\nShowing commits"@ + (if text_of(self.file).len() > 0 {
            " for "@ + wrapped("\x1B["@ + color_code(Color::Green) + "m"@, text_of(self.file))
        } else {
            Seq::empty()
        }) + (if text_of(self.author).len() > 0 {
            " made by "@ + wrapped("\x1B["@ + color_code(Color::Blue) + "m"@, text_of(self.author))
        } else {
            Seq::empty()
        }) + " on "@ + wrapped(
            "\x1B["@ + color_code(Color::Yellow) + "m"@,
            self.branches_shown(current),
        )
    }

    /// Decides whether the current branch has to be asked for.
    pub fn needs_current_branch(&self) -> (needed: bool)
        ensures
            needed == self.wants_current_branch(),
    {
        !self.all && match &self.branch {
            Some(branch) => branch.as_str().unicode_len() == 0,
            None => true,
        }
    }

    fn branch_text(&self, current: &str) -> (branch: String)
        ensures
            branch@ == self.branch_or(current@),
    {
        match &self.branch {
            Some(branch) => if branch.as_str().unicode_len() == 0 {
                String::from_str(current)
            } else {
                branch.clone()
            },
            None => String::from_str(current),
        }
    }

    fn revision_text(&self, current: &str) -> (revision: String)
        ensures
            revision@ == self.revision(current@),
    {
        if self.all {
            String::from_str(ALL_BRANCHES)
        } else {
            self.branch_text(current)
        }
    }

    fn branches_text(&self, current: &str) -> (branches: String)
        ensures
            branches@ == self.branches_shown(current@),
    {
        if self.all {
            String::from_str("all branches")
        } else {
            self.branch_text(current)
        }
    }

    /// The arguments with which git prints the log: the delimited format,
    /// the limit, the author, then all branches or the branch to show, and
    /// the file if one is named.
    pub fn arguments(&self, current: &str) -> (args: Vec<String>)
        ensures
            strings_view(args@) == self.log_arguments(current@),
    {
        let limit: usize = match self.limit {
            Some(limit) => limit,
            None => 10,
        };
        let author = match &self.author {
            Some(author) => String::from_str("--author=").concat(author.as_str()),
            None => String::from_str("--author="),
        };
        assert(author@ =~= "--author="@ + text_of(self.author));
        let mut count: Vec<char> = Vec::new();
        push_str(&mut count, "-");
        push_chars(&mut count, &to_decimal(limit));
        assert(count@ =~= "-"@ + decimal(self.limit_or_default()));
        let mut args: Vec<String> = Vec::new();
        args.push(String::from_str("log"));
        args.push(String::from_str("--oneline"));
        args.push(String::from_str("--decorate"));
        args.push(String::from_str("--color"));
        args.push(String::from_str(LOG_FORMAT));
        args.push(String::from_str("--full-history"));
        args.push(to_string(&count));
        args.push(author);
        args.push(self.revision_text(current));
        let ghost fixed = strings_view(args@);
        match &self.file {
            Some(file) => {
                if file.as_str().unicode_len() > 0 {
                    args.push(file.clone());
                    assert(strings_view(args@) =~= fixed.push(file@));
                }
            },
            None => {},
        }
        assert(fixed =~= seq![
            "log"@,
            "--oneline"@,
            "--decorate"@,
            "--color"@,
            LOG_FORMAT@,
            "--full-history"@,
            "-"@ + decimal(self.limit_or_default()),
            "--author="@ + text_of(self.author),
            self.revision(current@),
        ]);
        args
    }

    /// The line above the log.
    pub fn heading_text(&self, current: &str) -> (heading: String)
        ensures
            heading@ == self.heading(current@),
    {
        let mut text = String::from_str("\nShowing commits");
        let ghost start = text@;
        match &self.file {
            Some(file) => {
                if file.as_str().unicode_len() > 0 {
                    text = text.concat(" for ").concat(
                        format_color(file.as_str(), Color::Green).as_str(),
                    );
                }
            },
            None => {},
        }
        let ghost with_file = text@;
        assert(with_file =~= start + (if text_of(self.file).len() > 0 {
            " for "@ + wrapped("\x1B["@ + color_code(Color::Green) + "m"@, text_of(self.file))
        } else {
            Seq::empty()
        }));
        match &self.author {
            Some(author) => {
                if author.as_str().unicode_len() > 0 {
                    text = text.concat(" made by ").concat(
                        format_color(author.as_str(), Color::Blue).as_str(),
                    );
                }
            },
            None => {},
        }
        assert(text@ =~= with_file + (if text_of(self.author).len() > 0 {
            " made by "@ + wrapped("\x1B["@ + color_code(Color::Blue) + "m"@, text_of(self.author))
        } else {
            Seq::empty()
        }));
        let branches = self.branches_text(current);
        text.concat(" on ").concat(format_color(branches.as_str(), Color::Yellow).as_str())
    }
}

/// When all branches are asked for, git is told to list all of them and
/// the current branch plays no part: it need not be looked up, and the
/// arguments and the heading are the same whatever it is. Otherwise git is
/// told to list the branch that is named, or the current one when none is.
/// The format and the limit are the same either way.
pub proof fn law_all_branches_are_listed(
    options: CommitHistoryOptions,
    current: Seq<char>,
    other: Seq<char>,
)
    ensures
        options.log_arguments(current).len() >= 9,
        options.log_arguments(current)[0] == "log"@,
        options.log_arguments(current)[4] == LOG_FORMAT@,
        options.log_arguments(current)[6] == "-"@ + decimal(options.limit_or_default()),
        options.all ==> {
            &&& !options.wants_current_branch()
            &&& options.log_arguments(current)[8] == ALL_BRANCHES@
            &&& options.log_arguments(current) == options.log_arguments(other)
            &&& options.heading(current) == options.heading(other)
        },
        !options.all ==> options.log_arguments(current)[8] == options.branch_or(current),
        options.wants_current_branch() ==> options.log_arguments(current)[8] == current,
{
}

/// The pager after the keys of `events`, in order.
pub open spec fn paged(pager: PagerModel, events: Seq<KeyEvent>) -> PagerModel
    decreases events.len(),
{
    if events.len() == 0 {
        pager
    } else {
        paged(pager.apply(events[0]), events.drop_first())
    }
}

/// Whatever keys a pager is given, it stays well-formed, its window keeps
/// its size, the selected commit is inside the window, and the window
/// stays within the commits, so that every commit can be brought into
/// view.
pub proof fn law_pager_reachable_states(pager: PagerModel, events: Seq<KeyEvent>)
    requires
        pager.wf(),
    ensures
        paged(pager, events).wf(),
        paged(pager, events).count == pager.count,
        paged(pager, events).window == pager.window,
        0 <= paged(pager, events).offset() <= paged(pager, events).selected < paged(
            pager,
            events,
        ).offset() + pager.window,
        paged(pager, events).offset() + pager.window <= pager.count,
    decreases events.len(),
{
    if events.len() == 0 {
        law_selected_row_is_visible(pager.selected, pager.count, pager.window);
    } else {
        law_pager_selection_in_window(pager, events[0]);
        law_pager_reachable_states(pager.apply(events[0]), events.drop_first());
    }
}

/// The first `n` characters of `s` without spaces and asterisks.
pub open spec fn bare(s: Seq<char>, n: int) -> Seq<char>
    decreases n,
{
    if n <= 0 || n > s.len() {
        Seq::empty()
    } else if s[n - 1] == ' ' || s[n - 1] == '*' {
        bare(s, n - 1)
    } else {
        bare(s, n - 1).push(s[n - 1])
    }
}

/// The index of the last of the first `n` lines that begins with an
/// asterisk, or `-1` when none does.
pub open spec fn last_starred(lines: Seq<Seq<char>>, n: int) -> int
    decreases n,
{
    if n <= 0 || n > lines.len() {
        -1
    } else if lines[n - 1].len() > 0 && lines[n - 1][0] == '*' {
        n - 1
    } else {
        last_starred(lines, n - 1)
    }
}

/// The current branch as `git branch` prints it: the last line that
/// begins with an asterisk, without its spaces and asterisks; nothing when
/// no line begins with one.
pub open spec fn current_branch(output: Seq<char>) -> Seq<char> {
    let all = lines_of(output);
    let k = last_starred(all, all.len() as int);
    if k >= 0 {
        bare(all[k], all[k].len() as int)
    } else {
        Seq::empty()
    }
}

/// Reads the current branch from what `git branch` printed.
pub fn get_current_branch(output: &str) -> (branch: String)
    ensures
        branch@ == current_branch(output@),
{
    let all = lines(&to_chars(output));
    let mut i: usize = all.len();
    while i > 0
        invariant
            i <= all@.len(),
            pieces_view(all@) == lines_of(output@),
            last_starred(lines_of(output@), all@.len() as int) == last_starred(
                lines_of(output@),
                i as int,
            ),
        decreases i,
    {
        let line = &all[i - 1];
        assert(pieces_view(all@)[i - 1] == line@);
        if line.len() > 0 && line[0] == '*' {
            let mut name: Vec<char> = Vec::new();
            let mut k: usize = 0;
            while k < line.len()
                invariant
                    k <= line@.len(),
                    name@ == bare(line@, k as int),
                decreases line@.len() - k,
            {
                let c = line[k];
                if c != ' ' && c != '*' {
                    name.push(c);
                }
                k += 1;
            }
            return to_string(&name);
        }
        i -= 1;
    }
    String::new()
}

/// One commit in full.
#[derive(Debug)]
pub struct CommitDetail {
    pub hash: String,
    pub author: String,
    pub email: String,
    pub date: String,
    pub subject: String,
    /// The first line of the commit's body.
    pub body: String,
    /// What git printed beside the head: the rest of the body and the
    /// summary of the changes.
    pub changes: String,
}

/// The first `n` of `pieces` one after the other.
pub open spec fn joined(pieces: Seq<Seq<char>>, n: int) -> Seq<char>
    decreases n,
{
    if n <= 0 || n > pieces.len() {
        Seq::empty()
    } else {
        joined(pieces, n - 1) + pieces[n - 1]
    }
}

/// `text` with every occurrence of `part` taken out, from left to right.
pub open spec fn without_part(text: Seq<char>, part: Seq<char>) -> Seq<char> {
    joined(split_spec(text, part), split_spec(text, part).len() as int)
}

/// The head of what `git show` printed: its first line.
pub open spec fn head_of(output: Seq<char>) -> Seq<char> {
    if lines_of(output).len() > 0 {
        lines_of(output)[0]
    } else {
        Seq::empty()
    }
}

/// The head holds a commit in full when it has at least six fields.
pub open spec fn holds_detail(output: Seq<char>) -> bool {
    fields_of(head_of(output)).len() >= 6
}

/// `detail` is what `output` holds: the first six fields of the head, and
/// the output with the head taken out.
pub open spec fn detail_of(detail: CommitDetail, output: Seq<char>) -> bool {
    let fields = fields_of(head_of(output));
    &&& detail.hash@ == fields[0]
    &&& detail.author@ == fields[1]
    &&& detail.email@ == fields[2]
    &&& detail.date@ == fields[3]
    &&& detail.subject@ == fields[4]
    &&& detail.body@ == fields[5]
    &&& detail.changes@ == without_part(output, head_of(output))
}

/// Reads what `git show` printed for one commit.
///
/// `Ok` exactly when the first line has the six fields of a head;
/// otherwise that line, or nothing if there is none, is handed back.
pub fn parse_commit_detail(output: &str) -> (result: Result<CommitDetail, MalformedLine>)
    ensures
        result is Ok <==> holds_detail(output@),
        result matches Ok(detail) ==> detail_of(detail, output@),
        result matches Err(error) ==> error.line@ == head_of(output@),
{
    let text = to_chars(output);
    let all = lines(&text);
    if all.len() == 0 {
        assert(fields_of(Seq::<char>::empty()).len() == 1) by {
            reveal_with_fuel(crate::split::split_from, 2);
            reveal_with_fuel(crate::split::find_from, 2);
        }
        return Err(MalformedLine { line: String::new() });
    }
    let head = &all[0];
    assert(pieces_view(all@)[0] == head@);
    let fields = split(head, &delimiter_chars());
    let ghost found = pieces_view(fields@);
    if fields.len() < 6 {
        return Err(MalformedLine { line: to_string(head) });
    }
    assert(found[0] == fields@[0]@ && found[1] == fields@[1]@ && found[2] == fields@[2]@
        && found[3] == fields@[3]@ && found[4] == fields@[4]@ && found[5] == fields@[5]@);
    let pieces = split(&text, head);
    let ghost parts = pieces_view(pieces@);
    let mut changes: Vec<char> = Vec::new();
    let mut i: usize = 0;
    while i < pieces.len()
        invariant
            i <= pieces@.len(),
            parts == pieces_view(pieces@),
            changes@ == joined(parts, i as int),
        decreases pieces@.len() - i,
    {
        assert(parts[i as int] == pieces@[i as int]@);
        push_chars(&mut changes, &pieces[i]);
        i += 1;
    }
    Ok(
        CommitDetail {
            hash: to_string(&fields[0]),
            author: to_string(&fields[1]),
            email: to_string(&fields[2]),
            date: to_string(&fields[3]),
            subject: to_string(&fields[4]),
            body: to_string(&fields[5]),
            changes: to_string(&changes),
        },
    )
}

/// The arguments with which git prints one commit in full.
pub fn show_arguments(hash: &str) -> (args: Vec<String>)
    ensures
        strings_view(args@) == seq![
            "show"@,
            hash@,
            SHOW_FORMAT@,
            "--color"@,
            "--compact-summary"@,
        ],
{
    let mut args: Vec<String> = Vec::new();
    args.push(String::from_str("show"));
    args.push(String::from_str(hash));
    args.push(String::from_str(SHOW_FORMAT));
    args.push(String::from_str("--color"));
    args.push(String::from_str("--compact-summary"));
    assert(strings_view(args@) =~= seq![
        "show"@,
        hash@,
        SHOW_FORMAT@,
        "--color"@,
        "--compact-summary"@,
    ]);
    args
}

/// A commit in full as it is shown: hash, author and address, date and
/// subject on a line each, the body if there is one, and the changes.
pub open spec fn detail_text(detail: CommitDetail) -> Seq<char> {
    "\nHash: ("@ + wrapped("\x1B[2m"@, detail.hash@) + ")\nAuthor: "@ + wrapped(
        "\x1B["@ + color_code(Color::Blue) + "m"@,
        detail.author@,
    ) + " <"@ + wrapped(
        "\x1B[4m"@,
        wrapped("\x1B["@ + color_code(Color::Magenta) + "m"@, detail.email@),
    ) + ">\nDate: "@ + wrapped("\x1B["@ + color_code(Color::Green) + "m"@, detail.date@)
        + "\nSubject: "@ + wrapped(
        "\x1B[1m"@,
        wrapped("\x1B["@ + color_code(Color::Yellow) + "m"@, detail.subject@),
    ) + "\n"@ + (if detail.body@.len() > 0 {
        "\nBody: "@ + wrapped("\x1B["@ + color_code(Color::Cyan) + "m"@, detail.body@) + "\n"@
    } else {
        Seq::empty()
    }) + "\nChanges:"@ + detail.changes@ + "\n"@
}

/// Formats a commit in full.
pub fn render_commit(detail: &CommitDetail) -> (text: String)
    ensures
        text@ == detail_text(*detail),
{
    let head = String::from_str("\nHash: (").concat(format_dim(detail.hash.as_str()).as_str())
        .concat(")\nAuthor: ").concat(
        format_color(detail.author.as_str(), Color::Blue).as_str(),
    ).concat(" <").concat(
        format_underline(format_color(detail.email.as_str(), Color::Magenta).as_str()).as_str(),
    ).concat(">\nDate: ").concat(format_color(detail.date.as_str(), Color::Green).as_str())
        .concat("\nSubject: ").concat(
        format_bold(format_color(detail.subject.as_str(), Color::Yellow).as_str()).as_str(),
    ).concat("\n");
    let ghost before = head@;
    let with_body = if detail.body.as_str().unicode_len() > 0 {
        head.concat("\nBody: ").concat(format_color(detail.body.as_str(), Color::Cyan).as_str())
            .concat("\n")
    } else {
        head
    };
    assert(with_body@ =~= before + (if detail.body@.len() > 0 {
        "\nBody: "@ + wrapped("\x1B["@ + color_code(Color::Cyan) + "m"@, detail.body@) + "\n"@
    } else {
        Seq::empty()
    }));
    with_body.concat("\nChanges:").concat(detail.changes.as_str()).concat("\n")
}

} // verus!
