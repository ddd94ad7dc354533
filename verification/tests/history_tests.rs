use tgh::history::{
    commit_history, commit_row, get_current_branch, parse_commit_detail, parse_commit_line,
    parse_log, render_commit, show_arguments, Commit, CommitHistoryOptions, HistoryStart, Pager,
    PagerStep, LOG_FORMAT, MAX_COMMIT_ROWS, NO_COMMITS,
};
use tgh::keys::{KeyCode, KeyEvent, Modifier};
use tgh::split::{join, lines, replace, split};

fn chars(s: &str) -> Vec<char> {
    s.chars().collect()
}

fn strings(pieces: Vec<Vec<char>>) -> Vec<String> {
    pieces.into_iter().map(|p| p.into_iter().collect()).collect()
}

fn commits(n: usize) -> Vec<Commit> {
    (0..n)
        .map(|i| Commit {
            hash: format!("h{i}"),
            message: format!("m{i}"),
            date: format!("d{i}"),
            author: format!("a{i}"),
        })
        .collect()
}

fn options() -> CommitHistoryOptions {
    CommitHistoryOptions { limit: None, author: None, branch: None, all: false, file: None, hash: None }
}

#[test]
fn two_log_lines_give_two_commits_in_order() {
    let log = "abc123-_-Fix bug-_-2 days ago-_-Alice\ndef456-_-Add feature-_-1 hour ago-_-Bob";
    let parsed = parse_log(log).unwrap();
    assert_eq!(parsed.len(), 2);
    assert_eq!(parsed[0].hash, "abc123");
    assert_eq!(parsed[0].message, "Fix bug");
    assert_eq!(parsed[0].date, "2 days ago");
    assert_eq!(parsed[0].author, "Alice");
    assert_eq!(parsed[1].hash, "def456");
    assert_eq!(parsed[1].message, "Add feature");
    assert_eq!(parsed[1].date, "1 hour ago");
    assert_eq!(parsed[1].author, "Bob");
}

#[test]
fn a_line_with_too_few_fields_is_handed_back() {
    let error = parse_commit_line("abc123-_-Fix bug-_-2 days ago").unwrap_err();
    assert_eq!(error.line, "abc123-_-Fix bug-_-2 days ago");
    let error = parse_log("a-_-b-_-c-_-d\nbroken line\ne-_-f-_-g-_-h").unwrap_err();
    assert_eq!(error.line, "broken line");
    assert_eq!(parse_commit_line("").unwrap_err().line, "");
}

#[test]
fn fields_behind_the_fourth_are_left_out() {
    let commit = parse_commit_line("h-_-s-_-d-_-a-_-extra").unwrap();
    assert_eq!(commit.author, "a");
    let commit = parse_commit_line("-_--_--_-").unwrap();
    assert_eq!(
        (commit.hash.as_str(), commit.message.as_str(), commit.date.as_str(), commit.author.as_str()),
        ("", "", "", "")
    );
}

#[test]
fn no_commits_means_no_pager() {
    assert!(matches!(commit_history("", Some(24)), Ok(HistoryStart::NoCommits)));
    assert!(Pager::new(Vec::new(), Some(24)).is_none());
    assert_eq!(NO_COMMITS, "\nNo commits found\n");
    match commit_history("a-_-b-_-c-_-d\n", Some(24)) {
        Ok(HistoryStart::Browse(pager)) => {
            assert_eq!(pager.commits.len(), 1);
            assert_eq!(pager.window, 1);
            assert_eq!(pager.selected, 0);
        }
        _ => panic!("a log with a commit starts the pager"),
    }
    assert_eq!(commit_history("nonsense", Some(24)).unwrap_err().line, "nonsense");
}

#[test]
fn lines_are_split_as_the_standard_library_splits_them() {
    for text in ["", "a", "a\n", "a\nb", "a\r\nb\r\n", "\n", "\n\n", "a\r", "a\n\r", "\r\n", "a\r\r\nb"] {
        let expected: Vec<String> = text.lines().map(|l| l.to_string()).collect();
        assert_eq!(strings(lines(&chars(text))), expected, "{text:?}");
    }
}

#[test]
fn splitting_follows_the_standard_library() {
    for (text, separator) in [
        ("a-_-b", "-_-"),
        ("a-_--_-b", "-_-"),
        ("-_-", "-_-"),
        ("", "-_-"),
        ("a-_-_-b", "-_-"),
        ("aaa", "aa"),
        ("a.b.c", "."),
        ("a.b.c.", "."),
    ] {
        let expected: Vec<String> = text.split(separator).map(|p| p.to_string()).collect();
        assert_eq!(strings(split(&chars(text), &chars(separator))), expected, "{text:?}");
        assert_eq!(join(&split(&chars(text), &chars(separator)), &chars(separator)), chars(text));
    }
    assert_eq!(strings(split(&chars("abc"), &chars(""))), vec!["abc"]);
    assert_eq!(
        replace(&chars("https%3A%2F%2Fx"), &chars("%2F"), &chars("/")),
        chars("https%3A//x")
    );
}

#[test]
fn the_pager_moves_with_up_and_down_and_stops_at_the_ends() {
    let mut pager = Pager::new(commits(3), Some(24)).unwrap();
    assert_eq!(pager.window, 3);
    assert_eq!(pager.handle_key(KeyEvent::plain(KeyCode::Up)), PagerStep::Redraw);
    assert_eq!(pager.selected, 0);
    pager.handle_key(KeyEvent::plain(KeyCode::Down));
    pager.handle_key(KeyEvent::plain(KeyCode::Down));
    assert_eq!(pager.selected, 2);
    pager.handle_key(KeyEvent::plain(KeyCode::Down));
    assert_eq!(pager.selected, 2);
    assert_eq!(pager.selected_commit().hash, "h2");
    assert_eq!(pager.handle_key(KeyEvent::plain(KeyCode::Enter)), PagerStep::ShowDetail);
    assert_eq!(pager.handle_key(KeyEvent::character('q')), PagerStep::Quit);
    assert_eq!(pager.handle_key(KeyEvent::character('x')), PagerStep::Ignore);
    assert_eq!(pager.handle_key(KeyEvent::new(KeyCode::Left, Modifier::Alt)), PagerStep::Ignore);
    assert_eq!(pager.selected, 2);
}

#[test]
fn the_pager_keeps_the_selection_in_its_window() {
    for rows in [None, Some(0u16), Some(4), Some(9), Some(50)] {
        let mut pager = Pager::new(commits(25), rows).unwrap();
        assert!(pager.window >= 1 && pager.window <= MAX_COMMIT_ROWS);
        let keys = [KeyCode::Down; 30].into_iter().chain([KeyCode::Up; 30]);
        for key in keys {
            pager.handle_key(KeyEvent::plain(key));
            assert!(pager.offset <= pager.selected);
            assert!(pager.selected < pager.offset + pager.window);
            let rows = pager.rows();
            assert_eq!(rows.len(), pager.window);
            assert_eq!(rows.iter().filter(|r| r.starts_with("> ")).count(), 1);
        }
    }
    assert_eq!(Pager::new(commits(25), Some(50)).unwrap().window, 10);
    assert_eq!(Pager::new(commits(25), Some(9)).unwrap().window, 6);
    let log: String = (0..25).map(|i| format!("h{i}-_-s{i}-_-d{i}-_-a{i}\n")).collect();
    for (rows, window) in [(Some(50u16), 10), (Some(9), 6), (Some(4), 1), (Some(2), 1), (None, 5)] {
        match commit_history(&log, rows) {
            Ok(HistoryStart::Browse(pager)) => {
                assert_eq!(pager.window, window);
                assert_eq!((pager.selected, pager.offset), (0, 0));
                assert_eq!(pager.commits.len(), 25);
            }
            _ => panic!("a log with commits starts the pager"),
        }
    }
    match commit_history("h-_-s-_-d-_-a\nh-_-s-_-d-_-a\n", Some(50)) {
        Ok(HistoryStart::Browse(pager)) => assert_eq!(pager.window, 2),
        _ => panic!("a log with commits starts the pager"),
    }
}

#[test]
fn a_commit_row_shows_hash_subject_date_and_author() {
    let commit = &commits(1)[0];
    assert_eq!(
        commit_row(commit, true),
        "> \x1B[2m(h0)\x1B[m - m0 (\x1B[32md0\x1B[m) ~ \x1B[34ma0\x1B[m"
    );
    assert_eq!(
        commit_row(commit, false),
        "  \x1B[2m(h0)\x1B[m - m0 (\x1B[32md0\x1B[m) ~ \x1B[34ma0\x1B[m"
    );
}

#[test]
fn the_log_is_asked_for_with_the_delimited_format() {
    let args = options().arguments("main");
    assert_eq!(
        args,
        vec![
            "log",
            "--oneline",
            "--decorate",
            "--color",
            "--pretty=format:%h-_-%s-_-%cr-_-%an",
            "--full-history",
            "-10",
            "--author=",
            "main"
        ]
    );
    assert_eq!(LOG_FORMAT, "--pretty=format:%h-_-%s-_-%cr-_-%an");
    let asked = CommitHistoryOptions {
        limit: Some(250),
        author: Some("Alice".into()),
        branch: Some("dev".into()),
        all: false,
        file: Some("src/lib.rs".into()),
        hash: None,
    };
    assert!(!asked.needs_current_branch());
    let args = asked.arguments("main");
    assert_eq!(&args[6..], ["-250", "--author=Alice", "dev", "src/lib.rs"]);
    assert!(options().needs_current_branch());
}

#[test]
fn all_branches_are_listed_when_asked_for() {
    let all = CommitHistoryOptions { all: true, ..options() };
    assert!(!all.needs_current_branch());
    assert_eq!(
        all.arguments(""),
        vec![
            "log",
            "--oneline",
            "--decorate",
            "--color",
            "--pretty=format:%h-_-%s-_-%cr-_-%an",
            "--full-history",
            "-10",
            "--author=",
            "--all"
        ]
    );
    assert_eq!(all.arguments("main"), all.arguments(""));
    assert_eq!(all.heading_text(""), "\nShowing commits on \x1B[33mall branches\x1B[m");
    let both = CommitHistoryOptions { all: true, branch: Some("dev".into()), ..options() };
    assert_eq!(both.arguments("main")[8], "--all");
    let limited = CommitHistoryOptions { all: true, limit: Some(3), file: Some("a.rs".into()), ..options() };
    assert_eq!(&limited.arguments("main")[6..], ["-3", "--author=", "--all", "a.rs"]);
    let unnamed = CommitHistoryOptions { branch: Some(String::new()), ..options() };
    assert!(unnamed.needs_current_branch());
    assert_eq!(unnamed.arguments("main")[8], "main");
}

#[test]
fn the_heading_names_file_author_and_branch() {
    assert_eq!(options().heading_text("main"), "\nShowing commits on \x1B[33mmain\x1B[m");
    let asked = CommitHistoryOptions {
        author: Some("Alice".into()),
        file: Some("a.rs".into()),
        branch: Some("dev".into()),
        ..options()
    };
    assert_eq!(
        asked.heading_text("main"),
        "\nShowing commits for \x1B[32ma.rs\x1B[m made by \x1B[34mAlice\x1B[m on \x1B[33mdev\x1B[m"
    );
}

#[test]
fn the_current_branch_is_the_starred_line() {
    assert_eq!(get_current_branch("  dev\n* main\n  feature/x\n"), "main");
    assert_eq!(get_current_branch("* (HEAD detached at abc)\n"), "(HEADdetachedatabc)");
    assert_eq!(get_current_branch("  dev\n"), "");
    assert_eq!(get_current_branch(""), "");
    assert_eq!(get_current_branch("* a\n* b*c\n"), "bc");
}

#[test]
fn a_commit_is_read_in_full() {
    let output = "abc-_-Alice-_-a@x.org-_-Mon-_-Fix-_-Body line\nmore body\n 1 file changed\n";
    let detail = parse_commit_detail(output).unwrap();
    assert_eq!(detail.hash, "abc");
    assert_eq!(detail.author, "Alice");
    assert_eq!(detail.email, "a@x.org");
    assert_eq!(detail.date, "Mon");
    assert_eq!(detail.subject, "Fix");
    assert_eq!(detail.body, "Body line");
    assert_eq!(detail.changes, "\nmore body\n 1 file changed\n");
    assert_eq!(
        render_commit(&detail),
        "\nHash: (\x1B[2mabc\x1B[m)\nAuthor: \x1B[34mAlice\x1B[m <\x1B[4m\x1B[35ma@x.org\x1B[m\x1B[m>\nDate: \x1B[32mMon\x1B[m\nSubject: \x1B[1m\x1B[33mFix\x1B[m\x1B[m\n\nBody: \x1B[36mBody line\x1B[m\n\nChanges:\nmore body\n 1 file changed\n\n"
    );
    let bare = parse_commit_detail("abc-_-Alice-_-a@x.org-_-Mon-_-Fix-_-\n x | 1 +\n").unwrap();
    assert_eq!(bare.body, "");
    assert!(!render_commit(&bare).contains("Body"));
    assert_eq!(parse_commit_detail("abc-_-Alice\nrest").unwrap_err().line, "abc-_-Alice");
    assert_eq!(parse_commit_detail("").unwrap_err().line, "");
    assert_eq!(
        show_arguments("abc"),
        vec![
            "show",
            "abc",
            "--pretty=format:%H-_-%an-_-%ae-_-%ad-_-%s-_-%b",
            "--color",
            "--compact-summary"
        ]
    );
}

#[test]
fn a_pager_knows_whether_it_is_well_formed() {
    let mut pager = Pager::new(commits(25), Some(9)).unwrap();
    assert!(pager.is_wf());
    pager.selected = 25;
    assert!(!pager.is_wf());
    pager.selected = 24;
    assert!(!pager.is_wf());
    pager.offset = 19;
    assert!(pager.is_wf());
    pager.window = 0;
    assert!(!pager.is_wf());
}
