use tgh::clone::{authorization, clone_menu, clone_repo, CloneOptions, CloneSource, Repo};
use tgh::commit::{
    are_files_to_commit, arguments_for, commit_files, commit_summary, fancy_message,
    get_files_to_commit, is_valid_commit, validate_file_selection, CommitOptions, CommitProblem,
    CommitStage, CommitStep, File, Validation,
};
use tgh::config::{
    check_token, config_folder, create_config, get_config_path, load_config, load_message,
    protocol_from_label, sorting_from_label, update_token, validate_config_file, Config, LoadPlan,
    COLOR, PROTOCOL, SORTING,
};
use tgh::diff::{
    get_diff_files, is_file_in_diff, show_diff, show_diff_for_files, DiffOptions, DiffProblem,
};
use tgh::email::{judge_email, validate_email, PatternError, EMAIL_PATTERN};
use tgh::git::{
    check_git_config, get_git_installation_instructions, install_instructions,
    validate_git_install, GitConfigError, GitError, Platform, GENERIC_INSTRUCTIONS, LINUX_DOWNLOAD,
    MACOS_INSTRUCTIONS, WINDOWS_INSTRUCTIONS,
};
use tgh::github::{
    authenticate, device_code_url, parse_access_token, parse_device_code, PollStep, CLIENT_ID,
};
use tgh::labels::{get_labels, LABEL_COUNT};
use tgh::menu::{confirm, list, text, MenuOption};
use tgh::numbers::{parse_decimal, to_decimal};
use tgh::out::{
    format_bold, format_color, format_dim, format_error, format_success, format_underline, Color,
};
use tgh::text::{str_eq, trim};
use tgh::update::{can_read, check_for_updates, latest_release, preview, update_message, VersionError};
use tgh::view::no_subcommand_error;

fn chars(s: &str) -> Vec<char> {
    s.chars().collect()
}

fn strings(items: &[&str]) -> Vec<String> {
    items.iter().map(|s| s.to_string()).collect()
}

fn config(username: &str, token: &str) -> Config {
    Config {
        username: username.into(),
        token: token.into(),
        sort: SORTING::LastUpdated,
        protocol: PROTOCOL::SSH,
        color: COLOR::NORMAL,
        fancy: true,
    }
}

#[test]
fn messages_are_wrapped_in_escape_sequences() {
    assert_eq!(format_error("no"), "\x1B[1;31mno\x1B[m");
    assert_eq!(format_success("ok"), "\x1B[1;32mok\x1B[m");
    assert_eq!(format_dim("dim"), "\x1B[2mdim\x1B[m");
    assert_eq!(format_bold("bold"), "\x1B[1mbold\x1B[m");
    assert_eq!(format_underline("line"), "\x1B[4mline\x1B[m");
    let codes = [
        (Color::Red, 31),
        (Color::Green, 32),
        (Color::Yellow, 33),
        (Color::Blue, 34),
        (Color::Magenta, 35),
        (Color::Cyan, 36),
        (Color::White, 37),
        (Color::Black, 30),
    ];
    for (color, code) in codes {
        assert_eq!(format_color("x", color), format!("\x1B[{code}mx\x1B[m"));
    }
}

#[test]
fn numbers_are_written_and_read_in_decimal() {
    for n in [0usize, 7, 10, 99, 100, 12345, usize::MAX] {
        let digits = to_decimal(n);
        assert_eq!(digits.iter().collect::<String>(), n.to_string());
        assert_eq!(parse_decimal(&digits), Some(n as u64));
    }
    assert_eq!(parse_decimal(&chars("18446744073709551615")), Some(u64::MAX));
    assert_eq!(parse_decimal(&chars("18446744073709551616")), None);
    assert_eq!(parse_decimal(&chars("007")), Some(7));
    assert_eq!(parse_decimal(&chars("")), None);
    assert_eq!(parse_decimal(&chars("12a")), None);
    assert_eq!(parse_decimal(&chars("-1")), None);
    assert_eq!(parse_decimal(&chars("+1")), None);
}

#[test]
fn trimming_follows_the_standard_library() {
    for text in ["", " ", "a", "  a b  ", "\t\na\r\n", "\u{a0}x\u{3000}", " \u{feff} "] {
        assert_eq!(trim(&chars(text)), chars(text.trim()), "{text:?}");
    }
    assert!(str_eq("abc", "abc"));
    assert!(!str_eq("abc", "abd"));
    assert!(!str_eq("abc", "ab"));
}

#[test]
fn colours_have_names() {
    let names = [
        (COLOR::NORMAL, "Normal", "\x1B[m"),
        (COLOR::RED, "Red", "\x1B[31m"),
        (COLOR::GREEN, "Green", "\x1B[32m"),
        (COLOR::YELLOW, "Yellow", "\x1B[33m"),
        (COLOR::BLUE, "Blue", "\x1B[34m"),
        (COLOR::MAGENTA, "Magenta", "\x1B[35m"),
        (COLOR::CYAN, "Cyan", "\x1B[36m"),
        (COLOR::WHITE, "White", "\x1B[97m"),
        (COLOR::GRAY, "Gray", "\x1B[37m"),
    ];
    for (color, name, escape) in names {
        assert_eq!(color.to_string(), name);
        assert_eq!(color.painted(), format!("{escape}{name}\x1B[m"));
    }
}

#[test]
fn a_configuration_is_loaded_or_made() {
    assert_eq!(load_config(true, true), LoadPlan::Read);
    assert_eq!(load_config(true, false), LoadPlan::ReplaceInvalid);
    assert_eq!(load_config(false, false), LoadPlan::CreateMissing);
    assert_eq!(load_config(false, true), LoadPlan::CreateMissing);
    assert_eq!(load_message(LoadPlan::Read), None);
    assert_eq!(
        load_message(LoadPlan::ReplaceInvalid).unwrap(),
        "Config file is invalid. Creating a new one...\n"
    );
    assert_eq!(
        load_message(LoadPlan::CreateMissing).unwrap(),
        "Config file not found. Creating one...\n"
    );
    let made = create_config("octo".into(), SORTING::Alphabetical, PROTOCOL::HTTPS, COLOR::CYAN, false);
    assert_eq!(made.username, "octo");
    assert_eq!(made.token, "");
    assert_eq!(made.sort, SORTING::Alphabetical);
    assert_eq!(made.protocol, PROTOCOL::HTTPS);
    assert_eq!(made.color, COLOR::CYAN);
    assert!(!made.fancy);
    let fresh = String::from("fresh");
    let updated = update_token(made, fresh.clone());
    assert_eq!(updated.token, fresh);
    assert_eq!(updated.username, "octo");
    assert_eq!(updated.color, COLOR::CYAN);
}

#[test]
fn a_configuration_file_is_validated() {
    assert!(validate_config_file("{...}", &Some(config("octo", ""))));
    assert!(!validate_config_file("{...}", &Some(config("", "token"))));
    assert!(!validate_config_file("{...}", &None));
    assert!(!validate_config_file("", &Some(config("octo", ""))));
    assert!(check_token(true, true, "token"));
    assert!(!check_token(true, true, ""));
    assert!(!check_token(false, true, "token"));
    assert!(!check_token(true, false, "token"));
    assert_eq!(get_config_path("/home/octo"), "/home/octo/.config/tgh/config.json");
    assert_eq!(config_folder("/home/octo"), "/home/octo/.config/tgh");
    assert_eq!(sorting_from_label("Last Updated"), Some(SORTING::LastUpdated));
    assert_eq!(sorting_from_label("Alphabetical"), Some(SORTING::Alphabetical));
    assert_eq!(sorting_from_label("alphabetical"), None);
    assert_eq!(protocol_from_label("HTTPS"), Some(PROTOCOL::HTTPS));
    assert_eq!(protocol_from_label("SSH"), Some(PROTOCOL::SSH));
    assert_eq!(protocol_from_label("FTP"), None);
}

#[test]
fn the_version_of_git_is_judged() {
    assert!(validate_git_install(true, "git version 2.43.0\n").is_ok());
    assert!(validate_git_install(true, "git version 2.20.0").is_ok());
    assert!(validate_git_install(true, "git version 3.0.0").is_ok());
    assert!(validate_git_install(true, "git version 10.1.0").is_ok());
    assert!(matches!(validate_git_install(false, "git version 2.43.0"), Err(GitError::NotInstalled)));
    assert!(matches!(validate_git_install(true, "  \n"), Err(GitError::NotInstalled)));
    for (output, version) in [
        ("git version 2.19.9", "2.19.9"),
        ("git version 1.99.0", "1.99.0"),
        ("git version 2.39", "2.39"),
        ("git version 2.39.2.windows.1", "2.39.2.windows.1"),
        ("git version 2.39.3 (Apple Git-146)", "Git-146)"),
        ("git version 2.x.0", "2.x.0"),
    ] {
        match validate_git_install(true, output) {
            Err(GitError::VersionNotSupported { current, min }) => {
                assert_eq!(current, version);
                assert_eq!(min, "2.20.0");
            }
            _ => panic!("{output} is not supported"),
        }
    }
}

#[test]
fn git_must_know_the_user() {
    assert_eq!(check_git_config(true, "Octo\n", true, "o@x.org\n"), Ok(()));
    assert_eq!(check_git_config(false, "Octo", true, "o@x.org"), Err(GitConfigError::NameNotFound));
    assert_eq!(check_git_config(true, " \n", true, "o@x.org"), Err(GitConfigError::NameNotFound));
    assert_eq!(check_git_config(true, "Octo", false, "o@x.org"), Err(GitConfigError::EmailNotFound));
    assert_eq!(check_git_config(true, "Octo", true, ""), Err(GitConfigError::EmailNotFound));
    assert_eq!(check_git_config(false, "", false, ""), Err(GitConfigError::NameNotFound));
}

#[test]
fn installation_instructions_follow_the_system() {
    let ubuntu = get_git_installation_instructions(Some("NAME=\"Ubuntu\"\nID=ubuntu\nID_LIKE=debian\n"));
    assert!(ubuntu.contains("$i ` sudo apt install git`"));
    assert!(ubuntu.starts_with("\n        $b$cr `error`: $b `git` is not installed.\n\n"));
    for (id, command) in [
        ("debian", "sudo apt install git"),
        ("fedora", "sudo dnf install git"),
        ("centos", "sudo dnf install git"),
        ("rhel", "sudo dnf install git"),
        ("arch", "sudo pacman -S git"),
        ("manjaro", "sudo pacman -S git"),
        ("alpine", "apk add git"),
    ] {
        let told = get_git_installation_instructions(Some(&format!("ID={id}\n")));
        assert!(told.contains(&format!("$i ` {command}`")), "{id}");
    }
    assert_eq!(get_git_installation_instructions(Some("ID=gentoo\n")), LINUX_DOWNLOAD);
    assert_eq!(get_git_installation_instructions(Some("ID=\"ubuntu\"\n")), LINUX_DOWNLOAD);
    assert_eq!(get_git_installation_instructions(Some("NAME=x\n")), LINUX_DOWNLOAD);
    assert_eq!(get_git_installation_instructions(None), LINUX_DOWNLOAD);
    assert_eq!(install_instructions(Platform::Windows, None), WINDOWS_INSTRUCTIONS);
    assert_eq!(install_instructions(Platform::MacOs, None), MACOS_INSTRUCTIONS);
    assert_eq!(install_instructions(Platform::Other, Some("ID=ubuntu")), GENERIC_INSTRUCTIONS);
    assert_eq!(install_instructions(Platform::Linux, None), LINUX_DOWNLOAD);
}

#[test]
fn git_errors_are_told_in_markup() {
    assert_eq!(
        GitError::NotInstalled.to_string("HOW"),
        "\n                    $b$cr `error`: $b `git` is not installed.\n                    \n                    HOW"
    );
    let old = GitError::VersionNotSupported { current: "2.1.0".into(), min: "2.20.0".into() };
    assert_eq!(
        old.to_string("HOW"),
        "\n                    $b$cr `error`: $b `git` version not supported.\n                    You need at least version 2.20.0, you are currently using version 2.1.0\n\n                    HOW\n                "
    );
}

#[test]
fn changed_files_are_read_from_the_status() {
    let files = get_files_to_commit(" M src/lib.rs\n?? new file.txt\nA  added\n").unwrap();
    let seen: Vec<(&str, &str)> = files.iter().map(|f| (f.status.as_str(), f.name.as_str())).collect();
    assert_eq!(seen, vec![(" M", "src/lib.rs"), ("??", "new file.txt"), ("A ", "added")]);
    assert_eq!(files[0].to_string(), " M src/lib.rs");
    assert!(get_files_to_commit("").unwrap().is_empty());
    assert_eq!(get_files_to_commit(" M a\nx\n M b").unwrap_err().line, "x");
    assert!(are_files_to_commit(" M a\n"));
    assert!(!are_files_to_commit(""));
}

#[test]
fn a_commit_needs_a_repository_and_changes() {
    assert_eq!(is_valid_commit(true, true), Ok(()));
    assert_eq!(is_valid_commit(false, true), Err(CommitProblem::NotARepository));
    assert_eq!(is_valid_commit(false, false), Err(CommitProblem::NotARepository));
    assert_eq!(is_valid_commit(true, false), Err(CommitProblem::NoFiles));
    assert_eq!(CommitProblem::NotARepository.to_string(), "Not a git repository");
    assert_eq!(CommitProblem::NoFiles.to_string(), "No files to commit");
}

#[test]
fn commit_options_are_read_from_arguments() {
    let options = CommitOptions::new(&strings(&["--no-push", "x", "--force-fancy"]));
    assert!(options.no_push && options.force_fancy && !options.skip_fancy);
    assert!(options.commit_message.is_none());
    let none = CommitOptions::new(&strings(&["--nopush", "-no-push"]));
    assert!(!none.no_push && !none.force_fancy && !none.skip_fancy);
    let both = CommitOptions::new(&strings(&["--skip-fancy", "--force-fancy"]));
    assert!(!both.use_fancy(true) && !both.use_fancy(false));
    assert!(options.use_fancy(false));
    let plain = CommitOptions::default();
    assert!(!plain.no_push && !plain.skip_fancy && !plain.force_fancy);
    assert!(plain.use_fancy(true) && !plain.use_fancy(false));
    assert_eq!(fancy_message(":bug:", "Fix it", "It was broken"), ":bug: Fix it\n\nIt was broken");
}

#[test]
fn a_commit_runs_add_commit_and_push() {
    assert_eq!(commit_files(CommitStage::Add, true, false), CommitStep::Run(CommitStage::Commit));
    assert_eq!(commit_files(CommitStage::Commit, true, false), CommitStep::Run(CommitStage::Push));
    assert_eq!(commit_files(CommitStage::Commit, true, true), CommitStep::Finished);
    assert_eq!(commit_files(CommitStage::Push, true, false), CommitStep::Finished);
    for stage in [CommitStage::Add, CommitStage::Commit, CommitStage::Push] {
        assert_eq!(commit_files(stage, false, false), CommitStep::Failed(stage));
        assert_eq!(commit_files(stage, false, true), CommitStep::Failed(stage));
    }
    assert_eq!(CommitStage::Add.failure_message(), "Failed to add files");
    assert_eq!(CommitStage::Commit.failure_message(), "Failed to commit files");
    assert_eq!(CommitStage::Push.failure_message(), "Failed to push files");
    let files = vec![
        File { name: "a.rs".into(), status: " M".into() },
        File { name: "b c.rs".into(), status: "??".into() },
    ];
    assert_eq!(arguments_for(CommitStage::Add, &files, "msg"), vec!["add", "a.rs", "b c.rs"]);
    assert_eq!(arguments_for(CommitStage::Commit, &files, "msg"), vec!["commit", "-m", "msg"]);
    assert_eq!(arguments_for(CommitStage::Push, &files, "msg"), vec!["push"]);
    assert_eq!(commit_summary(1), "Successfully commited 1 file");
    assert_eq!(commit_summary(0), "Successfully commited 0 files");
    assert_eq!(commit_summary(12), "Successfully commited 12 files");
}

#[test]
fn a_selection_needs_a_file() {
    assert!(matches!(validate_file_selection(1), Validation::Valid));
    assert!(matches!(validate_file_selection(9), Validation::Valid));
    match validate_file_selection(0) {
        Validation::Invalid(reason) => assert_eq!(reason, "You must select at least one file"),
        Validation::Valid => panic!("an empty selection is invalid"),
    }
}

#[test]
fn the_diff_is_about_the_files_that_differ() {
    assert_eq!(get_diff_files("a.rs\nb.rs\n"), vec!["a.rs", "b.rs"]);
    assert_eq!(get_diff_files("a.rs\n\n\nb.rs"), vec!["a.rs", "b.rs"]);
    assert!(get_diff_files("").is_empty());
    let changed = strings(&["a.rs", "b.rs"]);
    assert!(is_file_in_diff("b.rs", &changed));
    assert!(!is_file_in_diff("c.rs", &changed));
    assert!(!is_file_in_diff("a.rs", &Vec::new()));
    let all = DiffOptions { extended: false, file: None, selector: true };
    let selection = show_diff(&all, true, changed.clone()).unwrap();
    assert_eq!(selection.files, changed);
    assert!(selection.ask);
    assert_eq!(show_diff(&all, false, changed.clone()).unwrap_err(), DiffProblem::NotARepository);
    let one = DiffOptions { extended: true, file: Some("b.rs".into()), selector: false };
    let selection = show_diff(&one, true, changed.clone()).unwrap();
    assert_eq!(selection.files, vec!["b.rs"]);
    assert!(!selection.ask);
    let other = DiffOptions { extended: true, file: Some("c.rs".into()), selector: false };
    assert_eq!(show_diff(&other, true, changed.clone()).unwrap_err(), DiffProblem::FileNotInDiff);
    assert_eq!(show_diff(&other, false, changed.clone()).unwrap_err(), DiffProblem::NotARepository);
    assert_eq!(
        show_diff_for_files(&changed, false).unwrap(),
        vec!["diff", "--color", "--minimal", "--compact-summary", "a.rs", "b.rs"]
    );
    assert_eq!(show_diff_for_files(&changed, true).unwrap(), vec!["diff", "--color", "a.rs", "b.rs"]);
    assert_eq!(show_diff_for_files(&Vec::new(), true).unwrap_err(), DiffProblem::NoChanges);
    assert_eq!(
        DiffProblem::NotARepository.to_string(),
        "Not a git repository (or any of the parent directories)"
    );
    assert_eq!(DiffProblem::FileNotInDiff.to_string(), "File not in diff");
    assert_eq!(DiffProblem::NoChanges.to_string(), "No changes");
}

#[test]
fn a_repository_is_cloned_by_the_configured_protocol() {
    let repo = Repo {
        name: "tgh".into(),
        full_name: "octo/tgh".into(),
        ssh_url: "git@github.com:octo/tgh.git".into(),
        clone_url: "https://github.com/octo/tgh.git".into(),
    };
    assert_eq!(repo.to_string(), "octo/tgh");
    assert_eq!(repo.url(PROTOCOL::SSH), "git@github.com:octo/tgh.git");
    assert_eq!(repo.url(PROTOCOL::HTTPS), "https://github.com/octo/tgh.git");
    assert_eq!(clone_repo("url"), vec!["clone", "url"]);
    assert_eq!(clone_menu(&CloneOptions { public: true }), CloneSource::Public);
    assert_eq!(clone_menu(&CloneOptions::default()), CloneSource::Private);
    let value = authorization("abc");
    assert_eq!(value.split_once(' '), Some(("Bearer", "abc")));
}

#[test]
fn answers_at_plain_prompts_are_judged() {
    let option = MenuOption::new("Commit", 3);
    assert_eq!((option.title.as_str(), option.id), ("Commit", 3));
    assert_eq!(text("  hello \n", true), Some("hello".to_string()));
    assert_eq!(text("  \n", true), None);
    assert_eq!(text("  \n", false), Some(String::new()));
    assert_eq!(confirm("\n", true), Some(true));
    assert_eq!(confirm("  ", false), Some(false));
    for yes in ["y", "Y", "yes", "YES", " Yes\n"] {
        assert_eq!(confirm(yes, false), Some(true), "{yes:?}");
    }
    for no in ["n", "N", "no", "No\n"] {
        assert_eq!(confirm(no, true), Some(false), "{no:?}");
    }
    assert_eq!(confirm("maybe", true), None);
    assert_eq!(confirm("ye", true), None);
    assert_eq!(list("1\n", 3), Some(0));
    assert_eq!(list(" 3 ", 3), Some(2));
    assert_eq!(list("0", 3), None);
    assert_eq!(list("4", 3), None);
    assert_eq!(list("two", 3), None);
    assert_eq!(list("", 3), None);
    assert_eq!(list("99999999999999999999999", 3), None);
    assert_eq!(list("1", 0), None);
}

#[test]
fn the_device_code_is_read() {
    let answer = "device_code=abc123&expires_in=899&interval=5&user_code=WDJB-MJHT&verification_uri=https%3A%2F%2Fgithub.com%2Flogin%2Fdevice";
    let code = parse_device_code(answer).unwrap();
    assert_eq!(code.device_code, "abc123");
    assert_eq!(code.expires_in, 899);
    assert_eq!(code.interval, 5);
    assert_eq!(code.user_code, "WDJB-MJHT");
    assert_eq!(code.login_url, "https://github.com/login/device");
    let quoted = "\"device_code=a&expires_in=1&interval=2&user_code=b&verification_uri=c\"";
    assert_eq!(parse_device_code(quoted).unwrap().login_url, "c");
    for broken in [
        "",
        "device_code=abc",
        "device_code=a&expires_in=soon&interval=5&user_code=b&verification_uri=c",
        "device_code=a&expires_in=1&interval=&user_code=b&verification_uri=c",
        "device_code=a&expires_in=1&interval=5&user_code&verification_uri=c",
    ] {
        assert_eq!(parse_device_code(broken).unwrap_err().line, broken);
    }
    assert_eq!(
        device_code_url(),
        format!("https://github.com/login/device/code?client_id={}", CLIENT_ID)
    );
    assert!(!CLIENT_ID.is_empty());
}

#[test]
fn the_wait_for_the_token_goes_on_until_it_comes_or_time_is_up() {
    let handed_out = String::from("granted");
    let answer = format!(
        "{{\"access_token\":\"{}\",\"expires_in\":28800,\"token_type\":\"bearer\"}}",
        handed_out
    );
    let granted = answer.as_str();
    assert_eq!(parse_access_token(granted), Some(handed_out.clone()));
    let pending = "{\"error\":\"authorization_pending\"}";
    assert_eq!(parse_access_token(pending), None);
    assert_eq!(parse_access_token("access_token"), None);
    assert!(matches!(authenticate(granted, 1000, 899), PollStep::Token(t) if t == handed_out));
    assert!(matches!(authenticate(granted, 0, 899), PollStep::Token(t) if t == handed_out));
    assert!(matches!(authenticate(pending, 899, 899), PollStep::Wait));
    assert!(matches!(authenticate(pending, 900, 899), PollStep::TimedOut));
    assert!(matches!(authenticate(pending, 0, 0), PollStep::Wait));
}

#[test]
fn the_latest_release_is_found_by_semantic_version() {
    assert!(can_read("1.2.3"));
    assert!(can_read("1.0.0-rc.1"));
    assert!(!can_read("1.0"));
    assert!(!can_read("v1.0.0"));
    assert!(preview("1.0.0-alpha.1"));
    assert!(preview("2.0.0-beta"));
    assert!(!preview("2.0.0-rc.1"));
    assert_eq!(latest_release(&strings(&["0.9.0", "0.10.0", "0.2.0"])), Some(1));
    assert_eq!(latest_release(&strings(&["1.0.0", "2.0.0-beta", "3.0.0-alpha"])), Some(0));
    assert_eq!(latest_release(&strings(&["1.0.0", "1.0.0"])), Some(1));
    assert_eq!(latest_release(&strings(&["nonsense", "0.0.1"])), Some(1));
    assert_eq!(latest_release(&strings(&["0.0.1", "nonsense"])), Some(0));
    assert_eq!(latest_release(&strings(&["nonsense", "rubbish"])), Some(1));
    assert_eq!(latest_release(&strings(&["1.0.0-beta"])), None);
    assert_eq!(latest_release(&Vec::new()), None);
}

#[test]
fn the_user_is_told_about_a_newer_release() {
    let told = check_for_updates("0.1.0", &strings(&["0.1.0", "0.2.0", "0.3.0-beta"])).unwrap();
    assert_eq!(
        told,
        "\n$cg$b `📦 New Update Available`\n                 &> $cy `0.1.0` $cw `➜` $cg$b `0.2.0`\n                 &> Run $cc$i `tgh update` $cw `to upgrade`\n"
    );
    assert_eq!(check_for_updates("0.2.0", &strings(&["0.1.0", "0.2.0"])).unwrap(), "");
    assert_eq!(check_for_updates("0.3.0", &strings(&["0.1.0", "0.2.0"])).unwrap(), "");
    assert_eq!(check_for_updates("anything", &Vec::new()).unwrap(), "");
    assert_eq!(check_for_updates("anything", &strings(&["1.0.0-alpha"])).unwrap(), "");
    match check_for_updates("dev", &strings(&["0.1.0"])) {
        Err(VersionError::Unreadable(text)) => assert_eq!(text, "dev"),
        other => panic!("{other:?}"),
    }
    match check_for_updates("0.1.0", &strings(&["latest"])) {
        Err(VersionError::Unreadable(text)) => assert_eq!(text, "latest"),
        other => panic!("{other:?}"),
    }
    assert_eq!(update_message("1", "2", false), "");
    assert!(update_message("1", "2", true).contains("$cy `1` $cw `➜` $cg$b `2`"));
}

#[test]
fn an_address_is_judged_by_what_the_pattern_says() {
    assert!(matches!(judge_email("a@b.org", Some(true)), Ok(Validation::Valid)));
    match judge_email("a.b.org", Some(false)) {
        Ok(Validation::Invalid(reason)) => assert_eq!(reason, "Invalid email"),
        other => panic!("{other:?}"),
    }
    match judge_email("", Some(false)) {
        Ok(Validation::Invalid(reason)) => assert_eq!(reason, "Email cannot be empty"),
        other => panic!("{other:?}"),
    }
    match judge_email("", Some(true)) {
        Ok(Validation::Invalid(reason)) => assert_eq!(reason, "Email cannot be empty"),
        other => panic!("{other:?}"),
    }
    assert_eq!(judge_email("a@b.org", None).unwrap_err(), PatternError);
    assert_eq!(judge_email("", None).unwrap_err(), PatternError);
}

#[test]
fn the_pattern_of_an_address_is_not_accepted() {
    assert_eq!(EMAIL_PATTERN, r"^[\w-\.]+@([\w-]+\.)+[\w-]{2,4}$");
    assert!(regex::Regex::new(EMAIL_PATTERN).is_err());
    assert_eq!(validate_email("octo@example.org").unwrap_err(), PatternError);
    assert_eq!(validate_email("").unwrap_err(), PatternError);
}

#[test]
fn the_labels_are_offered_in_order() {
    let labels = get_labels();
    assert_eq!(labels.len(), LABEL_COUNT);
    assert_eq!(labels.len(), 43);
    assert_eq!((labels[0].label.as_str(), labels[0].emoji.as_str()), ("Initial commit", "🎉"));
    assert_eq!((labels[3].label.as_str(), labels[3].emoji.as_str()), ("Bug fix", ":bug:"));
    assert_eq!(
        (labels[42].label.as_str(), labels[42].emoji.as_str()),
        ("Move/rename repository", ":truck:")
    );
    assert_eq!(labels[3].to_string(), ":bug: Bug fix");
    assert!(labels.iter().skip(1).all(|l| l.emoji.starts_with(':') && l.emoji.ends_with(':')));
}

#[test]
fn a_missing_subcommand_is_told_in_markup() {
    let message = no_subcommand_error();
    assert!(message.contains("$b$cr `error`: no subcommand provided"));
    assert!(message.contains("$b$u `Usage`: $b `tgh` [COMMAND]"));
    let printed = tgh::markup::print(&message);
    let text: String = printed.cells.iter().map(|c| c.ch).collect();
    assert_eq!(
        text,
        "\nerror: no subcommand provided\n\nUsage: tgh [COMMAND]\n\nFor more information try 'tgh --help'\n"
    );
    assert_eq!(printed.open_spans, 0);
}
