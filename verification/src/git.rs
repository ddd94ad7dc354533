//! Git as a prerequisite: is it installed, is it recent enough, does it
//! know who the user is, and what to tell the user when it is not.

use crate::numbers::{all_digits, number_of, parse_decimal};
use crate::split::{lines, lines_of, occurs_at, pieces_view, split, split_spec, stands_at};
use crate::text::{chars_are, to_chars, to_string, trim, trimmed};
use vstd::prelude::*;
use vstd::string::StringExecFns;

verus! {

/// The oldest version of git that the helper works with.
pub const MIN_GIT_VERSION: &'static str = "2.20.0";

/// How to install git on Windows.
pub const WINDOWS_INSTRUCTIONS: &'static str = "\nYou can install it using Chocolatey:\n$i ` choco install git`\n\nor using Winget:\n$i ` winget install --id Git.Git -e --source winget`\n\nOr you can download it from the official website:\n$b ` `$u `https://git-scm.com/download/win`\n";

/// How to install git on macOS.
pub const MACOS_INSTRUCTIONS: &'static str = "\nYou can install it using Homebrew:\n$i ` brew install git`\n\nor using MacPorts:\n$i ` sudo port install git`\n\nXcode also includes git. You can install it from the App Store.\n";

/// How to install git where nothing more is known of the system.
pub const GENERIC_INSTRUCTIONS: &'static str = "\nYou can install it using your package manager.\n\nOr you can download it from the official website:\n$b ` `$u `https://git-scm.com/`\n";

/// What a Linux user is told when the distribution is unknown.
pub const LINUX_DOWNLOAD: &'static str = "\n            $b$cr `error`: $b `git` is not installed.\n            \n            You can download it from the official website:\n            $b ` `$u `https://git-scm.com/download/linux`\n            ";

/// What a Linux user is told before the command that installs git.
pub const LINUX_INSTALL_HEAD: &'static str = "\n        $b$cr `error`: $b `git` is not installed.\n\n        You can install it using your package manager:\n        $i ` ";

/// What a Linux user is told after the command that installs git.
pub const LINUX_INSTALL_TAIL: &'static str = "`\n\n        Or you can download it from the official website:\n        $b ` `$u `https://git-scm.com/download/linux`\n        ";

/// What is said before the instructions when git is not installed.
pub const NOT_INSTALLED_HEAD: &'static str = "\n                    $b$cr `error`: $b `git` is not installed.\n                    \n                    ";

/// What is said when the version of git is too old, up to the version
/// that is needed.
pub const UNSUPPORTED_HEAD: &'static str = "\n                    $b$cr `error`: $b `git` version not supported.\n                    You need at least version ";

/// What stands between the version needed and the version found.
pub const UNSUPPORTED_MIDDLE: &'static str = ", you are currently using version ";

/// What stands between the version found and the instructions.
pub const UNSUPPORTED_GAP: &'static str = "\n\n                    ";

/// What stands after the instructions.
pub const UNSUPPORTED_TAIL: &'static str = "\n                ";

/// Why git cannot be used.
#[derive(Debug)]
pub enum GitError {
    NotInstalled,
    VersionNotSupported { current: String, min: String },
}

/// What git does not know of the user.
#[derive(Clone, Copy, Debug, PartialEq, Eq, Structural)]
pub enum GitConfigError {
    NameNotFound,
    EmailNotFound,
}

/// The kind of system the helper runs on.
#[derive(Clone, Copy, Debug, PartialEq, Eq, Structural)]
pub enum Platform {
    Linux,
    Windows,
    MacOs,
    Other,
}

/// The number a component of a version stands for, if it is a number.
pub open spec fn component(text: Seq<char>) -> Option<int> {
    if text.len() > 0 && all_digits(text) && number_of(text) <= u64::MAX {
        Some(number_of(text))
    } else {
        None
    }
}

/// The version that git reports: the last word of what it prints.
pub open spec fn reported_version(output: Seq<char>) -> Seq<char> {
    split_spec(trimmed(output), " "@).last()
}

/// The version is made of three numbers, and they are not below 2.20.0.
pub open spec fn is_supported(version: Seq<char>) -> bool {
    let parts = split_spec(version, "."@);
    &&& parts.len() == 3
    &&& component(parts[0]) matches Some(major)
    &&& component(parts[1]) matches Some(minor)
    &&& component(parts[2]) matches Some(patch)
    &&& (major > 2 || (major == 2 && minor >= 20))
}

/// Judges what `git --version` gave: whether the command succeeded and
/// what it printed.
///
/// Git is not installed when the command failed or printed nothing. Its
/// version is not supported when the last word printed is not three
/// numbers separated by dots, or when they are below 2.20.0.
pub fn validate_git_install(success: bool, output: &str) -> (result: Result<(), GitError>)
    ensures
        result is Ok <==> success && trimmed(output@).len() > 0 && is_supported(
            reported_version(output@),
        ),
        (result matches Err(GitError::NotInstalled)) <==> !success || trimmed(output@).len() == 0,
        result matches Err(GitError::VersionNotSupported { current, min }) ==> current@
            == reported_version(output@) && min@ == MIN_GIT_VERSION@,
{
    if !success {
        return Err(GitError::NotInstalled);
    }
    let printed = trim(&to_chars(output));
    if printed.len() == 0 {
        return Err(GitError::NotInstalled);
    }
    let words = split(&printed, &to_chars(" "));
    let version = &words[words.len() - 1];
    assert(pieces_view(words@).last() == version@);
    let parts = split(version, &to_chars("."));
    let ghost all = pieces_view(parts@);
    let mut supported = false;
    if parts.len() == 3 {
        assert(all[0] == parts@[0]@ && all[1] == parts@[1]@ && all[2] == parts@[2]@);
        match (parse_decimal(&parts[0]), parse_decimal(&parts[1]), parse_decimal(&parts[2])) {
            (Some(major), Some(minor), Some(_)) => {
                supported = major > 2 || (major == 2 && minor >= 20);
            },
            _ => {},
        }
    }
    if supported {
        Ok(())
    } else {
        Err(
            GitError::VersionNotSupported {
                current: to_string(version),
                min: String::from_str(MIN_GIT_VERSION),
            },
        )
    }
}

/// Git knows something when the command that asks for it succeeded and
/// printed more than whitespace.
pub open spec fn is_known(success: bool, output: Seq<char>) -> bool {
    success && trimmed(output).len() > 0
}

/// Judges what `git config user.name` and `git config user.email` gave:
/// the name is looked at first.
pub fn check_git_config(name_success: bool, name: &str, email_success: bool, email: &str) -> (result:
    Result<(), GitConfigError>)
    ensures
        result == if !is_known(name_success, name@) {
            Err::<(), GitConfigError>(GitConfigError::NameNotFound)
        } else if !is_known(email_success, email@) {
            Err::<(), GitConfigError>(GitConfigError::EmailNotFound)
        } else {
            Ok::<(), GitConfigError>(())
        },
{
    if !name_success || trim(&to_chars(name)).len() == 0 {
        return Err(GitConfigError::NameNotFound);
    }
    if !email_success || trim(&to_chars(email)).len() == 0 {
        return Err(GitConfigError::EmailNotFound);
    }
    Ok(())
}

/// The index of the first of `lines` at or after `from` that begins with
/// `prefix`, or the number of lines when none does.
pub open spec fn first_with_prefix(lines: Seq<Seq<char>>, prefix: Seq<char>, from: int) -> int
    decreases lines.len() - from,
{
    if from < 0 || from >= lines.len() {
        lines.len() as int
    } else if occurs_at(lines[from], prefix, 0) {
        from
    } else {
        first_with_prefix(lines, prefix, from + 1)
    }
}

/// The distribution that an `os-release` file names: what follows the
/// last `=` of the first line that begins with `ID=`.
pub open spec fn distribution(os_release: Seq<char>) -> Option<Seq<char>> {
    let all = lines_of(os_release);
    let k = first_with_prefix(all, "ID="@, 0);
    if k < all.len() {
        Some(split_spec(all[k], "="@).last())
    } else {
        None
    }
}

/// The command that installs git on a distribution, where one is known.
pub open spec fn install_command(distro: Seq<char>) -> Option<Seq<char>> {
    if distro == "ubuntu"@ || distro == "debian"@ {
        Some("sudo apt install git"@)
    } else if distro == "fedora"@ || distro == "centos"@ || distro == "rhel"@ {
        Some("sudo dnf install git"@)
    } else if distro == "arch"@ || distro == "manjaro"@ {
        Some("sudo pacman -S git"@)
    } else if distro == "alpine"@ {
        Some("apk add git"@)
    } else {
        None
    }
}

/// What a Linux user is told, given the contents of the `os-release` file
/// if it could be read: the command for the distribution where both are
/// known, and where to download git otherwise.
pub open spec fn linux_instructions(os_release: Option<Seq<char>>) -> Seq<char> {
    match os_release {
        Some(contents) => match distribution(contents) {
            Some(distro) => match install_command(distro) {
                Some(command) => LINUX_INSTALL_HEAD@ + command + LINUX_INSTALL_TAIL@,
                None => LINUX_DOWNLOAD@,
            },
            None => LINUX_DOWNLOAD@,
        },
        None => LINUX_DOWNLOAD@,
    }
}

/// What the user of a platform is told about installing git.
pub open spec fn instructions(platform: Platform, os_release: Option<Seq<char>>) -> Seq<char> {
    match platform {
        Platform::Linux => linux_instructions(os_release),
        Platform::Windows => WINDOWS_INSTRUCTIONS@,
        Platform::MacOs => MACOS_INSTRUCTIONS@,
        Platform::Other => GENERIC_INSTRUCTIONS@,
    }
}

fn find_distribution(os_release: &str) -> (distro: Option<Vec<char>>)
    ensures
        match distro {
            Some(d) => distribution(os_release@) == Some(d@),
            None => distribution(os_release@) is None,
        },
{
    let all = lines(&to_chars(os_release));
    let prefix = to_chars("ID=");
    let mut i: usize = 0;
    while i < all.len()
        invariant
            i <= all@.len(),
            prefix@ == "ID="@,
            pieces_view(all@) == lines_of(os_release@),
            first_with_prefix(lines_of(os_release@), "ID="@, 0) == first_with_prefix(
                lines_of(os_release@),
                "ID="@,
                i as int,
            ),
        decreases all@.len() - i,
    {
        assert(pieces_view(all@)[i as int] == all@[i as int]@);
        if stands_at(&all[i], &prefix, 0) {
            let parts = split(&all[i], &to_chars("="));
            assert(pieces_view(parts@).last() == parts@[parts@.len() - 1]@);
            let value = &parts[parts.len() - 1];
            return Some(crate::split::copy_chars(value, 0, value.len()));
        }
        i += 1;
    }
    None
}

fn command_for(distro: &Vec<char>) -> (command: Option<&'static str>)
    ensures
        match command {
            Some(c) => install_command(distro@) == Some(c@),
            None => install_command(distro@) is None,
        },
{
    if chars_are(distro, "ubuntu") || chars_are(distro, "debian") {
        Some("sudo apt install git")
    } else if chars_are(distro, "fedora") || chars_are(distro, "centos") || chars_are(
        distro,
        "rhel",
    ) {
        Some("sudo dnf install git")
    } else if chars_are(distro, "arch") || chars_are(distro, "manjaro") {
        Some("sudo pacman -S git")
    } else if chars_are(distro, "alpine") {
        Some("apk add git")
    } else {
        None
    }
}

/// What a Linux user is told about installing git, given the contents of
/// the `os-release` file, `None` if it could not be read.
pub fn get_git_installation_instructions(os_release: Option<&str>) -> (message: String)
    ensures
        message@ == linux_instructions(
            match os_release {
                Some(contents) => Some(contents@),
                None => None,
            },
        ),
{
    match os_release {
        Some(contents) => match find_distribution(contents) {
            Some(distro) => match command_for(&distro) {
                Some(command) => String::from_str(LINUX_INSTALL_HEAD).concat(command).concat(
                    LINUX_INSTALL_TAIL,
                ),
                None => String::from_str(LINUX_DOWNLOAD),
            },
            None => String::from_str(LINUX_DOWNLOAD),
        },
        None => String::from_str(LINUX_DOWNLOAD),
    }
}

/// What the user of a platform is told about installing git.
pub fn install_instructions(platform: Platform, os_release: Option<&str>) -> (message: String)
    ensures
        message@ == instructions(
            platform,
            match os_release {
                Some(contents) => Some(contents@),
                None => None,
            },
        ),
{
    match platform {
        Platform::Linux => get_git_installation_instructions(os_release),
        Platform::Windows => String::from_str(WINDOWS_INSTRUCTIONS),
        Platform::MacOs => String::from_str(MACOS_INSTRUCTIONS),
        Platform::Other => String::from_str(GENERIC_INSTRUCTIONS),
    }
}

impl GitError {
    /// The message for the error, in markup, ending in the instructions
    /// for installing git.
    pub open spec fn message(self, instructions: Seq<char>) -> Seq<char> {
        match self {
            GitError::NotInstalled => NOT_INSTALLED_HEAD@ + instructions,
            GitError::VersionNotSupported { current, min } => UNSUPPORTED_HEAD@ + min@
                + UNSUPPORTED_MIDDLE@ + current@ + UNSUPPORTED_GAP@ + instructions
                + UNSUPPORTED_TAIL@,
        }
    }

    /// The message for the error, in markup, with the given instructions
    /// for installing git.
    pub fn to_string(&self, instructions: &str) -> (s: String)
        ensures
            s@ == self.message(instructions@),
    {
        match self {
            GitError::NotInstalled => String::from_str(NOT_INSTALLED_HEAD).concat(instructions),
            GitError::VersionNotSupported { current, min } => String::from_str(UNSUPPORTED_HEAD)
                .concat(min.as_str()).concat(UNSUPPORTED_MIDDLE).concat(current.as_str()).concat(
                UNSUPPORTED_GAP,
            ).concat(instructions).concat(UNSUPPORTED_TAIL),
        }
    }
}

} // verus!
