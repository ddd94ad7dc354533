//! Looking for a newer release.
//!
//! Versions are compared by the `semver` crate; which release is the
//! latest and what the user is told about it is decided here.

use crate::split::{find, find_from};
use crate::text::{strings_view, to_chars};
use vstd::prelude::*;
use vstd::string::StringExecFns;

verus! {

/// What the user is told about a newer release, up to the current version.
pub const UPDATE_HEAD: &'static str = "\n$cg$b `📦 New Update Available`\n                 &> $cy `";

/// What stands between the current version and the newer one.
pub const UPDATE_MIDDLE: &'static str = "` $cw `➜` $cg$b `";

/// What stands after the newer version.
pub const UPDATE_TAIL: &'static str = "`\n                 &> Run $cc$i `tgh update` $cw `to upgrade`\n";

/// The version that stands for one that cannot be read.
pub const NO_VERSION: &'static str = "0.0.0";

/// Whether the version `a` is greater than the version `b` in the order of
/// semantic versions, as `semver` decides it; `None` when `semver` cannot
/// read one of the two.
pub uninterp spec fn version_exceeds(a: Seq<char>, b: Seq<char>) -> Option<bool>;

/// Compares two versions.
///
/// Wraps `semver::Version::parse` and the comparison of two
/// `semver::Version` values: both texts are parsed, and if both parse, the
/// answer is whether the first version is greater than the second. The
/// contract only gives that answer its name.
#[verifier::external_body]
fn exceeds(a: &str, b: &str) -> (greater: Option<bool>)
    ensures
        greater == version_exceeds(a@, b@),
{
    match (semver::Version::parse(a), semver::Version::parse(b)) {
        (Ok(left), Ok(right)) => Some(left > right),
        _ => None,
    }
}

/// Why no answer can be given about a newer release.
#[derive(Debug)]
pub enum VersionError {
    /// The version is not a semantic version.
    Unreadable(String),
}

/// `semver` can read the version.
pub open spec fn is_version(text: Seq<char>) -> bool {
    version_exceeds(text, text) is Some
}

/// The version by which a release is ranked: its own if it can be read,
/// `0.0.0` otherwise.
pub open spec fn rank_of(text: Seq<char>) -> Seq<char> {
    if is_version(text) {
        text
    } else {
        NO_VERSION@
    }
}

/// A release is left out when its version names an alpha or a beta.
pub open spec fn is_preview(text: Seq<char>) -> bool {
    find_from(text, "alpha"@, 0) >= 0 || find_from(text, "beta"@, 0) >= 0
}

/// The index of the latest of the first `n` releases, or `-1` when all of
/// them are previews: a release takes the place of the latest so far
/// unless the latest so far ranks greater.
pub open spec fn latest_among(versions: Seq<Seq<char>>, n: int) -> int
    decreases n,
{
    if n <= 0 || n > versions.len() {
        -1
    } else {
        let before = latest_among(versions, n - 1);
        if is_preview(versions[n - 1]) {
            before
        } else if before < 0 {
            n - 1
        } else if version_exceeds(rank_of(versions[before]), rank_of(versions[n - 1])) == Some(
            true,
        ) {
            before
        } else {
            n - 1
        }
    }
}

/// What the user is told about a newer release.
pub open spec fn update_text(current: Seq<char>, latest: Seq<char>) -> Seq<char> {
    UPDATE_HEAD@ + current + UPDATE_MIDDLE@ + latest + UPDATE_TAIL@
}

/// Decides whether `semver` can read a version.
pub fn can_read(text: &str) -> (readable: bool)
    ensures
        readable == is_version(text@),
{
    match exceeds(text, text) {
        Some(_) => true,
        None => false,
    }
}

fn ranked(text: &str) -> (rank: String)
    ensures
        rank@ == rank_of(text@),
{
    if can_read(text) {
        String::from_str(text)
    } else {
        String::from_str(NO_VERSION)
    }
}

/// Decides whether a release is a preview.
pub fn preview(text: &str) -> (found: bool)
    ensures
        found == is_preview(text@),
{
    let chars = to_chars(text);
    match find(&chars, &to_chars("alpha"), 0) {
        Some(_) => true,
        None => match find(&chars, &to_chars("beta"), 0) {
            Some(_) => true,
            None => false,
        },
    }
}

/// Finds the latest release that is not a preview.
pub fn latest_release(versions: &Vec<String>) -> (latest: Option<usize>)
    ensures
        match latest {
            Some(i) => i < versions@.len() && i == latest_among(
                strings_view(versions@),
                versions@.len() as int,
            ),
            None => latest_among(strings_view(versions@), versions@.len() as int) == -1,
        },
{
    let ghost all = strings_view(versions@);
    let mut latest: Option<usize> = None;
    let mut i: usize = 0;
    while i < versions.len()
        invariant
            i <= versions@.len(),
            all == strings_view(versions@),
            match latest {
                Some(k) => k == latest_among(all, i as int) && k < i,
                None => latest_among(all, i as int) == -1,
            },
        decreases versions@.len() - i,
    {
        assert(all[i as int] == versions@[i as int]@);
        if !preview(versions[i].as_str()) {
            match latest {
                Some(k) => {
                    assert(all[k as int] == versions@[k as int]@);
                    let best = ranked(versions[k].as_str());
                    let candidate = ranked(versions[i].as_str());
                    match exceeds(best.as_str(), candidate.as_str()) {
                        Some(true) => {},
                        _ => {
                            latest = Some(i);
                        },
                    }
                },
                None => {
                    latest = Some(i);
                },
            }
        }
        i += 1;
    }
    latest
}

/// What the user is told once the latest release is known: about the
/// update if the release is newer than the current version, nothing
/// otherwise.
pub fn update_message(current: &str, latest: &str, newer: bool) -> (message: String)
    ensures
        message@ == if newer {
            update_text(current@, latest@)
        } else {
            Seq::empty()
        },
{
    if newer {
        String::from_str(UPDATE_HEAD).concat(current).concat(UPDATE_MIDDLE).concat(latest).concat(
            UPDATE_TAIL,
        )
    } else {
        String::new()
    }
}

/// Looks for a release that is newer than the current version.
///
/// Without a release that is not a preview there is nothing to tell.
/// Otherwise both the current version and the latest release must be
/// readable, the current one being looked at first; the user is told
/// about the release if it is greater than the current version.
pub fn check_for_updates(current: &str, versions: &Vec<String>) -> (result: Result<
    String,
    VersionError,
>)
    ensures
        ({
            let all = strings_view(versions@);
            let latest = latest_among(all, versions@.len() as int);
            match result {
                Ok(message) => if latest < 0 {
                    message@.len() == 0
                } else {
                    &&& is_version(current@)
                    &&& is_version(all[latest])
                    &&& message@ == if version_exceeds(all[latest], current@) == Some(true) {
                        update_text(current@, all[latest])
                    } else {
                        Seq::empty()
                    }
                },
                Err(VersionError::Unreadable(text)) => {
                    &&& latest >= 0
                    &&& if !is_version(current@) {
                        text@ == current@
                    } else {
                        !is_version(all[latest]) && text@ == all[latest]
                    }
                },
            }
        }),
{
    let ghost all = strings_view(versions@);
    match latest_release(versions) {
        None => Ok(String::new()),
        Some(i) => {
            assert(all[i as int] == versions@[i as int]@);
            let latest = versions[i].as_str();
            if !can_read(current) {
                return Err(VersionError::Unreadable(String::from_str(current)));
            }
            if !can_read(latest) {
                return Err(VersionError::Unreadable(String::from_str(latest)));
            }
            let newer = match exceeds(latest, current) {
                Some(true) => true,
                _ => false,
            };
            Ok(update_message(current, latest, newer))
        },
    }
}

} // verus!
