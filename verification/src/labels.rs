//! The labels of fancy commit messages.

use vstd::prelude::*;
use vstd::string::StringExecFns;

verus! {

/// A label for a commit: what it says and the emoji that stands for it.
#[derive(Debug)]
pub struct CommitLabel {
    pub label: String,
    pub emoji: String,
}

/// The number of labels.
pub const LABEL_COUNT: usize = 43;

/// What the labels say, in the order in which they are offered.
pub open spec fn label_names() -> Seq<Seq<char>> {
    seq![
        "Initial commit"@,
        "Version tag"@,
        "New feature"@,
        "Bug fix"@,
        "Metadata"@,
        "Documentation"@,
        "Documenting source code"@,
        "Performance"@,
        "Cosmetic"@,
        "Tests"@,
        "Adding a test"@,
        "Make a test pass"@,
        "General update"@,
        "Improve format/structure"@,
        "Refactor code"@,
        "Removing code/files"@,
        "Continuous Integration"@,
        "Security"@,
        "Upgrading dependencies"@,
        "Downgrading dependencies"@,
        "Lint"@,
        "Translation"@,
        "Text"@,
        "Critical hotfix"@,
        "Deploying stuff"@,
        "Fixing on MacOS"@,
        "Fixing on Linux"@,
        "Fixing on Windows"@,
        "Work in progress"@,
        "Adding CI build system"@,
        "Analytics or tracking code"@,
        "Removing a dependency"@,
        "Adding a dependency"@,
        "Docker"@,
        "Configuration files"@,
        "Package.json in JS"@,
        "Merging branches"@,
        "Bad code/need improv."@,
        "Reverting changes"@,
        "Breaking changes"@,
        "Code review changes"@,
        "Accessibility"@,
        "Move/rename repository"@,
    ]
}

/// The emoji of the labels, in the same order.
pub open spec fn label_emojis() -> Seq<Seq<char>> {
    seq![
        "🎉"@,
        ":bookmark:"@,
        ":sparkles:"@,
        ":bug:"@,
        ":card_index:"@,
        ":books:"@,
        ":bulb:"@,
        ":racehorse:"@,
        ":lipstick:"@,
        ":rotating_light:"@,
        ":white_check_mark:"@,
        ":heavy_check_mark:"@,
        ":zap:"@,
        ":art:"@,
        ":hammer:"@,
        ":fire:"@,
        ":green_heart:"@,
        ":lock:"@,
        ":arrow_up:"@,
        ":arrow_down:"@,
        ":shirt:"@,
        ":alien:"@,
        ":pencil:"@,
        ":ambulance:"@,
        ":rocket:"@,
        ":apple:"@,
        ":penguin:"@,
        ":checkered_flag:"@,
        ":construction:"@,
        ":construction_worker:"@,
        ":chart_with_upwards_trend:"@,
        ":heavy_minus_sign:"@,
        ":heavy_plus_sign:"@,
        ":whale:"@,
        ":wrench:"@,
        ":package:"@,
        ":twisted_rightwards_arrows:"@,
        ":hankey:"@,
        ":rewind:"@,
        ":boom:"@,
        ":ok_hand:"@,
        ":wheelchair:"@,
        ":truck:"@,
    ]
}

impl CommitLabel {
    /// The label as it is offered: the emoji, a space, and what it says.
    pub fn to_string(&self) -> (s: String)
        ensures
            s@ == self.emoji@ + " "@ + self.label@,
    {
        String::from_str(self.emoji.as_str()).concat(" ").concat(self.label.as_str())
    }
}

fn offer(labels: &mut Vec<CommitLabel>, label: &str, emoji: &str)
    ensures
        final(labels)@.len() == old(labels)@.len() + 1,
        final(labels)@[old(labels)@.len() as int].label@ == label@,
        final(labels)@[old(labels)@.len() as int].emoji@ == emoji@,
        forall|i: int| 0 <= i < old(labels)@.len() ==> final(labels)@[i] == old(labels)@[i],
{
    labels.push(CommitLabel { label: String::from_str(label), emoji: String::from_str(emoji) });
}

/// The labels, in the order in which they are offered.
pub fn get_labels() -> (labels: Vec<CommitLabel>)
    ensures
        labels@.len() == LABEL_COUNT,
        forall|i: int|
            0 <= i < LABEL_COUNT ==> (#[trigger] labels@[i]).label@ == label_names()[i],
        forall|i: int|
            0 <= i < LABEL_COUNT ==> (#[trigger] labels@[i]).emoji@ == label_emojis()[i],
{
    let mut labels: Vec<CommitLabel> = Vec::new();
    offer(&mut labels, "Initial commit", "🎉");
    offer(&mut labels, "Version tag", ":bookmark:");
    offer(&mut labels, "New feature", ":sparkles:");
    offer(&mut labels, "Bug fix", ":bug:");
    offer(&mut labels, "Metadata", ":card_index:");
    offer(&mut labels, "Documentation", ":books:");
    offer(&mut labels, "Documenting source code", ":bulb:");
    offer(&mut labels, "Performance", ":racehorse:");
    offer(&mut labels, "Cosmetic", ":lipstick:");
    offer(&mut labels, "Tests", ":rotating_light:");
    offer(&mut labels, "Adding a test", ":white_check_mark:");
    offer(&mut labels, "Make a test pass", ":heavy_check_mark:");
    offer(&mut labels, "General update", ":zap:");
    offer(&mut labels, "Improve format/structure", ":art:");
    offer(&mut labels, "Refactor code", ":hammer:");
    offer(&mut labels, "Removing code/files", ":fire:");
    offer(&mut labels, "Continuous Integration", ":green_heart:");
    offer(&mut labels, "Security", ":lock:");
    offer(&mut labels, "Upgrading dependencies", ":arrow_up:");
    offer(&mut labels, "Downgrading dependencies", ":arrow_down:");
    offer(&mut labels, "Lint", ":shirt:");
    offer(&mut labels, "Translation", ":alien:");
    offer(&mut labels, "Text", ":pencil:");
    offer(&mut labels, "Critical hotfix", ":ambulance:");
    offer(&mut labels, "Deploying stuff", ":rocket:");
    offer(&mut labels, "Fixing on MacOS", ":apple:");
    offer(&mut labels, "Fixing on Linux", ":penguin:");
    offer(&mut labels, "Fixing on Windows", ":checkered_flag:");
    offer(&mut labels, "Work in progress", ":construction:");
    offer(&mut labels, "Adding CI build system", ":construction_worker:");
    offer(&mut labels, "Analytics or tracking code", ":chart_with_upwards_trend:");
    offer(&mut labels, "Removing a dependency", ":heavy_minus_sign:");
    offer(&mut labels, "Adding a dependency", ":heavy_plus_sign:");
    offer(&mut labels, "Docker", ":whale:");
    offer(&mut labels, "Configuration files", ":wrench:");
    offer(&mut labels, "Package.json in JS", ":package:");
    offer(&mut labels, "Merging branches", ":twisted_rightwards_arrows:");
    offer(&mut labels, "Bad code/need improv.", ":hankey:");
    offer(&mut labels, "Reverting changes", ":rewind:");
    offer(&mut labels, "Breaking changes", ":boom:");
    offer(&mut labels, "Code review changes", ":ok_hand:");
    offer(&mut labels, "Accessibility", ":wheelchair:");
    offer(&mut labels, "Move/rename repository", ":truck:");
    labels
}

} // verus!
