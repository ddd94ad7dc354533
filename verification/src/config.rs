//! The helper's configuration: what it holds, when it is valid, and what
//! to do about a configuration that is missing or invalid.

use crate::text::str_eq;
use vstd::prelude::*;
use vstd::string::StringExecFns;

verus! {

/// The order in which repositories are listed.
#[allow(non_camel_case_types)]
#[derive(Clone, Copy, Debug, PartialEq, Eq, Structural)]
pub enum SORTING {
    LastUpdated,
    Alphabetical,
}

/// The protocol by which repositories are cloned.
#[allow(non_camel_case_types)]
#[derive(Clone, Copy, Debug, PartialEq, Eq, Structural)]
pub enum PROTOCOL {
    SSH,
    HTTPS,
}

/// The colour of the helper's output.
#[allow(non_camel_case_types)]
#[derive(Clone, Copy, Debug, PartialEq, Eq, Structural)]
pub enum COLOR {
    NORMAL,
    RED,
    GREEN,
    YELLOW,
    BLUE,
    MAGENTA,
    CYAN,
    WHITE,
    GRAY,
}

/// The configuration.
#[derive(Debug)]
pub struct Config {
    pub username: String,
    pub token: String,
    pub sort: SORTING,
    pub protocol: PROTOCOL,
    pub color: COLOR,
    pub fancy: bool,
}

/// What to do to have a configuration.
#[derive(Clone, Copy, Debug, PartialEq, Eq, Structural)]
pub enum LoadPlan {
    /// The file is there and valid: read it.
    Read,
    /// The file is there but cannot be trusted: say so and make a new one.
    ReplaceInvalid,
    /// There is no file: say so and make one.
    CreateMissing,
}

impl COLOR {
    /// The colour's name.
    pub open spec fn name(self) -> Seq<char> {
        match self {
            COLOR::NORMAL => "Normal"@,
            COLOR::RED => "Red"@,
            COLOR::GREEN => "Green"@,
            COLOR::YELLOW => "Yellow"@,
            COLOR::BLUE => "Blue"@,
            COLOR::MAGENTA => "Magenta"@,
            COLOR::CYAN => "Cyan"@,
            COLOR::WHITE => "White"@,
            COLOR::GRAY => "Gray"@,
        }
    }

    /// The escape sequence that switches a terminal to the colour.
    pub open spec fn escape(self) -> Seq<char> {
        match self {
            COLOR::NORMAL => "\x1B[m"@,
            COLOR::RED => "\x1B[31m"@,
            COLOR::GREEN => "\x1B[32m"@,
            COLOR::YELLOW => "\x1B[33m"@,
            COLOR::BLUE => "\x1B[34m"@,
            COLOR::MAGENTA => "\x1B[35m"@,
            COLOR::CYAN => "\x1B[36m"@,
            COLOR::WHITE => "\x1B[97m"@,
            COLOR::GRAY => "\x1B[37m"@,
        }
    }

    /// The colour's name.
    pub fn to_string(&self) -> (s: String)
        ensures
            s@ == self.name(),
    {
        let name = match self {
            COLOR::NORMAL => "Normal",
            COLOR::RED => "Red",
            COLOR::GREEN => "Green",
            COLOR::YELLOW => "Yellow",
            COLOR::BLUE => "Blue",
            COLOR::MAGENTA => "Magenta",
            COLOR::CYAN => "Cyan",
            COLOR::WHITE => "White",
            COLOR::GRAY => "Gray",
        };
        String::from_str(name)
    }

    /// The colour's name, written in the colour.
    pub fn painted(&self) -> (s: String)
        ensures
            s@ == self.escape() + self.name() + "\x1B[m"@,
    {
        let escape = match self {
            COLOR::NORMAL => "\x1B[m",
            COLOR::RED => "\x1B[31m",
            COLOR::GREEN => "\x1B[32m",
            COLOR::YELLOW => "\x1B[33m",
            COLOR::BLUE => "\x1B[34m",
            COLOR::MAGENTA => "\x1B[35m",
            COLOR::CYAN => "\x1B[36m",
            COLOR::WHITE => "\x1B[97m",
            COLOR::GRAY => "\x1B[37m",
        };
        let name = self.to_string();
        String::from_str(escape).concat(name.as_str()).concat("\x1B[m")
    }
}

/// The sorting that a label of the sorting menu stands for.
pub fn sorting_from_label(label: &str) -> (sort: Option<SORTING>)
    ensures
        sort == if label@ == "Last Updated"@ {
            Some(SORTING::LastUpdated)
        } else if label@ == "Alphabetical"@ {
            Some(SORTING::Alphabetical)
        } else {
            None
        },
{
    if str_eq(label, "Last Updated") {
        Some(SORTING::LastUpdated)
    } else if str_eq(label, "Alphabetical") {
        Some(SORTING::Alphabetical)
    } else {
        None
    }
}

/// The protocol that a label of the protocol menu stands for.
pub fn protocol_from_label(label: &str) -> (protocol: Option<PROTOCOL>)
    ensures
        protocol == if label@ == "HTTPS"@ {
            Some(PROTOCOL::HTTPS)
        } else if label@ == "SSH"@ {
            Some(PROTOCOL::SSH)
        } else {
            None
        },
{
    if str_eq(label, "HTTPS") {
        Some(PROTOCOL::HTTPS)
    } else if str_eq(label, "SSH") {
        Some(PROTOCOL::SSH)
    } else {
        None
    }
}

/// The folder that holds the configuration, below the user's home.
pub fn config_folder(home: &str) -> (path: String)
    ensures
        path@ == home@ + "/.config/tgh"@,
{
    String::from_str(home).concat("/.config/tgh")
}

/// The file that holds the configuration, below the user's home.
pub fn get_config_path(home: &str) -> (path: String)
    ensures
        path@ == home@ + "/.config/tgh/config.json"@,
{
    String::from_str(home).concat("/.config/tgh/config.json")
}

/// A configuration can be trusted when it names a user. (Its sorting, its
/// protocol and its colour are among the known ones by their types.)
pub open spec fn is_valid(config: Config) -> bool {
    config.username@.len() > 0
}

/// The file can be trusted: it is not empty, it reads as a configuration,
/// and the configuration is valid.
pub open spec fn file_is_valid(contents: Seq<char>, parsed: Option<Config>) -> bool {
    contents.len() > 0 && match parsed {
        Some(config) => is_valid(config),
        None => false,
    }
}

/// Decides whether the configuration file can be trusted, given its
/// contents and what they were read as, `None` if they could not be read
/// as a configuration: the file must not be empty, it must read as a
/// configuration, and the configuration must be valid.
pub fn validate_config_file(contents: &str, parsed: &Option<Config>) -> (valid: bool)
    ensures
        valid == file_is_valid(contents@, *parsed),
{
    if contents.unicode_len() == 0 {
        return false;
    }
    match parsed {
        Some(config) => config.username.as_str().unicode_len() > 0,
        None => false,
    }
}

/// Decides how to come by a configuration: an existing valid file is read,
/// an existing invalid one is replaced, a missing one is created.
pub fn load_config(file_exists: bool, file_valid: bool) -> (plan: LoadPlan)
    ensures
        plan == if file_exists && file_valid {
            LoadPlan::Read
        } else if file_exists {
            LoadPlan::ReplaceInvalid
        } else {
            LoadPlan::CreateMissing
        },
{
    if file_exists {
        if file_valid {
            return LoadPlan::Read;
        }
        return LoadPlan::ReplaceInvalid;
    }
    LoadPlan::CreateMissing
}

/// What the user is told before a configuration is made anew; nothing when
/// the existing one is read.
pub fn load_message(plan: LoadPlan) -> (message: Option<String>)
    ensures
        match plan {
            LoadPlan::Read => message is None,
            LoadPlan::ReplaceInvalid => message matches Some(m) && m@
                == "Config file is invalid. Creating a new one...\n"@,
            LoadPlan::CreateMissing => message matches Some(m) && m@
                == "Config file not found. Creating one...\n"@,
        },
{
    match plan {
        LoadPlan::Read => None,
        LoadPlan::ReplaceInvalid => Some(
            String::from_str("Config file is invalid. Creating a new one...\n"),
        ),
        LoadPlan::CreateMissing => Some(String::from_str("Config file not found. Creating one...\n")),
    }
}

/// A new configuration from the user's answers. It holds no token yet.
pub fn create_config(
    username: String,
    sort: SORTING,
    protocol: PROTOCOL,
    color: COLOR,
    fancy: bool,
) -> (config: Config)
    ensures
        config.username == username,
        config.token@.len() == 0,
        config.sort == sort,
        config.protocol == protocol,
        config.color == color,
        config.fancy == fancy,
{
    Config { username, token: String::new(), sort, protocol, color, fancy }
}

/// Decides whether a GitHub token is at hand: the configuration file must
/// exist and be valid, and the token in it must not be empty.
pub fn check_token(file_exists: bool, file_valid: bool, token: &str) -> (present: bool)
    ensures
        present == (file_exists && file_valid && token@.len() > 0),
{
    if !file_exists || !file_valid {
        return false;
    }
    token.unicode_len() > 0
}

/// The configuration with another token; everything else stays.
pub fn update_token(config: Config, token: String) -> (updated: Config)
    ensures
        updated.token == token,
        updated.username == config.username,
        updated.sort == config.sort,
        updated.protocol == config.protocol,
        updated.color == config.color,
        updated.fancy == config.fancy,
{
    Config {
        username: config.username,
        token,
        sort: config.sort,
        protocol: config.protocol,
        color: config.color,
        fancy: config.fancy,
    }
}

/// What stands in the way of the helper, or has to be done first.
#[derive(Clone, Copy, Debug, PartialEq, Eq, Structural)]
pub enum Prerequisite {
    /// Git cannot be used: tell why and stop.
    Git,
    /// Git does not know the user: tell so and stop.
    Identity,
    /// There is no configuration that can be trusted: make one, then sign
    /// in, since a new configuration holds no token.
    Configuration(LoadPlan),
    /// The configuration holds no token: sign in.
    Token,
    /// Nothing: go on.
    Ready,
}

/// Decides what has to be done before the helper can work, given what was
/// found: git is looked at first, then what git knows of the user, then
/// the configuration, then the token in it.
pub fn check_prerequisites(
    git_usable: bool,
    identity_known: bool,
    file_exists: bool,
    file_valid: bool,
    token: &str,
) -> (first: Prerequisite)
    ensures
        first == if !git_usable {
            Prerequisite::Git
        } else if !identity_known {
            Prerequisite::Identity
        } else if !file_exists {
            Prerequisite::Configuration(LoadPlan::CreateMissing)
        } else if !file_valid {
            Prerequisite::Configuration(LoadPlan::ReplaceInvalid)
        } else if token@.len() == 0 {
            Prerequisite::Token
        } else {
            Prerequisite::Ready
        },
{
    if !git_usable {
        return Prerequisite::Git;
    }
    if !identity_known {
        return Prerequisite::Identity;
    }
    match load_config(file_exists, file_valid) {
        LoadPlan::Read => {},
        plan => {
            return Prerequisite::Configuration(plan);
        },
    }
    if !check_token(file_exists, file_valid, token) {
        return Prerequisite::Token;
    }
    Prerequisite::Ready
}

} // verus!
