//! Cloning: the repositories that can be cloned and the address to clone
//! one from.

use crate::config::PROTOCOL;
use vstd::prelude::*;
use vstd::string::StringExecFns;

verus! {

/// The options of the clone command.
#[derive(Debug)]
pub struct CloneOptions {
    /// Search public repositories.
    pub public: bool,
}

/// A repository on GitHub.
#[derive(Debug)]
pub struct Repo {
    pub name: String,
    pub full_name: String,
    pub ssh_url: String,
    pub clone_url: String,
}

/// Where the repositories to choose from come from.
#[derive(Clone, Copy, Debug, PartialEq, Eq, Structural)]
pub enum CloneSource {
    /// Public repositories.
    Public,
    /// The repositories of the user.
    Private,
}

impl Default for CloneOptions {
    fn default() -> (options: CloneOptions)
        ensures
            !options.public,
    {
        CloneOptions { public: false }
    }
}

impl Repo {
    /// The repository as it is offered for selection: its full name.
    pub fn to_string(&self) -> (s: String)
        ensures
            s@ == self.full_name@,
    {
        self.full_name.clone()
    }

    /// The address to clone from: the SSH address when the protocol is
    /// SSH, the HTTPS address otherwise.
    pub fn url(&self, protocol: PROTOCOL) -> (url: String)
        ensures
            url@ == if protocol == PROTOCOL::SSH {
                self.ssh_url@
            } else {
                self.clone_url@
            },
    {
        match protocol {
            PROTOCOL::SSH => self.ssh_url.clone(),
            PROTOCOL::HTTPS => self.clone_url.clone(),
        }
    }
}

/// Decides where the repositories to choose from come from.
pub fn clone_menu(options: &CloneOptions) -> (source: CloneSource)
    ensures
        source == if options.public {
            CloneSource::Public
        } else {
            CloneSource::Private
        },
{
    if options.public {
        CloneSource::Public
    } else {
        CloneSource::Private
    }
}

/// The arguments with which git clones from `url`.
pub fn clone_repo(url: &str) -> (args: Vec<String>)
    ensures
        args@.len() == 2,
        args@[0]@ == "clone"@,
        args@[1]@ == url@,
{
    let mut args: Vec<String> = Vec::new();
    args.push(String::from_str("clone"));
    args.push(String::from_str(url));
    args
}

/// The value of the header that authorises a request with `token`.
pub fn authorization(token: &str) -> (value: String)
    ensures
        value@ == "Bearer "@ + token@,
{
    String::from_str("Bearer ").concat(token)
}

} // verus!
