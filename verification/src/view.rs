//! Messages of the command line itself.

use vstd::prelude::*;
use vstd::string::StringExecFns;

verus! {

/// What the user is told when no subcommand was given, in markup.
pub const NO_SUBCOMMAND: &'static str = "\n        $b$cr `error`: no subcommand provided\n\n        $b$u `Usage`: $b `tgh` [COMMAND]\n\n        For more information try $b `'tgh --help'`\n    ";

/// What the user is told when no subcommand was given, in markup.
pub fn no_subcommand_error() -> (message: String)
    ensures
        message@ == NO_SUBCOMMAND@,
{
    String::from_str(NO_SUBCOMMAND)
}

} // verus!
