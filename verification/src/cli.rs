//! What the command line asks for.
use vstd::prelude::*;
use vstd::string::StringSliceAdditionalSpecFns;

use crate::bytes::{copy_bytes, same_bytes};

verus! {

/// What is to be done.
pub enum CliAction {
    Help,
    Version,
    Apply(Vec<u8>),
    ApplyDefault,
    Usage,
}

/// The status with which the command ends when it is used wrongly.
pub const USAGE_STATUS: u8 = 2;

/// One line that says how the command is used.
pub fn usage() -> (s: &'static str)
    ensures
        s@ == "usage: sliver [FILE]"@,
{
    "usage: sliver [FILE]"
}

/// What arguments ask for: help, the version, the source in a file, or without any the
/// built-in source.
pub fn parse_arguments(arguments: &Vec<Vec<u8>>) -> (action: CliAction)
    ensures
        match action {
            CliAction::Help => arguments@.len() == 1 && arguments@[0]@ == "--help".spec_bytes(),
            CliAction::Version => arguments@.len() == 1 && arguments@[0]@ == "--version".spec_bytes()
                && arguments@[0]@ != "--help".spec_bytes(),
            CliAction::Apply(path) => arguments@.len() == 1 && path@ == arguments@[0]@ && path@
                != "--help".spec_bytes() && path@ != "--version".spec_bytes(),
            CliAction::ApplyDefault => arguments@.len() == 0,
            CliAction::Usage => arguments@.len() > 1,
        },
{
    if arguments.len() == 0 {
        return CliAction::ApplyDefault;
    }
    if arguments.len() > 1 {
        return CliAction::Usage;
    }
    let argument: &[u8] = arguments[0].as_slice();
    if same_bytes(argument, "--help".as_bytes()) {
        CliAction::Help
    } else if same_bytes(argument, "--version".as_bytes()) {
        CliAction::Version
    } else {
        CliAction::Apply(copy_bytes(argument))
    }
}

} // verus!
