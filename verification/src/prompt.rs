//! Interpretation of interactive prompt answers. Reading the answer is
//! the caller's I/O; which tokens mean what is fixed here, and an
//! unrecognized token is surfaced as the invalid-choice domain error by
//! the caller, never acted on.
use vstd::prelude::*;

use crate::text::str_eq;

verus! {

/// The outcome of a yes/no confirmation prompt, such as the one asked
/// before re-cloning an existing working tree. An empty answer declines.
#[derive(Clone, Copy, Debug, PartialEq, Eq, Structural)]
pub enum Confirmation {
    Accepted,
    Declined,
    Unrecognized,
}

/// The tokens accepted by a yes/no prompt.
pub open spec fn spec_confirmation(s: Seq<char>) -> Confirmation {
    if s == "y"@ || s == "Y"@ || s == "yes"@ || s == "Yes"@ {
        Confirmation::Accepted
    } else if s == "n"@ || s == "N"@ || s == "no"@ || s == "No"@ || s == ""@ {
        Confirmation::Declined
    } else {
        Confirmation::Unrecognized
    }
}

/// Classifies a yes/no prompt answer.
pub fn parse_confirmation(input: &str) -> (r: Confirmation)
    ensures
        r == spec_confirmation(input@),
{
    if str_eq(input, "y") || str_eq(input, "Y") || str_eq(input, "yes") || str_eq(input, "Yes") {
        Confirmation::Accepted
    } else if str_eq(input, "n") || str_eq(input, "N") || str_eq(input, "no") || str_eq(
        input,
        "No",
    ) || str_eq(input, "") {
        Confirmation::Declined
    } else {
        Confirmation::Unrecognized
    }
}

/// The outcome of the update manager's install-or-quit prompt. An empty
/// answer quits.
#[derive(Clone, Copy, Debug, PartialEq, Eq, Structural)]
pub enum ManagerChoice {
    Install,
    Quit,
    Unrecognized,
}

/// The tokens accepted by the update manager's prompt.
pub open spec fn spec_manager_choice(s: Seq<char>) -> ManagerChoice {
    if s == "Install"@ || s == "install"@ || s == "Y"@ || s == "y"@ || s == "Yes"@ || s == "yes"@
        || s == "I"@ || s == "i"@ {
        ManagerChoice::Install
    } else if s == "Quit"@ || s == "quit"@ || s == "N"@ || s == "n"@ || s == "No"@ || s == "no"@
        || s == "Q"@ || s == "q"@ || s == ""@ {
        ManagerChoice::Quit
    } else {
        ManagerChoice::Unrecognized
    }
}

/// Classifies an update manager prompt answer.
pub fn parse_manager_choice(input: &str) -> (r: ManagerChoice)
    ensures
        r == spec_manager_choice(input@),
{
    if str_eq(input, "Install") || str_eq(input, "install") || str_eq(input, "Y") || str_eq(
        input,
        "y",
    ) || str_eq(input, "Yes") || str_eq(input, "yes") || str_eq(input, "I") || str_eq(input, "i") {
        ManagerChoice::Install
    } else if str_eq(input, "Quit") || str_eq(input, "quit") || str_eq(input, "N") || str_eq(
        input,
        "n",
    ) || str_eq(input, "No") || str_eq(input, "no") || str_eq(input, "Q") || str_eq(input, "q")
        || str_eq(input, "") {
        ManagerChoice::Quit
    } else {
        ManagerChoice::Unrecognized
    }
}

} // verus!
