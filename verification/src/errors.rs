//! The error translator: turns observed exit codes of external tools into a
//! small, fixed catalog of domain error codes, and explains catalog entries
//! on request. Every failure surfaced to the user carries a catalog code;
//! a raw exit status never reaches the user, because any combination the
//! catalog does not enumerate degrades to the generic unmapped code.
use vstd::prelude::*;
use vstd::string::StringExecFns;

verus! {

/// One of the fixed catalog of failure categories. Codes are never
/// persisted; they only name a failure in user-facing reporting.
#[derive(Clone, Copy, Debug, PartialEq, Eq, Structural)]
pub enum DomainErrorCode {
    /// The network fetch tool could not resolve or connect.
    FetchFailure,
    /// A build descriptor or version record could not be read.
    VersionReadFailure,
    /// Captured command output was not valid text.
    InvalidOutputEncoding,
    /// The interactive prompt could not be read.
    UserInputFailure,
    /// The prompt was answered with an unrecognized token.
    InvalidUserChoice,
    /// An installed package's record file could not be deleted.
    RecordDeletionFailure,
    /// Any other non-accepted exit code.
    Unmapped,
}

impl DomainErrorCode {
    /// The 8-bit value under which the code is reported and looked up.
    pub open spec fn spec_code(self) -> u8 {
        match self {
            DomainErrorCode::FetchFailure => 0xE0,
            DomainErrorCode::VersionReadFailure => 0xD0,
            DomainErrorCode::InvalidOutputEncoding => 0xC0,
            DomainErrorCode::UserInputFailure => 0xB0,
            DomainErrorCode::InvalidUserChoice => 0xB1,
            DomainErrorCode::RecordDeletionFailure => 0xA0,
            DomainErrorCode::Unmapped => 0xFF,
        }
    }

    /// The 8-bit value under which the code is reported and looked up.
    pub fn code(&self) -> (c: u8)
        ensures
            c == self.spec_code(),
    {
        match self {
            DomainErrorCode::FetchFailure => 0xE0,
            DomainErrorCode::VersionReadFailure => 0xD0,
            DomainErrorCode::InvalidOutputEncoding => 0xC0,
            DomainErrorCode::UserInputFailure => 0xB0,
            DomainErrorCode::InvalidUserChoice => 0xB1,
            DomainErrorCode::RecordDeletionFailure => 0xA0,
            DomainErrorCode::Unmapped => 0xFF,
        }
    }
}

/// A logical class of external invocation: a small identifier for the class
/// paired with the set of exit codes that count as success for it.
/// Immutable; the catalog of command classes is fixed at process start.
pub struct CommandSpec {
    pub command_id: i32,
    pub accepted: Vec<i32>,
}

impl CommandSpec {
    pub fn new(command_id: i32, accepted: Vec<i32>) -> (r: CommandSpec)
        ensures
            r.command_id == command_id,
            r.accepted == accepted,
    {
        CommandSpec { command_id, accepted }
    }
}

/// The translated code for a non-accepted exit status. The enumeration is
/// deliberately narrow: the one documented (command class, exit code)
/// combination is the network fetch tool's could-not-resolve/connect
/// status (command class 2, exit code 6); every other combination
/// degrades to the generic unmapped code.
pub open spec fn spec_translate(command_id: int, exit_code: int) -> DomainErrorCode {
    if command_id == 2 && exit_code == 6 {
        DomainErrorCode::FetchFailure
    } else {
        DomainErrorCode::Unmapped
    }
}

/// Classifies an observed exit code against a command class: success when
/// the class accepts the code, and otherwise exactly the translated domain
/// error, never a raw exit status.
pub fn classify(command: &CommandSpec, exit_code: i32) -> (r: Result<(), DomainErrorCode>)
    ensures
        r is Ok <==> command.accepted@.contains(exit_code),
        !command.accepted@.contains(exit_code) ==> r == Err::<(), DomainErrorCode>(
            spec_translate(command.command_id as int, exit_code as int),
        ),
{
    let mut i: usize = 0;
    while i < command.accepted.len()
        invariant
            0 <= i <= command.accepted@.len(),
            forall|j: int| 0 <= j < i ==> command.accepted@[j] != exit_code,
        decreases command.accepted@.len() - i,
    {
        if command.accepted[i] == exit_code {
            return Ok(());
        }
        i = i + 1;
    }
    if command.command_id == 2 && exit_code == 6 {
        Err(DomainErrorCode::FetchFailure)
    } else {
        Err(DomainErrorCode::Unmapped)
    }
}

/// A catalog entry for one domain error code: what went wrong, why it
/// usually happens, and what to try.
pub struct ErrorInfo {
    pub title: String,
    pub cause: String,
    pub remedy: String,
}

/// Whether an 8-bit value names a catalog entry.
pub open spec fn is_catalog_code(code: u8) -> bool {
    code == 0xE0 || code == 0xD0 || code == 0xC0 || code == 0xB0 || code == 0xB1 || code == 0xA0
        || code == 0xFF
}

/// Looks up the catalog entry for a code. Unknown codes report absence
/// rather than failing: the explain interface itself never fails fatally.
pub fn explain(code: u8) -> (r: Option<ErrorInfo>)
    ensures
        r is Some <==> is_catalog_code(code),
        code == 0xE0 ==> (r matches Some(info) && info.title@ == "Curl Error"@ && info.cause@
            == "The likely reason is a lack of network connection"@ && info.remedy@
            == "Check your internet connection"@),
        code == 0xD0 ==> (r matches Some(info) && info.title@
            == "Grep pkgver/pkgrel Reading Error"@ && info.cause@
            == "The likely reason is an invalid or removed package name that cannot be found as a branch in the AUR"@
            && info.remedy@ == "Check if the package is still in the AUR"@),
        code == 0xC0 ==> (r matches Some(info) && info.title@ == "Invalid UTF-8 Sequence"@
            && info.cause@ == "The last command executed returned an invalid UTF-8 sequence of bytes"@
            && info.remedy@ == "None; the captured output itself is corrupted"@),
        code == 0xB0 ==> (r matches Some(info) && info.title@ == "User Input Error"@
            && info.cause@ == "The prompt input text could not be read"@ && info.remedy@
            == "Check that you wrote the allowed text for the prompt"@),
        code == 0xB1 ==> (r matches Some(info) && info.title@ == "User Input Error"@
            && info.cause@ == "The prompt was answered with an invalid option"@ && info.remedy@
            == "Check that you wrote the allowed option for the prompt"@),
        code == 0xA0 ==> (r matches Some(info) && info.title@ == "Package Deletion Error"@
            && info.cause@ == "An installed package's info file cannot be deleted"@
            && info.remedy@ == "Check that the package info file exists"@),
        code == 0xFF ==> (r matches Some(info) && info.title@
            == "Mismatched exit and error codes"@ && info.cause@
            == "A command exited with an error that has no assigned error code"@ && info.remedy@
            == "None; the failing tool's own output names the cause"@),
{
    if code == 0xE0 {
        Some(
            ErrorInfo {
                title: String::from_str("Curl Error"),
                cause: String::from_str("The likely reason is a lack of network connection"),
                remedy: String::from_str("Check your internet connection"),
            },
        )
    } else if code == 0xD0 {
        Some(
            ErrorInfo {
                title: String::from_str("Grep pkgver/pkgrel Reading Error"),
                cause: String::from_str(
                    "The likely reason is an invalid or removed package name that cannot be found as a branch in the AUR",
                ),
                remedy: String::from_str("Check if the package is still in the AUR"),
            },
        )
    } else if code == 0xC0 {
        Some(
            ErrorInfo {
                title: String::from_str("Invalid UTF-8 Sequence"),
                cause: String::from_str(
                    "The last command executed returned an invalid UTF-8 sequence of bytes",
                ),
                remedy: String::from_str("None; the captured output itself is corrupted"),
            },
        )
    } else if code == 0xB0 {
        Some(
            ErrorInfo {
                title: String::from_str("User Input Error"),
                cause: String::from_str("The prompt input text could not be read"),
                remedy: String::from_str("Check that you wrote the allowed text for the prompt"),
            },
        )
    } else if code == 0xB1 {
        Some(
            ErrorInfo {
                title: String::from_str("User Input Error"),
                cause: String::from_str("The prompt was answered with an invalid option"),
                remedy: String::from_str("Check that you wrote the allowed option for the prompt"),
            },
        )
    } else if code == 0xA0 {
        Some(
            ErrorInfo {
                title: String::from_str("Package Deletion Error"),
                cause: String::from_str("An installed package's info file cannot be deleted"),
                remedy: String::from_str("Check that the package info file exists"),
            },
        )
    } else if code == 0xFF {
        Some(
            ErrorInfo {
                title: String::from_str("Mismatched exit and error codes"),
                cause: String::from_str(
                    "A command exited with an error that has no assigned error code",
                ),
                remedy: String::from_str("None; the failing tool's own output names the cause"),
            },
        )
    } else {
        None
    }
}

} // verus!
