//! The decision half of the process runner. Spawning a child process and
//! capturing its streams is I/O and lives with the caller; what is verified
//! here is the policy applied to what came back: captured bytes that are
//! not valid text are refused as a domain error instead of being surfaced
//! corrupted, and a trailing newline, if present, is stripped so callers
//! see exactly the content lines.
use vstd::prelude::*;

use crate::errors::DomainErrorCode;
use crate::text::spec_strip_newline;
use crate::text::strip_trailing_newline;

verus! {

/// Accepts or refuses a child process's captured standard output. The
/// caller hands in the text decoding's outcome: the decoded text, or
/// nothing when the captured bytes were not valid text.
pub fn accept_stdout(decoded: Option<String>) -> (r: Result<String, DomainErrorCode>)
    ensures
        decoded is None ==> r == Err::<String, DomainErrorCode>(
            DomainErrorCode::InvalidOutputEncoding,
        ),
        decoded matches Some(s) ==> (r matches Ok(t) && t@ == spec_strip_newline(s@)),
{
    match decoded {
        None => Err(DomainErrorCode::InvalidOutputEncoding),
        Some(s) => Ok(strip_trailing_newline(s.as_str())),
    }
}

} // verus!
