//! The failures a search can end with.

use vstd::prelude::*;

verus! {

/// `regex::Error`, which tells why an expression did not compile.
#[verifier::external_type_specification]
#[verifier::external_body]
pub struct ExRegexError(regex::Error);

/// `glob::PatternError`, which tells where a glob is malformed.
#[verifier::external_type_specification]
#[verifier::external_body]
pub struct ExGlobPatternError(glob::PatternError);

/// `std::io::Error`, the failure of a write.
#[verifier::external_type_specification]
#[verifier::external_body]
pub struct ExIoError(std::io::Error);

/// Why a search failed.
///
/// The first two end a whole run before any file is touched. A write failure
/// concerns the report of one file; the other files are still searched. The
/// library raises the first two when it prepares a search. Reports are written
/// by its caller, who wraps a failed write in the third, and who wraps in the
/// second what the expansion of the glob still rejects.
#[derive(Debug)]
pub enum GrepError {
    /// The regular expression did not compile.
    InvalidPattern(regex::Error),
    /// The file glob is malformed.
    InvalidGlob(glob::PatternError),
    /// The output sink refused a report.
    WriteError(std::io::Error),
}

} // verus!
