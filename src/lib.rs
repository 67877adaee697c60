//! Locate every executable of a given name on the search path, read the
//! version each one reports, and pick the newest.
use vstd::prelude::*;
use vstd::string::StringExecFns;

pub mod extract;
pub mod rank;
pub mod search;

verus! {

/// Why no newest executable could be named.
#[derive(Debug)]
pub enum LatestVersionError {
    /// No executable of that name exists on the search path.
    CommandNotFound(String),
    /// An executable could not be run: its path and the reason.
    CommandExecutionError(String, String),
    /// No version could be read from any candidate.
    VersionExtractionError(String),
    /// The search path itself could not be read.
    PathFindingError(String),
}

/// The human-readable form of an error.
pub open spec fn error_message(e: LatestVersionError) -> Seq<char> {
    match e {
        LatestVersionError::CommandNotFound(c) => "Command not found: "@ + c@,
        LatestVersionError::CommandExecutionError(c, why) => "Failed to execute command "@ + c@
            + ": "@ + why@,
        LatestVersionError::VersionExtractionError(d) => "Version extraction failed: "@ + d@,
        LatestVersionError::PathFindingError(_) => "Failed to find executable paths"@,
    }
}

impl LatestVersionError {
    /// The message shown to a user.
    pub fn message(&self) -> (r: String)
        ensures
            r@ == error_message(*self),
    {
        match self {
            LatestVersionError::CommandNotFound(c) => {
                let mut m = String::from_str("Command not found: ");
                m.append(c.as_str());
                m
            },
            LatestVersionError::CommandExecutionError(c, why) => {
                let mut m = String::from_str("Failed to execute command ");
                m.append(c.as_str());
                m.append(": ");
                m.append(why.as_str());
                m
            },
            LatestVersionError::VersionExtractionError(d) => {
                let mut m = String::from_str("Version extraction failed: ");
                m.append(d.as_str());
                m
            },
            LatestVersionError::PathFindingError(_) => String::from_str(
                "Failed to find executable paths",
            ),
        }
    }
}

/// An executable's path and the version it reported.
#[derive(Debug, Clone)]
pub struct ExecutableInfo {
    pub path: String,
    pub version: String,
}

} // verus!
