use vstd::prelude::*;

verus! {

/// Why a piece of version-control output was rejected.
///
/// Malformed input is fatal for the call that met it: no record is ever
/// built from a line that did not parse, and no default is substituted.
#[derive(Clone, Copy, PartialEq, Eq, Structural, Debug)]
pub enum ParseError {
    /// A branch-listing line is not a well-formed two-field record.
    MalformedRecord { line: usize },
    /// A branch-listing line carries a committer date that does not match
    /// the fixed timestamp format.
    MalformedTimestamp { line: usize },
    /// A flat branch-listing line is shorter than its two-character marker
    /// prefix.
    ShortLine { line: usize },
    /// A matched remote ref does not split into exactly two dot-delimited
    /// segments.
    VersionSegmentCount,
    /// The second dot-delimited segment of a matched remote ref is not a
    /// base-10 integer.
    VersionNotNumeric,
    /// The version counter of a matched remote ref is too large to
    /// increment.
    VersionCounterOverflow,
}

/// The closed set of failure kinds a workflow can end with.
#[derive(Clone, Copy, PartialEq, Eq, Structural, Debug)]
pub enum ErrorKind {
    /// No repository at the working directory, or the external program
    /// could not be spawned.
    Environment,
    /// Version-control output failed to parse; see [`ParseError`].
    Parse(ParseError),
    /// The user dismissed an interactive selection; a normal, non-error
    /// termination.
    UserCanceled,
    /// The interactive selector failed for any reason other than
    /// cancellation.
    OtherSelection,
    /// A single action of a batch reported failure; reported per item,
    /// never escalated to a workflow failure.
    ActionFailure,
}

impl ErrorKind {
    /// A user-facing description of this failure kind.
    pub fn message(&self) -> (m: &'static str)
        ensures
            m@ == match self {
                ErrorKind::Environment => "not a git repository"@,
                ErrorKind::Parse(_) => "malformed version-control output"@,
                ErrorKind::UserCanceled => "User canceled the operation."@,
                ErrorKind::OtherSelection => "An error occurred during selection."@,
                ErrorKind::ActionFailure => "a requested action failed"@,
            },
    {
        match self {
            ErrorKind::Environment => "not a git repository",
            ErrorKind::Parse(_) => "malformed version-control output",
            ErrorKind::UserCanceled => "User canceled the operation.",
            ErrorKind::OtherSelection => "An error occurred during selection.",
            ErrorKind::ActionFailure => "a requested action failed",
        }
    }
}

} // verus!
