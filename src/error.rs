//! Failure kinds of the edit operations.
use vstd::prelude::*;

verus! {

/// Which structural rule of the diff-block grammar was broken.
#[derive(Debug, Clone, Copy, PartialEq, Eq, Structural)]
pub enum DiffFormatProblem {
    /// Fewer than six lines.
    TooShort,
    /// The first line is not `<<<<<<< SEARCH`.
    MissingHeader,
    /// The last line is not `>>>>>>> REPLACE`.
    MissingFooter,
    /// No `-------` line.
    MissingSearchSeparator,
    /// No `=======` line after the `-------` line.
    MissingReplaceSeparator,
}

/// Why an edit request failed. A failed request never writes the file.
#[derive(Debug, Clone, PartialEq, Eq)]
pub enum EditError {
    /// Path validation refused the path.
    PathRejected(String),
    /// The diff block breaks the grammar.
    MalformedDiff(DiffFormatProblem),
    /// The search fragment does not occur in the file.
    ContentNotFound,
    /// A pattern of a search-and-replace operation does not compile.
    InvalidPattern,
    /// A line range is reversed or reaches outside the file.
    InvalidLineRange,
    /// The file is above the size that is edited in memory.
    FileTooLargeForInMemoryEdit,
    /// An insertion produced more than twice the original size.
    SuspiciousResultSize,
    /// Reading or writing the file failed.
    IoFailure(String),
}

} // verus!
