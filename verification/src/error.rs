//! The failures that the pipeline reports.

use vstd::prelude::*;

verus! {

/// What was wrong with a release description.
#[derive(Clone, Copy, Debug, PartialEq, Eq, Structural)]
pub enum ResponseDefect {
    /// The body is not a JSON document.
    InvalidJson,
    /// `tag_name` is absent or not a string.
    MissingVersion,
    /// `published_at` is absent or not a string.
    MissingReleaseDate,
    /// `published_at` is a string that is no date and time with an offset.
    InvalidReleaseDate,
    /// An asset has no `browser_download_url`, or it is not a string.
    MissingDownloadAddress,
    /// An asset has no `download_count`, or it is not an integer that fits 32 bits.
    MissingDownloadCount,
}

/// A typed failure of one stage of the pipeline.
#[derive(Clone, Copy, Debug, PartialEq, Eq, Structural)]
pub enum Error {
    /// The transport failed, or the server answered without success.
    NetworkError,
    /// The release description could not be used.
    MalformedResponse(ResponseDefect),
    /// The asset pattern is no regular expression.
    InvalidPattern,
    /// No asset's download address satisfies the pattern.
    NoMatchingAsset,
    /// The bytes are no archive, or an entry cannot be read.
    ArchiveCorrupt,
    /// An entry's stored path leaves the destination.
    PathTraversalAttempt,
    /// The filesystem refused an operation.
    IoError,
    /// The caller cancelled the run.
    Cancelled,
}

impl Error {
    /// True for the one failure after which nothing of the archive may be trusted.
    pub open spec fn is_fatal(self) -> bool {
        self == Error::PathTraversalAttempt
    }

    /// Tells whether retrying the whole run can make sense.
    pub fn recoverable(&self) -> (r: bool)
        ensures
            r == !self.is_fatal(),
    {
        match self {
            Error::PathTraversalAttempt => false,
            _ => true,
        }
    }
}

} // verus!
