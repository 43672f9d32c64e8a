//! Typed errors for path decoding and error-body classification.

use vstd::prelude::*;

verus! {

/// The resource kind a caller expected a self-URL to decode to.
#[derive(Debug, PartialEq, Eq, Clone, Copy)]
pub enum ExpectedType {
    /// A build of a job
    Build,
    /// A job
    Job,
    /// An item of the build queue
    QueueItem,
    /// A view of jobs
    View,
}

/// Errors produced by the verified core: decoding failures and the
/// structured exceptions recognized in a failed response body.
#[derive(Debug, PartialEq, Eq, Clone)]
pub enum Error {
    /// A self-URL did not decode to the expected resource kind
    InvalidUrl {
        /// The URL that was decoded
        url: String,
        /// The resource kind the caller expected
        expected: ExpectedType,
    },
    /// A path matched a decoder branch that requires a numeric segment,
    /// but that segment is not a valid number
    MalformedPath {
        /// The path that failed to decode
        path: String,
    },
    /// The response body embedded `java.lang.IllegalStateException`
    IllegalState {
        /// Text after the exception name, up to the end of the line
        message: String,
    },
    /// The response body embedded `java.lang.IllegalArgumentException`
    IllegalArgument {
        /// Text after the exception name, up to the end of the line
        message: String,
    },
}

} // verus!
