//! Why a record did not become a document.

use vstd::prelude::*;

verus! {

/// The reasons for which one record is dropped from a batch.
#[derive(Debug, Clone, Copy, PartialEq, Eq, Structural)]
pub enum ProcessingError {
    /// The record was sent by another account than the one that received it.
    OtherSender,
    /// The record carries no link address.
    NotURL,
    /// Fetching or extracting the page broke down.
    FailedScraping,
    /// The page was fetched but the extractor gave an error.
    FailedParsing,
    /// The converted text could not be read to its end.
    Unexpected,
}

} // verus!
