//! Fetching the records since a watermark, page by page: what to ask the
//! service next, and what the pages add up to.

use vstd::prelude::*;
use crate::record::Record;
use crate::timestamp::Timestamp;

verus! {

/// How many records one page may hold.
pub const PAGE_SIZE: usize = 100;

/// What to ask the service for.
#[derive(Debug, Clone)]
pub enum Request {
    /// The newest records modified since an instant.
    Since { limit: usize, since: Timestamp },
    /// The page that a cursor of the service points to.
    From { limit: usize, cursor: String },
}

/// What the service answered.
#[derive(Debug, Clone)]
pub enum PageOutcome {
    /// A page, and the cursor to the next one where there is one.
    Page { records: Vec<Record>, cursor: Option<String> },
    /// No page: the request failed.
    Failed,
}

/// Why a fetch came to nothing.
#[derive(Debug, Clone, Copy, PartialEq, Eq, Structural)]
pub enum FetchError {
    /// The first page could not be had.
    FirstPage,
}

/// A fetch in progress.
#[derive(Debug)]
pub struct Fetch {
    /// The records of the pages so far, newest page first.
    pub records: Vec<Record>,
    /// What to ask next; `None` once the fetch is over.
    pub pending: Option<Request>,
    /// Whether no page has come yet.
    pub first: bool,
}

/// The mathematical value of a `Fetch`.
pub struct FetchState {
    pub records: Seq<Record>,
    pub pending: Option<Request>,
    pub first: bool,
}

impl View for Fetch {
    type V = FetchState;

    open spec fn view(&self) -> FetchState {
        FetchState { records: self.records@, pending: self.pending, first: self.first }
    }
}

/// The request that follows a page: for the page at its cursor, or none.
pub open spec fn request_after(cursor: Option<String>) -> Option<Request> {
    match cursor {
        Some(cursor) => Some(Request::From { limit: 100, cursor }),
        None => None,
    }
}

impl FetchState {
    /// A fetch before its first request.
    pub open spec fn started(since: Timestamp) -> FetchState {
        FetchState {
            records: Seq::empty(),
            pending: Some(Request::Since { limit: 100, since }),
            first: true,
        }
    }

    /// Whether nothing is left to ask.
    pub open spec fn finished(self) -> bool {
        self.pending is None
    }

    /// The fetch after an answer. A page goes behind the pages before it,
    /// and its cursor says what to ask next. A failure ends the fetch with
    /// the pages it has. A finished fetch stays as it is.
    pub open spec fn after(self, outcome: PageOutcome) -> FetchState {
        if self.finished() {
            self
        } else {
            match outcome {
                PageOutcome::Page { records, cursor } => FetchState {
                    records: self.records + records@,
                    pending: request_after(cursor),
                    first: false,
                },
                PageOutcome::Failed => FetchState {
                    records: self.records,
                    pending: None,
                    first: self.first,
                },
            }
        }
    }

    /// Whether an answer ends the fetch in failure: the first page failed.
    pub open spec fn fails_on(self, outcome: PageOutcome) -> bool {
        !self.finished() && self.first && outcome is Failed
    }
}

impl Fetch {
    /// Begins a fetch of the records modified since `since`.
    pub fn start(since: Timestamp) -> (fetch: Fetch)
        ensures
            fetch@ == FetchState::started(since),
    {
        Fetch {
            records: Vec::new(),
            pending: Some(Request::Since { limit: PAGE_SIZE, since }),
            first: true,
        }
    }

    /// Whether nothing is left to ask.
    pub fn finished(&self) -> (b: bool)
        ensures
            b == self@.finished(),
    {
        self.pending.is_none()
    }

    /// Takes in the answer to the pending request. Fails where the first
    /// page could not be had; a later failure ends the fetch with the pages
    /// that came before.
    pub fn receive(&mut self, outcome: PageOutcome) -> (r: Result<(), FetchError>)
        ensures
            final(self)@ == old(self)@.after(outcome),
            r == if old(self)@.fails_on(outcome) {
                Err::<(), FetchError>(FetchError::FirstPage)
            } else {
                Ok::<(), FetchError>(())
            },
    {
        if self.pending.is_none() {
            return Ok(());
        }
        match outcome {
            PageOutcome::Page { records, cursor } => {
                let mut page = records;
                self.records.append(&mut page);
                self.pending = match cursor {
                    Some(cursor) => Some(Request::From { limit: PAGE_SIZE, cursor }),
                    None => None,
                };
                self.first = false;
                Ok(())
            },
            PageOutcome::Failed => {
                self.pending = None;
                if self.first {
                    Err(FetchError::FirstPage)
                } else {
                    Ok(())
                }
            },
        }
    }

    /// The records that were fetched.
    pub fn into_records(self) -> (records: Vec<Record>)
        ensures
            records@ == self@.records,
    {
        self.records
    }
}

/// Three pages that come in the order in which the service gives them, the
/// last without a cursor, end the fetch with the records of the first page,
/// then those of the second, then those of the third, each page in its own
/// order.
pub proof fn lemma_pages_accumulate(
    since: Timestamp,
    first: Vec<Record>,
    first_cursor: String,
    second: Vec<Record>,
    second_cursor: String,
    third: Vec<Record>,
)
    ensures
        ({
            let state = FetchState::started(since).after(
                PageOutcome::Page { records: first, cursor: Some(first_cursor) },
            ).after(PageOutcome::Page { records: second, cursor: Some(second_cursor) }).after(
                PageOutcome::Page { records: third, cursor: None },
            );
            &&& state.finished()
            &&& state.records == first@ + second@ + third@
        }),
{
    assert(Seq::<Record>::empty() + first@ =~= first@);
}

/// A page that fails after others have come ends the fetch with what came
/// before it, and without failure.
pub proof fn lemma_later_failure_keeps_pages(state: FetchState)
    requires
        !state.first,
    ensures
        state.after(PageOutcome::Failed).records == state.records,
        state.after(PageOutcome::Failed).finished(),
        !state.fails_on(PageOutcome::Failed),
{
}

} // verus!
