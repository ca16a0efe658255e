//! The watermark: the instant from which the next run fetches, kept as text
//! in a file of the output directory.

use vstd::prelude::*;
use vstd::string::*;
use crate::process::ProcessedItem;
use crate::timestamp::{Timestamp, MICROS_PER_SECOND};

verus! {

/// Why a watermark could not be read.
#[derive(Debug, Clone, Copy, PartialEq, Eq, Structural)]
pub enum WatermarkError {
    /// The file holds something else than an instant.
    Unparseable,
}

/// The watermark that a run starts from, given what the file holds, or
/// `None` where there is no file: zero without a file, else the instant
/// that the text spells.
pub open spec fn watermark_of(content: Option<Seq<char>>) -> Result<Timestamp, WatermarkError> {
    match content {
        None => Ok(Timestamp { micros: 0 }),
        Some(text) => match Timestamp::parsed(text) {
            Some(t) => Ok(t),
            None => Err(WatermarkError::Unparseable),
        },
    }
}

/// Reads the watermark from what its file holds; `None` stands for no file.
pub fn read_watermark(content: Option<&str>) -> (r: Result<Timestamp, WatermarkError>)
    ensures
        r == watermark_of(
            match content {
                Some(text) => Some(text@),
                None => None,
            },
        ),
{
    match content {
        None => Ok(Timestamp::zero()),
        Some(text) => match Timestamp::parse(text) {
            Some(t) => Ok(t),
            None => Err(WatermarkError::Unparseable),
        },
    }
}

/// The latest instant at which one of the items was modified, in
/// microseconds. Arbitrary for no items.
pub open spec fn latest_modified(items: Seq<ProcessedItem>) -> int
    decreases items.len(),
{
    if items.len() <= 1 {
        items[0].record.modified.micros as int
    } else {
        let before = latest_modified(items.drop_last());
        let last = items.last().record.modified.micros as int;
        if before >= last {
            before
        } else {
            last
        }
    }
}

/// The latest instant of modification is that of one item, and no item was
/// modified later.
pub proof fn lemma_latest_modified(items: Seq<ProcessedItem>)
    requires
        items.len() > 0,
    ensures
        exists|i: int|
            0 <= i < items.len() && (#[trigger] items[i]).record.modified.micros
                == latest_modified(items),
        forall|i: int|
            0 <= i < items.len() ==> (#[trigger] items[i]).record.modified.micros
                <= latest_modified(items),
    decreases items.len(),
{
    if items.len() > 1 {
        let front = items.drop_last();
        lemma_latest_modified(front);
        let w = choose|i: int|
            0 <= i < front.len() && (#[trigger] front[i]).record.modified.micros
                == latest_modified(front);
        assert(front[w] == items[w]);
        if latest_modified(items) == latest_modified(front) {
            assert(items[w].record.modified.micros == latest_modified(items));
        } else {
            assert(items[items.len() - 1].record.modified.micros == latest_modified(items));
        }
        assert forall|i: int| 0 <= i < items.len() implies (#[trigger] items[i]).record.modified.micros
            <= latest_modified(items) by {
            if i < front.len() {
                assert(front[i] == items[i]);
            }
        }
    } else {
        assert(items[0].record.modified.micros == latest_modified(items));
    }
}

/// The watermark after a run: one second past the latest modification
/// among its documents. `None`, for the watermark to stay as it is, after a
/// run without documents, or where that instant is past the range of the
/// type.
pub open spec fn next_watermark_of(items: Seq<ProcessedItem>) -> Option<Timestamp> {
    if items.len() > 0 && latest_modified(items) + 1_000_000 <= i64::MAX {
        Some(Timestamp { micros: (latest_modified(items) + 1_000_000) as i64 })
    } else {
        None
    }
}

/// The watermark to write after a run, if one is to be written.
pub fn next_watermark(items: &Vec<ProcessedItem>) -> (r: Option<Timestamp>)
    ensures
        r == next_watermark_of(items@),
{
    let n = items.len();
    if n == 0 {
        return None;
    }
    let mut latest: i64 = items[0].record.modified.micros;
    let mut i: usize = 1;
    proof {
        assert(items@.take(1).len() == 1);
        assert(items@.take(1)[0] == items@[0]);
    }
    while i < n
        invariant
            n == items@.len(),
            1 <= i <= n,
            latest == latest_modified(items@.take(i as int)),
        decreases n - i,
    {
        proof {
            assert(items@.take(i as int + 1).drop_last() =~= items@.take(i as int));
            assert(items@.take(i as int + 1).last() == items@[i as int]);
        }
        let modified: i64 = items[i].record.modified.micros;
        if modified > latest {
            latest = modified;
        }
        i = i + 1;
    }
    proof {
        assert(items@.take(n as int) =~= items@);
    }
    match latest.checked_add(MICROS_PER_SECOND) {
        Some(micros) => Some(Timestamp { micros }),
        None => None,
    }
}

/// What to write to the watermark's file after a run, if anything.
pub fn watermark_update(items: &Vec<ProcessedItem>) -> (r: Option<String>)
    ensures
        match r {
            Some(text) => next_watermark_of(items@) matches Some(t) && text@ == t.text(),
            None => next_watermark_of(items@) is None,
        },
{
    match next_watermark(items) {
        Some(t) => Some(t.to_text()),
        None => None,
    }
}

/// A watermark that was written is the watermark that the next run reads;
/// a run that finds no file starts from zero.
pub proof fn lemma_watermark_round_trip(t: Timestamp)
    ensures
        watermark_of(Some(t.text())) == Ok::<Timestamp, WatermarkError>(t),
        watermark_of(None) == Ok::<Timestamp, WatermarkError>(Timestamp { micros: 0 }),
{
    t.lemma_text_round_trip();
}

/// After a run with documents the watermark is one second past the latest
/// modification among them, which is the modification of one of them and
/// no earlier than that of any; after a run without documents no watermark
/// is written.
pub proof fn lemma_watermark_advance(items: Seq<ProcessedItem>)
    requires
        items.len() > 0 ==> latest_modified(items) + 1_000_000 <= i64::MAX,
    ensures
        items.len() == 0 ==> next_watermark_of(items) is None,
        items.len() > 0 ==> {
            &&& next_watermark_of(items) matches Some(t)
            &&& t.micros == latest_modified(items) + 1_000_000
            &&& exists|i: int|
                0 <= i < items.len() && (#[trigger] items[i]).record.modified.micros
                    == latest_modified(items)
            &&& forall|i: int|
                0 <= i < items.len() ==> (#[trigger] items[i]).record.modified.micros + 1_000_000
                    <= t.micros
        },
{
    if items.len() > 0 {
        lemma_latest_modified(items);
    }
}

/// Where every document of a run was modified no earlier than the
/// watermark that the run started from, the watermark that it writes is
/// later than that one: the watermark never goes back.
pub proof fn lemma_watermark_grows(current: Timestamp, items: Seq<ProcessedItem>)
    requires
        forall|i: int|
            0 <= i < items.len() ==> (#[trigger] items[i]).record.modified.micros
                >= current.micros,
    ensures
        next_watermark_of(items) matches Some(next) ==> next.micros > current.micros,
{
    if items.len() > 0 {
        lemma_latest_modified(items);
    }
}

} // verus!
