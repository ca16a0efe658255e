//! From one record to one document: which records are taken, under which
//! title and file name, what the document's header says, and what is handed
//! on to the index when the document is written.

use vstd::prelude::*;
use vstd::string::*;
use crate::decimal::{push_signed, signed_decimal};
use crate::error::ProcessingError;
use crate::record::{Record, RecordView};
use crate::slug::{file_name, file_name_of, is_safe_file_name, slug_of};
use crate::timestamp::Timestamp;

verus! {

/// What is settled about a record before its page is fetched.
#[derive(Debug, Clone)]
pub struct Target {
    /// The title under which the document is filed.
    pub title: String,
    /// The address of the page.
    pub url: String,
    /// The name of the document's file inside the output directory.
    pub file_name: String,
}

/// The mathematical value of a `Target`.
pub struct TargetView {
    pub title: Seq<char>,
    pub url: Seq<char>,
    pub file_name: Seq<char>,
}

impl View for Target {
    type V = TargetView;

    open spec fn view(&self) -> TargetView {
        TargetView { title: self.title@, url: self.url@, file_name: self.file_name@ }
    }
}

/// The target of an eligible record: its link, its title or else the link,
/// and the file name of that title.
pub open spec fn target_of(record: RecordView) -> TargetView {
    TargetView {
        title: record.display_title(),
        url: record.link().unwrap(),
        file_name: file_name_of(slug_of(record.display_title())),
    }
}

/// Decides whether a record is archived. A record that another account sent
/// is refused first; one without a link address next; any other gets its
/// target.
pub fn screen(record: &Record) -> (r: Result<Target, ProcessingError>)
    ensures
        !record@.same_account() ==> r == Err::<Target, ProcessingError>(
            ProcessingError::OtherSender,
        ),
        record@.same_account() && record@.link() is None ==> r == Err::<Target, ProcessingError>(
            ProcessingError::NotURL,
        ),
        record@.eligible() ==> (r matches Ok(target) && target@ == target_of(record@)
            && is_safe_file_name(target@.file_name)),
{
    if !record.same_account() {
        return Err(ProcessingError::OtherSender);
    }
    let url: &String = match record.link() {
        Some(address) => address,
        None => {
            return Err(ProcessingError::NotURL);
        },
    };
    let title: &String = match &record.title {
        Some(title) => title,
        None => url,
    };
    let name = file_name(title.as_str());
    Ok(Target { title: title.clone(), url: url.clone(), file_name: name })
}

/// What came of fetching a page and extracting its article.
#[derive(Debug, Clone)]
pub enum Extraction {
    /// The extractor broke down.
    Fault,
    /// The extractor gave an error.
    Failed,
    /// The article, as HTML.
    Content(String),
}

/// The article of an extraction, or the reason for which the record is
/// dropped: `FailedScraping` after a fault, `FailedParsing` after an error.
pub fn content_of(extraction: Extraction) -> (r: Result<String, ProcessingError>)
    ensures
        r == match extraction {
            Extraction::Fault => Err::<String, ProcessingError>(ProcessingError::FailedScraping),
            Extraction::Failed => Err::<String, ProcessingError>(ProcessingError::FailedParsing),
            Extraction::Content(html) => Ok::<String, ProcessingError>(html),
        },
{
    match extraction {
        Extraction::Fault => Err(ProcessingError::FailedScraping),
        Extraction::Failed => Err(ProcessingError::FailedParsing),
        Extraction::Content(html) => Ok(html),
    }
}

/// The header of a document: title, address, the startup directive, the
/// second at which it was processed, and when the record was created and
/// last modified; then an empty line.
pub open spec fn header_text(
    title: Seq<char>,
    url: Seq<char>,
    processed_on: int,
    created: Timestamp,
    modified: Timestamp,
) -> Seq<char> {
    "#+TITLE: "@ + title + "\n#+URL: "@ + url
        + "\n#+STARTUP: showeverything\n#+PROCESSED_ON: "@ + signed_decimal(processed_on)
        + "\n#+CREATED_AT: "@ + created.text() + "\n#+MODIFIED_ON: "@ + modified.text() + "\n\n"@
}

/// Writes the header of the document for `target`, processed at the second
/// `processed_on`.
pub fn header(record: &Record, target: &Target, processed_on: i64) -> (out: String)
    ensures
        out@ == header_text(
            target@.title,
            target@.url,
            processed_on as int,
            record.created,
            record.modified,
        ),
{
    let mut out = String::new();
    out.append("#+TITLE: ");
    out.append(target.title.as_str());
    out.append("\n#+URL: ");
    out.append(target.url.as_str());
    out.append("\n#+STARTUP: showeverything\n#+PROCESSED_ON: ");
    push_signed(&mut out, processed_on);
    out.append("\n#+CREATED_AT: ");
    let created = record.created.to_text();
    out.append(created.as_str());
    out.append("\n#+MODIFIED_ON: ");
    let modified = record.modified.to_text();
    out.append(modified.as_str());
    out.append("\n\n");
    assert(out@ =~= header_text(
        target@.title,
        target@.url,
        processed_on as int,
        record.created,
        record.modified,
    ));
    out
}

/// Calls `time::get_time` and takes the seconds of what it returns: the
/// seconds since the epoch on this machine's clock. Nothing is known of the
/// number.
#[verifier::external_body]
fn clock_seconds() -> i64 {
    time::get_time().sec
}

/// Writes the header of the document for `target`, processed now.
pub fn header_now(record: &Record, target: &Target) -> (out: String)
    ensures
        exists|processed_on: i64|
            out@ == #[trigger] header_text(
                target@.title,
                target@.url,
                processed_on as int,
                record.created,
                record.modified,
            ),
{
    let now = clock_seconds();
    header(record, target, now)
}

/// A document that was written, as the index and the watermark need it.
#[derive(Debug, Clone)]
pub struct ProcessedItem {
    /// The record that the document was made from.
    pub record: Record,
    /// The output directory, as the run was given it.
    pub dir: String,
    /// The name of the document's file inside that directory.
    pub file_name: String,
    pub title: String,
    pub url: String,
}

/// The mathematical value of a `ProcessedItem`.
pub struct ProcessedItemView {
    pub record: RecordView,
    pub dir: Seq<char>,
    pub file_name: Seq<char>,
    pub title: Seq<char>,
    pub url: Seq<char>,
}

impl View for ProcessedItem {
    type V = ProcessedItemView;

    open spec fn view(&self) -> ProcessedItemView {
        ProcessedItemView {
            record: self.record@,
            dir: self.dir@,
            file_name: self.file_name@,
            title: self.title@,
            url: self.url@,
        }
    }
}

/// The item of a record whose document was written whole into `dir`.
pub open spec fn item_of(record: RecordView, target: TargetView, dir: Seq<char>) -> ProcessedItemView {
    ProcessedItemView {
        record,
        dir,
        file_name: target.file_name,
        title: target.title,
        url: target.url,
    }
}

/// Closes the work on one record once its body was written: the item for
/// the index where every line was read, else the fault that ended the body.
pub fn finish(record: Record, target: Target, dir: &str, read: Result<(), ProcessingError>) -> (r:
    Result<ProcessedItem, ProcessingError>)
    ensures
        match read {
            Ok(_) => r matches Ok(item) && item@ == item_of(record@, target@, dir@),
            Err(fault) => r == Err::<ProcessedItem, ProcessingError>(fault),
        },
{
    match read {
        Ok(_) => Ok(
            ProcessedItem {
                record,
                dir: dir.to_owned(),
                file_name: target.file_name,
                title: target.title,
                url: target.url,
            },
        ),
        Err(fault) => Err(fault),
    }
}

/// The item of an outcome, where it has one.
pub open spec fn success_of(outcome: Result<ProcessedItem, ProcessingError>) -> Option<
    ProcessedItem,
> {
    match outcome {
        Ok(item) => Some(item),
        Err(_) => None,
    }
}

/// The items of the outcomes that have one, in the order of the outcomes.
pub open spec fn successes_of(outcomes: Seq<Result<ProcessedItem, ProcessingError>>) -> Seq<
    ProcessedItem,
> {
    outcomes.filter_map(|o: Result<ProcessedItem, ProcessingError>| success_of(o))
}

/// The items of the records that became documents, in the order of the
/// outcomes. The others are dropped.
pub fn successes(outcomes: Vec<Result<ProcessedItem, ProcessingError>>) -> (items: Vec<
    ProcessedItem,
>)
    ensures
        items@ == successes_of(outcomes@),
{
    let mut items: Vec<ProcessedItem> = Vec::new();
    proof {
        assert(outcomes@.take(0) =~= Seq::empty());
    }
    for outcome in it: outcomes.into_iter()
        invariant
            it.seq() == outcomes@,
            items@ == successes_of(outcomes@.take(it.index() as int)),
    {
        let ghost i = it.index() as int;
        let ghost before = items@;
        proof {
            outcomes@.lemma_filter_map_take_succ(
                |o: Result<ProcessedItem, ProcessingError>| success_of(o),
                i,
            );
        }
        assert(outcome == outcomes@[i]);
        match outcome {
            Ok(item) => {
                items.push(item);
                assert(items@ =~= before + seq![item]);
            },
            Err(_) => {
                assert(items@ =~= before + Seq::empty());
            },
        }
    }
    proof {
        assert(outcomes@.take(outcomes@.len() as int) =~= outcomes@);
    }
    items
}

} // verus!
