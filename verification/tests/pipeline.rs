use link_archive::cleanup::{AnchorCleanup, Line};
use link_archive::error::ProcessingError;
use link_archive::fetch::{Fetch, PageOutcome};
use link_archive::index::{format_entries, index_file_name};
use link_archive::process::{content_of, finish, header, screen, successes, Extraction, ProcessedItem};
use link_archive::record::{Payload, Record};
use link_archive::timestamp::Timestamp;
use link_archive::watermark::{read_watermark, watermark_update};

/// The files that a run leaves, by path, in the order in which they were written.
struct Files {
    written: Vec<(String, String)>,
}

impl Files {
    fn get(&self, path: &str) -> Option<&str> {
        self.written.iter().find(|(p, _)| p == path).map(|(_, text)| text.as_str())
    }

    fn put(&mut self, path: String, text: String) {
        self.written.retain(|(p, _)| *p != path);
        self.written.push((path, text));
    }

    fn append(&mut self, path: String, text: &str) {
        match self.written.iter_mut().find(|(p, _)| *p == path) {
            Some((_, old)) => old.push_str(text),
            None => self.written.push((path, text.to_string())),
        }
    }
}

fn link_record(title: &str, address: &str, modified: i64) -> Record {
    Record {
        sender: Some("me".to_string()),
        receiver: Some("me".to_string()),
        title: Some(title.to_string()),
        payload: Payload::Link(Some(address.to_string())),
        created: Timestamp { micros: modified - 1_000_000 },
        modified: Timestamp { micros: modified },
    }
}

/// One record through every step, with the page and its conversion given.
fn process(
    record: Record,
    dir: &str,
    files: &mut Files,
    extraction: Extraction,
    converted: Vec<Line>,
) -> Result<ProcessedItem, ProcessingError> {
    let target = screen(&record)?;
    let _html = content_of(extraction)?;
    let path = format!("{}/{}", dir, target.file_name);
    files.put(path.clone(), header(&record, &target, 1_700_000_000));
    let rule = AnchorCleanup::new().unwrap();
    let (body, read) = rule.body(&converted);
    files.append(path, &body);
    finish(record, target, dir, read)
}

/// One run over the records of a single page.
fn run(dir: &str, files: &mut Files, batch: Vec<(Record, Extraction, Vec<Line>)>) -> usize {
    let pointer = format!("{}/.pointer", dir);
    let since = read_watermark(files.get(&pointer)).unwrap();
    let mut fetch = Fetch::start(since);
    let mut work = Vec::new();
    let mut records = Vec::new();
    for (record, extraction, lines) in batch {
        records.push(record);
        work.push((extraction, lines));
    }
    fetch.receive(PageOutcome::Page { records, cursor: None }).unwrap();
    assert!(fetch.finished());
    let mut outcomes = Vec::new();
    for (record, (extraction, lines)) in fetch.into_records().into_iter().zip(work) {
        outcomes.push(process(record, dir, files, extraction, lines));
    }
    let items = successes(outcomes);
    files.append(index_file_name(dir), &format_entries(&items));
    if let Some(text) = watermark_update(&items) {
        files.put(pointer, text);
    }
    items.len()
}

#[test]
fn one_eligible_record_leaves_document_index_and_watermark() {
    let mut files = Files { written: Vec::new() };
    let record = link_record("Hello World", "https://example.com/hello", 100_000_000);
    let done = run(
        "output",
        &mut files,
        vec![(
            record,
            Extraction::Content("<p>content</p>".to_string()),
            vec![Line::Text("content".to_string())],
        )],
    );
    assert_eq!(done, 1);
    assert_eq!(
        files.get("output/hello-world.org"),
        Some(
            "#+TITLE: Hello World\n#+URL: https://example.com/hello\n#+STARTUP: showeverything\n#+PROCESSED_ON: 1700000000\n#+CREATED_AT: 99\n#+MODIFIED_ON: 100\n\ncontent\n"
        )
    );
    assert_eq!(
        files.get("output.org"),
        Some(
            "** [[file:output/hello-world.org][Hello World]]\n:PROPERTIES:\n:URL: [[https://example.com/hello][url]]\n:CREATED_AT: 99\n:MODIFIED_ON: 100\n:END:\n\n"
        )
    );
    assert_eq!(files.get("output/.pointer"), Some("101"));
    assert_eq!(files.written.len(), 3);
}

#[test]
fn fault_in_one_extraction_drops_that_record_only() {
    let mut files = Files { written: Vec::new() };
    let broken = link_record("Broken Page", "https://example.com/broken", 500_000_000);
    let good = link_record("Good Page", "https://example.com/good", 200_000_000);
    let done = run(
        "output",
        &mut files,
        vec![
            (broken, Extraction::Fault, Vec::new()),
            (
                good,
                Extraction::Content("<p>fine</p>".to_string()),
                vec![Line::Text("fine".to_string())],
            ),
        ],
    );
    assert_eq!(done, 1);
    assert!(files.get("output/broken-page.org").is_none());
    assert!(files.get("output/good-page.org").unwrap().ends_with("\n\nfine\n"));
    let index = files.get("output.org").unwrap();
    assert_eq!(index.matches("** [[file:").count(), 1);
    assert!(index.starts_with("** [[file:output/good-page.org][Good Page]]\n"));
    assert_eq!(files.get("output/.pointer"), Some("201"));
}

#[test]
fn run_without_successes_leaves_the_watermark_as_it_was() {
    let mut files = Files { written: Vec::new() };
    files.put("output/.pointer".to_string(), "42".to_string());
    let other = Record {
        sender: Some("someone".to_string()),
        receiver: Some("me".to_string()),
        title: Some("Not mine".to_string()),
        payload: Payload::Link(Some("https://example.com/other".to_string())),
        created: Timestamp { micros: 0 },
        modified: Timestamp { micros: 900_000_000 },
    };
    let note = Record {
        sender: Some("me".to_string()),
        receiver: Some("me".to_string()),
        title: Some("A note".to_string()),
        payload: Payload::Other,
        created: Timestamp { micros: 0 },
        modified: Timestamp { micros: 900_000_000 },
    };
    let done = run(
        "output",
        &mut files,
        vec![
            (other, Extraction::Content(String::new()), Vec::new()),
            (note, Extraction::Content(String::new()), Vec::new()),
        ],
    );
    assert_eq!(done, 0);
    assert_eq!(files.get("output/.pointer"), Some("42"));
    assert_eq!(files.get("output.org"), Some(""));
    assert!(files.get("output/not-mine.org").is_none());
    assert!(files.get("output/a-note.org").is_none());
    assert_eq!(files.written.len(), 2);
}

#[test]
fn run_without_successes_and_without_watermark_writes_none() {
    let mut files = Files { written: Vec::new() };
    let done = run("output", &mut files, Vec::new());
    assert_eq!(done, 0);
    assert!(files.get("output/.pointer").is_none());
}

#[test]
fn conversion_that_breaks_off_leaves_a_partial_file_and_no_entry() {
    let mut files = Files { written: Vec::new() };
    let record = link_record("Half Read", "https://example.com/half", 100_000_000);
    let done = run(
        "output",
        &mut files,
        vec![(
            record,
            Extraction::Content("<p>x</p>".to_string()),
            vec![Line::Text("first".to_string()), Line::Unreadable, Line::Text("third".to_string())],
        )],
    );
    assert_eq!(done, 0);
    assert!(files.get("output/half-read.org").unwrap().ends_with("\n\nfirst\n"));
    assert_eq!(files.get("output.org"), Some(""));
    assert!(files.get("output/.pointer").is_none());
}

#[test]
fn second_run_starts_from_the_watermark_of_the_first() {
    let mut files = Files { written: Vec::new() };
    let record = link_record("Hello World", "https://example.com/hello", 100_250_000);
    run(
        "output",
        &mut files,
        vec![(record, Extraction::Content(String::new()), vec![Line::Text("content".to_string())])],
    );
    assert_eq!(files.get("output/.pointer"), Some("101.25"));
    assert_eq!(
        read_watermark(files.get("output/.pointer")),
        Ok(Timestamp { micros: 101_250_000 })
    );
}
