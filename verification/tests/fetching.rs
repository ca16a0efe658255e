use link_archive::fetch::{Fetch, FetchError, PageOutcome, Request, PAGE_SIZE};
use link_archive::record::{Payload, Record};
use link_archive::timestamp::Timestamp;

fn record(title: &str) -> Record {
    Record {
        sender: None,
        receiver: None,
        title: Some(title.to_string()),
        payload: Payload::Other,
        created: Timestamp { micros: 0 },
        modified: Timestamp { micros: 0 },
    }
}

fn page(titles: &[&str], cursor: Option<&str>) -> PageOutcome {
    PageOutcome::Page {
        records: titles.iter().map(|t| record(t)).collect(),
        cursor: cursor.map(|c| c.to_string()),
    }
}

fn titles(records: &[Record]) -> Vec<String> {
    records.iter().map(|r| r.title.clone().unwrap()).collect()
}

#[test]
fn fetch_begins_with_the_watermark() {
    let fetch = Fetch::start(Timestamp { micros: 5_000_000 });
    assert!(!fetch.finished());
    assert!(fetch.first);
    assert!(fetch.records.is_empty());
    match fetch.pending {
        Some(Request::Since { limit, since }) => {
            assert_eq!(limit, 100);
            assert_eq!(limit, PAGE_SIZE);
            assert_eq!(since, Timestamp { micros: 5_000_000 });
        }
        _ => panic!("the first request asks by the watermark"),
    }
}

#[test]
fn single_page_without_a_cursor_ends_the_fetch() {
    let mut fetch = Fetch::start(Timestamp { micros: 0 });
    assert_eq!(fetch.receive(page(&["a", "b"], None)), Ok(()));
    assert!(fetch.finished());
    assert_eq!(titles(&fetch.into_records()), vec!["a", "b"]);
}

#[test]
fn cursor_of_a_page_is_asked_next() {
    let mut fetch = Fetch::start(Timestamp { micros: 7 });
    assert_eq!(fetch.receive(page(&["a"], Some("c1"))), Ok(()));
    assert!(!fetch.finished());
    assert!(!fetch.first);
    match &fetch.pending {
        Some(Request::From { limit, cursor }) => {
            assert_eq!(*limit, 100);
            assert_eq!(cursor, "c1");
        }
        _ => panic!("the next request follows the cursor"),
    }
}

#[test]
fn pages_are_kept_in_the_order_of_their_arrival() {
    let mut fetch = Fetch::start(Timestamp { micros: 0 });
    assert_eq!(fetch.receive(page(&["p1a", "p1b"], Some("c1"))), Ok(()));
    assert_eq!(fetch.receive(page(&["p2a", "p2b", "p2c"], Some("c2"))), Ok(()));
    assert_eq!(fetch.receive(page(&["p3a"], None)), Ok(()));
    assert!(fetch.finished());
    assert_eq!(titles(&fetch.into_records()), vec!["p1a", "p1b", "p2a", "p2b", "p2c", "p3a"]);
}

#[test]
fn failure_of_the_first_page_fails_the_fetch() {
    let mut fetch = Fetch::start(Timestamp { micros: 0 });
    assert_eq!(fetch.receive(PageOutcome::Failed), Err(FetchError::FirstPage));
    assert!(fetch.finished());
    assert!(fetch.into_records().is_empty());
}

#[test]
fn failure_of_a_later_page_keeps_the_pages_before_it() {
    let mut fetch = Fetch::start(Timestamp { micros: 0 });
    assert_eq!(fetch.receive(page(&["p1a", "p1b"], Some("c1"))), Ok(()));
    assert_eq!(fetch.receive(page(&["p2a"], Some("c2"))), Ok(()));
    assert_eq!(fetch.receive(PageOutcome::Failed), Ok(()));
    assert!(fetch.finished());
    assert_eq!(titles(&fetch.into_records()), vec!["p1a", "p1b", "p2a"]);
}

#[test]
fn finished_fetch_takes_nothing_more() {
    let mut fetch = Fetch::start(Timestamp { micros: 0 });
    assert_eq!(fetch.receive(page(&["a"], None)), Ok(()));
    assert_eq!(fetch.receive(page(&["late"], Some("c"))), Ok(()));
    assert_eq!(fetch.receive(PageOutcome::Failed), Ok(()));
    assert!(fetch.finished());
    assert_eq!(titles(&fetch.into_records()), vec!["a"]);
}

#[test]
fn empty_page_with_a_cursor_goes_on() {
    let mut fetch = Fetch::start(Timestamp { micros: 0 });
    assert_eq!(fetch.receive(page(&[], Some("c1"))), Ok(()));
    assert!(!fetch.finished());
    assert_eq!(fetch.receive(page(&["x"], None)), Ok(()));
    assert_eq!(titles(&fetch.into_records()), vec!["x"]);
}
