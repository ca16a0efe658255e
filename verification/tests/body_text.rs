use link_archive::cleanup::{AnchorCleanup, Line};
use link_archive::error::ProcessingError;

fn rule() -> AnchorCleanup {
    AnchorCleanup::new().unwrap()
}

fn text(line: &str) -> Line {
    Line::Text(line.to_string())
}

#[test]
fn anchor_pattern_is_accepted() {
    assert!(AnchorCleanup::new().is_some());
}

#[test]
fn empty_anchor_link_is_taken_out() {
    assert_eq!(rule().clean_line("** [[#foo][]]"), "** \n");
    assert_eq!(rule().clean_line("* [[#a-long_anchor.name][]]"), "* \n");
    assert_eq!(rule().clean_line("**** [[#x][]] Heading"), "****  Heading\n");
}

#[test]
fn anchor_link_with_text_is_kept() {
    assert_eq!(rule().clean_line("** [[#foo][bar]]"), "** [[#foo][bar]]\n");
}

#[test]
fn line_without_a_match_gets_one_line_feed() {
    assert_eq!(rule().clean_line("plain text"), "plain text\n");
    assert_eq!(rule().clean_line(""), "\n");
    assert_eq!(rule().clean_line("[[#foo][]]"), "[[#foo][]]\n");
    assert_eq!(rule().clean_line("**[[#foo][]]"), "**[[#foo][]]\n");
    assert_eq!(rule().clean_line("** [[#][]]"), "** [[#][]]\n");
    assert_eq!(rule().clean_line("** [[#a b][]]"), "** [[#a b][]]\n");
}

#[test]
fn every_match_on_a_line_is_cleaned() {
    assert_eq!(rule().clean_line("* [[#a][]] and ** [[#b][]]"), "*  and ** \n");
}

#[test]
fn body_holds_every_line_in_order() {
    let lines = vec![text("* [[#top][]]Title"), text(""), text("content")];
    let (body, read) = rule().body(&lines);
    assert_eq!(body, "* Title\n\ncontent\n");
    assert_eq!(read, Ok(()));
}

#[test]
fn body_of_no_lines_is_empty() {
    let (body, read) = rule().body(&Vec::new());
    assert_eq!(body, "");
    assert_eq!(read, Ok(()));
}

#[test]
fn body_ends_at_the_first_unreadable_line() {
    let lines = vec![text("one"), text("two"), Line::Unreadable, text("four"), Line::Unreadable];
    let (body, read) = rule().body(&lines);
    assert_eq!(body, "one\ntwo\n");
    assert_eq!(read, Err(ProcessingError::Unexpected));
}

#[test]
fn unreadable_first_line_leaves_no_body() {
    let (body, read) = rule().body(&vec![Line::Unreadable, text("later")]);
    assert_eq!(body, "");
    assert_eq!(read, Err(ProcessingError::Unexpected));
}
