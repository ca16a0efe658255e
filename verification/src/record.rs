//! Records of the remote service, as far as the archiver reads them.

use vstd::prelude::*;
use crate::timestamp::Timestamp;

verus! {

/// What an optional text holds, as characters.
pub open spec fn text_of(text: Option<String>) -> Option<Seq<char>> {
    match text {
        Some(s) => Some(s@),
        None => None,
    }
}

/// What a record carries.
#[derive(Debug, Clone)]
pub enum Payload {
    /// A link, with its address where the service gave one.
    Link(Option<String>),
    /// Anything else: a note, a file, a list and so on.
    Other,
}

/// The mathematical value of a `Payload`.
pub enum PayloadView {
    Link(Option<Seq<char>>),
    Other,
}

impl View for Payload {
    type V = PayloadView;

    open spec fn view(&self) -> PayloadView {
        match *self {
            Payload::Link(address) => PayloadView::Link(text_of(address)),
            Payload::Other => PayloadView::Other,
        }
    }
}

/// One notification of the remote service.
#[derive(Debug, Clone)]
pub struct Record {
    /// The account that sent it.
    pub sender: Option<String>,
    /// The account that received it.
    pub receiver: Option<String>,
    pub title: Option<String>,
    pub payload: Payload,
    pub created: Timestamp,
    pub modified: Timestamp,
}

/// The mathematical value of a `Record`.
pub struct RecordView {
    pub sender: Option<Seq<char>>,
    pub receiver: Option<Seq<char>>,
    pub title: Option<Seq<char>>,
    pub payload: PayloadView,
    pub created: Timestamp,
    pub modified: Timestamp,
}

impl View for Record {
    type V = RecordView;

    open spec fn view(&self) -> RecordView {
        RecordView {
            sender: text_of(self.sender),
            receiver: text_of(self.receiver),
            title: text_of(self.title),
            payload: self.payload@,
            created: self.created,
            modified: self.modified,
        }
    }
}

impl RecordView {
    /// Whether the account that sent the record is the one that received it.
    pub open spec fn same_account(self) -> bool {
        self.sender == self.receiver
    }

    /// The address of the link that the record carries, if it carries one.
    pub open spec fn link(self) -> Option<Seq<char>> {
        match self.payload {
            PayloadView::Link(Some(address)) => Some(address),
            _ => None,
        }
    }

    /// Whether the record is one to archive: sent to oneself, with a link.
    pub open spec fn eligible(self) -> bool {
        self.same_account() && self.link() is Some
    }

    /// The title under which an eligible record is filed: its own, or the
    /// address of its link where it has none.
    pub open spec fn display_title(self) -> Seq<char> {
        match self.title {
            Some(title) => title,
            None => self.link().unwrap(),
        }
    }
}

impl Record {
    /// Whether the account that sent the record is the one that received it.
    pub fn same_account(&self) -> (b: bool)
        ensures
            b == self@.same_account(),
    {
        match &self.sender {
            Some(sender) => match &self.receiver {
                Some(receiver) => *sender == *receiver,
                None => false,
            },
            None => self.receiver.is_none(),
        }
    }

    /// The address of the link that the record carries, if it carries one.
    pub fn link(&self) -> (address: Option<&String>)
        ensures
            match address {
                Some(a) => self@.link() == Some(a@),
                None => self@.link() is None,
            },
    {
        match &self.payload {
            Payload::Link(Some(address)) => Some(address),
            _ => None,
        }
    }
}

} // verus!
