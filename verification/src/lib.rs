//! Decisions and text formats of a link archiver: which pushed records become
//! documents, what each document and index entry holds, and how far the next
//! fetch may skip.

pub mod cleanup;
pub mod credential;
pub mod decimal;
pub mod error;
pub mod fetch;
pub mod index;
pub mod process;
pub mod record;
pub mod slug;
pub mod timestamp;
pub mod watermark;

pub use crate::error::ProcessingError;
pub use crate::process::ProcessedItem;
pub use crate::record::{Payload, Record};
pub use crate::timestamp::Timestamp;
