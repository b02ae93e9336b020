//! Message reading primitives.

pub mod label_ref;
pub mod labels;
pub mod message_iterator;
pub mod message_reader;
pub mod name_ref;
pub mod question_ref;
pub mod questions;
pub mod record_marker;
pub mod records;
pub mod records_reader;
pub mod section_tracker;
