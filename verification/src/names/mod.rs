//! Domain name types and utilities.

pub mod array_string;
pub mod compare;
pub mod dname;
pub mod inline_name;
pub mod name;
pub mod reader;
pub mod round_trip;
pub mod utils;
pub mod writer;
