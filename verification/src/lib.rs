//! A DNS client library core: message encoding and decoding, domain names,
//! record types and record data.

use vstd::prelude::*;

pub mod constants;
pub mod errors;
pub mod bytes;
pub mod names;
pub mod records;
pub mod text;
pub mod message;

pub use errors::{Error, Result};

verus! {

} // verus!
