//! Resource records: types, classes and record data.

pub mod class;
pub mod data;
pub mod opt;
pub mod record;
pub mod record_set;
pub mod rtype;

pub use class::Class;
pub use opt::Opt;
pub use rtype::Type;
