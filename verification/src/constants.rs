//! Protocol constants.

use vstd::prelude::*;

verus! {

/// Length of the DNS message header in bytes.
pub const HEADER_LENGTH: usize = 12;

/// Maximal length of a domain name in its textual form, including the trailing dot.
pub const DOMAIN_NAME_MAX_LENGTH: usize = 255;

/// Maximal length of a single domain name label.
pub const DOMAIN_NAME_LABEL_MAX_LENGTH: usize = 63;

/// Maximal number of compression pointers followed while decoding a single domain name.
pub const DOMAIN_NAME_MAX_POINTERS: usize = 16;

} // verus!
