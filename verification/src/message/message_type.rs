//! The type of a DNS message: a query or a response.

use vstd::prelude::*;

verus! {

/// The type of a DNS message, the `QR` flag of its header.
#[derive(Copy, Clone, PartialEq, Eq, Structural, PartialOrd, Ord, Hash, Debug)]
pub enum MessageType {
    /// A query message, `QR` 0.
    Query,
    /// A response message, `QR` 1.
    Response,
}

/// The name of a message type.
pub open spec fn message_type_name(mt: MessageType) -> &'static str {
    match mt {
        MessageType::Query => "Query",
        MessageType::Response => "Response",
    }
}

impl MessageType {
    /// Returns the name of the message type.
    pub fn as_str(self) -> (r: &'static str)
        ensures
            r == message_type_name(self),
    {
        match self {
            MessageType::Query => "Query",
            MessageType::Response => "Response",
        }
    }

    /// Checks if this is a query.
    pub fn is_query(self) -> (r: bool)
        ensures
            r == (self == MessageType::Query),
    {
        matches!(self, MessageType::Query)
    }

    /// Checks if this is a response.
    pub fn is_response(self) -> (r: bool)
        ensures
            r == (self == MessageType::Response),
    {
        matches!(self, MessageType::Response)
    }

    /// Returns the name of the message type as a string.
    pub fn to_string(&self) -> (s: String)
        ensures
            s@ == message_type_name(*self)@,
    {
        self.as_str().to_owned()
    }
}

/// The message type of a `QR` flag: set for a response.
pub open spec fn message_type_of(qr: bool) -> MessageType {
    if qr {
        MessageType::Response
    } else {
        MessageType::Query
    }
}

impl From<bool> for MessageType {
    fn from(value: bool) -> (r: MessageType) {
        if value {
            MessageType::Response
        } else {
            MessageType::Query
        }
    }
}

impl vstd::std_specs::convert::FromSpecImpl<bool> for MessageType {
    open spec fn obeys_from_spec() -> bool {
        true
    }

    open spec fn from_spec(value: bool) -> MessageType {
        message_type_of(value)
    }
}

impl From<MessageType> for bool {
    fn from(mt: MessageType) -> (r: bool) {
        match mt {
            MessageType::Query => false,
            MessageType::Response => true,
        }
    }
}

impl vstd::std_specs::convert::FromSpecImpl<MessageType> for bool {
    open spec fn obeys_from_spec() -> bool {
        true
    }

    open spec fn from_spec(mt: MessageType) -> bool {
        mt == MessageType::Response
    }
}

} // verus!
