//! Errors of the library.

use vstd::prelude::*;

use crate::message::message_type::MessageType;
use crate::message::rcode::RCode;
use crate::message::records_section::RecordsSection;
use crate::records::rtype::Type;

verus! {

/// Errors returned by the library.
#[derive(Debug, Clone, Copy, PartialEq, Eq)]
pub enum Error {
    /// The buffer ended before an element could be read or written.
    EndOfBuffer,
    /// A window of a cursor was closed before it was read to its end.
    CursorWindowError {
        /// The end position of the window.
        expected: usize,
        /// The position the cursor stood at.
        actual: usize,
    },
    /// The buffer is too short to hold the data being written; the size it would need is given.
    BufferTooShort(usize),
    /// A domain name label is empty.
    DomainNameLabelIsEmpty,
    /// A domain name label is longer than 63 bytes.
    DomainNameLabelTooLong(usize),
    /// A domain name label holds a character that may not stand where it stands.
    DomainNameLabelInvalidChar(&'static str, u8),
    /// A domain name is longer than 255 bytes in its textual form.
    DomainNameTooLong(usize),
    /// A compression pointer of an encoded domain name does not point backwards.
    DomainNameBadPointer {
        /// The offset the pointer points to.
        pointer: usize,
        /// The position after the first pointer of the name.
        max_offset: usize,
    },
    /// An encoded domain name follows more compression pointers than allowed.
    DomainNameTooMuchPointers,
    /// An encoded domain name holds a label of an unknown type.
    DomainNameBadLabelType(u8),
    /// A message is longer than 65535 bytes; its length is given.
    MessageTooLong(usize),
    /// The reader is done: all was read, or an earlier error stopped it.
    ReaderDone,
    /// A message holds a number of questions other than the one expected; the number is given.
    BadQuestionsCount(usize),
    /// The offset of a records section is not known yet.
    RecordsSectionOffsetUnknown(RecordsSection),
    /// A message has no question.
    MessageWithoutQuestion,
    /// A message of the wrong type.
    BadMessageType(MessageType),
    /// A response with a response code other than `NOERROR`.
    BadResponseCode(RCode),
    /// A truncated message.
    MessageTruncated,
    /// A response holds no answer to its question.
    NoAnswer,
    /// A record of a type that cannot be read here.
    UnexpectedType(Type),
    /// An internal error; the text says what happened.
    InternalError(&'static str),
    /// An answer could not be made from a response.
    AnswerError(AnswerError),
}

/// Why an answer could not be made from a response.
#[derive(Debug, Clone, Copy, PartialEq, Eq)]
pub enum AnswerError {
    /// The message is not a response.
    BadMessageType(MessageType),
    /// The response code is not `NOERROR`.
    BadResponseCode(RCode),
    /// The message was truncated.
    MessageTruncated,
    /// The response holds no answer to its question.
    NoAnswer,
}

/// A record type name is not recognized.
#[derive(Debug, Clone, Copy, PartialEq, Eq)]
pub struct UnknownTypeName;

/// A string is neither a record type name nor the generic `TYPE` text of a type value.
#[derive(Debug, Clone, Copy, PartialEq, Eq)]
pub struct TypeFromStrError;

/// A record class name is not recognized.
#[derive(Debug, Clone, Copy, PartialEq, Eq)]
pub struct UnknownClassName;

/// A string is neither a record class name nor the generic `CLASS` text of a class value.
#[derive(Debug, Clone, Copy, PartialEq, Eq)]
pub struct ClassFromStrError;

/// A message operation code name is not recognized.
#[derive(Debug, Clone, Copy, PartialEq, Eq)]
pub struct UnknownOpCodeName;

/// A string is neither an operation code name nor the generic `OPCODE` text of a value.
#[derive(Debug, Clone, Copy, PartialEq, Eq)]
pub struct OpCodeFromStrError;

/// A response code name is not recognized.
#[derive(Debug, Clone, Copy, PartialEq, Eq)]
pub struct UnknownRCodeName;

/// A string is neither a response code name nor the generic `RCODE` text of a value.
#[derive(Debug, Clone, Copy, PartialEq, Eq)]
pub struct RCodeFromStrError;

/// The result type of the library.
pub type Result<T> = core::result::Result<T, Error>;

} // verus!
