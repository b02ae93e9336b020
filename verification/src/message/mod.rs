//! DNS messages: header fields, codes and readers.

pub mod answer;
pub mod character_string;
pub mod class_value;
pub mod flags;
pub mod header;
pub mod message_type;
pub mod opcode;
pub mod opcode_value;
pub mod operation_code;
pub mod query_writer;
pub mod question;
pub mod rcode;
pub mod rcode_value;
pub mod reader;
pub mod records_section;
pub mod record_class;
pub mod record_type;
pub mod response_code;
pub mod type_value;

pub use answer::Answer;
pub use class_value::ClassValue;
pub use flags::Flags;
pub use header::Header;
pub use message_type::MessageType;
pub use opcode::OpCode;
pub use opcode_value::OpCodeValue;
pub use operation_code::OperationCode;
pub use query_writer::QueryWriter;
pub use question::Question;
pub use rcode::RCode;
pub use rcode_value::RCodeValue;
pub use records_section::RecordsSection;
pub use record_class::RecordClass;
pub use record_type::RecordType;
pub use response_code::ResponseCode;
pub use type_value::TypeValue;
