use rsdns::bytes::{Cursor, WCursor};
use rsdns::message::{Flags, MessageType, OpCode, RCode, RecordsSection};
use rsdns::message::reader::message_iterator::MessageIterator;
use rsdns::message::reader::message_reader::MessageReader;
use rsdns::names::name::Name;
use rsdns::records::data::{Ns, RDataBase, RecordData, A};
use rsdns::records::Opt;
use rsdns::Error;

#[test]
fn opt_fields_round_trip_through_ttl() {
    let opt = Opt::new(1, 1232);
    assert_eq!(opt.version(), 1);
    assert_eq!(opt.udp_payload_size(), 1232);
    assert_eq!(opt.rcode_extension(), 0);
    assert!(!opt.dnssec_ok());
    assert_eq!(opt.ttl(), 0x0001_0000);
    let back = Opt::from_msg(opt.udp_payload_size(), opt.ttl());
    assert_eq!(back.version(), 1);
    assert_eq!(back.udp_payload_size(), 1232);

    let opt = Opt::from_msg(4096, 0x12_34_80_01);
    assert_eq!(opt.rcode_extension(), 0x12);
    assert_eq!(opt.version(), 0x34);
    assert!(opt.dnssec_ok());
    assert_eq!(opt.ttl(), 0x12_34_80_01);
}

#[test]
fn opt_is_written_as_a_record() {
    let mut buf = [0xAAu8; 11];
    let mut w = WCursor::new(&mut buf[..]);
    w.write_opt(&Opt::from_msg(512, 0x00_00_80_00)).unwrap();
    assert_eq!(buf, [0, 0, 41, 0x02, 0x00, 0, 0, 0x80, 0, 0, 0]);

    let mut short = [0u8; 10];
    let mut w = WCursor::new(&mut short[..]);
    assert!(matches!(w.write_opt(&Opt::new(0, 512)), Err(Error::EndOfBuffer)));
}

#[test]
fn flags_fields_are_independent() {
    let mut f = Flags::new();
    assert_eq!(f.message_type(), MessageType::Query);
    f.set_opcode(OpCode::from(OpCode::STATUS));
    f.set_response_code(RCode::from(RCode::NXDOMAIN));
    f.set_recursion_desired(true);
    assert_eq!(f.opcode(), OpCode::from(OpCode::STATUS));
    assert_eq!(f.response_code(), RCode::from(RCode::NXDOMAIN));
    assert!(f.recursion_desired());
    assert!(!f.recursion_available());
    assert!(!f.truncated());
    assert!(!f.authoritative_answer());
    f.set_message_type(MessageType::Response).set_truncated(true);
    assert_eq!(f.message_type(), MessageType::Response);
    assert!(f.truncated());
    f.set_truncated(false);
    assert!(!f.truncated());
    assert_eq!(f.opcode(), OpCode::from(OpCode::STATUS));
    let bits: u16 = f.into();
    assert_eq!(bits, 0x8000 | 0x1000 | 0x0100 | 0x0003);
    assert_eq!(Flags::from(bits), f);
}

#[test]
fn message_type_and_sections() {
    assert_eq!(MessageType::Query.as_str(), "Query");
    assert_eq!(MessageType::Response.to_string(), "Response");
    assert!(MessageType::Query.is_query());
    assert!(MessageType::Response.is_response());
    for i in 0..3 {
        assert_eq!(RecordsSection::at(i).index(), i);
    }
    assert_eq!(RecordsSection::Authority.as_str(), "Authority");
}

#[test]
fn character_strings() {
    let data = b"\x03abc\x00\x05ab";
    let mut c = Cursor::new(&data[..]);
    assert_eq!(c.read_character_string().unwrap(), b"abc".to_vec());
    assert_eq!(c.read_character_string().unwrap(), Vec::<u8>::new());
    assert!(matches!(c.read_character_string(), Err(Error::EndOfBuffer)));
}

#[test]
fn cursor_windows() {
    let data = [1u8, 2, 3, 4, 5, 6];
    let mut c = Cursor::new(&data[..]);
    c.window(2).unwrap();
    assert_eq!(c.u16_be().unwrap(), 0x0102);
    assert!(matches!(c.u8(), Err(Error::EndOfBuffer)));
    c.close_window().unwrap();
    assert_eq!(c.u32_be().unwrap(), 0x03040506);

    let mut c = Cursor::new(&data[..]);
    c.window(3).unwrap();
    c.u8().unwrap();
    assert!(matches!(c.close_window(), Err(Error::CursorWindowError { expected: 3, actual: 1 })));
    assert!(matches!(Cursor::new(&data[..]).window(7), Err(Error::EndOfBuffer)));
}

#[test]
fn names_on_the_heap() {
    let n = Name::from("Example.COM").unwrap();
    assert_eq!(n.as_str(), "Example.COM.");
    assert_eq!(n.len(), 12);
    assert_eq!(n, "example.com.");
    assert_eq!(n, Name::from("example.com.").unwrap());
    assert_ne!(n, Name::from("example.org").unwrap());
    assert!(matches!(Name::from("a..b"), Err(Error::DomainNameLabelIsEmpty)));
    let mut m = Name::new();
    assert!(m.is_empty());
    m.append_label("www").unwrap();
    m.append_label("example").unwrap();
    assert_eq!(m.as_str(), "www.example.");
    m.clear();
    m.set_root();
    assert_eq!(m.as_str(), ".");
    assert_eq!(Name::root().to_string(), ".");
    assert_eq!(n.clone().as_str(), "Example.COM.");
}

#[test]
fn reader_done_after_the_last_record() {
    // a response with no question and one A record
    let msg = [
        0x00, 0x01, 0x81, 0x80, 0, 0, 0, 1, 0, 0, 0, 0, // header
        0, 0, 1, 0, 1, 0, 0, 0, 10, 0, 4, 127, 0, 0, 1, // . A IN 10 127.0.0.1
    ];
    let mut mr = MessageReader::new(&msg[..]).unwrap();
    mr.header().unwrap();
    assert!(matches!(mr.question_ref(), Err(Error::ReaderDone)));
    let mut mr = MessageReader::new(&msg[..]).unwrap();
    mr.header().unwrap();
    let m = mr.record_marker().unwrap();
    assert_eq!(m.rdlen, 4);
    mr.skip_record_data(&m).unwrap();
    assert!(!mr.has_records());
    assert!(matches!(mr.record_marker(), Err(Error::ReaderDone)));
}

#[test]
fn unsupported_types_and_conversions() {
    // a response with one record of type ANY, which is defined but has no data type
    let msg = [
        0x00, 0x01, 0x81, 0x80, 0, 0, 0, 0, 0, 0, 0, 1, // header
        0, 0, 255, 0, 1, 0, 0, 0, 0, 0, 0, // . ANY IN
    ];
    let mi = MessageIterator::new(&msg[..]).unwrap();
    let mut records = mi.records();
    assert!(matches!(records.next(), Some(Err(Error::UnexpectedType(_)))));
    assert!(records.next().is_none());

    let ns = RecordData::Ns(Ns { nsdname: Name::from("ns.example.com").unwrap() });
    assert!(matches!(
        <A as RDataBase>::from(ns),
        Err(Error::InternalError("record data conversion failed"))
    ));
    assert!(matches!(
        <A as RDataBase>::from(RecordData::A(A { address: [1, 2, 3, 4] })),
        Ok(A { address: [1, 2, 3, 4] })
    ));

    // records of undefined classes and types are skipped
    let msg = [
        0x00, 0x01, 0x81, 0x80, 0, 0, 0, 2, 0, 0, 0, 0, // header
        0, 0x10, 0x00, 0, 9, 0, 0, 0, 0, 0, 1, 0xAB, // . TYPE4096 CLASS9
        0, 0, 1, 0, 1, 0, 0, 0, 10, 0, 4, 10, 0, 0, 1, // . A IN
    ];
    let mi = MessageIterator::new(&msg[..]).unwrap();
    let mut records = mi.records();
    let (section, rec) = records.next().unwrap().unwrap();
    assert_eq!(section, RecordsSection::Answer);
    assert!(matches!(rec.rdata, RecordData::A(A { address: [10, 0, 0, 1] })));
    assert!(records.next().is_none());
}
