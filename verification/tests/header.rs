use rsdns::bytes::{Cursor, Reader, WCursor, Writer};
use rsdns::constants::HEADER_LENGTH;
use rsdns::message::{Flags, Header, MessageType, OpCode, RCode};
use rsdns::{Error, Result};

fn random_opcode() -> OpCode {
    let values = [OpCode::QUERY, OpCode::IQUERY, OpCode::STATUS];
    OpCode::from(values[rand::random::<usize>() % values.len()])
}

fn random_rcode() -> RCode {
    let values = [
        RCode::NOERROR,
        RCode::FORMERR,
        RCode::SERVFAIL,
        RCode::NXDOMAIN,
        RCode::NOTIMP,
        RCode::REFUSED,
        RCode::BADVERS,
    ];
    RCode::from(values[rand::random::<usize>() % values.len()])
}

#[test]
fn test_serialization() {
    let message_type = if rand::random::<bool>() {
        MessageType::Response
    } else {
        MessageType::Query
    };
    let flags = *Flags::new()
        .set_message_type(message_type)
        .set_authoritative_answer(rand::random())
        .set_recursion_available(rand::random())
        .set_recursion_desired(rand::random())
        .set_truncated(rand::random())
        .set_opcode(random_opcode())
        .set_response_code(random_rcode());

    let header = Header {
        id: rand::random::<u16>(),
        flags,
        qd_count: rand::random::<u16>(),
        an_count: rand::random::<u16>(),
        ns_count: rand::random::<u16>(),
        ar_count: rand::random::<u16>(),
    };

    let mut buf = [0u8; HEADER_LENGTH];

    {
        let mut wcursor = WCursor::new(&mut buf[..]);
        wcursor.write(&header).unwrap();
    }

    let mut cursor = Cursor::new(&buf[..]);

    let another: Header = cursor.read().unwrap();

    assert_eq!(header, another);
}

#[test]
fn test_serializaton_end_of_buffer() {
    let mut empty_arr = [0u8; 0];
    let mut small_arr = [0u8; HEADER_LENGTH - 1];

    let res: Result<Header> = Cursor::new(&empty_arr[..]).read();
    assert!(matches!(res, Err(Error::EndOfBuffer)));

    let res: Result<Header> = Cursor::new(&small_arr[..]).read();
    assert!(matches!(res, Err(Error::EndOfBuffer)));

    let header = Header::default();

    assert!(matches!(
        WCursor::new(&mut empty_arr[..]).write(&header),
        Err(Error::EndOfBuffer)
    ));

    assert!(matches!(
        WCursor::new(&mut small_arr[..]).write(&header),
        Err(Error::EndOfBuffer)
    ));
}

#[test]
fn header_round_trip_all_fields() {
    let flags = *Flags::new()
        .set_message_type(MessageType::Response)
        .set_authoritative_answer(true)
        .set_recursion_available(true)
        .set_recursion_desired(false)
        .set_truncated(true)
        .set_opcode(OpCode::from(OpCode::STATUS))
        .set_response_code(RCode::from(RCode::REFUSED));
    let header = Header {
        id: 0xBEEF,
        flags,
        qd_count: 1,
        an_count: 2,
        ns_count: 3,
        ar_count: 0xFFFF,
    };
    let mut buf = [0u8; HEADER_LENGTH];
    let n = WCursor::new(&mut buf[..]).write(&header).unwrap();
    assert_eq!(n, HEADER_LENGTH);
    assert_eq!(&buf[..2], &[0xBE, 0xEF]);
    assert_eq!(&buf[4..], &[0, 1, 0, 2, 0, 3, 0xFF, 0xFF]);
    let back: Header = Cursor::new(&buf[..]).read().unwrap();
    assert_eq!(back, header);
    assert!(back.flags.truncated());
    assert!(!back.flags.recursion_desired());
    assert_eq!(back.flags.opcode(), OpCode::from(OpCode::STATUS));
    assert_eq!(back.flags.response_code(), RCode::from(RCode::REFUSED));
}
