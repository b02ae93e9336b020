use rsdns::message::opcode::UNKNOWN_OPCODE;
use rsdns::message::OpCode;

const NAMES: [&str; 7] = ["QUERY", "IQUERY", "STATUS", "", "", "", ""];

const VALUES: [u8; 3] = [OpCode::QUERY, OpCode::IQUERY, OpCode::STATUS];

#[test]
fn opcode_test_name() {
    assert_eq!(OpCode::from(OpCode::QUERY).name(), "QUERY");
    assert_eq!(OpCode::from(OpCode::IQUERY).name(), "IQUERY");
    assert_eq!(OpCode::from(OpCode::STATUS).name(), "STATUS");

    for (i, name) in NAMES.iter().enumerate() {
        if !name.is_empty() {
            assert_eq!(OpCode::from(i as u8).name(), *name);
        } else {
            assert_eq!(OpCode::from(i as u8).name(), "__UNKNOWN_OPCODE__");
        }
    }
    assert_eq!(UNKNOWN_OPCODE, "__UNKNOWN_OPCODE__");
}

#[test]
fn opcode_test_from_name() {
    assert_eq!(OpCode::from_name("QUERY").unwrap(), OpCode::from(OpCode::QUERY));
    assert_eq!(OpCode::from_name("IQUERY").unwrap(), OpCode::from(OpCode::IQUERY));
    assert_eq!(OpCode::from_name("STATUS").unwrap(), OpCode::from(OpCode::STATUS));

    for (i, name) in NAMES.iter().enumerate() {
        let opcode = OpCode::from(i as u8);
        match opcode.value() {
            OpCode::QUERY => {
                assert_eq!(OpCode::from_name(name).unwrap(), OpCode::from(OpCode::QUERY))
            }
            OpCode::IQUERY => {
                assert_eq!(OpCode::from_name(name).unwrap(), OpCode::from(OpCode::IQUERY))
            }
            OpCode::STATUS => {
                assert_eq!(OpCode::from_name(name).unwrap(), OpCode::from(OpCode::STATUS))
            }
            _ => assert!(OpCode::from_name(name).is_err()),
        }
        assert!(OpCode::from_name(&name.to_lowercase()).is_err());
    }
}

#[test]
fn opcode_test_from_str() {
    assert_eq!(OpCode::from_str("QUERY").unwrap(), OpCode::from(OpCode::QUERY));
    assert_eq!(OpCode::from_str("IQUERY").unwrap(), OpCode::from(OpCode::IQUERY));
    assert_eq!(OpCode::from_str("STATUS").unwrap(), OpCode::from(OpCode::STATUS));

    for (i, name) in NAMES.iter().enumerate() {
        if !name.is_empty() {
            assert_eq!(OpCode::from_str(name).unwrap(), OpCode::from(i as u8));
            assert!(OpCode::from_str(&name.to_lowercase()).is_err());
        }
    }

    for i in 0..=u8::MAX {
        let s = format!("OPCODE{i}");
        assert_eq!(OpCode::from_str(&s).unwrap(), OpCode::from(i));
        assert!(OpCode::from_str(&s.to_lowercase()).is_err());
    }
}

#[test]
fn opcode_test_is_defined() {
    assert!(OpCode::from(OpCode::QUERY).is_defined());
    assert!(OpCode::from(OpCode::IQUERY).is_defined());
    assert!(OpCode::from(OpCode::STATUS).is_defined());

    for (i, name) in NAMES.iter().enumerate() {
        assert_eq!(OpCode::from(i as u8).is_defined(), !name.is_empty());
    }

    for i in 0..=255 {
        assert_eq!(OpCode::from(i).is_defined(), VALUES.iter().any(|v| *v == i));
    }
}

#[test]
fn opcode_text_and_order() {
    assert_eq!(OpCode::from(0), 0u8);
    assert!(OpCode::from(OpCode::QUERY) < 1u8);
    assert_eq!(OpCode::from(20).name(), "__UNKNOWN_OPCODE__");
    assert_eq!(OpCode::from(100).value(), 100);
    assert_eq!(OpCode::from(OpCode::QUERY).to_string(), "QUERY");
    assert_eq!(OpCode::from(100).to_string(), "OPCODE100");
    assert_eq!(OpCode::from_str("OPCODE1").unwrap(), OpCode::from(OpCode::IQUERY));
    assert_eq!(OpCode::from_str("OPCODE100").unwrap(), OpCode::from(100));
    assert!(OpCode::from_str("OPCODE256").is_err());
    assert!(OpCode::from_str("OPCODE").is_err());
    assert!(OpCode::from_name("UNKNOWN").is_err());
    assert!(OpCode::from_name("Query").is_err());
}

#[test]
fn opcode_text_round_trip() {
    for i in 0..=u8::MAX {
        let op = OpCode::from(i);
        assert_eq!(OpCode::from_str(&op.to_string()).unwrap(), op);
    }
}
