use rsdns::message::rcode::UNKNOWN_RCODE;
use rsdns::message::RCode;

const NAMES: [&str; 17] = [
    "NOERROR",
    "FORMERR",
    "SERVFAIL",
    "NXDOMAIN",
    "NOTIMP",
    "REFUSED",
    UNKNOWN_RCODE,
    UNKNOWN_RCODE,
    UNKNOWN_RCODE,
    UNKNOWN_RCODE,
    UNKNOWN_RCODE,
    UNKNOWN_RCODE,
    UNKNOWN_RCODE,
    UNKNOWN_RCODE,
    UNKNOWN_RCODE,
    UNKNOWN_RCODE,
    "BADVERS",
];

const VALUES: [u16; 7] = [
    RCode::NOERROR,
    RCode::FORMERR,
    RCode::SERVFAIL,
    RCode::NXDOMAIN,
    RCode::NOTIMP,
    RCode::REFUSED,
    RCode::BADVERS,
];

#[test]
fn rcode_test_name() {
    assert_eq!(RCode::from(RCode::NOERROR).name(), "NOERROR");
    assert_eq!(RCode::from(RCode::FORMERR).name(), "FORMERR");
    assert_eq!(RCode::from(RCode::SERVFAIL).name(), "SERVFAIL");
    assert_eq!(RCode::from(RCode::NXDOMAIN).name(), "NXDOMAIN");
    assert_eq!(RCode::from(RCode::NOTIMP).name(), "NOTIMP");
    assert_eq!(RCode::from(RCode::REFUSED).name(), "REFUSED");
    assert_eq!(RCode::from(RCode::BADVERS).name(), "BADVERS");

    for (i, v) in NAMES.iter().enumerate() {
        assert_eq!(RCode::from(i as u16).name(), *v);
    }
}

#[test]
fn rcode_test_from_name() {
    assert_eq!(RCode::from_name("NOERROR").unwrap(), RCode::from(RCode::NOERROR));
    assert_eq!(RCode::from_name("FORMERR").unwrap(), RCode::from(RCode::FORMERR));
    assert_eq!(RCode::from_name("SERVFAIL").unwrap(), RCode::from(RCode::SERVFAIL));
    assert_eq!(RCode::from_name("NXDOMAIN").unwrap(), RCode::from(RCode::NXDOMAIN));
    assert_eq!(RCode::from_name("NOTIMP").unwrap(), RCode::from(RCode::NOTIMP));
    assert_eq!(RCode::from_name("REFUSED").unwrap(), RCode::from(RCode::REFUSED));
    assert_eq!(RCode::from_name("BADVERS").unwrap(), RCode::from(RCode::BADVERS));

    for (i, name) in NAMES.iter().enumerate() {
        if *name != UNKNOWN_RCODE {
            assert_eq!(RCode::from(i as u16), RCode::from_name(name).unwrap());
            assert!(RCode::from_name(&name.to_lowercase()).is_err());
        } else {
            assert!(RCode::from_name(name).is_err());
        }
    }
}

#[test]
fn rcode_test_from_str() {
    assert_eq!(RCode::from_str("NOERROR").unwrap(), RCode::from(RCode::NOERROR));
    assert_eq!(RCode::from_str("FORMERR").unwrap(), RCode::from(RCode::FORMERR));
    assert_eq!(RCode::from_str("SERVFAIL").unwrap(), RCode::from(RCode::SERVFAIL));
    assert_eq!(RCode::from_str("NXDOMAIN").unwrap(), RCode::from(RCode::NXDOMAIN));
    assert_eq!(RCode::from_str("NOTIMP").unwrap(), RCode::from(RCode::NOTIMP));
    assert_eq!(RCode::from_str("REFUSED").unwrap(), RCode::from(RCode::REFUSED));
    assert_eq!(RCode::from_str("BADVERS").unwrap(), RCode::from(RCode::BADVERS));

    for (i, name) in NAMES.iter().enumerate() {
        if *name != UNKNOWN_RCODE {
            assert_eq!(RCode::from(i as u16), RCode::from_str(name).unwrap());
            assert!(RCode::from_str(&name.to_lowercase()).is_err());
        }
    }

    for i in 0..=u16::MAX {
        let s = format!("RCODE{}", i);
        assert_eq!(RCode::from_str(&s).unwrap(), RCode::from(i));
        assert!(RCode::from_str(&s.to_lowercase()).is_err());
    }

    assert!(RCode::from_str("RCODE65536").is_err());
}

#[test]
fn rcode_test_is_defined() {
    assert!(RCode::from(RCode::NOERROR).is_defined());
    assert!(RCode::from(RCode::FORMERR).is_defined());
    assert!(RCode::from(RCode::SERVFAIL).is_defined());
    assert!(RCode::from(RCode::NXDOMAIN).is_defined());
    assert!(RCode::from(RCode::NOTIMP).is_defined());
    assert!(RCode::from(RCode::REFUSED).is_defined());
    assert!(RCode::from(RCode::BADVERS).is_defined());

    for v in VALUES {
        assert!(RCode::from(v).is_defined());
    }

    for (i, name) in NAMES.iter().enumerate() {
        assert_eq!(RCode::from(i as u16).is_defined(), *name != UNKNOWN_RCODE);
    }

    for i in 0..=u8::MAX {
        let rcode = RCode::from(i as u16);
        assert_eq!(rcode.is_defined(), VALUES.iter().any(|e| RCode::from(*e) == rcode));
    }
}

#[test]
fn rcode_text_and_extension() {
    assert_eq!(RCode::from(RCode::NOERROR).to_string(), "NOERROR");
    assert_eq!(RCode::from(100).to_string(), "RCODE100");
    assert_eq!(RCode::from(65535).to_string(), "RCODE65535");
    assert_eq!(RCode::from(RCode::BADVERS), 16u16);
    assert!(RCode::from(RCode::NOERROR) < 1u16);
    assert_eq!(RCode::extended(RCode::from(RCode::NOERROR), 1), RCode::from(RCode::BADVERS));
    assert_eq!(RCode::extended(RCode::from(3), 0), RCode::from(3));
    assert_eq!(RCode::extended(RCode::from(0x1F), 0xFF).value(), 0xFFF);
    for i in 0..=u16::MAX {
        let r = RCode::from(i);
        assert_eq!(RCode::from_str(&r.to_string()).unwrap(), r);
    }
}
