use rsdns::records::Type;

const VALUES: [u16; 22] = [
    Type::A,
    Type::NS,
    Type::MD,
    Type::MF,
    Type::CNAME,
    Type::SOA,
    Type::MB,
    Type::MG,
    Type::MR,
    Type::NULL,
    Type::WKS,
    Type::PTR,
    Type::HINFO,
    Type::MINFO,
    Type::MX,
    Type::TXT,
    Type::AAAA,
    Type::OPT,
    Type::AXFR,
    Type::MAILB,
    Type::MAILA,
    Type::ANY,
];

fn names() -> Vec<&'static str> {
    let mut names = vec![""; 256];
    names[1] = "A";
    names[2] = "NS";
    names[3] = "MD";
    names[4] = "MF";
    names[5] = "CNAME";
    names[6] = "SOA";
    names[7] = "MB";
    names[8] = "MG";
    names[9] = "MR";
    names[10] = "NULL";
    names[11] = "WKS";
    names[12] = "PTR";
    names[13] = "HINFO";
    names[14] = "MINFO";
    names[15] = "MX";
    names[16] = "TXT";
    names[28] = "AAAA";
    names[41] = "OPT";
    names[252] = "AXFR";
    names[253] = "MAILB";
    names[254] = "MAILA";
    names[255] = "ANY";
    names
}

#[test]
fn type_test_name() {
    assert_eq!(Type::from(Type::A).name(), "A");
    assert_eq!(Type::from(Type::NS).name(), "NS");
    assert_eq!(Type::from(Type::MD).name(), "MD");
    assert_eq!(Type::from(Type::MF).name(), "MF");
    assert_eq!(Type::from(Type::CNAME).name(), "CNAME");
    assert_eq!(Type::from(Type::SOA).name(), "SOA");
    assert_eq!(Type::from(Type::MB).name(), "MB");
    assert_eq!(Type::from(Type::MG).name(), "MG");
    assert_eq!(Type::from(Type::MR).name(), "MR");
    assert_eq!(Type::from(Type::NULL).name(), "NULL");
    assert_eq!(Type::from(Type::WKS).name(), "WKS");
    assert_eq!(Type::from(Type::PTR).name(), "PTR");
    assert_eq!(Type::from(Type::HINFO).name(), "HINFO");
    assert_eq!(Type::from(Type::MINFO).name(), "MINFO");
    assert_eq!(Type::from(Type::MX).name(), "MX");
    assert_eq!(Type::from(Type::TXT).name(), "TXT");
    assert_eq!(Type::from(Type::AAAA).name(), "AAAA");
    assert_eq!(Type::from(Type::OPT).name(), "OPT");
    assert_eq!(Type::from(Type::AXFR).name(), "AXFR");
    assert_eq!(Type::from(Type::MAILB).name(), "MAILB");
    assert_eq!(Type::from(Type::MAILA).name(), "MAILA");
    assert_eq!(Type::from(Type::ANY).name(), "ANY");

    for (i, name) in names().iter().enumerate() {
        let type_ = Type::from(i as u16);
        match type_.value() {
            Type::A => assert_eq!(Type::from(Type::A).name(), *name),
            Type::NS => assert_eq!(Type::from(Type::NS).name(), *name),
            Type::MD => assert_eq!(Type::from(Type::MD).name(), *name),
            Type::MF => assert_eq!(Type::from(Type::MF).name(), *name),
            Type::CNAME => assert_eq!(Type::from(Type::CNAME).name(), *name),
            Type::SOA => assert_eq!(Type::from(Type::SOA).name(), *name),
            Type::MB => assert_eq!(Type::from(Type::MB).name(), *name),
            Type::MG => assert_eq!(Type::from(Type::MG).name(), *name),
            Type::MR => assert_eq!(Type::from(Type::MR).name(), *name),
            Type::NULL => assert_eq!(Type::from(Type::NULL).name(), *name),
            Type::WKS => assert_eq!(Type::from(Type::WKS).name(), *name),
            Type::PTR => assert_eq!(Type::from(Type::PTR).name(), *name),
            Type::HINFO => assert_eq!(Type::from(Type::HINFO).name(), *name),
            Type::MINFO => assert_eq!(Type::from(Type::MINFO).name(), *name),
            Type::MX => assert_eq!(Type::from(Type::MX).name(), *name),
            Type::TXT => assert_eq!(Type::from(Type::TXT).name(), *name),
            Type::AAAA => assert_eq!(Type::from(Type::AAAA).name(), *name),
            Type::OPT => assert_eq!(Type::from(Type::OPT).name(), *name),
            Type::AXFR => assert_eq!(Type::from(Type::AXFR).name(), *name),
            Type::MAILB => assert_eq!(Type::from(Type::MAILB).name(), *name),
            Type::MAILA => assert_eq!(Type::from(Type::MAILA).name(), *name),
            Type::ANY => assert_eq!(Type::from(Type::ANY).name(), *name),
            _ => assert_eq!("", *name),
        }
    }
}

#[test]
fn type_test_from_name() {
    assert_eq!(Type::from_name("A").unwrap(), Type::from(Type::A));
    assert_eq!(Type::from_name("NS").unwrap(), Type::from(Type::NS));
    assert_eq!(Type::from_name("MD").unwrap(), Type::from(Type::MD));
    assert_eq!(Type::from_name("MF").unwrap(), Type::from(Type::MF));
    assert_eq!(Type::from_name("CNAME").unwrap(), Type::from(Type::CNAME));
    assert_eq!(Type::from_name("SOA").unwrap(), Type::from(Type::SOA));
    assert_eq!(Type::from_name("MB").unwrap(), Type::from(Type::MB));
    assert_eq!(Type::from_name("MG").unwrap(), Type::from(Type::MG));
    assert_eq!(Type::from_name("MR").unwrap(), Type::from(Type::MR));
    assert_eq!(Type::from_name("NULL").unwrap(), Type::from(Type::NULL));
    assert_eq!(Type::from_name("WKS").unwrap(), Type::from(Type::WKS));
    assert_eq!(Type::from_name("PTR").unwrap(), Type::from(Type::PTR));
    assert_eq!(Type::from_name("HINFO").unwrap(), Type::from(Type::HINFO));
    assert_eq!(Type::from_name("MINFO").unwrap(), Type::from(Type::MINFO));
    assert_eq!(Type::from_name("MX").unwrap(), Type::from(Type::MX));
    assert_eq!(Type::from_name("TXT").unwrap(), Type::from(Type::TXT));
    assert_eq!(Type::from_name("AAAA").unwrap(), Type::from(Type::AAAA));
    assert_eq!(Type::from_name("OPT").unwrap(), Type::from(Type::OPT));
    assert_eq!(Type::from_name("AXFR").unwrap(), Type::from(Type::AXFR));
    assert_eq!(Type::from_name("MAILB").unwrap(), Type::from(Type::MAILB));
    assert_eq!(Type::from_name("MAILA").unwrap(), Type::from(Type::MAILA));
    assert_eq!(Type::from_name("ANY").unwrap(), Type::from(Type::ANY));

    for (i, name) in names().iter().enumerate() {
        if !name.is_empty() {
            assert_eq!(Type::from_name(name).unwrap(), Type::from(i as u16));
            assert!(Type::from_name(&name.to_lowercase()).is_err());
        }
    }
}

#[test]
fn type_test_from_str() {
    assert_eq!(Type::from_str("A").unwrap(), Type::from(Type::A));
    assert_eq!(Type::from_str("NS").unwrap(), Type::from(Type::NS));
    assert_eq!(Type::from_str("MD").unwrap(), Type::from(Type::MD));
    assert_eq!(Type::from_str("MF").unwrap(), Type::from(Type::MF));
    assert_eq!(Type::from_str("CNAME").unwrap(), Type::from(Type::CNAME));
    assert_eq!(Type::from_str("SOA").unwrap(), Type::from(Type::SOA));
    assert_eq!(Type::from_str("MB").unwrap(), Type::from(Type::MB));
    assert_eq!(Type::from_str("MG").unwrap(), Type::from(Type::MG));
    assert_eq!(Type::from_str("MR").unwrap(), Type::from(Type::MR));
    assert_eq!(Type::from_str("NULL").unwrap(), Type::from(Type::NULL));
    assert_eq!(Type::from_str("WKS").unwrap(), Type::from(Type::WKS));
    assert_eq!(Type::from_str("PTR").unwrap(), Type::from(Type::PTR));
    assert_eq!(Type::from_str("HINFO").unwrap(), Type::from(Type::HINFO));
    assert_eq!(Type::from_str("MINFO").unwrap(), Type::from(Type::MINFO));
    assert_eq!(Type::from_str("MX").unwrap(), Type::from(Type::MX));
    assert_eq!(Type::from_str("TXT").unwrap(), Type::from(Type::TXT));
    assert_eq!(Type::from_str("AAAA").unwrap(), Type::from(Type::AAAA));
    assert_eq!(Type::from_str("OPT").unwrap(), Type::from(Type::OPT));
    assert_eq!(Type::from_str("AXFR").unwrap(), Type::from(Type::AXFR));
    assert_eq!(Type::from_str("MAILB").unwrap(), Type::from(Type::MAILB));
    assert_eq!(Type::from_str("MAILA").unwrap(), Type::from(Type::MAILA));
    assert_eq!(Type::from_str("ANY").unwrap(), Type::from(Type::ANY));

    for (i, name) in names().iter().enumerate() {
        if !name.is_empty() {
            assert_eq!(Type::from_str(name).unwrap(), Type::from(i as u16));
            assert!(Type::from_str(&name.to_lowercase()).is_err());
        }
    }

    for i in 0..=u16::MAX {
        let s = format!("TYPE{i}");
        assert_eq!(Type::from_str(&s).unwrap(), Type::from(i));
        assert!(Type::from_str(&s.to_lowercase()).is_err());
    }
}

#[test]
fn type_test_is_defined() {
    assert!(Type::from(Type::A).is_defined());
    assert!(Type::from(Type::NS).is_defined());
    assert!(Type::from(Type::MD).is_defined());
    assert!(Type::from(Type::MF).is_defined());
    assert!(Type::from(Type::CNAME).is_defined());
    assert!(Type::from(Type::SOA).is_defined());
    assert!(Type::from(Type::MB).is_defined());
    assert!(Type::from(Type::MG).is_defined());
    assert!(Type::from(Type::MR).is_defined());
    assert!(Type::from(Type::NULL).is_defined());
    assert!(Type::from(Type::WKS).is_defined());
    assert!(Type::from(Type::PTR).is_defined());
    assert!(Type::from(Type::HINFO).is_defined());
    assert!(Type::from(Type::MINFO).is_defined());
    assert!(Type::from(Type::MX).is_defined());
    assert!(Type::from(Type::TXT).is_defined());
    assert!(Type::from(Type::AAAA).is_defined());
    assert!(Type::from(Type::OPT).is_defined());
    assert!(Type::from(Type::AXFR).is_defined());
    assert!(Type::from(Type::MAILB).is_defined());
    assert!(Type::from(Type::MAILA).is_defined());
    assert!(Type::from(Type::ANY).is_defined());

    for (i, name) in names().iter().enumerate() {
        assert_eq!(Type::from(i as u16).is_defined(), !name.is_empty());
    }

    for i in 0..=256 {
        assert_eq!(Type::from(i).is_defined(), VALUES.iter().any(|v| *v == i));
    }
}

#[test]
fn type_kinds_and_text() {
    assert!(Type::from(Type::A).is_data_type());
    assert!(!Type::from(Type::A).is_meta_type());
    assert!(Type::from(Type::OPT).is_data_type());
    assert!(Type::from(0x8000).is_data_type());
    assert!(!Type::from(0xF000).is_data_type());
    assert!(!Type::from(0).is_data_type());
    assert!(Type::from(Type::ANY).is_meta_type());
    assert!(!Type::from(Type::AXFR).is_data_type());
    assert_eq!(Type::from(Type::AAAA).to_string(), "AAAA");
    assert_eq!(Type::from(1000).to_string(), "TYPE1000");
    assert_eq!(Type::from(Type::MX), 15u16);
    assert!(Type::from(Type::MX) < 16u16);
    assert_eq!(Type::from(300).name(), "__UNKNOWN_TYPE__");
    assert!(Type::from_str("TYPE65536").is_err());
    assert!(Type::from_name("a").is_err());
}

#[test]
fn type_text_round_trip() {
    for i in 0..=u16::MAX {
        let t = Type::from(i);
        assert_eq!(Type::from_str(&t.to_string()).unwrap(), t);
    }
}
