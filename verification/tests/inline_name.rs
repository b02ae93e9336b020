use std::cmp::Ordering;
use std::collections::HashSet;
use std::str::FromStr;

use rsdns::names::inline_name::InlineName;
use rsdns::names::name::Name;
use rsdns::Error;

#[test]
fn test_new() {
    let dn = InlineName::new();

    assert!(dn.is_empty());
    assert_eq!(dn.len(), 0);
}

#[test]
fn inline_name_test_default() {
    let dn: InlineName = Default::default();

    assert!(dn.is_empty());
    assert_eq!(dn.len(), 0);
}

#[test]
fn test_from() {
    let label_63 = "a".repeat(63);
    let label_61 = "b".repeat(60);

    let dn_253 = vec![
        label_63.as_str(),
        label_63.as_str(),
        label_63.as_str(),
        label_61.as_str(),
    ]
    .join(".");

    let dn_254 = dn_253.clone() + ".";

    let dn_255 = vec![
        label_63.as_str(),
        label_63.as_str(),
        label_63.as_str(),
        label_63.as_str(),
    ]
    .join(".");

    let success_cases = &[
        "com",
        "3om",
        "example.com",
        "sub.example.com",
        ".",
        "example.com.",
        "3xample.com",
        "EXAMPLE.com",
        "EXAMPLE.COM",
        "EXAMPLE.COM.",
        dn_253.as_str(),
        dn_254.as_str(),
    ];

    for sc in success_cases {
        let dn = InlineName::from(sc).unwrap();
        let expected = if sc.ends_with(".") {
            sc.to_string()
        } else {
            format!("{}.", sc)
        };
        assert_eq!(dn.as_str(), &expected);
        assert_eq!(dn.len(), expected.len());
    }

    let failure_cases = &[
        "",
        "..",
        "3o-",
        "co-",
        "example..com",
        "sub..example.com",
        "example-.com",
        "-xample.com",
        "examp|e.com",
        "exa\u{203C}ple.com",
        dn_255.as_str(),
    ];

    for fc in failure_cases {
        assert!(InlineName::from(fc).is_err())
    }
}

#[test]
fn test_len() {
    let mut dn = InlineName::new();
    assert_eq!(dn.len(), 0);

    dn.append_label("example").unwrap();
    assert_eq!(dn.len(), 8);

    dn.append_label("com").unwrap();
    assert_eq!(dn.len(), 12);
}

#[test]
fn test_append_label_too_long() {
    let l_63 = "a".repeat(63);
    let l_62 = "b".repeat(62);

    let mut dn = InlineName::new();

    dn.append_label(&l_63).unwrap();
    assert_eq!(dn.len(), 64);

    dn.append_label(&l_63).unwrap();
    assert_eq!(dn.len(), 128);

    dn.append_label(&l_63).unwrap();
    assert_eq!(dn.len(), 192);

    // test total size > 255
    {
        let mut dn = dn.clone();
        dn.append_label("small").unwrap();

        let res = dn.append_label(&l_63);
        assert!(matches!(res, Err(Error::DomainNameTooLong(s)) if s == dn.len() + l_63.len() + 1));
    }

    // test total size == 255
    let res = dn.clone().append_label(&l_63);
    assert!(matches!(res, Err(Error::DomainNameTooLong(s)) if s == dn.len() + l_63.len() + 1));

    dn.append_label(&l_62).unwrap();
    assert_eq!(dn.len(), 255);
}

#[test]
fn test_eq() {
    let dn1 = InlineName::from("example.com").unwrap();
    let dn2 = InlineName::from("EXAMPLE.COM").unwrap();
    let dn3 = InlineName::from("eXaMpLe.cOm").unwrap();

    assert_eq!(dn1, dn2);
    assert_eq!(dn1, dn3);
    assert_eq!(dn2, dn3);
}

#[test]
fn test_neq() {
    let dn1 = InlineName::from("example.com").unwrap();
    let dn2 = InlineName::from("sub.example.com").unwrap();
    let dn3 = InlineName::from("Sub.examp1e.com").unwrap();

    assert_ne!(dn1, dn2);
    assert_ne!(dn1, dn3);
    assert_ne!(dn2, dn3);
}

#[test]
fn test_eq_str() {
    let dn1 = InlineName::from("example.com").unwrap();
    let dn2 = InlineName::from("EXAMPLE.COM").unwrap();

    assert_eq!(dn1, "EXAMPLE.COM.");
    assert_eq!(dn1, "EXAMPLE.COM");

    assert_eq!(dn1, "eXaMpLe.cOm.");
    assert_eq!(dn2, "eXaMpLe.cOm");

    assert_eq!(dn2, "eXaMpLe.cOm");
    assert_eq!(dn2, "eXaMpLe.cOm.");

    assert_eq!(InlineName::from("sub.example.com").unwrap(), "sub.example.com.");
    assert_eq!(InlineName::from("sub.example.com.").unwrap(), "sub.example.com");

    assert_eq!(InlineName::new(), "");
    assert_eq!(InlineName::root(), ".");
}

#[test]
fn test_neq_str() {
    let dn1 = InlineName::from("example.com").unwrap();
    let dn2 = InlineName::from("sub.example.com").unwrap();

    assert_ne!(dn1, "sub.example.com");
    assert_ne!(dn1, "sub.example.com.");

    assert_ne!(dn1, "Sub.examp1e.com");
    assert_ne!(dn1, "Sub.examp1e.com.");

    assert_ne!(dn2, "Sub.examp1e.com");
    assert_ne!(dn2, "Sub.examp1e.com.");

    assert_ne!(InlineName::new(), ".");
    assert_ne!(InlineName::root(), "");
}

#[test]
fn test_ord() {
    let dn1 = InlineName::from("example.com").unwrap();
    let dn2 = InlineName::from("ExaMplE.com").unwrap();
    let dn3 = InlineName::from("Sub.example.com").unwrap();

    assert_eq!(Ordering::Equal, dn1.cmp(&dn2));
    assert_eq!(Ordering::Less, dn1.cmp(&dn3));
    assert_eq!(Ordering::Greater, dn3.cmp(&dn1));
    assert_eq!(Ordering::Equal, InlineName::root().cmp(&InlineName::root()));
    assert_eq!(Ordering::Equal, InlineName::new().cmp(&InlineName::new()));
}

#[test]
fn test_partial_ord() {
    let dn1 = InlineName::from("example.com").unwrap();
    let dn2 = InlineName::from("ExaMplE.com").unwrap();
    let dn3 = InlineName::from("Sub.example.com").unwrap();

    assert_eq!(Some(Ordering::Equal), dn1.partial_cmp(&dn2));
    assert_eq!(Some(Ordering::Less), dn1.partial_cmp(&dn3));
    assert_eq!(Some(Ordering::Greater), dn3.partial_cmp(&dn1));
    assert_eq!(Some(Ordering::Equal), InlineName::root().partial_cmp(&InlineName::root()));
    assert_eq!(Some(Ordering::Equal), InlineName::new().partial_cmp(&InlineName::new()));
}

#[test]
fn inline_name_conversions() {
    let n = Name::from("Example.Com").unwrap();
    assert_eq!(n.as_str(), "Example.Com.");
    let i = InlineName::from_name(&n);
    assert_eq!(i.as_str(), "Example.Com.");
    assert_eq!(i, n);
    let back = Name::from_inline(&i);
    assert_eq!(back.as_str(), "Example.Com.");
    assert_eq!(back, "example.com");
    let parsed = InlineName::from_str("example.com").unwrap();
    assert_eq!(parsed.to_string(), "example.com.");
    assert!(InlineName::from_str("example..com").is_err());
}

#[test]
fn inline_name_edit() {
    let mut dn = InlineName::from("example.com").unwrap();
    dn.clear();
    assert!(dn.is_empty());
    dn.set_root();
    assert_eq!(dn.as_str(), ".");
    let mut dn = InlineName::new();
    assert!(matches!(dn.append_label(""), Err(Error::DomainNameLabelIsEmpty)));
    assert!(matches!(
        dn.append_label(&"a".repeat(64)),
        Err(Error::DomainNameLabelTooLong(64))
    ));
    assert!(dn.is_empty());
    dn.append_label_bytes(b"host").unwrap();
    assert_eq!(dn.as_str(), "host.");
}

#[test]
fn test_hash() {
    let dn = InlineName::from("example.com").unwrap();

    let mut s = HashSet::new();
    s.insert(dn);

    assert!(s.contains(&InlineName::from("example.com.").unwrap()));
    assert!(s.contains(&InlineName::from("eXaMpLe.COM").unwrap()));
    assert!(s.contains(&InlineName::from("EXAMPLE.COM").unwrap()));

    assert!(!s.contains(&InlineName::from("suB.Example.com.").unwrap()));
}

#[test]
fn lowercase_bytes_of_a_name() {
    let dn = InlineName::from("ExAmple.COM").unwrap();
    assert_eq!(dn.lowercase_bytes(), b"example.com.".to_vec());
    assert_eq!(InlineName::new().lowercase_bytes(), Vec::<u8>::new());
}
