use std::str::FromStr;

use rsdns::bytes::{Cursor, Reader, WCursor};
use rsdns::names::inline_name::InlineName;
use rsdns::Error;

#[test]
fn test_write_good_flow() {
    let expectations: Vec<(&str, &[u8])> = vec![
        ("sub.example.com", b"\x03sub\x07example\x03com\x00"),
        ("example.com.", b"\x07example\x03com\x00"),
        ("com", b"\x03com\x00"),
        ("com.", b"\x03com\x00"),
    ];

    for ex in expectations {
        let mut arr = [0xFFu8; 64];
        let mut wcursor = WCursor::new(&mut arr[..]);

        let len = wcursor.write_domain_name(ex.0).unwrap();

        assert_eq!(len, ex.1.len());
        assert_eq!(&arr[..len], ex.1);

        let mut cursor = Cursor::new(&arr[..len]);
        let dn: InlineName = cursor.read().unwrap();

        assert_eq!(dn, InlineName::from_str(ex.0).unwrap());
    }
}

#[test]
fn test_write_domain_too_long() {
    let mut arr = [0xFFu8; 1024];

    let l_63 = "a".repeat(63);

    let long_label = vec![l_63.as_str(), l_63.as_str(), l_63.as_str(), l_63.as_str()].join(".");
    assert_eq!(long_label.len(), 255);

    {
        let mut wcursor = WCursor::new(&mut arr[..]);
        assert!(matches!(
            wcursor.write_domain_name(&long_label),
            Err(Error::DomainNameTooLong(s)) if s == long_label.len() + 2
        ));
    }

    {
        let mut wcursor = WCursor::new(&mut arr[..]);
        assert!(matches!(
            wcursor.write_domain_name(&long_label[..long_label.len() - 1]),
            Err(Error::DomainNameTooLong(s)) if s == long_label.len() + 1
        ));
    }

    {
        let mut wcursor = WCursor::new(&mut arr[..]);
        let len = wcursor
            .write_domain_name(&long_label[..long_label.len() - 2])
            .unwrap();
        assert_eq!(len, 255);

        let mut cursor = Cursor::new(&arr[..len]);
        let dn: InlineName = cursor.read().unwrap();

        assert_eq!(dn, InlineName::from_str(&long_label[..long_label.len() - 2]).unwrap());
        assert_eq!(dn.len(), 254);
    }
}

#[test]
fn test_write_malformed_label() {
    let empty: Vec<&str> = vec!["", "..", "example.com..", "example..com", "sub..example.com"];

    for e in empty {
        let mut arr = [0xFFu8; 32];
        let mut wcursor = WCursor::new(&mut arr[..]);
        assert!(matches!(
            wcursor.write_domain_name(e),
            Err(Error::DomainNameLabelIsEmpty)
        ));
    }

    let samples: Vec<(&str, u8)> = vec![("-xample.com", b'-')];

    for (s, c) in samples {
        let mut arr = [0xFFu8; 32];
        let mut wcursor = WCursor::new(&mut arr[..]);
        assert!(matches!(
            wcursor.write_domain_name(s),
            Err(Error::DomainNameLabelInvalidChar(
                "domain name label first character is not alphanumeric",
                v
            )) if v == c
        ));
    }

    let samples: Vec<(&str, u8)> = vec![("co-", b'-'), ("example-.com", b'-')];

    for (s, c) in samples {
        let mut arr = [0xFFu8; 32];
        let mut wcursor = WCursor::new(&mut arr[..]);
        assert!(matches!(
            wcursor.write_domain_name(s),
            Err(Error::DomainNameLabelInvalidChar(
                "domain name label last character is not alphanumeric",
                v
            )) if v == c
        ));
    }
}

#[test]
fn write_root_and_short_buffer() {
    let mut arr = [0xFFu8; 4];
    let mut wcursor = WCursor::new(&mut arr[..]);
    assert!(matches!(wcursor.write_domain_name("."), Err(Error::DomainNameLabelIsEmpty)));

    let mut arr = [0xFFu8; 4];
    let mut wcursor = WCursor::new(&mut arr[..]);
    assert!(matches!(wcursor.write_domain_name("example.com"), Err(Error::BufferTooShort(8))));

    let mut arr = [0xFFu8; 4];
    let mut wcursor = WCursor::new(&mut arr[..]);
    assert!(matches!(wcursor.write_domain_name("com"), Err(Error::EndOfBuffer)));

    let mut arr = [0xFFu8; 5];
    let mut wcursor = WCursor::new(&mut arr[..]);
    assert_eq!(wcursor.write_domain_name("com").unwrap(), 5);
}

#[test]
fn write_then_read_gives_absolute_name() {
    for name in ["a.b.c", "x1.example.org.", "EXAMPLE.net"] {
        let mut arr = [0u8; 64];
        let len = WCursor::new(&mut arr[..]).write_domain_name(name).unwrap();
        let dn: InlineName = Cursor::new(&arr[..len]).read().unwrap();
        let expected = if name.ends_with('.') { name.to_string() } else { format!("{name}.") };
        assert_eq!(dn.as_str(), expected);
    }
}
