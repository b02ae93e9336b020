use rsdns::records::class::UNKNOWN_CLASS;
use rsdns::records::Class;

const VALUES: [u16; 5] = [Class::IN, Class::CS, Class::CH, Class::HS, Class::ANY];

fn names() -> Vec<&'static str> {
    let mut names = vec![""; 256];
    names[1] = "IN";
    names[2] = "CS";
    names[3] = "CH";
    names[4] = "HS";
    names[255] = "ANY";
    names
}

#[test]
fn class_test_default() {
    assert_eq!(Class::default(), Class::from(Class::IN));
}

#[test]
fn class_test_name() {
    for (i, name) in names().iter().enumerate() {
        let class = Class::from(i as u16);
        match class.value() {
            Class::IN => assert_eq!(Class::from(Class::IN).name(), *name),
            Class::CH => assert_eq!(Class::from(Class::CH).name(), *name),
            Class::CS => assert_eq!(Class::from(Class::CS).name(), *name),
            Class::HS => assert_eq!(Class::from(Class::HS).name(), *name),
            Class::ANY => assert_eq!(Class::from(Class::ANY).name(), *name),
            _ => assert_eq!(class.name(), UNKNOWN_CLASS),
        }
    }

    assert_eq!(Class::from(u16::MAX).name(), UNKNOWN_CLASS);
}

#[test]
fn class_test_from_name() {
    assert_eq!(Class::from_name("IN").unwrap(), Class::from(Class::IN));
    assert_eq!(Class::from_name("CS").unwrap(), Class::from(Class::CS));
    assert_eq!(Class::from_name("CH").unwrap(), Class::from(Class::CH));
    assert_eq!(Class::from_name("HS").unwrap(), Class::from(Class::HS));
    assert_eq!(Class::from_name("ANY").unwrap(), Class::from(Class::ANY));

    for (i, name) in names().iter().enumerate() {
        if !name.is_empty() {
            assert_eq!(Class::from_name(name).unwrap(), Class::from(i as u16));
            assert!(Class::from_name(&name.to_lowercase()).is_err());
        }
    }
}

#[test]
fn class_test_from_str() {
    assert_eq!(Class::from_str("IN").unwrap(), Class::from(Class::IN));
    assert_eq!(Class::from_str("CS").unwrap(), Class::from(Class::CS));
    assert_eq!(Class::from_str("CH").unwrap(), Class::from(Class::CH));
    assert_eq!(Class::from_str("HS").unwrap(), Class::from(Class::HS));
    assert_eq!(Class::from_str("ANY").unwrap(), Class::from(Class::ANY));

    for (i, name) in names().iter().enumerate() {
        if !name.is_empty() {
            assert_eq!(Class::from_str(name).unwrap(), Class::from(i as u16));
            assert!(Class::from_str(&name.to_lowercase()).is_err());
        }
    }

    for i in 0..=u16::MAX {
        let s = format!("CLASS{i}");
        assert_eq!(Class::from_str(&s).unwrap(), Class::from(i));
        assert!(Class::from_str(&s.to_lowercase()).is_err());
    }

    assert!(Class::from_str("CLASS65536").is_err());
}

#[test]
fn class_test_is_defined() {
    assert!(Class::from(Class::IN).is_defined());
    assert!(Class::from(Class::CS).is_defined());
    assert!(Class::from(Class::CH).is_defined());
    assert!(Class::from(Class::HS).is_defined());
    assert!(Class::from(Class::ANY).is_defined());

    for (i, name) in names().iter().enumerate() {
        assert_eq!(Class::from(i as u16).is_defined(), !name.is_empty());
    }

    for i in 0..=u16::MAX {
        assert_eq!(Class::from(i).is_defined(), VALUES.iter().any(|v| *v == i));
    }
}

#[test]
fn class_kinds_and_text() {
    assert!(Class::from(Class::IN).is_data_class());
    assert!(!Class::from(Class::IN).is_meta_class());
    assert!(Class::from(Class::ANY).is_meta_class());
    assert!(!Class::from(Class::ANY).is_data_class());
    assert_eq!(Class::from(Class::CH).to_string(), "CH");
    assert_eq!(Class::from(1000).to_string(), "CLASS1000");
    assert_eq!(Class::from(Class::IN), 1u16);
    assert!(Class::from(Class::IN) < 2u16);
    for i in 0..=u16::MAX {
        let c = Class::from(i);
        assert_eq!(Class::from_str(&c.to_string()).unwrap(), c);
    }
}
