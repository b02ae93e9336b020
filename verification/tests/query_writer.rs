use rsdns::bytes::{Cursor, Reader};
use rsdns::message::{ClassValue, Header, QueryWriter, TypeValue};
use rsdns::names::inline_name::InlineName;
use rsdns::records::{Class, Opt, Type};
use rsdns::Error;

#[test]
fn test_good_flow() {
    let mut query = [0u8; 512];
    let mut qw = QueryWriter::new(&mut query[..]);

    let size = qw
        .write("host.example.com", Type::from(Type::CNAME), Class::from(Class::IN), true, None)
        .unwrap();
    assert_eq!(size, 34 + 2);

    let msg_id = qw.message_id();
    drop(qw);

    let mut c = Cursor::new(&query[..size]);

    let size = c.u16_be().unwrap();
    let header: Header = c.read().unwrap();
    let dn: InlineName = c.read().unwrap();
    let qt = TypeValue::from(c.u16_be().unwrap());
    let qc = ClassValue::from(c.u16_be().unwrap());

    assert_eq!(size, 34);
    assert!(header.flags.recursion_desired());
    assert_eq!(header.id, msg_id);
    assert_eq!(header.qd_count, 1);
    assert_eq!(header.ar_count, 0);
    assert_eq!(dn.as_str(), "host.example.com.");
    assert_eq!(qt, Type::CNAME);
    assert_eq!(qc, Class::IN);
}

#[test]
fn test_opt() {
    let mut query = [0u8; 512];
    let mut qw = QueryWriter::new(&mut query[..]);

    let payload_size = 4096;
    let ttl = 0x0;
    let opt = Opt::from_msg(payload_size, ttl);

    let size = qw
        .write("host.example.com", Type::from(Type::CNAME), Class::from(Class::IN), false, Some(opt))
        .unwrap();
    assert_eq!(size, 34 + 11 + 2);

    let msg_id = qw.message_id();
    drop(qw);

    let mut c = Cursor::new(&query[..size]);

    let size = c.u16_be().unwrap();
    let header: Header = c.read().unwrap();
    let dn: InlineName = c.read().unwrap();
    let qt = TypeValue::from(c.u16_be().unwrap());
    let qc = ClassValue::from(c.u16_be().unwrap());

    let opt_dn: InlineName = c.read().unwrap();
    let opt_rtype = TypeValue::from(c.u16_be().unwrap());
    let opt_rclass = c.u16_be().unwrap();
    let opt_ttl = c.u32_be().unwrap();
    let opt_rdlen = c.u16_be().unwrap();
    let opt = Opt::from_msg(opt_rclass, opt_ttl);

    assert_eq!(size, 34 + 11);
    assert_eq!(header.flags.recursion_desired(), false);
    assert_eq!(header.id, msg_id);
    assert_eq!(header.qd_count, 1);
    assert_eq!(header.ar_count, 1);
    assert_eq!(dn.as_str(), "host.example.com.");
    assert_eq!(qt, Type::CNAME);
    assert_eq!(qc, Class::IN);

    assert_eq!(opt_dn.as_str(), ".");
    assert_eq!(opt_rtype, Type::OPT);
    assert_eq!(opt_rclass, payload_size);
    assert_eq!(opt.version(), 0);
    assert_eq!(opt.rcode_extension(), 0);
    assert_eq!(opt.dnssec_ok(), false);
    assert_eq!(opt_rdlen, 0);
}

#[test]
fn query_writer_errors() {
    let mut query = [0u8; 20];
    let mut qw = QueryWriter::new(&mut query[..]);
    assert!(matches!(
        qw.write("host.example.com", Type::from(Type::A), Class::from(Class::IN), true, None),
        Err(Error::BufferTooShort(27))
    ));
    let mut query = [0u8; 1];
    let mut qw = QueryWriter::new(&mut query[..]);
    assert!(matches!(
        qw.write("a.com", Type::from(Type::A), Class::from(Class::IN), true, None),
        Err(Error::EndOfBuffer)
    ));
    let mut query = [0u8; 512];
    let mut qw = QueryWriter::new(&mut query[..]);
    assert!(matches!(
        qw.write("host..com", Type::from(Type::A), Class::from(Class::IN), true, None),
        Err(Error::DomainNameLabelIsEmpty)
    ));
}

#[test]
fn query_writer_same_id_twice() {
    let mut query = [0u8; 512];
    let mut qw = QueryWriter::new(&mut query[..]);
    let id = qw.message_id();
    let n1 = qw.write("a.com", Type::from(Type::A), Class::from(Class::IN), true, None).unwrap();
    assert_eq!(qw.message_id(), id);
    drop(qw);
    let first = query[..n1].to_vec();
    assert_eq!(&first[0..2], &[0, (n1 - 2) as u8]);
    assert_eq!(&first[2..4], &id.to_be_bytes());
}
