use rsdns::bytes::Cursor;
use rsdns::errors::AnswerError;
use rsdns::message::reader::message_iterator::MessageIterator;
use rsdns::message::{Answer, RecordsSection};
use rsdns::records::data::{Aaaa, Cname, Mx, Ns, RecordData, Soa, Txt, A};
use rsdns::records::record::read_record_data;
use rsdns::records::record_set::RecordSet;
use rsdns::records::{Class, Type};
use rsdns::Error;

const M0: [u8; 494] = [
    0x08, 0x33, 0x81, 0x80, 0x00, 0x01, 0x00, 0x04, 0x00, 0x08, 0x00, 0x0c, 
    0x03, 0x62, 0x62, 0x63, 0x03, 0x63, 0x6f, 0x6d, 0x00, 0x00, 0x01, 0x00, 
    0x01, 0xc0, 0x0c, 0x00, 0x01, 0x00, 0x01, 0x00, 0x00, 0x01, 0x2c, 0x00, 
    0x04, 0x97, 0x65, 0x80, 0x51, 0xc0, 0x0c, 0x00, 0x01, 0x00, 0x01, 0x00, 
    0x00, 0x01, 0x2c, 0x00, 0x04, 0x97, 0x65, 0xc0, 0x51, 0xc0, 0x0c, 0x00, 
    0x01, 0x00, 0x01, 0x00, 0x00, 0x01, 0x2c, 0x00, 0x04, 0x97, 0x65, 0x40, 
    0x51, 0xc0, 0x0c, 0x00, 0x01, 0x00, 0x01, 0x00, 0x00, 0x01, 0x2c, 0x00, 
    0x04, 0x97, 0x65, 0x00, 0x51, 0xc0, 0x0c, 0x00, 0x02, 0x00, 0x01, 0x00, 
    0x01, 0x9f, 0x01, 0x00, 0x08, 0x05, 0x64, 0x64, 0x6e, 0x73, 0x31, 0xc0, 
    0x0c, 0xc0, 0x0c, 0x00, 0x02, 0x00, 0x01, 0x00, 0x01, 0x9f, 0x01, 0x00, 
    0x07, 0x04, 0x64, 0x6e, 0x73, 0x30, 0xc0, 0x0c, 0xc0, 0x0c, 0x00, 0x02, 
    0x00, 0x01, 0x00, 0x01, 0x9f, 0x01, 0x00, 0x08, 0x05, 0x64, 0x64, 0x6e, 
    0x73, 0x30, 0xc0, 0x0c, 0xc0, 0x0c, 0x00, 0x02, 0x00, 0x01, 0x00, 0x01, 
    0x9f, 0x01, 0x00, 0x11, 0x05, 0x64, 0x64, 0x6e, 0x73, 0x31, 0x03, 0x62, 
    0x62, 0x63, 0x02, 0x63, 0x6f, 0x02, 0x75, 0x6b, 0x00, 0xc0, 0x0c, 0x00, 
    0x02, 0x00, 0x01, 0x00, 0x01, 0x9f, 0x01, 0x00, 0x07, 0x04, 0x64, 0x6e, 
    0x73, 0x31, 0xc0, 0xa6, 0xc0, 0x0c, 0x00, 0x02, 0x00, 0x01, 0x00, 0x01, 
    0x9f, 0x01, 0x00, 0x08, 0x05, 0x64, 0x64, 0x6e, 0x73, 0x30, 0xc0, 0xa6, 
    0xc0, 0x0c, 0x00, 0x02, 0x00, 0x01, 0x00, 0x01, 0x9f, 0x01, 0x00, 0x07, 
    0x04, 0x64, 0x6e, 0x73, 0x31, 0xc0, 0x0c, 0xc0, 0x0c, 0x00, 0x02, 0x00, 
    0x01, 0x00, 0x01, 0x9f, 0x01, 0x00, 0x07, 0x04, 0x64, 0x6e, 0x73, 0x30, 
    0xc0, 0xa6, 0xc0, 0xf7, 0x00, 0x01, 0x00, 0x01, 0x00, 0x01, 0x9f, 0x01, 
    0x00, 0x04, 0xc6, 0x33, 0x2c, 0x09, 0xc0, 0x79, 0x00, 0x01, 0x00, 0x01, 
    0x00, 0x01, 0x9f, 0x01, 0x00, 0x04, 0xc6, 0x33, 0x2c, 0x49, 0xc0, 0xbd, 
    0x00, 0x01, 0x00, 0x01, 0x00, 0x01, 0x9f, 0x01, 0x00, 0x04, 0xc6, 0x33, 
    0x2d, 0x09, 0xc0, 0xe4, 0x00, 0x01, 0x00, 0x01, 0x00, 0x01, 0x9f, 0x01, 
    0x00, 0x04, 0xc6, 0x33, 0x2d, 0x49, 0xc0, 0xd0, 0x00, 0x01, 0x00, 0x01, 
    0x00, 0x01, 0x9f, 0x01, 0x00, 0x04, 0x94, 0xa3, 0xc7, 0x01, 0xc0, 0x8c, 
    0x00, 0x01, 0x00, 0x01, 0x00, 0x01, 0x9f, 0x01, 0x00, 0x04, 0x94, 0xa3, 
    0xc7, 0x81, 0xc0, 0xa0, 0x00, 0x01, 0x00, 0x01, 0x00, 0x01, 0x9f, 0x01, 
    0x00, 0x04, 0x94, 0xa3, 0xc7, 0x41, 0xc0, 0x65, 0x00, 0x01, 0x00, 0x01, 
    0x00, 0x01, 0x37, 0x8c, 0x00, 0x04, 0x94, 0xa3, 0xc7, 0xc1, 0xc0, 0xf7, 
    0x00, 0x1c, 0x00, 0x01, 0x00, 0x02, 0x97, 0x8e, 0x00, 0x10, 0x26, 0x20, 
    0x00, 0x4d, 0x40, 0x00, 0x62, 0x59, 0x00, 0x07, 0x00, 0x09, 0x00, 0x00, 
    0x00, 0x01, 0xc0, 0xbd, 0x00, 0x1c, 0x00, 0x01, 0x00, 0x02, 0x97, 0x8e, 
    0x00, 0x10, 0x2a, 0x00, 0xed, 0xc0, 0x62, 0x59, 0x00, 0x07, 0x00, 0x09, 
    0x00, 0x00, 0x00, 0x00, 0x00, 0x02, 0xc0, 0xd0, 0x00, 0x1c, 0x00, 0x01, 
    0x00, 0x02, 0x97, 0x8e, 0x00, 0x10, 0x26, 0x07, 0xf7, 0x40, 0xe0, 0x4e, 
    0x00, 0x00, 0x00, 0x00, 0x00, 0x00, 0x00, 0x00, 0x00, 0x01, 0xc0, 0xa0, 
    0x00, 0x1c, 0x00, 0x01, 0x00, 0x02, 0x97, 0x8e, 0x00, 0x10, 0x26, 0x07, 
    0xf7, 0x40, 0xe0, 0x4e, 0x00, 0x04, 0x00, 0x00, 0x00, 0x00, 0x00, 0x00, 
    0x00, 0x01, /*                                                       */ 
];

fn push_name(out: &mut Vec<u8>, name: &str) {
    for label in name.split('.') {
        if label.is_empty() {
            continue;
        }
        out.push(label.len() as u8);
        out.extend_from_slice(label.as_bytes());
    }
    out.push(0);
}

fn push_record(out: &mut Vec<u8>, name: &str, rtype: u16, ttl: u32, rdata: &[u8]) {
    push_name(out, name);
    out.extend_from_slice(&rtype.to_be_bytes());
    out.extend_from_slice(&1u16.to_be_bytes());
    out.extend_from_slice(&ttl.to_be_bytes());
    out.extend_from_slice(&(rdata.len() as u16).to_be_bytes());
    out.extend_from_slice(rdata);
}

fn encoded(name: &str) -> Vec<u8> {
    let mut v = Vec::new();
    push_name(&mut v, name);
    v
}

/// A response to `www.example.com IN A` whose answer is an alias to `example.com`, which has
/// two addresses; `flags` are the second and third bytes of the header.
fn cname_response(flags: u16) -> Vec<u8> {
    let mut m = Vec::new();
    m.extend_from_slice(&0x1234u16.to_be_bytes());
    m.extend_from_slice(&flags.to_be_bytes());
    m.extend_from_slice(&[0, 1, 0, 3, 0, 0, 0, 0]);
    push_name(&mut m, "www.example.com");
    m.extend_from_slice(&[0, 1, 0, 1]);
    push_record(&mut m, "www.example.com", Type::CNAME, 100, &encoded("example.com"));
    push_record(&mut m, "example.com", Type::A, 50, &[1, 2, 3, 4]);
    push_record(&mut m, "example.com", Type::A, 30, &[5, 6, 7, 8]);
    m
}

#[test]
fn message_iterator_reads_everything() {
    let mi = MessageIterator::new(&M0[..]).unwrap();
    assert_eq!(mi.header().id, 0x833);
    assert_eq!(mi.header().an_count, 4);
    let q = mi.question().unwrap();
    assert_eq!(q.qname.as_str(), "bbc.com.");
    assert_eq!(q.qtype, Type::A);
    assert_eq!(q.qclass, Class::IN);

    let mut questions = mi.questions();
    assert!(questions.next().unwrap().is_ok());
    assert!(questions.next().is_none());

    let mut records = mi.records();
    let mut counts = [0usize; 3];
    let mut aaaa = 0;
    while let Some(r) = records.next() {
        let (section, rec) = r.unwrap();
        counts[section.index()] += 1;
        if section == RecordsSection::Answer {
            assert_eq!(rec.name.as_str(), "bbc.com.");
            assert_eq!(rec.ttl, 300);
        }
        if let RecordData::Aaaa(_) = rec.rdata {
            aaaa += 1;
        }
    }
    assert_eq!(counts, [4, 8, 12]);
    assert_eq!(aaaa, 4);
    assert!(records.next().is_none());
}

#[test]
fn message_iterator_section_offsets() {
    let mut mi = MessageIterator::new(&M0[..]).unwrap();
    assert_eq!(mi.section_offset(RecordsSection::Answer).unwrap(), 25);
    assert_eq!(mi.section_offset(RecordsSection::Authority).unwrap(), 89);
    let additional = mi.section_offset(RecordsSection::Additional).unwrap();
    assert!(additional > 89 && additional < M0.len());
    assert!(matches!(MessageIterator::new(&M0[..5]), Err(Error::EndOfBuffer)));
}

#[test]
fn record_set_from_response() {
    let rrset = RecordSet::<A>::from_msg(&M0[..]).unwrap();
    assert_eq!(rrset.name.as_str(), "bbc.com.");
    assert_eq!(rrset.rclass, Class::IN);
    assert_eq!(rrset.ttl, 300);
    assert_eq!(
        rrset.rdata,
        vec![
            A { address: [151, 101, 128, 81] },
            A { address: [151, 101, 192, 81] },
            A { address: [151, 101, 64, 81] },
            A { address: [151, 101, 0, 81] },
        ]
    );
    assert_eq!(RecordSet::<A>::rtype(), Type::A);
}

#[test]
fn record_set_follows_aliases() {
    let msg = cname_response(0x8180);
    let rrset = RecordSet::<A>::from_msg(&msg).unwrap();
    assert_eq!(rrset.name.as_str(), "example.com.");
    assert_eq!(rrset.ttl, 30);
    assert_eq!(rrset.rdata, vec![A { address: [1, 2, 3, 4] }, A { address: [5, 6, 7, 8] }]);
    let cname = RecordSet::<Cname>::from_msg(&msg).unwrap();
    assert_eq!(cname.name.as_str(), "www.example.com.");
    assert_eq!(cname.rdata[0].cname.as_str(), "example.com.");
}

#[test]
fn record_set_errors() {
    assert!(matches!(
        RecordSet::<A>::from_msg(&cname_response(0x0100)),
        Err(Error::BadMessageType(_))
    ));
    assert!(matches!(
        RecordSet::<A>::from_msg(&cname_response(0x8183)),
        Err(Error::BadResponseCode(_))
    ));
    assert!(matches!(
        RecordSet::<A>::from_msg(&cname_response(0x8380)),
        Err(Error::MessageTruncated)
    ));
    assert!(matches!(RecordSet::<Aaaa>::from_msg(&M0[..]), Err(Error::NoAnswer)));
    assert!(matches!(RecordSet::<A>::from_msg(&M0[..7]), Err(Error::EndOfBuffer)));
    let long = vec![0u8; 70000];
    assert!(matches!(RecordSet::<A>::from_msg(&long), Err(Error::MessageTooLong(70000))));
}

#[test]
fn answer_from_response() {
    let answer = Answer::<A>::from_msg(&M0[..]).unwrap();
    assert!(answer.cnames().is_empty());
    assert_eq!(answer.rrset().name.as_str(), "bbc.com.");
    assert_eq!(answer.rrset().ttl, 300);
    assert_eq!(answer.rrset().rdata.len(), 4);
    assert_eq!(answer.rrset().rdata[3], A { address: [151, 101, 0, 81] });
}

#[test]
fn answer_follows_aliases() {
    let msg = cname_response(0x8180);
    let answer = Answer::<A>::from_msg(&msg).unwrap();
    assert_eq!(answer.cnames().len(), 1);
    assert_eq!(answer.cnames()[0].as_str(), "example.com.");
    assert_eq!(answer.rrset().name.as_str(), "example.com.");
    assert_eq!(answer.rrset().rclass, Class::IN);
    assert_eq!(answer.rrset().ttl, 30);
    assert_eq!(
        answer.rrset().rdata,
        vec![A { address: [1, 2, 3, 4] }, A { address: [5, 6, 7, 8] }]
    );
}

#[test]
fn answer_errors() {
    assert!(matches!(
        Answer::<A>::from_msg(&cname_response(0x0100)),
        Err(Error::AnswerError(AnswerError::BadMessageType(_)))
    ));
    assert!(matches!(
        Answer::<A>::from_msg(&cname_response(0x8183)),
        Err(Error::AnswerError(AnswerError::BadResponseCode(_)))
    ));
    assert!(matches!(
        Answer::<A>::from_msg(&cname_response(0x8380)),
        Err(Error::AnswerError(AnswerError::MessageTruncated))
    ));
    assert!(matches!(
        Answer::<Aaaa>::from_msg(&M0[..]),
        Err(Error::AnswerError(AnswerError::NoAnswer))
    ));
    assert!(matches!(Answer::<A>::from_msg(&M0[..3]), Err(Error::EndOfBuffer)));
    let mut no_question = cname_response(0x8180);
    no_question[5] = 0;
    no_question.drain(12..33);
    assert!(matches!(Answer::<A>::from_msg(&no_question), Err(Error::MessageWithoutQuestion)));
}

#[test]
fn record_data_of_each_kind() {
    let mut soa = encoded("ns.example.com");
    soa.extend(encoded("admin.example.com"));
    for v in [1u32, 7200, 3600, 1209600, 300] {
        soa.extend_from_slice(&v.to_be_bytes());
    }
    let d = read_record_data(&mut Cursor::new(&soa), Type::SOA, soa.len()).unwrap();
    match d {
        RecordData::Soa(Soa { mname, rname, serial, refresh, retry, expire, minimum }) => {
            assert_eq!(mname.as_str(), "ns.example.com.");
            assert_eq!(rname.as_str(), "admin.example.com.");
            assert_eq!((serial, refresh, retry, expire, minimum), (1, 7200, 3600, 1209600, 300));
        }
        _ => panic!("not an SOA record"),
    }

    let mut mx = vec![0, 10];
    mx.extend(encoded("mail.example.com"));
    match read_record_data(&mut Cursor::new(&mx), Type::MX, mx.len()).unwrap() {
        RecordData::Mx(Mx { preference, exchange }) => {
            assert_eq!(preference, 10);
            assert_eq!(exchange.as_str(), "mail.example.com.");
        }
        _ => panic!("not an MX record"),
    }

    let txt = b"\x05hello\x05world".to_vec();
    match read_record_data(&mut Cursor::new(&txt), Type::TXT, txt.len()).unwrap() {
        RecordData::Txt(Txt { text }) => assert_eq!(text, b"helloworld".to_vec()),
        _ => panic!("not a TXT record"),
    }

    let ns = encoded("ns1.example.com");
    match read_record_data(&mut Cursor::new(&ns), Type::NS, ns.len()).unwrap() {
        RecordData::Ns(Ns { nsdname }) => assert_eq!(nsdname.as_str(), "ns1.example.com."),
        _ => panic!("not an NS record"),
    }

    let a = [10u8, 0, 0, 1];
    assert!(matches!(
        read_record_data(&mut Cursor::new(&a), Type::A, 3),
        Err(Error::CursorWindowError { .. }) | Err(Error::EndOfBuffer)
    ));
    assert!(matches!(
        read_record_data(&mut Cursor::new(&a), Type::A, 4),
        Ok(RecordData::A(A { address: [10, 0, 0, 1] }))
    ));
}

#[test]
fn answer_skips_the_sections_before_checking_flags() {
    let mut m = cname_response(0x0100);
    m.pop();
    assert!(matches!(Answer::<A>::from_msg(&m), Err(Error::EndOfBuffer)));
    let m = cname_response(0x0100);
    assert!(matches!(
        Answer::<A>::from_msg(&m),
        Err(Error::AnswerError(AnswerError::BadMessageType(_)))
    ));
}

