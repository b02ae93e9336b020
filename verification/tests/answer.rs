use rsdns::errors::AnswerError;
use rsdns::message::Answer;
use rsdns::names::inline_name::InlineName;
use rsdns::names::name::Name;
use rsdns::records::data::{Cname, Ns, RecordData, A};
use rsdns::records::record::ResourceRecord;
use rsdns::records::{Class, Type};
use rsdns::Error;

fn record(name: &str, rtype: u16, ttl: u32, rdata: RecordData) -> Option<ResourceRecord> {
    Some(ResourceRecord {
        name: InlineName::from(name).unwrap(),
        rclass: Class::from(Class::IN),
        rtype: Type::from(rtype),
        ttl,
        rdata,
    })
}

fn cname(target: &str) -> RecordData {
    RecordData::Cname(Cname { cname: Name::from(target).unwrap() })
}

#[test]
fn answer_from_records_follows_the_chain() {
    let records = vec![
        record("b.example", Type::A, 7, RecordData::A(A { address: [9, 9, 9, 9] })),
        record("WWW.example", Type::CNAME, 60, cname("a.example")),
        record("a.example", Type::CNAME, 60, cname("b.example")),
        record("b.example", Type::A, 5, RecordData::A(A { address: [1, 2, 3, 4] })),
        record("c.example", Type::A, 1, RecordData::A(A { address: [5, 5, 5, 5] })),
    ];
    let qname = Name::from("www.example").unwrap();
    let answer = Answer::<A>::from_records(records, &qname, Class::from(Class::IN)).unwrap();
    let cnames: Vec<&str> = answer.cnames().iter().map(|n| n.as_str()).collect();
    assert_eq!(cnames, vec!["a.example.", "b.example."]);
    assert_eq!(answer.rrset().name.as_str(), "b.example.");
    assert_eq!(answer.rrset().ttl, 5);
    assert_eq!(
        answer.rrset().rdata,
        vec![A { address: [9, 9, 9, 9] }, A { address: [1, 2, 3, 4] }]
    );
}

#[test]
fn answer_from_records_errors() {
    let qname = Name::from("www.example").unwrap();
    let none = vec![record("other.example", Type::A, 5, RecordData::A(A { address: [1, 1, 1, 1] }))];
    assert!(matches!(
        Answer::<A>::from_records(none, &qname, Class::from(Class::IN)),
        Err(Error::AnswerError(AnswerError::NoAnswer))
    ));

    let other_class = vec![record("www.example", Type::A, 5, RecordData::A(A { address: [1, 1, 1, 1] }))];
    assert!(matches!(
        Answer::<A>::from_records(other_class, &qname, Class::from(Class::CH)),
        Err(Error::AnswerError(AnswerError::NoAnswer))
    ));

    let ns = RecordData::Ns(Ns { nsdname: Name::from("ns.example").unwrap() });
    let mismatched = vec![record("www.example", Type::A, 5, ns.clone())];
    assert!(matches!(
        Answer::<A>::from_records(mismatched, &qname, Class::from(Class::IN)),
        Err(Error::InternalError("record data conversion failed"))
    ));

    let bad_alias = vec![record("www.example", Type::CNAME, 5, ns)];
    assert!(matches!(
        Answer::<A>::from_records(bad_alias, &qname, Class::from(Class::IN)),
        Err(Error::InternalError("unexpected RecordData discriminant: Cname expected"))
    ));
}
