use rsdns::message::reader::message_reader::MessageReader;
use rsdns::message::RecordsSection;
use rsdns::names::inline_name::InlineName;
use rsdns::names::name::Name;
use rsdns::records::data::{Aaaa, Ns, A};
use rsdns::records::{Class, Type};
use rsdns::Error;

const M0: [u8; 494] = [
    0x08, 0x33, 0x81, 0x80, 0x00, 0x01, 0x00, 0x04, 0x00, 0x08, 0x00, 0x0c, 
    0x03, 0x62, 0x62, 0x63, 0x03, 0x63, 0x6f, 0x6d, 0x00, 0x00, 0x01, 0x00, 
    0x01, 0xc0, 0x0c, 0x00, 0x01, 0x00, 0x01, 0x00, 0x00, 0x01, 0x2c, 0x00, 
    0x04, 0x97, 0x65, 0x80, 0x51, 0xc0, 0x0c, 0x00, 0x01, 0x00, 0x01, 0x00, 
    0x00, 0x01, 0x2c, 0x00, 0x04, 0x97, 0x65, 0xc0, 0x51, 0xc0, 0x0c, 0x00, 
    0x01, 0x00, 0x01, 0x00, 0x00, 0x01, 0x2c, 0x00, 0x04, 0x97, 0x65, 0x40, 
    0x51, 0xc0, 0x0c, 0x00, 0x01, 0x00, 0x01, 0x00, 0x00, 0x01, 0x2c, 0x00, 
    0x04, 0x97, 0x65, 0x00, 0x51, 0xc0, 0x0c, 0x00, 0x02, 0x00, 0x01, 0x00, 
    0x01, 0x9f, 0x01, 0x00, 0x08, 0x05, 0x64, 0x64, 0x6e, 0x73, 0x31, 0xc0, 
    0x0c, 0xc0, 0x0c, 0x00, 0x02, 0x00, 0x01, 0x00, 0x01, 0x9f, 0x01, 0x00, 
    0x07, 0x04, 0x64, 0x6e, 0x73, 0x30, 0xc0, 0x0c, 0xc0, 0x0c, 0x00, 0x02, 
    0x00, 0x01, 0x00, 0x01, 0x9f, 0x01, 0x00, 0x08, 0x05, 0x64, 0x64, 0x6e, 
    0x73, 0x30, 0xc0, 0x0c, 0xc0, 0x0c, 0x00, 0x02, 0x00, 0x01, 0x00, 0x01, 
    0x9f, 0x01, 0x00, 0x11, 0x05, 0x64, 0x64, 0x6e, 0x73, 0x31, 0x03, 0x62, 
    0x62, 0x63, 0x02, 0x63, 0x6f, 0x02, 0x75, 0x6b, 0x00, 0xc0, 0x0c, 0x00, 
    0x02, 0x00, 0x01, 0x00, 0x01, 0x9f, 0x01, 0x00, 0x07, 0x04, 0x64, 0x6e, 
    0x73, 0x31, 0xc0, 0xa6, 0xc0, 0x0c, 0x00, 0x02, 0x00, 0x01, 0x00, 0x01, 
    0x9f, 0x01, 0x00, 0x08, 0x05, 0x64, 0x64, 0x6e, 0x73, 0x30, 0xc0, 0xa6, 
    0xc0, 0x0c, 0x00, 0x02, 0x00, 0x01, 0x00, 0x01, 0x9f, 0x01, 0x00, 0x07, 
    0x04, 0x64, 0x6e, 0x73, 0x31, 0xc0, 0x0c, 0xc0, 0x0c, 0x00, 0x02, 0x00, 
    0x01, 0x00, 0x01, 0x9f, 0x01, 0x00, 0x07, 0x04, 0x64, 0x6e, 0x73, 0x30, 
    0xc0, 0xa6, 0xc0, 0xf7, 0x00, 0x01, 0x00, 0x01, 0x00, 0x01, 0x9f, 0x01, 
    0x00, 0x04, 0xc6, 0x33, 0x2c, 0x09, 0xc0, 0x79, 0x00, 0x01, 0x00, 0x01, 
    0x00, 0x01, 0x9f, 0x01, 0x00, 0x04, 0xc6, 0x33, 0x2c, 0x49, 0xc0, 0xbd, 
    0x00, 0x01, 0x00, 0x01, 0x00, 0x01, 0x9f, 0x01, 0x00, 0x04, 0xc6, 0x33, 
    0x2d, 0x09, 0xc0, 0xe4, 0x00, 0x01, 0x00, 0x01, 0x00, 0x01, 0x9f, 0x01, 
    0x00, 0x04, 0xc6, 0x33, 0x2d, 0x49, 0xc0, 0xd0, 0x00, 0x01, 0x00, 0x01, 
    0x00, 0x01, 0x9f, 0x01, 0x00, 0x04, 0x94, 0xa3, 0xc7, 0x01, 0xc0, 0x8c, 
    0x00, 0x01, 0x00, 0x01, 0x00, 0x01, 0x9f, 0x01, 0x00, 0x04, 0x94, 0xa3, 
    0xc7, 0x81, 0xc0, 0xa0, 0x00, 0x01, 0x00, 0x01, 0x00, 0x01, 0x9f, 0x01, 
    0x00, 0x04, 0x94, 0xa3, 0xc7, 0x41, 0xc0, 0x65, 0x00, 0x01, 0x00, 0x01, 
    0x00, 0x01, 0x37, 0x8c, 0x00, 0x04, 0x94, 0xa3, 0xc7, 0xc1, 0xc0, 0xf7, 
    0x00, 0x1c, 0x00, 0x01, 0x00, 0x02, 0x97, 0x8e, 0x00, 0x10, 0x26, 0x20, 
    0x00, 0x4d, 0x40, 0x00, 0x62, 0x59, 0x00, 0x07, 0x00, 0x09, 0x00, 0x00, 
    0x00, 0x01, 0xc0, 0xbd, 0x00, 0x1c, 0x00, 0x01, 0x00, 0x02, 0x97, 0x8e, 
    0x00, 0x10, 0x2a, 0x00, 0xed, 0xc0, 0x62, 0x59, 0x00, 0x07, 0x00, 0x09, 
    0x00, 0x00, 0x00, 0x00, 0x00, 0x02, 0xc0, 0xd0, 0x00, 0x1c, 0x00, 0x01, 
    0x00, 0x02, 0x97, 0x8e, 0x00, 0x10, 0x26, 0x07, 0xf7, 0x40, 0xe0, 0x4e, 
    0x00, 0x00, 0x00, 0x00, 0x00, 0x00, 0x00, 0x00, 0x00, 0x01, 0xc0, 0xa0, 
    0x00, 0x1c, 0x00, 0x01, 0x00, 0x02, 0x97, 0x8e, 0x00, 0x10, 0x26, 0x07, 
    0xf7, 0x40, 0xe0, 0x4e, 0x00, 0x04, 0x00, 0x00, 0x00, 0x00, 0x00, 0x00, 
    0x00, 0x01, /*                                                       */ 
];

const M1: [u8; 89] = [
    0x78, 0x04, 0x81, 0x80, 0x00, 0x01, 0x00, 0x04, 0x00, 0x00, 0x00, 0x00, 
    0x03, 0x63, 0x6e, 0x6e, 0x03, 0x63, 0x6f, 0x6d, 0x00, 0x00, 0x01, 0x00, 
    0x01, 0xc0, 0x0c, 0x00, 0x01, 0x00, 0x01, 0x00, 0x00, 0x00, 0x33, 0x00, 
    0x04, 0x97, 0x65, 0x81, 0x43, 0xc0, 0x0c, 0x00, 0x01, 0x00, 0x01, 0x00, 
    0x00, 0x00, 0x33, 0x00, 0x04, 0x97, 0x65, 0x41, 0x43, 0xc0, 0x0c, 0x00, 
    0x01, 0x00, 0x01, 0x00, 0x00, 0x00, 0x33, 0x00, 0x04, 0x97, 0x65, 0x01, 
    0x43, 0xc0, 0x0c, 0x00, 0x01, 0x00, 0x01, 0x00, 0x00, 0x00, 0x33, 0x00, 
    0x04, 0x97, 0x65, 0xc1, 0x43, /*                                     */ 
];

#[test]
fn test_whole_message() {
    let mut mr = MessageReader::new(&M0[..]).expect("failed to create MessageReader");
    let header = mr.header().expect("failed to read the header");
    assert_eq!(header.id, 0x833);

    let question = mr.the_question_ref().expect("the_question_ref failed");
    assert_eq!(question.qtype, Type::A);
    assert_eq!(question.qclass, Class::IN);

    let mut headers = Vec::new();

    assert_eq!(mr.records_count(), 24);
    while mr.has_records() {
        let header = mr.record_header_ref().expect("record_header_ref failed");
        mr.skip_record_data(header.marker())
            .expect("skip_record_data failed");

        match header.section() {
            RecordsSection::Answer => assert!(question.qname.eq(header.name()).expect("eq failed")),
            RecordsSection::Additional => {
                assert!(question.qname.ne(header.name()).expect("ne failed"))
            }
            _ => {}
        }

        headers.push(header);
    }

    for h in headers {
        if h.section() != RecordsSection::Authority {
            continue;
        }

        assert_eq!(h.rtype(), Type::NS);
        assert_eq!(h.rclass(), Class::IN);
        assert_eq!(h.ttl(), 106241);

        let name: Name = h.name().to_name().expect("name_ref::try_into failed");
        assert_eq!(name.as_str(), "bbc.com.");

        mr.record_data_at::<Ns>(h.marker())
            .expect("record_data_at failed");
    }
}

#[test]
fn test_answer_section() {
    let mut mr = MessageReader::new(&M0[..]).expect("failed to create MessageReader");
    mr.header().expect("failed to read the header");
    mr.seek(RecordsSection::Answer).expect("seek failed");

    let mut records = Vec::new();
    let mut headers = Vec::new();

    loop {
        if !mr.has_records() {
            break;
        }

        let header = mr
            .record_header::<InlineName>()
            .expect("failed to read record header");

        if header.section() != RecordsSection::Answer {
            break;
        }

        assert_eq!(header.name().as_str(), "bbc.com.");
        assert_eq!(header.rtype(), Type::A);
        assert_eq!(header.rclass(), Class::IN);
        assert_eq!(header.section(), RecordsSection::Answer);
        assert_eq!(header.ttl(), 300);
        assert_eq!(header.rdlen(), 4);

        records.push(
            mr.record_data::<A>(header.marker())
                .expect("failed to read record data"),
        );
        headers.push(header);
    }

    assert_eq!(headers.len(), 4);
    assert_eq!(records.len(), 4);
    assert_eq!(
        records,
        vec![
            A { address: [151, 101, 128, 81] },
            A { address: [151, 101, 192, 81] },
            A { address: [151, 101, 64, 81] },
            A { address: [151, 101, 0, 81] },
        ]
    );

    for (h, d) in headers.iter().zip(records.iter()) {
        assert_eq!(
            *d,
            mr.record_data_at::<A>(h.marker())
                .expect("record_data_at failed")
        );
    }
}

#[test]
fn test_data_bytes() {
    let mut mr = MessageReader::new(&M0[..]).expect("failed to create MessageReader");
    mr.header().expect("failed to read the header");
    mr.seek(RecordsSection::Additional).expect("seek failed");

    let mut markers = Vec::new();
    let mut data = Vec::new();

    while mr.has_records() {
        let marker = mr.record_marker().expect("record_marker failed");
        if marker.rtype() == Type::AAAA {
            data.push(
                mr.record_data_bytes(&marker)
                    .expect("record_data_bytes failed"),
            );
            markers.push(marker);
        } else {
            mr.skip_record_data(&marker)
                .expect("skip_record_data failed");
        }
    }

    // 2620:4d:4000:6259:7:9:0:1, 2a00:edc0:6259:7:9::2, 2607:f740:e04e::1, 2607:f740:e04e:4::1
    let addresses: [[u8; 16]; 4] = [
        [0x26, 0x20, 0x00, 0x4d, 0x40, 0x00, 0x62, 0x59, 0x00, 0x07, 0x00, 0x09, 0x00, 0x00, 0x00, 0x01],
        [0x2a, 0x00, 0xed, 0xc0, 0x62, 0x59, 0x00, 0x07, 0x00, 0x09, 0x00, 0x00, 0x00, 0x00, 0x00, 0x02],
        [0x26, 0x07, 0xf7, 0x40, 0xe0, 0x4e, 0x00, 0x00, 0x00, 0x00, 0x00, 0x00, 0x00, 0x00, 0x00, 0x01],
        [0x26, 0x07, 0xf7, 0x40, 0xe0, 0x4e, 0x00, 0x04, 0x00, 0x00, 0x00, 0x00, 0x00, 0x00, 0x00, 0x01],
    ];
    assert_eq!(data.len(), addresses.len());

    for (d, a) in data.iter().zip(addresses.iter()) {
        assert_eq!(*d, &a[..]);
    }

    for (d, m) in data.iter().zip(markers.iter()) {
        assert_eq!(
            &mr.record_data_bytes_at(m)
                .expect("record_data_bytes_at failed"),
            d
        );
    }
}

#[test]
fn test_seek() {
    let mut mr = MessageReader::new(&M0[..]).expect("failed to create MessageReder");
    mr.header().expect("failed to read the header");
    mr.skip_questions().expect("skip_questions failed");

    // read the whole message to discover all section offsets
    while mr.has_records() {
        let marker = mr.record_marker().expect("marker failed");
        mr.skip_record_data(&marker)
            .expect("skip_record_data failed");
    }

    mr.seek(RecordsSection::Answer)
        .expect("seek(Answer) failed");
    assert_eq!(mr.records_count(), 24);

    let record_header = mr.record_header::<Name>().unwrap();
    assert_eq!(record_header.name.as_str(), "bbc.com.");
    let a_record = mr.record_data::<A>(record_header.marker()).unwrap();
    assert_eq!(a_record.address, [151, 101, 128, 81]);

    mr.seek(RecordsSection::Authority)
        .expect("seek(Authority) failed");
    assert_eq!(mr.records_count(), 20);

    let record_header = mr.record_header::<Name>().unwrap();
    assert_eq!(record_header.name.as_str(), "bbc.com.");
    let ns_record = mr.record_data::<Ns>(record_header.marker()).unwrap();
    assert_eq!(ns_record.nsdname.as_str(), "ddns1.bbc.com.");

    mr.seek(RecordsSection::Additional)
        .expect("seek(Additional) failed");
    assert_eq!(mr.records_count(), 12);

    let record_header = mr.record_header::<Name>().unwrap();
    assert_eq!(record_header.name.as_str(), "dns0.bbc.co.uk.");
    let a_record = mr.record_data::<A>(record_header.marker()).unwrap();
    assert_eq!(a_record.address, [198, 51, 44, 9]);
}

#[test]
fn test_answers_offset_is_known_after_skip_questions() {
    let mut mr = MessageReader::new(&M1[..]).expect("failed to create MessageReder");
    mr.header().expect("failed to read the header");
    mr.skip_questions().expect("skip_questions failed");
    mr.seek(RecordsSection::Answer).expect("seek failed");
    assert_eq!(mr.records_count(), 4);
}

#[test]
fn test_seek_empty_section() {
    let mut mr = MessageReader::new(&M1[..]).expect("failed to create MessageReder");
    mr.header().expect("failed to read the header");
    mr.skip_questions().expect("skip_questions failed");

    // read the whole message to discover all section offsets
    while mr.has_records() {
        let marker = mr.record_marker().expect("marker failed");
        mr.skip_record_data(&marker)
            .expect("skip_record_data failed");
    }

    mr.seek(RecordsSection::Answer).expect("seek failed");
    assert_eq!(mr.records_count(), 4);

    let record_header = mr.record_header::<Name>().unwrap();
    assert_eq!(record_header.name.as_str(), "cnn.com.");
    assert_eq!(record_header.marker.section, RecordsSection::Answer);
    assert_eq!(record_header.marker.rtype, Type::A);
    assert_eq!(record_header.marker.rclass, Class::IN);
    assert_eq!(record_header.marker.ttl, 51);
    let a_record = mr.record_data::<A>(record_header.marker()).unwrap();
    assert_eq!(a_record.address, [151, 101, 129, 67]);

    mr.seek(RecordsSection::Authority)
        .expect("seek(Authority) failed");
    assert_eq!(mr.records_count(), 0);

    mr.seek(RecordsSection::Additional)
        .expect("seek(Additional) failed");
    assert_eq!(mr.records_count(), 0);
}

#[test]
fn test_seek_answer() {
    let mut mr = MessageReader::new(&M0[..]).expect("failed to create MessageReder");
    mr.header().expect("failed to read the header");
    mr.seek(RecordsSection::Answer)
        .expect("seek(Answer) failed");

    assert_eq!(mr.records_count(), 24);

    let record_header = mr.record_header::<Name>().unwrap();
    assert_eq!(record_header.name.as_str(), "bbc.com.");
    let a_record = mr.record_data::<A>(record_header.marker()).unwrap();
    assert_eq!(a_record.address, [151, 101, 128, 81]);
}

#[test]
fn test_seek_authority() {
    let mut mr = MessageReader::new(&M0[..]).expect("failed to create MessageReder");
    mr.header().expect("failed to read the header");
    mr.seek(RecordsSection::Authority)
        .expect("seek(Authority) failed");

    assert_eq!(mr.records_count(), 20);

    let record_header = mr.record_header::<Name>().unwrap();
    assert_eq!(record_header.name.as_str(), "bbc.com.");
    let ns_record = mr.record_data::<Ns>(record_header.marker()).unwrap();
    assert_eq!(ns_record.nsdname.as_str(), "ddns1.bbc.com.");
}

#[test]
fn test_seek_additional() {
    let mut mr = MessageReader::new(&M0[..]).expect("failed to create MessageReder");
    mr.header().expect("failed to read the header");
    mr.seek(RecordsSection::Additional)
        .expect("seek(Additional) failed");

    assert_eq!(mr.records_count(), 12);

    let record_header = mr.record_header::<Name>().unwrap();
    assert_eq!(record_header.name.as_str(), "dns0.bbc.co.uk.");
    let a_record = mr.record_data::<A>(record_header.marker()).unwrap();
    assert_eq!(a_record.address, [198, 51, 44, 9]);
}

#[test]
fn additional_aaaa_records() {
    let mut mr = MessageReader::new(&M0[..]).unwrap();
    assert!(matches!(
        mr.seek(RecordsSection::Additional),
        Err(Error::RecordsSectionOffsetUnknown(RecordsSection::Additional))
    ));
    mr.header().unwrap();
    mr.seek(RecordsSection::Additional).unwrap();
    let mut found = Vec::new();
    while mr.has_records() {
        let h = mr.record_header::<Name>().unwrap();
        if h.rtype() == Type::AAAA {
            let d = mr.record_data::<Aaaa>(h.marker()).unwrap();
            found.push((h.name.as_str().to_string(), d.address[0]));
        } else {
            mr.skip_record_data(h.marker()).unwrap();
        }
    }
    assert_eq!(found.len(), 4);
    assert_eq!(found[0], ("dns0.bbc.co.uk.".to_string(), 0x26));
    assert_eq!(found[1], ("dns1.bbc.co.uk.".to_string(), 0x2a));
}

#[test]
fn reader_errors() {
    let short = [0u8; 5];
    let mut mr = MessageReader::new(&short[..]).unwrap();
    assert!(matches!(mr.header(), Err(Error::EndOfBuffer)));

    let mut mr = MessageReader::new(&M1[..60]).unwrap();
    mr.header().unwrap();
    mr.skip_questions().unwrap();
    let mut failed = false;
    while mr.has_records() {
        let m = match mr.record_marker() {
            Ok(m) => m,
            Err(_) => {
                failed = true;
                break;
            }
        };
        if mr.skip_record_data(&m).is_err() {
            failed = true;
            break;
        }
    }
    assert!(failed);
}

#[test]
fn the_question_goes_by_the_header_count() {
    let mut two = M1;
    two[5] = 2;
    let mut mr = MessageReader::new(&two[..]).unwrap();
    mr.header().unwrap();
    assert!(matches!(mr.the_question(), Err(Error::BadQuestionsCount(2))));

    let mut mr = MessageReader::new(&two[..]).unwrap();
    mr.header().unwrap();
    assert!(mr.question().is_ok());
    assert!(matches!(mr.the_question_ref(), Err(Error::BadQuestionsCount(2))));

    let mut mr = MessageReader::new(&M1[..]).unwrap();
    mr.header().unwrap();
    assert!(mr.the_question().is_ok());
    assert!(matches!(mr.the_question(), Err(Error::ReaderDone)));
}

#[test]
fn record_headers_of_a_done_reader() {
    let mut mr = MessageReader::new(&M1[..3]).unwrap();
    assert!(matches!(mr.header(), Err(Error::EndOfBuffer)));
    assert!(matches!(mr.record_header_ref(), Err(Error::ReaderDone)));
    assert!(matches!(mr.record_header::<Name>(), Err(Error::ReaderDone)));
}

#[test]
fn questions_and_records_iterators() {
    let mr = MessageReader::new(&M1[..]).unwrap();
    let mut questions = mr.questions().unwrap();
    let q = questions.next().unwrap().unwrap();
    assert_eq!(q.qtype, Type::A);
    assert_eq!(q.qclass, Class::IN);
    assert!(questions.next().is_none());

    let mut records = mr.records().unwrap();
    let mut n = 0;
    while let Some(r) = records.next() {
        let (section, _record) = r.unwrap();
        assert_eq!(section, RecordsSection::Answer);
        n += 1;
    }
    assert_eq!(n, 4);
    assert!(records.next().is_none());
    assert!(records.next().is_none());

    let short = MessageReader::new(&M1[..80]).unwrap();
    assert!(matches!(short.questions(), Err(Error::EndOfBuffer)));
    assert!(matches!(short.records(), Err(Error::EndOfBuffer)));
    let none = MessageReader::new(&M1[..5]).unwrap();
    assert!(matches!(none.records(), Err(Error::EndOfBuffer)));
}

#[test]
fn data_at_a_marker_is_the_data_read_there() {
    let mut mr = MessageReader::new(&M1[..]).unwrap();
    mr.header().unwrap();
    mr.skip_questions().unwrap();
    let mut markers = Vec::new();
    let mut bytes = Vec::new();
    let mut data = Vec::new();
    while mr.has_records() {
        let m = mr.record_marker().unwrap();
        bytes.push(mr.record_data_bytes_at(&m).unwrap());
        let a: A = mr.record_data(&m).unwrap();
        data.push(a);
        markers.push(m);
    }
    assert_eq!(markers.len(), 4);
    for i in 0..markers.len() {
        assert_eq!(mr.record_data_bytes_at(&markers[i]).unwrap(), bytes[i]);
        let a: A = mr.record_data_at(&markers[i]).unwrap();
        assert_eq!(a, data[i]);
    }
}

#[test]
fn header_ref_gives_the_marker() {
    let mut by_marker = MessageReader::new(&M1[..]).unwrap();
    let mut by_header = MessageReader::new(&M1[..]).unwrap();
    by_marker.header().unwrap();
    by_header.header().unwrap();
    by_marker.skip_questions().unwrap();
    by_header.skip_questions().unwrap();
    while by_marker.has_records() {
        let m = by_marker.record_marker().unwrap();
        let h = by_header.record_header::<Name>().unwrap();
        assert_eq!(*h.marker(), m);
        assert_eq!(h.name().as_str(), "cnn.com.");
        by_marker.skip_record_data(&m).unwrap();
        by_header.skip_record_data(&m).unwrap();
    }
    assert!(!by_header.has_records());
}
