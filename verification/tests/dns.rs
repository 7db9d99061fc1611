// The wire-format codec held to its documented byte-level vectors.

use rig::header::Header;
use rig::message::Query;
use rig::name::get_name;
use rig::question::Question;
use rig::records::{RecordClass, RecordType};

#[test]
fn test_header_flags() {
    let a1 = [5, 57, 0, 0, 0, 1, 0, 0, 0, 0, 0, 0]; // not query
    let a2 = [5, 57, 1, 32, 0, 1, 0, 0, 0, 0, 0, 0]; // query set

    let mut header = Header::new(Some(1337));

    let encoded = header.to_bytes();
    assert!(encoded == a1);

    header.flags.set_rd(true);
    header.flags.set_ad(true);

    let encoded = header.to_bytes();
    assert!(encoded == a2);
    assert!(header.flags.word == 0x0120); // "standard" dns query flags
}

#[test]
fn test_label_gen() {
    let l1 = [
        6, 0x67, 0x6f, 0x6f, 0x67, 0x6c, 0x65, 0x03, 0x63, 0x6f, 0x6d, 0x00,
    ];
    let l2 = [5, 0x67, 0x6f, 0x67, 0x6c, 0x65, 0x03, 0x63, 0x6f, 0x6d, 0x00];

    assert!(Question::generate_label(String::from("google.com")) == l1);
    assert!(Question::generate_label(String::from("gogle.com")) == l2);
}

#[test]
fn test_a_in_gen() {
    let expected = [
        5, 57, 1, 32, 0, 1, 0, 0, 0, 0, 0, 0, 6, 103, 111, 111, 103, 108, 101, 3, 99, 111, 109,
        0, 0, 1, 0, 1,
    ];

    let hostname = String::from("google.com");
    let rtype = RecordType::A;
    let rclass = RecordClass::IN;

    let q = Query::new(hostname, rtype, rclass);

    // ignore the randomized ID
    assert!(q.query_serialize()[2..] == expected[2..]);
}

#[test]
fn test_record_type_convert() {
    assert!(RecordType::from_u16(1) == Ok(RecordType::A));
    assert!(RecordType::from_u16(2) == Ok(RecordType::NS));
    assert!(RecordType::from_u16(3) == Ok(RecordType::MD));
    assert!(RecordType::from_u16(4) == Ok(RecordType::MF));
    assert!(RecordType::from_u16(5) == Ok(RecordType::CNAME));
    assert!(RecordType::from_u16(6) == Ok(RecordType::SOA));
    assert!(RecordType::from_u16(7) == Ok(RecordType::MB));
    assert!(RecordType::from_u16(8) == Ok(RecordType::MG));
    assert!(RecordType::from_u16(9) == Ok(RecordType::MR));
    assert!(RecordType::from_u16(10) == Ok(RecordType::NULL));
    assert!(RecordType::from_u16(11) == Ok(RecordType::WKS));
    assert!(RecordType::from_u16(12) == Ok(RecordType::PTR));
    assert!(RecordType::from_u16(13) == Ok(RecordType::HINFO));
    assert!(RecordType::from_u16(14) == Ok(RecordType::MINFO));
    assert!(RecordType::from_u16(15) == Ok(RecordType::MX));
    assert!(RecordType::from_u16(16) == Ok(RecordType::TXT));
}

#[test]
fn test_record_class_convert() {
    assert!(RecordClass::from_u16(1) == Ok(RecordClass::IN));
    assert!(RecordClass::from_u16(2) == Ok(RecordClass::CS));
    assert!(RecordClass::from_u16(3) == Ok(RecordClass::CH));
    assert!(RecordClass::from_u16(4) == Ok(RecordClass::HS));
}

#[test]
fn test_get_name() {
    let bytes: Vec<u8> = vec![6, 103, 111, 111, 103, 108, 101, 3, 99, 111, 109, 0];

    assert!(get_name(&bytes) == Ok((String::from("google.com."), 12)));
}

#[test]
fn test_gen_label() {
    let bytes: Vec<u8> = vec![6, 103, 111, 111, 103, 108, 101, 3, 99, 111, 109, 0];

    assert!(Question::generate_label("google.com".to_string()) == bytes);
}
