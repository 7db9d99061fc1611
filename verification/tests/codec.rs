// Scenario coverage for the codec: fixed query bytes, response decoding,
// the display line, and the error cases of each decoder.

use rig::answer::Answer;
use rig::error::DnsError;
use rig::flags::HeaderFlags;
use rig::header::Header;
use rig::message::{Query, Response};
use rig::name::get_name;
use rig::question::Question;
use rig::records::{RecordClass, RecordType};
use rig::text::u32_string;

#[test]
fn query_a_in_fixed_id() {
    // a full query for ("google.com", A, IN) with the transaction id fixed
    // to 1337: header, label bytes, type and class, 28 bytes in all
    let expected = [
        5, 57, 1, 32, 0, 1, 0, 0, 0, 0, 0, 0, 6, 103, 111, 111, 103, 108, 101, 3, 99, 111, 109,
        0, 0, 1, 0, 1,
    ];

    let q = Query::new_with_id(
        String::from("google.com"),
        RecordType::A,
        RecordClass::IN,
        1337,
    );
    assert!(q.query_serialize() == expected);
}

#[test]
fn name_round_trip_with_consumed() {
    let encoded = Question::generate_label(String::from("example.org"));
    let (name, consumed) = get_name(&encoded).unwrap();
    assert_eq!(name, "example.org.");
    assert_eq!(consumed, encoded.len());
}

#[test]
fn record_codes_reencode() {
    for code in 1..=16u16 {
        assert_eq!(RecordType::from_u16(code).unwrap().to_u16(), code);
    }
    for code in 1..=4u16 {
        assert_eq!(RecordClass::from_u16(code).unwrap().to_u16(), code);
    }
    assert_eq!(RecordType::from_u16(0), Err(DnsError::BadType));
    assert_eq!(RecordType::from_u16(17), Err(DnsError::BadType));
    assert_eq!(RecordClass::from_u16(0), Err(DnsError::BadClass));
    assert_eq!(RecordClass::from_u16(5), Err(DnsError::BadClass));
}

#[test]
fn record_display_strings() {
    assert_eq!(RecordType::A.get_str(), "A");
    assert_eq!(RecordType::PTR.get_str(), "PTR");
    assert_eq!(RecordType::TXT.get_str(), "TXT");
    assert_eq!(RecordClass::IN.get_str(), "IN");
    assert_eq!(RecordClass::HS.get_str(), "HS");
}

#[test]
fn header_bytes_round_trip() {
    let mut h = Header::new(Some(4660));
    h.flags = HeaderFlags::from_u16(0x8180);
    let decoded = Header::from_bytes(&h.to_bytes()).unwrap();
    assert_eq!(decoded, h);
}

#[test]
fn flags_fields_of_reply_word() {
    let f = HeaderFlags::from_u16(0x8180);
    assert!(f.qr());
    assert!(f.rd());
    assert!(f.ra());
    assert!(!f.aa());
    assert!(!f.tc());
    assert!(!f.z());
    assert!(!f.ad());
    assert!(!f.auth());
    assert_eq!(f.opcode(), 0);
    assert_eq!(f.rcode(), 0);
    assert_eq!(f.to_u16(), 0x8180);
}

#[test]
fn short_reply_is_rejected() {
    // fewer than the 12 header bytes must be rejected, never padded
    assert_eq!(
        Response::from_bytes(vec![5, 57, 1, 32, 0, 1, 0, 0, 0, 0, 0]),
        Err(DnsError::Truncated)
    );
    assert_eq!(Response::from_bytes(Vec::new()), Err(DnsError::Truncated));
}

#[test]
fn question_decode_and_errors() {
    let bytes = vec![3, 119, 119, 119, 0, 0, 15, 0, 3, 9, 9];
    let (q, consumed) = Question::from_bytes(bytes).unwrap();
    assert_eq!(consumed, 9);
    assert_eq!(q.name, vec![3, 119, 119, 119, 0]);
    assert_eq!(q.rtype, RecordType::MX);
    assert_eq!(q.rclass, RecordClass::CH);
    assert_eq!(q.get_name_str(), "www.");

    assert_eq!(
        Question::from_bytes(vec![0, 0, 99, 0, 1]),
        Err(DnsError::BadType)
    );
    assert_eq!(
        Question::from_bytes(vec![0, 0, 1, 0, 9]),
        Err(DnsError::BadClass)
    );
    assert_eq!(Question::from_bytes(vec![0, 0, 1]), Err(DnsError::Truncated));
    assert_eq!(
        Question::from_bytes(vec![1, 200, 0, 0, 1, 0, 1]),
        Err(DnsError::BadName)
    );
}

#[test]
fn name_walk_errors() {
    // the walk runs past the end of the buffer
    assert_eq!(get_name(&vec![5, 1, 2]), Err(DnsError::Truncated));
    assert_eq!(get_name(&Vec::new()), Err(DnsError::Truncated));
    // a label byte outside ASCII
    assert_eq!(get_name(&vec![1, 200, 0]), Err(DnsError::BadName));
}

#[test]
fn answer_decode_and_errors() {
    let bytes = vec![
        0xc0, 0x0c, 0, 1, 0, 1, 0, 0, 1, 44, 0, 4, 93, 184, 216, 34, 99,
    ];
    let (a, consumed) = Answer::from_bytes(bytes).unwrap();
    assert_eq!(consumed, 16);
    assert_eq!(a.domain, 0xc00c);
    assert_eq!(a.rtype, RecordType::A);
    assert_eq!(a.rclass, RecordClass::IN);
    assert_eq!(a.ttl, 300);
    assert_eq!(a.len, 4);
    assert_eq!(a.data, vec![93, 184, 216, 34]);

    // RDLENGTH that overruns the buffer
    assert_eq!(
        Answer::from_bytes(vec![0xc0, 0x0c, 0, 1, 0, 1, 0, 0, 1, 44, 0, 10, 93, 184]),
        Err(DnsError::Truncated)
    );
    assert_eq!(Answer::from_bytes(vec![0xc0]), Err(DnsError::Truncated));
    assert_eq!(
        Answer::from_bytes(vec![0xc0, 0x0c, 0, 77, 0, 1]),
        Err(DnsError::BadType)
    );
    assert_eq!(
        Answer::from_bytes(vec![0xc0, 0x0c, 0, 1, 0, 7]),
        Err(DnsError::BadClass)
    );
}

#[test]
fn example_com_reply_end_to_end() {
    // a reply to an example.com A/IN query holding one A record with TTL
    // 300 and the address 93.184.216.34
    let mut reply: Vec<u8> = vec![5, 57, 0x81, 0x80, 0, 1, 0, 1, 0, 0, 0, 0];
    reply.extend([7]);
    reply.extend(b"example");
    reply.extend([3]);
    reply.extend(b"com");
    reply.extend([0, 0, 1, 0, 1]);
    reply.extend([0xc0, 0x0c, 0, 1, 0, 1, 0, 0, 1, 44, 0, 4, 93, 184, 216, 34]);

    let response = Response::from_bytes(reply).unwrap();
    assert_eq!(response.header.id, 1337);
    assert_eq!(response.header.an_count, 1);
    assert_eq!(response.question.get_name_str(), "example.com.");
    assert_eq!(response.question.rtype, RecordType::A);
    assert_eq!(response.question.rclass, RecordClass::IN);
    assert_eq!(response.answer.len(), 1);
    let line = response.answer[0].render().unwrap();
    assert_eq!(line, "93.184.216.34 300 IN A");
}

#[test]
fn two_records_keep_wire_order() {
    let mut reply: Vec<u8> = vec![0, 7, 0x81, 0x80, 0, 1, 0, 2, 0, 0, 0, 0];
    reply.extend([3]);
    reply.extend(b"www");
    reply.extend([0, 0, 1, 0, 1]);
    reply.extend([0xc0, 0x0c, 0, 1, 0, 1, 0, 0, 0, 60, 0, 4, 10, 0, 0, 1]);
    reply.extend([0xc0, 0x0c, 0, 1, 0, 1, 0, 0, 0, 61, 0, 4, 10, 0, 0, 2]);

    let response = Response::from_bytes(reply).unwrap();
    assert_eq!(response.header.an_count, 2);
    assert_eq!(response.answer.len(), 2);
    assert_eq!(response.answer[0].ttl, 60);
    assert_eq!(response.answer[0].data, vec![10, 0, 0, 1]);
    assert_eq!(response.answer[1].ttl, 61);
    assert_eq!(response.answer[1].data, vec![10, 0, 0, 2]);
}

#[test]
fn render_skips_non_address_payloads() {
    let a = Answer {
        domain: 0xc00c,
        rtype: RecordType::TXT,
        rclass: RecordClass::IN,
        ttl: 60,
        len: 3,
        data: vec![1, 2, 3],
    };
    assert_eq!(a.render(), None);
}

#[test]
fn decimal_rendering() {
    assert_eq!(u32_string(0), "0");
    assert_eq!(u32_string(7), "7");
    assert_eq!(u32_string(1337), "1337");
    assert_eq!(u32_string(4294967295), "4294967295");
}
