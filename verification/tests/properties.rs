use dns_query::build_query;
use dns_query::decode_dns_name;
use dns_query::encode_dns_name;
use dns_query::ClassType;
use dns_query::DecodeError;
use dns_query::Ipv4Address;
use dns_query::Ipv6Address;
use dns_query::QueryResponse;
use dns_query::QueryType;
use dns_query::Record;
use dns_query::Response;
use dns_query::TryFromClassTypeError;
use dns_query::TryFromQueryTypeError;

#[test]
fn query_bytes_with_recursion_desired_flag() {
    let query = build_query("google.com", QueryType::A, 1, 0x0100);
    assert_eq!(
        query,
        b"\x00\x01\x01\x00\x00\x01\x00\x00\x00\x00\x00\x00\x06google\x03com\x00\x00\x01\x00\x01"
    );
}

#[test]
fn query_round_trips_through_decode() {
    let query = build_query("www.example.com", QueryType::Mx, 0xbeef, 0x0100);
    let msg = Response::parse(&query).unwrap();
    assert_eq!(msg.header.id, 0xbeef);
    assert_eq!(msg.header.flags, 0x0100);
    assert_eq!(msg.header.num_questions, 1);
    assert_eq!(msg.header.num_answers, 0);
    assert_eq!(msg.header.num_authorities, 0);
    assert_eq!(msg.header.num_additionals, 0);
    assert_eq!(msg.questions.len(), 1);
    assert_eq!(msg.questions[0].name, "www.example.com");
    assert_eq!(msg.questions[0].ty, QueryType::Mx);
    assert_eq!(msg.questions[0].class, ClassType::IN);
    assert!(msg.answers.is_empty());
    assert!(msg.authorities.is_empty());
    assert!(msg.additionals.is_empty());
}

#[test]
fn name_round_trips_through_codec() {
    let encoded = encode_dns_name("www.example.com");
    let (name, consumed) = decode_dns_name(&encoded, 0).unwrap();
    assert_eq!(name, "www.example.com");
    assert_eq!(consumed, encoded.len());
}

#[test]
fn pointer_cycle_fails_with_depth_error() {
    // offset 0 points at offset 2, which points back at offset 0
    let buffer = b"\xc0\x02\xc0\x00";
    assert_eq!(decode_dns_name(buffer, 0), Err(DecodeError::DepthExceeded));
    assert_eq!(decode_dns_name(buffer, 2), Err(DecodeError::DepthExceeded));
}

#[test]
fn pointer_past_end_fails() {
    // 0xc1 0xff is a pointer to offset 0x1ff, far past the buffer's end
    let buffer = b"\xc1\xff";
    assert_eq!(
        decode_dns_name(buffer, 0),
        Err(DecodeError::PointerOutOfBounds)
    );
}

#[test]
fn rdata_past_end_fails_with_truncation() {
    // header counting one answer; the record declares 16 rdata bytes but
    // only 4 follow
    let mut buffer = vec![
        0x00, 0x01, 0x00, 0x00, 0x00, 0x00, 0x00, 0x01, 0x00, 0x00, 0x00, 0x00,
    ];
    buffer.extend_from_slice(b"\x00\x00\x01\x00\x01\x00\x00\x00\x00\x00\x10\x01\x02\x03\x04");
    assert_eq!(Response::parse(&buffer), Err(DecodeError::Truncated));
    assert_eq!(Record::parse(&buffer, 12), Err(DecodeError::Truncated));
}

#[test]
fn a_record_with_wrong_length_fails() {
    // an A record whose rdata is 3 bytes long
    let record = b"\x00\x00\x01\x00\x01\x00\x00\x00\x00\x00\x03\x01\x02\x03";
    assert_eq!(Record::parse(record, 0), Err(DecodeError::LengthMismatch));
}

#[test]
fn aaaa_record_with_wrong_length_fails() {
    let record = b"\x00\x00\x1c\x00\x01\x00\x00\x00\x00\x00\x04\x01\x02\x03\x04";
    assert_eq!(Record::parse(record, 0), Err(DecodeError::LengthMismatch));
}

#[test]
fn ns_name_must_stay_inside_rdata() {
    // the NS rdata declares a 5-byte label but the rdata itself is only
    // 3 bytes long; the label must not be read out of the bytes that
    // follow the record
    let record = b"\x00\x00\x02\x00\x01\x00\x00\x00\x00\x00\x03\x05ab\x63\x64\x65";
    assert_eq!(Record::parse(record, 0), Err(DecodeError::Truncated));
}

#[test]
fn unknown_type_code_fails() {
    // a question with type code 99
    let question = b"\x02pi\x00\x00\x63\x00\x01";
    assert_eq!(
        dns_query::Question::parse(question, 0),
        Err(DecodeError::UnknownQueryType(99))
    );
}

#[test]
fn unknown_class_code_fails() {
    let question = b"\x02pi\x00\x00\x01\x00\x09";
    assert_eq!(
        dns_query::Question::parse(question, 0),
        Err(DecodeError::UnknownClassType(9))
    );
}

#[test]
fn trailing_bytes_fail() {
    // an all-zero-count message followed by one stray byte
    let buffer = b"\x00\x01\x00\x00\x00\x00\x00\x00\x00\x00\x00\x00\xff";
    assert_eq!(Response::parse(buffer), Err(DecodeError::TrailingBytes));
}

#[test]
fn empty_message_decodes() {
    let buffer = b"\x00\x01\x00\x00\x00\x00\x00\x00\x00\x00\x00\x00";
    let msg = Response::parse(buffer).unwrap();
    assert!(msg.questions.is_empty());
    assert!(msg.answers.is_empty());
    assert!(msg.authorities.is_empty());
    assert!(msg.additionals.is_empty());
}

#[test]
fn short_header_fails() {
    assert_eq!(
        Response::parse(b"\x00\x01\x00"),
        Err(DecodeError::Truncated)
    );
}

#[test]
fn type_codes_map_both_ways() {
    assert_eq!(QueryType::from_code(1), Ok(QueryType::A));
    assert_eq!(QueryType::from_code(16), Ok(QueryType::Txt));
    assert_eq!(QueryType::from_code(28), Ok(QueryType::Aaaa));
    assert_eq!(
        QueryType::from_code(0),
        Err(TryFromQueryTypeError::Unknown(0))
    );
    assert_eq!(
        QueryType::from_code(17),
        Err(TryFromQueryTypeError::Unknown(17))
    );
    assert_eq!(QueryType::Aaaa.code(), 28);
    assert_eq!(QueryType::Cname.code(), 5);
    assert_eq!(ClassType::from_code(4), Ok(ClassType::HS));
    assert_eq!(
        ClassType::from_code(5),
        Err(TryFromClassTypeError::Unknown(5))
    );
    assert_eq!(ClassType::CH.code(), 3);
}

#[test]
fn payload_mnemonics() {
    assert_eq!(QueryResponse::A(Ipv4Address::new(1, 2, 3, 4)).name(), "A");
    assert_eq!(QueryResponse::Cname("x".into()).name(), "CNAME");
    assert_eq!(QueryResponse::Soa.name(), "SOA");
    assert_eq!(
        QueryResponse::Aaaa(Ipv6Address::new(0, 0, 0, 0, 0, 0, 0, 1)).name(),
        "AAAA"
    );
}

#[test]
fn ipv4_data_renders_dotted_decimal() {
    let record = Record {
        name: "pi.hole".into(),
        ty: QueryResponse::A(Ipv4Address::new(192, 168, 2, 102)),
        class: ClassType::IN,
        ttl: 0,
        data: vec![192, 168, 2, 102],
    };
    assert_eq!(record.data(), "192.168.2.102");
}

#[test]
fn ipv6_data_renders_with_zero_compression() {
    let cases: [(Ipv6Address, &str); 6] = [
        (Ipv6Address::new(0, 0, 0, 0, 0, 0, 0, 0), "::"),
        (Ipv6Address::new(0, 0, 0, 0, 0, 0, 0, 1), "::1"),
        (
            Ipv6Address::new(0x2001, 0xdb8, 0, 0, 0, 0, 0, 1),
            "2001:db8::1",
        ),
        (
            Ipv6Address::new(1, 2, 3, 4, 5, 6, 7, 8),
            "1:2:3:4:5:6:7:8",
        ),
        // a single zero group is not compressed
        (Ipv6Address::new(1, 0, 2, 3, 4, 5, 6, 7), "1:0:2:3:4:5:6:7"),
        // on a tie the leftmost run wins
        (Ipv6Address::new(1, 0, 0, 2, 0, 0, 3, 4), "1::2:0:0:3:4"),
    ];
    for (addr, expected) in cases {
        let record = Record {
            name: "x".into(),
            ty: QueryResponse::Aaaa(addr),
            class: ClassType::IN,
            ttl: 0,
            data: vec![],
        };
        assert_eq!(record.data(), expected);
    }
}

#[test]
fn text_and_name_data_render_as_themselves() {
    let txt = Record {
        name: "x".into(),
        ty: QueryResponse::Txt("hello world".into()),
        class: ClassType::IN,
        ttl: 0,
        data: b"hello world".to_vec(),
    };
    assert_eq!(txt.data(), "hello world");
    let ns = Record {
        name: "x".into(),
        ty: QueryResponse::Ns("ns1.example.com".into()),
        class: ClassType::IN,
        ttl: 0,
        data: vec![],
    };
    assert_eq!(ns.data(), "ns1.example.com");
}

#[test]
fn opaque_data_renders_quoted_bytes() {
    let record = Record {
        name: "x".into(),
        ty: QueryResponse::Soa,
        class: ClassType::IN,
        ttl: 0,
        data: vec![6, 112, 105],
    };
    assert_eq!(record.data(), "\"[6, 112, 105]\"");
    let empty = Record {
        name: "x".into(),
        ty: QueryResponse::Null,
        class: ClassType::IN,
        ttl: 0,
        data: vec![],
    };
    assert_eq!(empty.data(), "\"[]\"");
}

#[test]
fn compressed_name_in_rdata_resolves_against_whole_message() {
    // one NS answer whose rdata is "ns." + a pointer back to the
    // question's name at offset 12
    let buffer = b"\x00\x01\x00\x00\x00\x01\x00\x01\x00\x00\x00\x00\
\x02\x70\x69\x04\x68\x6f\x6c\x65\x00\x00\x01\x00\x01\
\xc0\x0c\x00\x02\x00\x01\x00\x00\x00\x00\x00\x05\x02ns\xc0\x0c";
    let msg = Response::parse(buffer).unwrap();
    assert_eq!(msg.answers.len(), 1);
    assert_eq!(msg.answers[0].name, "pi.hole");
    assert_eq!(msg.answers[0].ty, QueryResponse::Ns("ns.pi.hole".into()));
}

#[test]
fn txt_record_decodes_lossily() {
    // a TXT record whose payload holds an invalid UTF-8 byte
    let record = b"\x00\x00\x10\x00\x01\x00\x00\x00\x00\x00\x03hi\xff";
    let (rec, used) = Record::parse(record, 0).unwrap();
    assert_eq!(used, record.len());
    assert_eq!(rec.ty, QueryResponse::Txt("hi\u{fffd}".into()));
    assert_eq!(rec.data, b"hi\xff".to_vec());
}
