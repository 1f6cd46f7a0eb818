use dns_query::build_query;
use dns_query::decode_dns_name;
use dns_query::encode_dns_name;
use dns_query::AsBytes;
use dns_query::ClassType;
use dns_query::Header;
use dns_query::Ipv4Address;
use dns_query::Question;
use dns_query::QueryResponse;
use dns_query::QueryType;
use dns_query::Record;
use dns_query::Response;

#[test]
fn test_pack_header() {
    let header = Header {
        id: 0x1314,
        flags: 0,
        num_questions: 1,
        num_additionals: 0,
        num_authorities: 0,
        num_answers: 0,
    };
    let mut output = vec![];
    header.as_bytes(&mut output);

    assert_eq!(output, b"\x13\x14\x00\x00\x00\x01\x00\x00\x00\x00\x00\x00");
}

#[test]
fn test_pack_question() {
    let question = Question::new("google.com", QueryType::A, ClassType::IN);
    let mut output = vec![];
    question.as_bytes(&mut output);

    assert_eq!(output, b"\x06google\x03com\x00\x00\x01\x00\x01");
}

#[test]
fn test_encode_dns_name() {
    let output = encode_dns_name("google.com");
    assert_eq!(output, b"\x06google\x03com\x00");
}

#[test]
fn test_build_query() {
    let query = build_query("google.com", QueryType::A, 1, 0);

    assert_eq!(
        query,
        b"\x00\x01\x00\x00\x00\x01\x00\x00\x00\x00\x00\x00\x06google\x03com\x00\x00\x01\x00\x01"
    )
}

#[test]
fn test_parse_header() {
    let header = Header {
        id: 0xa,
        flags: 0x9,
        num_questions: 0xc,
        num_additionals: 0xd,
        num_authorities: 0xe,
        num_answers: 0xf,
    };
    let mut output = vec![];
    header.as_bytes(&mut output);

    assert_eq!(Header::parse(&output, 0).unwrap(), header);
}

#[test]
fn test_decode_name() {
    let input = b"\x02pi\x00";
    let result = decode_dns_name(input, 0);
    assert!(result.is_ok());
    let (name, consumed) = result.unwrap();
    assert_eq!(name, "pi");
    assert_eq!(consumed, 4);
}

#[test]
fn test_parse_question() {
    let question = Question::new("pi.hole", QueryType::A, ClassType::IN);
    let input = b"\x02\x70\x69\x04\x68\x6f\x6c\x65\x00\x00\x01\x00\x01";

    let new_question = Question::parse(input, 0);
    assert!(new_question.is_ok());
    assert_eq!(new_question.unwrap().0, question)
}

#[test]
fn test_parse_response() {
    let response = b"\x00\x01\x85\x80\x00\x01\x00\x01\x00\x00\x00\x00\x02\x70\x69\x04\x68\x6f\x6c\x65\x00\x00\x01\x00\x01\xc0\x0c\x00\x01\x00\x01\x00\x00\x00\x00\x00\x04\xc0\xa8\x02\x66";
    let response = Response::parse(response);
    assert!(response.is_ok());

    let response = response.unwrap();
    assert_eq!(
        response.header,
        Header {
            id: 0x01,
            flags: 0x8580,
            num_questions: 1,
            num_answers: 1,
            num_authorities: 0,
            num_additionals: 0,
        }
    );

    assert_eq!(
        response.questions,
        [Question::new("pi.hole", QueryType::A, ClassType::IN)]
    );

    assert_eq!(
        response.answers,
        [Record {
            name: "pi.hole".into(),
            ty: QueryResponse::A(Ipv4Address::new(192, 168, 2, 102)),
            class: ClassType::IN,
            ttl: 0,
            data: vec![192, 168, 2, 102]
        }]
    )
}
