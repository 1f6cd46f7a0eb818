use dns_query::next_step;
use dns_query::resolve;
use dns_query::Ipv4Address;
use dns_query::QueryResponse;
use dns_query::QueryType;
use dns_query::RandomSource;
use dns_query::ResolveError;
use dns_query::ResolveStep;
use dns_query::Response;
use dns_query::Transport;
use dns_query::TransportError;

/// A transport that replays a fixed script of response datagrams.
struct MockTransport {
    responses: Vec<Vec<u8>>,
    next: usize,
    sent: usize,
}

impl MockTransport {
    fn new(responses: Vec<Vec<u8>>) -> Self {
        MockTransport { responses, next: 0, sent: 0 }
    }
}

impl Transport for MockTransport {
    fn send(&mut self, _server: &Ipv4Address, _payload: &Vec<u8>) -> Result<(), TransportError> {
        self.sent += 1;
        Ok(())
    }

    fn receive(&mut self) -> Result<Vec<u8>, TransportError> {
        if self.next < self.responses.len() {
            let r = self.responses[self.next].clone();
            self.next += 1;
            Ok(r)
        } else {
            Err(TransportError::NoResponse)
        }
    }
}

struct FixedRandom;

impl RandomSource for FixedRandom {
    fn random_id(&mut self) -> u16 {
        7
    }

    fn pick_index(&mut self, _bound: usize) -> usize {
        0
    }
}

fn header(an: u8, ns: u8, ar: u8) -> Vec<u8> {
    vec![0x00, 0x07, 0x00, 0x00, 0x00, 0x00, 0x00, an, 0x00, ns, 0x00, ar]
}

/// A response whose additional section holds one glue A record.
fn glue_response(ip: [u8; 4]) -> Vec<u8> {
    let mut b = header(0, 0, 1);
    b.extend_from_slice(b"\x00\x00\x01\x00\x01\x00\x00\x00\x00\x00\x04");
    b.extend_from_slice(&ip);
    b
}

/// A response whose answer section holds one A record.
fn answer_response(ip: [u8; 4]) -> Vec<u8> {
    let mut b = header(1, 0, 0);
    b.extend_from_slice(b"\x00\x00\x01\x00\x01\x00\x00\x00\x05\x00\x04");
    b.extend_from_slice(&ip);
    b
}

/// A response whose authority section holds one NS record naming "ns".
fn authority_response() -> Vec<u8> {
    let mut b = header(0, 1, 0);
    b.extend_from_slice(b"\x00\x00\x02\x00\x01\x00\x00\x00\x00\x00\x04\x02ns\x00");
    b
}

/// A response with no answer, no glue and no authority.
fn empty_response() -> Vec<u8> {
    header(0, 0, 0)
}

#[test]
fn resolver_follows_glue_chain_to_answer() {
    let mut transport = MockTransport::new(vec![
        glue_response([10, 0, 0, 1]),
        glue_response([10, 0, 0, 2]),
        answer_response([1, 2, 3, 4]),
    ]);
    let mut rng = FixedRandom;
    let record = resolve("example.com", QueryType::A, &mut transport, &mut rng, 16).unwrap();
    assert_eq!(record.ty, QueryResponse::A(Ipv4Address::new(1, 2, 3, 4)));
    assert_eq!(record.ttl, 5);
    assert_eq!(transport.sent, 3);
}

#[test]
fn resolver_follows_authority_by_nested_resolution() {
    let mut transport = MockTransport::new(vec![
        // the target query is answered with a bare NS delegation,
        authority_response(),
        // the nested resolution of "ns" gets an address,
        answer_response([10, 0, 0, 53]),
        // and the target query against that address gets the answer
        answer_response([9, 9, 9, 9]),
    ]);
    let mut rng = FixedRandom;
    let record = resolve("example.com", QueryType::A, &mut transport, &mut rng, 16).unwrap();
    assert_eq!(record.ty, QueryResponse::A(Ipv4Address::new(9, 9, 9, 9)));
    assert_eq!(transport.sent, 3);
}

#[test]
fn resolver_reports_dead_end() {
    let mut transport = MockTransport::new(vec![empty_response()]);
    let mut rng = FixedRandom;
    let result = resolve("example.com", QueryType::A, &mut transport, &mut rng, 16);
    assert_eq!(result.unwrap_err(), ResolveError::UnableToResolve);
    assert_eq!(transport.sent, 1);
}

#[test]
fn resolver_rejects_empty_budget_before_sending() {
    let mut transport = MockTransport::new(vec![answer_response([1, 2, 3, 4])]);
    let mut rng = FixedRandom;
    let result = resolve("example.com", QueryType::A, &mut transport, &mut rng, 0);
    assert_eq!(result.unwrap_err(), ResolveError::BudgetExhausted);
    assert_eq!(transport.sent, 0);
}

#[test]
fn resolver_gives_up_on_endless_glue() {
    let responses: Vec<Vec<u8>> = (0..10).map(|_| glue_response([10, 0, 0, 1])).collect();
    let mut transport = MockTransport::new(responses);
    let mut rng = FixedRandom;
    let result = resolve("example.com", QueryType::A, &mut transport, &mut rng, 3);
    assert_eq!(result.unwrap_err(), ResolveError::BudgetExhausted);
    assert_eq!(transport.sent, 3);
}

#[test]
fn resolver_propagates_transport_failure() {
    let mut transport = MockTransport::new(vec![]);
    let mut rng = FixedRandom;
    let result = resolve("example.com", QueryType::A, &mut transport, &mut rng, 16);
    assert_eq!(
        result.unwrap_err(),
        ResolveError::Transport(TransportError::NoResponse)
    );
}

#[test]
fn resolver_propagates_decode_failure() {
    let mut transport = MockTransport::new(vec![vec![1, 2, 3]]);
    let mut rng = FixedRandom;
    let result = resolve("example.com", QueryType::A, &mut transport, &mut rng, 16);
    assert_eq!(
        result.unwrap_err(),
        ResolveError::Decode(dns_query::DecodeError::Truncated)
    );
}

#[test]
fn resolver_rejects_unencodable_nameserver_name() {
    // an authority NS record whose name is one label of 100 invalid
    // UTF-8 bytes: it decodes to 100 replacement characters, which need
    // 300 bytes of UTF-8 and so cannot be re-encoded as a single label
    let mut ns = header(0, 1, 0);
    ns.extend_from_slice(b"\x00\x00\x02\x00\x01\x00\x00\x00\x00\x00\x66\x64");
    ns.extend_from_slice(&[0xffu8; 100]);
    ns.push(0x00);
    let mut transport = MockTransport::new(vec![ns]);
    let mut rng = FixedRandom;
    let result = resolve("example.com", QueryType::A, &mut transport, &mut rng, 16);
    assert_eq!(result.unwrap_err(), ResolveError::InvalidName);
}

#[test]
fn resolver_skips_answers_of_other_types() {
    // the answer section holds an A record, but the target type is AAAA;
    // nothing else helps, so resolution fails
    let mut transport = MockTransport::new(vec![answer_response([1, 2, 3, 4])]);
    let mut rng = FixedRandom;
    let result = resolve("example.com", QueryType::Aaaa, &mut transport, &mut rng, 16);
    assert_eq!(result.unwrap_err(), ResolveError::UnableToResolve);
}

#[test]
fn next_step_prefers_answer_then_glue() {
    // a response carrying an A answer, an NS authority and an A glue
    // record at once
    let mut b = header(1, 1, 1);
    b.extend_from_slice(b"\x00\x00\x01\x00\x01\x00\x00\x00\x00\x00\x04\x01\x02\x03\x04");
    b.extend_from_slice(b"\x00\x00\x02\x00\x01\x00\x00\x00\x00\x00\x04\x02ns\x00");
    b.extend_from_slice(b"\x00\x00\x01\x00\x01\x00\x00\x00\x00\x00\x04\x0a\x00\x00\x09");
    let resp = Response::parse(&b).unwrap();
    // with a matching answer the answer wins
    match next_step(&resp, QueryType::A) {
        ResolveStep::Answered(rec) => {
            assert_eq!(rec.ty, QueryResponse::A(Ipv4Address::new(1, 2, 3, 4)))
        }
        other => panic!("expected an answer, got {other:?}"),
    }
    // when the answer's type does not match, glue comes before authority
    match next_step(&resp, QueryType::Aaaa) {
        ResolveStep::Glue(ip) => assert_eq!(ip, Ipv4Address::new(10, 0, 0, 9)),
        other => panic!("expected glue, got {other:?}"),
    }
}

#[test]
fn next_step_takes_authority_when_no_answer_or_glue() {
    let resp = Response::parse(&authority_response()).unwrap();
    match next_step(&resp, QueryType::A) {
        ResolveStep::Authority(name) => assert_eq!(name, "ns"),
        other => panic!("expected an authority name, got {other:?}"),
    }
}
