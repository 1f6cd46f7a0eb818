//! The wire codec: encoding query messages and decoding full response
//! messages.  A message is a 12-byte header of six big-endian 16-bit
//! fields, followed by the questions and the answer, authority and
//! additional records the header counts.  Every field of the wire format
//! is modelled by a spec function, and each parser is proved to follow
//! its model exactly.

use vstd::prelude::*;

use vstd::string::StringSliceAdditionalSpecFns;
use vstd::utf8::decode_utf8;
use vstd::utf8::encode_utf8;
use vstd::utf8::valid_utf8;

use crate::addr::Ipv4Address;
use crate::addr::Ipv6Address;
use crate::errors::DecodeError;
use crate::name::copy_range;
use crate::name::decode_name_at;
use crate::name::encode_dns_name;
use crate::name::lemma_decode_consumed;
use crate::name::lemma_decode_encoded_labels;
use crate::name::spec_ascii_name_chars;
use crate::name::spec_decode_name_at;
use crate::name::spec_encode_name;
use crate::name::spec_labels_ascii;
use crate::name::spec_labels_utf8;
use crate::name::spec_name_chars;
use crate::name::spec_name_encodable;
use crate::name::spec_split_labels;
use crate::name::spec_utf8_name_chars;
use crate::name::MAX_PTR_TRAVERSALS;
use crate::text::ascii_bytes;
use crate::text::ascii_chars_of;
use crate::text::lemma_ascii_decode;
use crate::text::quoted_bytes;
use crate::text::spec_quoted_bytes;
use crate::text::utf8_lossy;
use crate::text::utf8_lossy_of;
use crate::types::lemma_query_type_code_bijective;
use crate::types::spec_class_type_code;
use crate::types::spec_class_type_from_code;
use crate::types::spec_query_response_eq;
use crate::types::spec_query_type_code;
use crate::types::spec_query_type_from_code;
use crate::types::ClassType;
use crate::types::QueryResponse;
use crate::types::QueryType;

verus! {

/// The big-endian bytes of a 16-bit value.
pub open spec fn spec_u16_be(x: u16) -> Seq<u8> {
    seq![(x / 256) as u8, (x % 256) as u8]
}

/// The 16-bit value of two big-endian bytes at `p`.
pub open spec fn spec_be16(b: Seq<u8>, p: int) -> u16 {
    (b[p] * 256 + b[p + 1]) as u16
}

/// The 32-bit value of four big-endian bytes at `p`.
pub open spec fn spec_be32(b: Seq<u8>, p: int) -> u32 {
    (b[p] * 0x1000000 + b[p + 1] * 0x10000 + b[p + 2] * 0x100 + b[p + 3]) as u32
}

/// Reading back the two bytes of a 16-bit value gives the value.
pub proof fn lemma_u16_be_roundtrip(x: u16, b: Seq<u8>, p: int)
    requires
        0 <= p,
        p + 2 <= b.len(),
        b[p] == spec_u16_be(x)[0],
        b[p + 1] == spec_u16_be(x)[1],
    ensures
        spec_be16(b, p) == x,
{
}

fn read_u16(buffer: &[u8], p: usize) -> (x: u16)
    requires
        p + 2 <= buffer@.len(),
    ensures
        x == spec_be16(buffer@, p as int),
{
    // materialises the bound `buffer@.len() <= usize::MAX`
    let _n = buffer.len();
    let hi = *vstd::slice::slice_index_get(buffer, p);
    let lo = *vstd::slice::slice_index_get(buffer, p + 1);
    (hi as u16) * 256 + (lo as u16)
}

fn read_u32(buffer: &[u8], p: usize) -> (x: u32)
    requires
        p + 4 <= buffer@.len(),
    ensures
        x == spec_be32(buffer@, p as int),
{
    // materialises the bound `buffer@.len() <= usize::MAX`
    let _n = buffer.len();
    let b0 = *vstd::slice::slice_index_get(buffer, p);
    let b1 = *vstd::slice::slice_index_get(buffer, p + 1);
    let b2 = *vstd::slice::slice_index_get(buffer, p + 2);
    let b3 = *vstd::slice::slice_index_get(buffer, p + 3);
    (b0 as u32) * 0x1000000 + (b1 as u32) * 0x10000 + (b2 as u32) * 0x100 + (b3 as u32)
}

fn push_u16_be(dest: &mut Vec<u8>, x: u16)
    ensures
        final(dest)@ == old(dest)@ + spec_u16_be(x),
{
    dest.push((x / 256) as u8);
    dest.push((x % 256) as u8);
    proof {
        assert(dest@ =~= old(dest)@ + spec_u16_be(x));
    }
}

/// Appends all of `src` to `dest`.
fn append_bytes(dest: &mut Vec<u8>, src: &Vec<u8>)
    ensures
        final(dest)@ == old(dest)@ + src@,
{
    let mut i: usize = 0;
    while i < src.len()
        invariant
            i <= src@.len(),
            dest@ == old(dest)@ + src@.subrange(0, i as int),
        decreases src@.len() - i,
    {
        dest.push(src[i]);
        proof {
            assert(src@.subrange(0, i + 1) =~= src@.subrange(0, i as int).push(src@[i as int]));
        }
        i = i + 1;
    }
    proof {
        assert(src@.subrange(0, src@.len() as int) =~= src@);
    }
}

/// Conversion to wire format: a value's byte form, appended to a caller's
/// buffer.
pub trait AsBytes {
    /// The wire form this value serialises to.
    spec fn wire_bytes(&self) -> Seq<u8>;

    /// Whether the value can be serialised (e.g. every name label fits
    /// its one-byte length prefix).
    spec fn encodable(&self) -> bool;

    /// Appends the value's wire form to `dest`.
    fn as_bytes(&self, dest: &mut Vec<u8>)
        requires
            self.encodable(),
        ensures
            final(dest)@ == old(dest)@ + self.wire_bytes(),
    ;
}

/// A DNS header: the transaction id, the opaque flags word, and the four
/// section counts, each a big-endian 16-bit field on the wire.
#[derive(Debug, Clone, Copy, PartialEq, Eq, Structural)]
pub struct Header {
    /// transaction id
    pub id: u16,
    /// the 16 flag bits, kept opaque
    pub flags: u16,
    /// number of questions
    pub num_questions: u16,
    /// number of answer records
    pub num_answers: u16,
    /// number of authority records
    pub num_authorities: u16,
    /// number of additional records
    pub num_additionals: u16,
}

/// The twelve header bytes: six big-endian 16-bit fields in order.
pub open spec fn spec_header_bytes(h: Header) -> Seq<u8> {
    spec_u16_be(h.id) + spec_u16_be(h.flags) + spec_u16_be(h.num_questions) + spec_u16_be(
        h.num_answers,
    ) + spec_u16_be(h.num_authorities) + spec_u16_be(h.num_additionals)
}

/// The header encoded at `pos`: twelve bytes, or a truncation error when
/// fewer remain.
pub open spec fn spec_parse_header(b: Seq<u8>, pos: int) -> Result<Header, DecodeError> {
    if pos < 0 || pos + 12 > b.len() {
        Err(DecodeError::Truncated)
    } else {
        Ok(
            Header {
                id: spec_be16(b, pos),
                flags: spec_be16(b, pos + 2),
                num_questions: spec_be16(b, pos + 4),
                num_answers: spec_be16(b, pos + 6),
                num_authorities: spec_be16(b, pos + 8),
                num_additionals: spec_be16(b, pos + 10),
            },
        )
    }
}

impl Header {
    /// Parses the twelve header bytes at `pos`, exactly as
    /// [`spec_parse_header`] describes.
    pub fn parse(buffer: &[u8], pos: usize) -> (r: Result<Header, DecodeError>)
        ensures
            r == spec_parse_header(buffer@, pos as int),
    {
        if buffer.len() < 12 || pos > buffer.len() - 12 {
            return Err(DecodeError::Truncated);
        }
        Ok(
            Header {
                id: read_u16(buffer, pos),
                flags: read_u16(buffer, pos + 2),
                num_questions: read_u16(buffer, pos + 4),
                num_answers: read_u16(buffer, pos + 6),
                num_authorities: read_u16(buffer, pos + 8),
                num_additionals: read_u16(buffer, pos + 10),
            },
        )
    }
}

impl AsBytes for Header {
    open spec fn wire_bytes(&self) -> Seq<u8> {
        spec_header_bytes(*self)
    }

    open spec fn encodable(&self) -> bool {
        true
    }

    fn as_bytes(&self, dest: &mut Vec<u8>) {
        push_u16_be(dest, self.id);
        push_u16_be(dest, self.flags);
        push_u16_be(dest, self.num_questions);
        push_u16_be(dest, self.num_answers);
        push_u16_be(dest, self.num_authorities);
        push_u16_be(dest, self.num_additionals);
        proof {
            assert(dest@ =~= old(dest)@ + spec_header_bytes(*self));
        }
    }
}

impl Default for Header {
    /// The default header is all zeroes.
    fn default() -> (r: Self)
        ensures
            r == (Header {
                id: 0,
                flags: 0,
                num_questions: 0,
                num_answers: 0,
                num_authorities: 0,
                num_additionals: 0,
            }),
    {
        Header {
            id: 0,
            flags: 0,
            num_questions: 0,
            num_answers: 0,
            num_authorities: 0,
            num_additionals: 0,
        }
    }
}

/// Parsing twelve bytes that are a header's wire form gives that header
/// back.
pub proof fn lemma_header_roundtrip(h: Header, b: Seq<u8>, pos: int)
    requires
        0 <= pos,
        pos + 12 <= b.len(),
        b.subrange(pos, pos + 12) == spec_header_bytes(h),
    ensures
        spec_parse_header(b, pos) == Ok::<Header, DecodeError>(h),
{
    let w = spec_header_bytes(h);
    let w12 = seq![
        (h.id / 256) as u8,
        (h.id % 256) as u8,
        (h.flags / 256) as u8,
        (h.flags % 256) as u8,
        (h.num_questions / 256) as u8,
        (h.num_questions % 256) as u8,
        (h.num_answers / 256) as u8,
        (h.num_answers % 256) as u8,
        (h.num_authorities / 256) as u8,
        (h.num_authorities % 256) as u8,
        (h.num_additionals / 256) as u8,
        (h.num_additionals % 256) as u8,
    ];
    assert(w =~= w12);
    assert forall|k: int| 0 <= k < 12 implies b[pos + k] == w12[k] by {
        assert(b.subrange(pos, pos + 12)[k] == w[k]);
    }
    assert(b[pos] == (h.id / 256) as u8);
    assert(b[pos + 1] == (h.id % 256) as u8);
    assert(b[pos + 2] == (h.flags / 256) as u8);
    assert(b[pos + 3] == (h.flags % 256) as u8);
    assert(b[pos + 4] == (h.num_questions / 256) as u8);
    assert(b[pos + 5] == (h.num_questions % 256) as u8);
    assert(b[pos + 6] == (h.num_answers / 256) as u8);
    assert(b[pos + 7] == (h.num_answers % 256) as u8);
    assert(b[pos + 8] == (h.num_authorities / 256) as u8);
    assert(b[pos + 9] == (h.num_authorities % 256) as u8);
    assert(b[pos + 10] == (h.num_additionals / 256) as u8);
    assert(b[pos + 11] == (h.num_additionals % 256) as u8);
    lemma_u16_be_roundtrip(h.id, b, pos);
    lemma_u16_be_roundtrip(h.flags, b, pos + 2);
    lemma_u16_be_roundtrip(h.num_questions, b, pos + 4);
    lemma_u16_be_roundtrip(h.num_answers, b, pos + 6);
    lemma_u16_be_roundtrip(h.num_authorities, b, pos + 8);
    lemma_u16_be_roundtrip(h.num_additionals, b, pos + 10);
}

/// A DNS question: a domain name, a query type and a class.
#[derive(Debug)]
pub struct Question {
    /// the domain name asked about
    pub name: String,
    /// the query type asked for
    pub ty: QueryType,
    /// the class asked in
    pub class: ClassType,
}

/// The decoded meaning of a question: its name's labels and its two
/// codes.
pub struct QuestionModel {
    /// the name's labels, as raw bytes
    pub name: Seq<Seq<u8>>,
    /// the query type
    pub ty: QueryType,
    /// the class
    pub class: ClassType,
}

/// Whether an executable question carries exactly what a model says: the
/// dot-joined name (spelled out outright when the name is ASCII) and the
/// same codes.
pub open spec fn question_matches(q: Question, m: QuestionModel) -> bool {
    &&& q.name@ == spec_name_chars(m.name)
    &&& (spec_labels_utf8(m.name) ==> q.name@ == spec_utf8_name_chars(m.name))
    &&& (spec_labels_ascii(m.name) ==> q.name@ == spec_ascii_name_chars(m.name))
    &&& q.ty == m.ty
    &&& q.class == m.class
}

/// The question encoded at `pos` of the message `b`: a name (compression
/// resolved against all of `b`), then a type code and a class code, both
/// of which must be known.
pub open spec fn spec_parse_question(b: Seq<u8>, pos: int) -> Result<
    (QuestionModel, int),
    DecodeError,
> {
    match spec_decode_name_at(b, pos, b.len() as int, 0) {
        Err(e) => Err(e),
        Ok(nc) => {
            let q = pos + nc.1;
            if q + 2 > b.len() {
                Err(DecodeError::Truncated)
            } else {
                match spec_query_type_from_code(spec_be16(b, q)) {
                    None => Err(DecodeError::UnknownQueryType(spec_be16(b, q))),
                    Some(ty) => {
                        if q + 4 > b.len() {
                            Err(DecodeError::Truncated)
                        } else {
                            match spec_class_type_from_code(spec_be16(b, q + 2)) {
                                None => Err(DecodeError::UnknownClassType(spec_be16(b, q + 2))),
                                Some(class) => Ok(
                                    (QuestionModel { name: nc.0, ty, class }, nc.1 + 4),
                                ),
                            }
                        }
                    },
                }
            }
        },
    }
}

impl Question {
    /// Builds a question for `name` with the given type and class.
    pub fn new(name: &str, ty: QueryType, class: ClassType) -> (q: Self)
        ensures
            q.name@ == name@,
            q.ty == ty,
            q.class == class,
    {
        Question { name: String::from_str(name), ty, class }
    }

    /// Parses the question at `pos` of `buffer` (names may point back
    /// anywhere into `buffer`), exactly as [`spec_parse_question`]
    /// describes; returns it with the number of bytes it occupies.
    pub fn parse(buffer: &[u8], pos: usize) -> (r: Result<(Question, usize), DecodeError>)
        ensures
            ({
                let sr = spec_parse_question(buffer@, pos as int);
                match r {
                    Ok(p) => sr matches Ok(sp) && question_matches(p.0, sp.0) && p.1 == sp.1 && 1
                        <= p.1 && pos + p.1 <= buffer@.len(),
                    Err(e) => sr matches Err(e2) && e == e2,
                }
            }),
    {
        let (name, used) = match decode_name_at(buffer, pos, buffer.len(), 0) {
            Ok(p) => p,
            Err(e) => {
                return Err(e);
            },
        };
        proof {
            lemma_decode_consumed(buffer@, pos as int, buffer@.len() as int, 0);
        }
        let q = pos + used;
        if buffer.len() - q < 2 {
            return Err(DecodeError::Truncated);
        }
        let ty_code = read_u16(buffer, q);
        let ty = match QueryType::from_code(ty_code) {
            Ok(t) => t,
            Err(_) => {
                return Err(DecodeError::UnknownQueryType(ty_code));
            },
        };
        if buffer.len() - q < 4 {
            return Err(DecodeError::Truncated);
        }
        let class_code = read_u16(buffer, q + 2);
        let class = match ClassType::from_code(class_code) {
            Ok(c) => c,
            Err(_) => {
                return Err(DecodeError::UnknownClassType(class_code));
            },
        };
        Ok((Question { name, ty, class }, used + 4))
    }
}

impl PartialEq for Question {
    fn eq(&self, other: &Self) -> (r: bool) {
        self.name.eq(&other.name) && self.ty == other.ty && self.class == other.class
    }
}

/// When two questions carry the same content: equal names (compared by
/// their characters), types and classes.
pub open spec fn spec_question_eq(a: Question, b: Question) -> bool {
    a.name@ == b.name@ && a.ty == b.ty && a.class == b.class
}

impl vstd::std_specs::cmp::PartialEqSpecImpl for Question {
    open spec fn obeys_eq_spec() -> bool {
        true
    }

    open spec fn eq_spec(&self, other: &Self) -> bool {
        spec_question_eq(*self, *other)
    }
}

impl Clone for Question {
    /// A clone carries the same name, type and class.
    fn clone(&self) -> (q: Self)
        ensures
            q.name@ == self.name@,
            q.ty == self.ty,
            q.class == self.class,
    {
        Question { name: self.name.clone(), ty: self.ty, class: self.class }
    }
}

impl Default for Question {
    /// The default question asks for the empty name's A record in class
    /// IN.
    fn default() -> (r: Self)
        ensures
            r.name@ == Seq::<char>::empty(),
            r.ty == QueryType::A,
            r.class == ClassType::IN,
    {
        Question { name: String::new(), ty: QueryType::A, class: ClassType::IN }
    }
}

impl AsBytes for Question {
    open spec fn wire_bytes(&self) -> Seq<u8> {
        spec_encode_name(encode_utf8(self.name@)) + spec_u16_be(spec_query_type_code(self.ty))
            + spec_u16_be(spec_class_type_code(self.class))
    }

    open spec fn encodable(&self) -> bool {
        spec_name_encodable(encode_utf8(self.name@))
    }

    fn as_bytes(&self, dest: &mut Vec<u8>) {
        let encoded = encode_dns_name(self.name.as_str());
        append_bytes(dest, &encoded);
        push_u16_be(dest, self.ty.code());
        push_u16_be(dest, self.class.code());
        proof {
            assert(dest@ =~= old(dest)@ + self.wire_bytes());
        }
    }
}

/// Copies a byte vector.
fn clone_bytes(v: &Vec<u8>) -> (r: Vec<u8>)
    ensures
        r@ == v@,
{
    let mut r: Vec<u8> = Vec::new();
    let mut i: usize = 0;
    while i < v.len()
        invariant
            i <= v@.len(),
            r@ == v@.subrange(0, i as int),
        decreases v@.len() - i,
    {
        r.push(v[i]);
        proof {
            assert(v@.subrange(0, i + 1) =~= v@.subrange(0, i as int).push(v@[i as int]));
        }
        i = i + 1;
    }
    proof {
        assert(v@.subrange(0, v@.len() as int) =~= v@);
    }
    r
}

/// A resource record: a name, a type-tagged decoded payload, a class, a
/// time to live, and the payload's original raw bytes.
#[derive(Debug)]
pub struct Record {
    /// the record's domain name
    pub name: String,
    /// the decoded, type-tagged payload
    pub ty: QueryResponse,
    /// the record's class
    pub class: ClassType,
    /// time to live, in seconds
    pub ttl: u32,
    /// the raw rdata bytes
    pub data: Vec<u8>,
}

/// The decoded meaning of a record's payload, by record type: address
/// bytes, referenced-name labels, text bytes, or nothing beyond the raw
/// bytes for types without semantic payload parsing.
pub enum RdataModel {
    /// four address octets
    A(Seq<u8>),
    /// the nameserver name's labels
    Ns(Seq<Seq<u8>>),
    /// no semantic payload
    Md,
    /// no semantic payload
    Mf,
    /// the canonical name's labels
    Cname(Seq<Seq<u8>>),
    /// no semantic payload
    Soa,
    /// no semantic payload
    Mb,
    /// no semantic payload
    Mg,
    /// no semantic payload
    Mr,
    /// no semantic payload
    Null,
    /// no semantic payload
    Wks,
    /// no semantic payload
    Ptr,
    /// no semantic payload
    Hinfo,
    /// no semantic payload
    Minfo,
    /// no semantic payload
    Mx,
    /// the text's bytes
    Txt(Seq<u8>),
    /// sixteen address bytes
    Aaaa(Seq<u8>),
}

/// The decoded meaning of a resource record.
pub struct RecordModel {
    /// the record name's labels, as raw bytes
    pub name: Seq<Seq<u8>>,
    /// the payload's meaning
    pub rdata: RdataModel,
    /// the class
    pub class: ClassType,
    /// time to live, in seconds
    pub ttl: u32,
    /// the raw rdata bytes
    pub data: Seq<u8>,
}

/// The meaning of a record's rdata at `rs..rs+rdlen` of the message `b`,
/// by record type.  A and AAAA payloads must have exactly the address
/// width; NS and CNAME payloads are names whose labels must stay inside
/// the rdata but whose compression pointers may reach the whole message;
/// TXT keeps its bytes; every other known type has no semantic payload.
pub open spec fn spec_parse_rdata(b: Seq<u8>, rs: int, rdlen: int, ty: QueryType) -> Result<
    RdataModel,
    DecodeError,
> {
    match ty {
        QueryType::A => if rdlen != 4 {
            Err(DecodeError::LengthMismatch)
        } else {
            Ok(RdataModel::A(b.subrange(rs, rs + 4)))
        },
        QueryType::Ns => match spec_decode_name_at(b, rs, rs + rdlen, 0) {
            Ok(nc) => Ok(RdataModel::Ns(nc.0)),
            Err(e) => Err(e),
        },
        QueryType::Md => Ok(RdataModel::Md),
        QueryType::Mf => Ok(RdataModel::Mf),
        QueryType::Cname => match spec_decode_name_at(b, rs, rs + rdlen, 0) {
            Ok(nc) => Ok(RdataModel::Cname(nc.0)),
            Err(e) => Err(e),
        },
        QueryType::Soa => Ok(RdataModel::Soa),
        QueryType::Mb => Ok(RdataModel::Mb),
        QueryType::Mg => Ok(RdataModel::Mg),
        QueryType::Mr => Ok(RdataModel::Mr),
        QueryType::Null => Ok(RdataModel::Null),
        QueryType::Wks => Ok(RdataModel::Wks),
        QueryType::Ptr => Ok(RdataModel::Ptr),
        QueryType::Hinfo => Ok(RdataModel::Hinfo),
        QueryType::Minfo => Ok(RdataModel::Minfo),
        QueryType::Mx => Ok(RdataModel::Mx),
        QueryType::Txt => Ok(RdataModel::Txt(b.subrange(rs, rs + rdlen))),
        QueryType::Aaaa => if rdlen != 16 {
            Err(DecodeError::LengthMismatch)
        } else {
            Ok(RdataModel::Aaaa(b.subrange(rs, rs + 16)))
        },
    }
}

/// Whether an executable record carries exactly what a model says: the
/// dot-joined names, the same codes and bytes, and the payload decoded
/// variant by variant.
pub open spec fn record_matches(r: Record, m: RecordModel) -> bool {
    &&& r.name@ == spec_name_chars(m.name)
    &&& (spec_labels_utf8(m.name) ==> r.name@ == spec_utf8_name_chars(m.name))
    &&& (spec_labels_ascii(m.name) ==> r.name@ == spec_ascii_name_chars(m.name))
    &&& r.class == m.class
    &&& r.ttl == m.ttl
    &&& r.data@ == m.data
    &&& match m.rdata {
        RdataModel::A(bs) => r.ty matches QueryResponse::A(ip) && ip.o0 == bs[0] && ip.o1
            == bs[1] && ip.o2 == bs[2] && ip.o3 == bs[3],
        RdataModel::Ns(ls) => r.ty matches QueryResponse::Ns(n) && n@ == spec_name_chars(ls)
            && (spec_labels_utf8(ls) ==> n@ == spec_utf8_name_chars(ls)) && (spec_labels_ascii(
            ls,
        ) ==> n@ == spec_ascii_name_chars(ls)),
        RdataModel::Md => r.ty == QueryResponse::Md,
        RdataModel::Mf => r.ty == QueryResponse::Mf,
        RdataModel::Cname(ls) => r.ty matches QueryResponse::Cname(n) && n@ == spec_name_chars(
            ls,
        ) && (spec_labels_utf8(ls) ==> n@ == spec_utf8_name_chars(ls)) && (spec_labels_ascii(
            ls,
        ) ==> n@ == spec_ascii_name_chars(ls)),
        RdataModel::Soa => r.ty == QueryResponse::Soa,
        RdataModel::Mb => r.ty == QueryResponse::Mb,
        RdataModel::Mg => r.ty == QueryResponse::Mg,
        RdataModel::Mr => r.ty == QueryResponse::Mr,
        RdataModel::Null => r.ty == QueryResponse::Null,
        RdataModel::Wks => r.ty == QueryResponse::Wks,
        RdataModel::Ptr => r.ty == QueryResponse::Ptr,
        RdataModel::Hinfo => r.ty == QueryResponse::Hinfo,
        RdataModel::Minfo => r.ty == QueryResponse::Minfo,
        RdataModel::Mx => r.ty == QueryResponse::Mx,
        RdataModel::Txt(bs) => r.ty matches QueryResponse::Txt(t) && t@ == utf8_lossy_of(bs)
            && (valid_utf8(bs) ==> t@ == decode_utf8(bs)) && (ascii_bytes(bs) ==> t@
            == ascii_chars_of(bs)),
        RdataModel::Aaaa(bs) => r.ty matches QueryResponse::Aaaa(ip) && forall|i: int|
            0 <= i < 8 ==> #[trigger] ip.spec_groups()[i] == bs[2 * i] * 256 + bs[2 * i + 1],
    }
}

/// The record encoded at `pos` of the message `b`: a name, a known type
/// code, a known class code, a 32-bit time to live, a 16-bit rdata
/// length that must fit inside the buffer, and the rdata itself.
pub open spec fn spec_parse_record(b: Seq<u8>, pos: int) -> Result<(RecordModel, int), DecodeError> {
    match spec_decode_name_at(b, pos, b.len() as int, 0) {
        Err(e) => Err(e),
        Ok(nc) => {
            let q = pos + nc.1;
            if q + 2 > b.len() {
                Err(DecodeError::Truncated)
            } else {
                match spec_query_type_from_code(spec_be16(b, q)) {
                    None => Err(DecodeError::UnknownQueryType(spec_be16(b, q))),
                    Some(ty) => {
                        if q + 4 > b.len() {
                            Err(DecodeError::Truncated)
                        } else {
                            match spec_class_type_from_code(spec_be16(b, q + 2)) {
                                None => Err(DecodeError::UnknownClassType(spec_be16(b, q + 2))),
                                Some(class) => {
                                    if q + 10 > b.len() {
                                        Err(DecodeError::Truncated)
                                    } else {
                                        let ttl = spec_be32(b, q + 4);
                                        let rdlen = spec_be16(b, q + 8) as int;
                                        let rs = q + 10;
                                        if rs + rdlen > b.len() {
                                            Err(DecodeError::Truncated)
                                        } else {
                                            match spec_parse_rdata(b, rs, rdlen, ty) {
                                                Err(e) => Err(e),
                                                Ok(rd) => Ok(
                                                    (
                                                        RecordModel {
                                                            name: nc.0,
                                                            rdata: rd,
                                                            class,
                                                            ttl,
                                                            data: b.subrange(rs, rs + rdlen),
                                                        },
                                                        nc.1 + 10 + rdlen,
                                                    ),
                                                ),
                                            }
                                        }
                                    }
                                },
                            }
                        }
                    },
                }
            }
        },
    }
}

/// A record whose declared rdata length runs past the end of the buffer
/// fails to decode with a truncation error: no partial record is ever
/// produced.
pub proof fn lemma_rdata_past_end(b: Seq<u8>, pos: int)
    requires
        spec_decode_name_at(b, pos, b.len() as int, 0) is Ok,
        ({
            let q = pos + spec_decode_name_at(b, pos, b.len() as int, 0)->Ok_0.1;
            &&& q + 10 <= b.len()
            &&& spec_query_type_from_code(spec_be16(b, q)) is Some
            &&& spec_class_type_from_code(spec_be16(b, q + 2)) is Some
            &&& q + 10 + spec_be16(b, q + 8) > b.len()
        }),
    ensures
        spec_parse_record(b, pos) == Err::<(RecordModel, int), DecodeError>(
            DecodeError::Truncated,
        ),
{
}

impl Record {
    /// Parses the record at `pos` of `buffer` (names may point back
    /// anywhere into `buffer`), exactly as [`spec_parse_record`]
    /// describes; returns it with the number of bytes it occupies.
    pub fn parse(buffer: &[u8], pos: usize) -> (r: Result<(Record, usize), DecodeError>)
        ensures
            ({
                let sr = spec_parse_record(buffer@, pos as int);
                match r {
                    Ok(p) => sr matches Ok(sp) && record_matches(p.0, sp.0) && p.1 == sp.1 && 1
                        <= p.1 && pos + p.1 <= buffer@.len(),
                    Err(e) => sr matches Err(e2) && e == e2,
                }
            }),
    {
        let (name, used) = match decode_name_at(buffer, pos, buffer.len(), 0) {
            Ok(p) => p,
            Err(e) => {
                return Err(e);
            },
        };
        proof {
            lemma_decode_consumed(buffer@, pos as int, buffer@.len() as int, 0);
        }
        let q = pos + used;
        if buffer.len() - q < 2 {
            return Err(DecodeError::Truncated);
        }
        let ty_code = read_u16(buffer, q);
        let ty = match QueryType::from_code(ty_code) {
            Ok(t) => t,
            Err(_) => {
                return Err(DecodeError::UnknownQueryType(ty_code));
            },
        };
        if buffer.len() - q < 4 {
            return Err(DecodeError::Truncated);
        }
        let class_code = read_u16(buffer, q + 2);
        let class = match ClassType::from_code(class_code) {
            Ok(c) => c,
            Err(_) => {
                return Err(DecodeError::UnknownClassType(class_code));
            },
        };
        if buffer.len() - q < 10 {
            return Err(DecodeError::Truncated);
        }
        let ttl = read_u32(buffer, q + 4);
        let rdlen = read_u16(buffer, q + 8) as usize;
        let rs = q + 10;
        if buffer.len() - rs < rdlen {
            return Err(DecodeError::Truncated);
        }
        let data = copy_range(buffer, rs, rs + rdlen);
        let payload = match ty {
            QueryType::A => {
                if rdlen != 4 {
                    return Err(DecodeError::LengthMismatch);
                }
                QueryResponse::A(Ipv4Address::new(data[0], data[1], data[2], data[3]))
            },
            QueryType::Ns => {
                match decode_name_at(buffer, rs, rs + rdlen, 0) {
                    Ok(p) => QueryResponse::Ns(p.0),
                    Err(e) => {
                        return Err(e);
                    },
                }
            },
            QueryType::Md => QueryResponse::Md,
            QueryType::Mf => QueryResponse::Mf,
            QueryType::Cname => {
                match decode_name_at(buffer, rs, rs + rdlen, 0) {
                    Ok(p) => QueryResponse::Cname(p.0),
                    Err(e) => {
                        return Err(e);
                    },
                }
            },
            QueryType::Soa => QueryResponse::Soa,
            QueryType::Mb => QueryResponse::Mb,
            QueryType::Mg => QueryResponse::Mg,
            QueryType::Mr => QueryResponse::Mr,
            QueryType::Null => QueryResponse::Null,
            QueryType::Wks => QueryResponse::Wks,
            QueryType::Ptr => QueryResponse::Ptr,
            QueryType::Hinfo => QueryResponse::Hinfo,
            QueryType::Minfo => QueryResponse::Minfo,
            QueryType::Mx => QueryResponse::Mx,
            QueryType::Txt => {
                let text = utf8_lossy(&data);
                proof {
                    if ascii_bytes(data@) {
                        lemma_ascii_decode(data@);
                    }
                }
                QueryResponse::Txt(text)
            },
            QueryType::Aaaa => {
                if rdlen != 16 {
                    return Err(DecodeError::LengthMismatch);
                }
                QueryResponse::Aaaa(Ipv6Address::from_bytes(&data))
            },
        };
        Ok((Record { name, ty: payload, class, ttl, data }, used + 10 + rdlen))
    }

    /// The record's payload rendered for display: addresses in their
    /// usual textual forms, referenced names and text as themselves, and
    /// opaque payloads as their quoted raw bytes.
    pub fn data(&self) -> (s: String)
        ensures
            s@ == spec_record_data(*self),
    {
        match &self.ty {
            QueryResponse::A(ip) => ip.render(),
            QueryResponse::Ns(n) => n.clone(),
            QueryResponse::Cname(n) => n.clone(),
            QueryResponse::Aaaa(ip) => ip.render(),
            QueryResponse::Txt(t) => t.clone(),
            _ => quoted_bytes(&self.data),
        }
    }
}

/// What [`Record::data`] renders: addresses by their textual form, names
/// and text by their characters, anything else by its quoted raw bytes.
pub open spec fn spec_record_data(r: Record) -> Seq<char> {
    match r.ty {
        QueryResponse::A(ip) => ip.spec_render(),
        QueryResponse::Ns(n) => n@,
        QueryResponse::Cname(n) => n@,
        QueryResponse::Aaaa(ip) => ip.spec_render(),
        QueryResponse::Txt(t) => t@,
        _ => spec_quoted_bytes(r.data@),
    }
}

impl PartialEq for Record {
    fn eq(&self, other: &Self) -> (r: bool) {
        self.name.eq(&other.name) && self.ty.eq(&other.ty) && self.class == other.class
            && self.ttl == other.ttl && vec_u8_eq(&self.data, &other.data)
    }
}

/// When two records carry the same content: equal names, payloads,
/// classes, times to live and raw bytes (strings and byte vectors
/// compared by their contents).
pub open spec fn spec_record_eq(a: Record, b: Record) -> bool {
    &&& a.name@ == b.name@
    &&& spec_query_response_eq(a.ty, b.ty)
    &&& a.class == b.class
    &&& a.ttl == b.ttl
    &&& a.data@ == b.data@
}

impl vstd::std_specs::cmp::PartialEqSpecImpl for Record {
    open spec fn obeys_eq_spec() -> bool {
        true
    }

    open spec fn eq_spec(&self, other: &Self) -> bool {
        spec_record_eq(*self, *other)
    }
}

/// Compares two byte vectors element by element.
fn vec_u8_eq(a: &Vec<u8>, b: &Vec<u8>) -> (r: bool)
    ensures
        r == (a@ == b@),
{
    if a.len() != b.len() {
        proof {
            assert(a@ != b@);
        }
        return false;
    }
    let mut i: usize = 0;
    while i < a.len()
        invariant
            i <= a@.len(),
            a@.len() == b@.len(),
            forall|j: int| 0 <= j < i ==> a@[j] == b@[j],
        decreases a@.len() - i,
    {
        if a[i] != b[i] {
            proof {
                assert(a@ != b@);
            }
            return false;
        }
        i = i + 1;
    }
    proof {
        assert(a@ =~= b@);
    }
    true
}

impl Default for Record {
    /// The default record carries the empty name, an all-zero host
    /// address, class IN, no time to live and no raw bytes.
    fn default() -> (r: Self)
        ensures
            r.name@ == Seq::<char>::empty(),
            r.ty == QueryResponse::A(Ipv4Address { o0: 0, o1: 0, o2: 0, o3: 0 }),
            r.class == ClassType::IN,
            r.ttl == 0,
            r.data@ == Seq::<u8>::empty(),
    {
        Record {
            name: String::new(),
            ty: QueryResponse::A(Ipv4Address::new(0, 0, 0, 0)),
            class: ClassType::IN,
            ttl: 0,
            data: Vec::new(),
        }
    }
}

/// The first `n` questions encoded back to back from `pos`, with the
/// total bytes they occupy.
pub open spec fn spec_parse_questions(b: Seq<u8>, pos: int, n: int) -> Result<
    (Seq<QuestionModel>, int),
    DecodeError,
>
    decreases n,
{
    if n <= 0 {
        Ok((Seq::empty(), 0))
    } else {
        match spec_parse_question(b, pos) {
            Err(e) => Err(e),
            Ok(qc) => match spec_parse_questions(b, pos + qc.1, n - 1) {
                Err(e) => Err(e),
                Ok(rest) => Ok((seq![qc.0] + rest.0, qc.1 + rest.1)),
            },
        }
    }
}

/// The first `n` records encoded back to back from `pos`, with the total
/// bytes they occupy.
pub open spec fn spec_parse_records(b: Seq<u8>, pos: int, n: int) -> Result<
    (Seq<RecordModel>, int),
    DecodeError,
>
    decreases n,
{
    if n <= 0 {
        Ok((Seq::empty(), 0))
    } else {
        match spec_parse_record(b, pos) {
            Err(e) => Err(e),
            Ok(rc) => match spec_parse_records(b, pos + rc.1, n - 1) {
                Err(e) => Err(e),
                Ok(rest) => Ok((seq![rc.0] + rest.0, rc.1 + rest.1)),
            },
        }
    }
}

/// The decoded meaning of a whole message: the header and the four
/// sections it counts.
pub struct MessageModel {
    /// the parsed header
    pub header: Header,
    /// the question section
    pub questions: Seq<QuestionModel>,
    /// the answer section
    pub answers: Seq<RecordModel>,
    /// the authority section
    pub authorities: Seq<RecordModel>,
    /// the additional section
    pub additionals: Seq<RecordModel>,
}

/// The whole message `b` decoded: the 12-byte header, then exactly the
/// counted questions, answers, authorities and additionals, which
/// together must consume the buffer to its end — a header whose counts do
/// not describe the buffer is an error, never silently tolerated.
pub open spec fn spec_parse_message(b: Seq<u8>) -> Result<MessageModel, DecodeError> {
    match spec_parse_header(b, 0) {
        Err(e) => Err(e),
        Ok(h) => match spec_parse_questions(b, 12, h.num_questions as int) {
            Err(e) => Err(e),
            Ok(qs) => match spec_parse_records(b, 12 + qs.1, h.num_answers as int) {
                Err(e) => Err(e),
                Ok(ans) => match spec_parse_records(
                    b,
                    12 + qs.1 + ans.1,
                    h.num_authorities as int,
                ) {
                    Err(e) => Err(e),
                    Ok(auth) => match spec_parse_records(
                        b,
                        12 + qs.1 + ans.1 + auth.1,
                        h.num_additionals as int,
                    ) {
                        Err(e) => Err(e),
                        Ok(add) => {
                            if 12 + qs.1 + ans.1 + auth.1 + add.1 != b.len() {
                                Err(DecodeError::TrailingBytes)
                            } else {
                                Ok(
                                    MessageModel {
                                        header: h,
                                        questions: qs.0,
                                        answers: ans.0,
                                        authorities: auth.0,
                                        additionals: add.0,
                                    },
                                )
                            }
                        },
                    },
                },
            },
        },
    }
}

impl Clone for Record {
    /// A clone carries the same name, payload, class, time to live and
    /// raw bytes.
    fn clone(&self) -> (r: Self)
        ensures
            r.name@ == self.name@,
            r.ty == self.ty,
            r.class == self.class,
            r.ttl == self.ttl,
            r.data@ == self.data@,
    {
        Record {
            name: self.name.clone(),
            ty: self.ty.clone(),
            class: self.class,
            ttl: self.ttl,
            data: clone_bytes(&self.data),
        }
    }
}

/// Parses `n` questions back to back from `start`.
fn parse_questions(buffer: &[u8], start: usize, n: u16) -> (r: Result<
    (Vec<Question>, usize),
    DecodeError,
>)
    requires
        start <= buffer@.len(),
    ensures
        ({
            let sr = spec_parse_questions(buffer@, start as int, n as int);
            match r {
                Ok(p) => sr matches Ok(sp) && p.0@.len() == sp.0.len() && sp.0.len() == n as int
                    && (forall|j: int| 0 <= j < n as int ==> question_matches(p.0@[j], sp.0[j]))
                    && p.1 == sp.1 && start + p.1 <= buffer@.len(),
                Err(e) => sr matches Err(e2) && e == e2,
            }
        }),
{
    // materialises the bound `buffer@.len() <= usize::MAX`
    let _n = buffer.len();
    let mut out: Vec<Question> = Vec::new();
    let ghost mut done: Seq<QuestionModel> = Seq::empty();
    let mut pos: usize = start;
    let mut i: u16 = 0;
    while i < n
        invariant
            start <= pos <= buffer@.len(),
            buffer@.len() <= usize::MAX,
            i <= n,
            out@.len() == done.len(),
            done.len() == i as int,
            forall|j: int| 0 <= j < i as int ==> question_matches(out@[j], done[j]),
            ({
                let whole = spec_parse_questions(buffer@, start as int, n as int);
                match spec_parse_questions(buffer@, pos as int, n as int - i as int) {
                    Ok(rp) => whole matches Ok(wp) && wp.0 == done + rp.0 && wp.1 == pos - start
                        + rp.1,
                    Err(e) => whole matches Err(e2) && e2 == e,
                }
            }),
        decreases n as int - i as int,
    {
        match Question::parse(buffer, pos) {
            Err(e) => {
                return Err(e);
            },
            Ok(p) => {
                let ghost qm = spec_parse_question(buffer@, pos as int)->Ok_0.0;
                proof {
                    let rest = spec_parse_questions(
                        buffer@,
                        pos + p.1,
                        n as int - i as int - 1,
                    );
                    if rest is Ok {
                        assert(done + (seq![qm] + rest->Ok_0.0) =~= (done + seq![qm])
                            + rest->Ok_0.0);
                    }
                }
                out.push(p.0);
                proof {
                    done = done + seq![qm];
                }
                pos = pos + p.1;
                i = i + 1;
            },
        }
    }
    proof {
        assert(done + Seq::<QuestionModel>::empty() =~= done);
    }
    Ok((out, pos - start))
}

/// Parses `n` records back to back from `start`.
fn parse_records(buffer: &[u8], start: usize, n: u16) -> (r: Result<
    (Vec<Record>, usize),
    DecodeError,
>)
    requires
        start <= buffer@.len(),
    ensures
        ({
            let sr = spec_parse_records(buffer@, start as int, n as int);
            match r {
                Ok(p) => sr matches Ok(sp) && p.0@.len() == sp.0.len() && sp.0.len() == n as int
                    && (forall|j: int| 0 <= j < n as int ==> record_matches(p.0@[j], sp.0[j]))
                    && p.1 == sp.1 && start + p.1 <= buffer@.len(),
                Err(e) => sr matches Err(e2) && e == e2,
            }
        }),
{
    // materialises the bound `buffer@.len() <= usize::MAX`
    let _n = buffer.len();
    let mut out: Vec<Record> = Vec::new();
    let ghost mut done: Seq<RecordModel> = Seq::empty();
    let mut pos: usize = start;
    let mut i: u16 = 0;
    while i < n
        invariant
            start <= pos <= buffer@.len(),
            buffer@.len() <= usize::MAX,
            i <= n,
            out@.len() == done.len(),
            done.len() == i as int,
            forall|j: int| 0 <= j < i as int ==> record_matches(out@[j], done[j]),
            ({
                let whole = spec_parse_records(buffer@, start as int, n as int);
                match spec_parse_records(buffer@, pos as int, n as int - i as int) {
                    Ok(rp) => whole matches Ok(wp) && wp.0 == done + rp.0 && wp.1 == pos - start
                        + rp.1,
                    Err(e) => whole matches Err(e2) && e2 == e,
                }
            }),
        decreases n as int - i as int,
    {
        match Record::parse(buffer, pos) {
            Err(e) => {
                return Err(e);
            },
            Ok(p) => {
                let ghost rm = spec_parse_record(buffer@, pos as int)->Ok_0.0;
                proof {
                    let rest = spec_parse_records(
                        buffer@,
                        pos + p.1,
                        n as int - i as int - 1,
                    );
                    if rest is Ok {
                        assert(done + (seq![rm] + rest->Ok_0.0) =~= (done + seq![rm])
                            + rest->Ok_0.0);
                    }
                }
                out.push(p.0);
                proof {
                    done = done + seq![rm];
                }
                pos = pos + p.1;
                i = i + 1;
            },
        }
    }
    proof {
        assert(done + Seq::<RecordModel>::empty() =~= done);
    }
    Ok((out, pos - start))
}

/// A decoded response message: the header and the four sections it
/// counts, in order.  Constructed only by [`Response::parse`], which
/// guarantees the counts describe the sections exactly.
#[derive(Debug)]
pub struct Response {
    /// the parsed header
    pub header: Header,
    /// the question section
    pub questions: Vec<Question>,
    /// the answer section
    pub answers: Vec<Record>,
    /// the authority section
    pub authorities: Vec<Record>,
    /// the additional section
    pub additionals: Vec<Record>,
}

/// Whether an executable response carries exactly what a message model
/// says, section by section.
pub open spec fn response_matches(r: Response, m: MessageModel) -> bool {
    &&& r.header == m.header
    &&& r.questions@.len() == m.questions.len()
    &&& forall|i: int|
        0 <= i < m.questions.len() ==> question_matches(#[trigger] r.questions@[i], m.questions[i])
    &&& r.answers@.len() == m.answers.len()
    &&& forall|i: int|
        0 <= i < m.answers.len() ==> record_matches(#[trigger] r.answers@[i], m.answers[i])
    &&& r.authorities@.len() == m.authorities.len()
    &&& forall|i: int|
        0 <= i < m.authorities.len() ==> record_matches(
            #[trigger] r.authorities@[i],
            m.authorities[i],
        )
    &&& r.additionals@.len() == m.additionals.len()
    &&& forall|i: int|
        0 <= i < m.additionals.len() ==> record_matches(
            #[trigger] r.additionals@[i],
            m.additionals[i],
        )
}

impl Response {
    /// The header invariant: each count equals the number of entries its
    /// section actually holds.
    pub open spec fn wf(&self) -> bool {
        &&& self.header.num_questions == self.questions@.len()
        &&& self.header.num_answers == self.answers@.len()
        &&& self.header.num_authorities == self.authorities@.len()
        &&& self.header.num_additionals == self.additionals@.len()
    }

    /// Decodes a whole message, exactly as [`spec_parse_message`]
    /// describes: the header, then the counted questions and records,
    /// which must consume the buffer to its end.  Any failure aborts the
    /// decode with no partial message.
    pub fn parse(input: &[u8]) -> (r: Result<Response, DecodeError>)
        ensures
            ({
                let sr = spec_parse_message(input@);
                match r {
                    Ok(resp) => sr matches Ok(m) && response_matches(resp, m) && resp.wf(),
                    Err(e) => sr matches Err(e2) && e == e2,
                }
            }),
    {
        // materialises the bound `input@.len() <= usize::MAX`
        let _n = input.len();
        let header = match Header::parse(input, 0) {
            Ok(h) => h,
            Err(e) => {
                return Err(e);
            },
        };
        let (questions, q_used) = match parse_questions(input, 12, header.num_questions) {
            Ok(p) => p,
            Err(e) => {
                return Err(e);
            },
        };
        let (answers, an_used) = match parse_records(input, 12 + q_used, header.num_answers) {
            Ok(p) => p,
            Err(e) => {
                return Err(e);
            },
        };
        let (authorities, au_used) = match parse_records(
            input,
            12 + q_used + an_used,
            header.num_authorities,
        ) {
            Ok(p) => p,
            Err(e) => {
                return Err(e);
            },
        };
        let (additionals, ad_used) = match parse_records(
            input,
            12 + q_used + an_used + au_used,
            header.num_additionals,
        ) {
            Ok(p) => p,
            Err(e) => {
                return Err(e);
            },
        };
        if 12 + q_used + an_used + au_used + ad_used != input.len() {
            return Err(DecodeError::TrailingBytes);
        }
        Ok(Response { header, questions, answers, authorities, additionals })
    }

    /// The answer section.
    pub fn answers(&self) -> (r: &Vec<Record>)
        ensures
            r == &self.answers,
    {
        &self.answers
    }

    /// The authority section.
    pub fn authorities(&self) -> (r: &Vec<Record>)
        ensures
            r == &self.authorities,
    {
        &self.authorities
    }

    /// The additional section.
    pub fn additionals(&self) -> (r: &Vec<Record>)
        ensures
            r == &self.additionals,
    {
        &self.additionals
    }
}

/// The wire form of a query: a header carrying the transaction id, the
/// flags word and a question count of one, followed by the one question
/// for `name_bytes` in class IN.
pub open spec fn spec_query_bytes(
    name_bytes: Seq<u8>,
    record_type: QueryType,
    id: u16,
    flags: u16,
) -> Seq<u8> {
    spec_header_bytes(
        Header {
            id,
            flags,
            num_questions: 1,
            num_answers: 0,
            num_authorities: 0,
            num_additionals: 0,
        },
    ) + spec_encode_name(name_bytes) + spec_u16_be(spec_query_type_code(record_type)) + spec_u16_be(
        1,
    )
}

/// Builds the query message that asks `domain_name` for `record_type` in
/// class IN: the header (with the caller's transaction id and flags and
/// exactly one question) followed by the encoded question.  Every label
/// of the name must fit in 255 bytes.
pub fn build_query(domain_name: &str, record_type: QueryType, id: u16, flags: u16) -> (out: Vec<
    u8,
>)
    requires
        spec_name_encodable(domain_name.spec_bytes()),
    ensures
        out@ == spec_query_bytes(domain_name.spec_bytes(), record_type, id, flags),
{
    let header = Header {
        id,
        flags,
        num_questions: 1,
        num_answers: 0,
        num_authorities: 0,
        num_additionals: 0,
    };
    let question = Question::new(domain_name, record_type, ClassType::IN);
    let mut out: Vec<u8> = Vec::new();
    header.as_bytes(&mut out);
    question.as_bytes(&mut out);
    proof {
        assert(out@ =~= spec_query_bytes(domain_name.spec_bytes(), record_type, id, flags));
    }
    out
}

/// Encoding a query and decoding the result reproduces the inputs
/// exactly: the header carries the given transaction id and flags and
/// the counts (1, 0, 0, 0), and the single question carries the name's
/// labels, the given record type, and class IN.  This holds for names
/// whose labels are non-empty and at most 191 bytes, with at most
/// [`MAX_PTR_TRAVERSALS`] labels.
pub proof fn lemma_query_round_trip(
    name_bytes: Seq<u8>,
    record_type: QueryType,
    id: u16,
    flags: u16,
)
    requires
        spec_split_labels(name_bytes).len() <= MAX_PTR_TRAVERSALS as int,
        forall|i: int|
            0 <= i < spec_split_labels(name_bytes).len() ==> 1 <= (#[trigger] spec_split_labels(
                name_bytes,
            )[i]).len() <= 191,
    ensures
        ({
            let m = spec_parse_message(spec_query_bytes(name_bytes, record_type, id, flags));
            &&& m matches Ok(msg)
            &&& msg.header == (Header {
                id,
                flags,
                num_questions: 1,
                num_answers: 0,
                num_authorities: 0,
                num_additionals: 0,
            })
            &&& msg.questions.len() == 1
            &&& msg.questions[0].name == spec_split_labels(name_bytes)
            &&& msg.questions[0].ty == record_type
            &&& msg.questions[0].class == ClassType::IN
            &&& msg.answers.len() == 0
            &&& msg.authorities.len() == 0
            &&& msg.additionals.len() == 0
        }),
{
    let b = spec_query_bytes(name_bytes, record_type, id, flags);
    let h = Header {
        id,
        flags,
        num_questions: 1,
        num_answers: 0,
        num_authorities: 0,
        num_additionals: 0,
    };
    let hb = spec_header_bytes(h);
    let enc = spec_encode_name(name_bytes);
    let tb = spec_u16_be(spec_query_type_code(record_type));
    let cb = spec_u16_be(1u16);
    let ls = spec_split_labels(name_bytes);
    let ln = enc.len() as int;
    assert(hb.len() == 12);
    assert(b =~= hb + enc + tb + cb);
    assert(b.len() == 16 + ln);
    assert(b.subrange(0, 12) =~= hb);
    lemma_header_roundtrip(h, b, 0);
    assert(b.subrange(12, 12 + ln) =~= enc);
    lemma_decode_encoded_labels(b, 12, ls, 0);
    assert(spec_decode_name_at(b, 12, b.len() as int, 0) == Ok::<(Seq<Seq<u8>>, int), DecodeError>(
        (ls, ln),
    ));
    let q = 12 + ln;
    assert(b[q] == tb[0]);
    assert(b[q + 1] == tb[1]);
    assert(b[q + 2] == cb[0]);
    assert(b[q + 3] == cb[1]);
    lemma_u16_be_roundtrip(spec_query_type_code(record_type), b, q);
    lemma_u16_be_roundtrip(1u16, b, q + 2);
    lemma_query_type_code_bijective(record_type, 0);
    let qm = QuestionModel { name: ls, ty: record_type, class: ClassType::IN };
    assert(spec_parse_question(b, 12) == Ok::<(QuestionModel, int), DecodeError>((qm, ln + 4)));
    reveal_with_fuel(spec_parse_questions, 2);
    assert(seq![qm] + Seq::<QuestionModel>::empty() =~= seq![qm]);
    assert(spec_parse_questions(b, 12, 1) == Ok::<(Seq<QuestionModel>, int), DecodeError>(
        (seq![qm], ln + 4),
    ));
    assert(spec_parse_records(b, 16 + ln, 0) == Ok::<(Seq<RecordModel>, int), DecodeError>(
        (Seq::empty(), 0),
    ));
}

/// Compares two question vectors element by element.
fn vec_questions_eq(a: &Vec<Question>, b: &Vec<Question>) -> (r: bool)
    ensures
        r == (a@.len() == b@.len() && (forall|j: int|
            0 <= j < a@.len() ==> spec_question_eq(a@[j], b@[j]))),
{
    if a.len() != b.len() {
        return false;
    }
    let mut i: usize = 0;
    while i < a.len()
        invariant
            i <= a@.len(),
            a@.len() == b@.len(),
            forall|j: int| 0 <= j < i ==> spec_question_eq(a@[j], b@[j]),
        decreases a@.len() - i,
    {
        if !a[i].eq(&b[i]) {
            return false;
        }
        i = i + 1;
    }
    true
}

/// Compares two record vectors element by element.
fn vec_records_eq(a: &Vec<Record>, b: &Vec<Record>) -> (r: bool)
    ensures
        r == (a@.len() == b@.len() && (forall|j: int|
            0 <= j < a@.len() ==> spec_record_eq(a@[j], b@[j]))),
{
    if a.len() != b.len() {
        return false;
    }
    let mut i: usize = 0;
    while i < a.len()
        invariant
            i <= a@.len(),
            a@.len() == b@.len(),
            forall|j: int| 0 <= j < i ==> spec_record_eq(a@[j], b@[j]),
        decreases a@.len() - i,
    {
        if !a[i].eq(&b[i]) {
            return false;
        }
        i = i + 1;
    }
    true
}

impl PartialEq for Response {
    fn eq(&self, other: &Self) -> (r: bool) {
        self.header == other.header && vec_questions_eq(&self.questions, &other.questions)
            && vec_records_eq(&self.answers, &other.answers) && vec_records_eq(
            &self.authorities,
            &other.authorities,
        ) && vec_records_eq(&self.additionals, &other.additionals)
    }
}

impl vstd::std_specs::cmp::PartialEqSpecImpl for Response {
    open spec fn obeys_eq_spec() -> bool {
        true
    }

    open spec fn eq_spec(&self, other: &Self) -> bool {
        &&& self.header == other.header
        &&& self.questions@.len() == other.questions@.len()
        &&& forall|j: int|
            0 <= j < self.questions@.len() ==> spec_question_eq(
                #[trigger] self.questions@[j],
                other.questions@[j],
            )
        &&& self.answers@.len() == other.answers@.len()
        &&& forall|j: int|
            0 <= j < self.answers@.len() ==> spec_record_eq(
                #[trigger] self.answers@[j],
                other.answers@[j],
            )
        &&& self.authorities@.len() == other.authorities@.len()
        &&& forall|j: int|
            0 <= j < self.authorities@.len() ==> spec_record_eq(
                #[trigger] self.authorities@[j],
                other.authorities@[j],
            )
        &&& self.additionals@.len() == other.additionals@.len()
        &&& forall|j: int|
            0 <= j < self.additionals@.len() ==> spec_record_eq(
                #[trigger] self.additionals@[j],
                other.additionals@[j],
            )
    }
}

} // verus!
