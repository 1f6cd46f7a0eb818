//! The record-type and class registries: the closed sets of numeric codes
//! that this codec understands, and their semantic variants.

use vstd::prelude::*;

use crate::addr::Ipv4Address;
use crate::addr::Ipv6Address;

verus! {

/// A query type, as defined by RFC 1035 section 3.2.2 (plus AAAA from
/// RFC 3596).  Each variant stands for one of the numeric codes that the
/// codec accepts; [`QueryType::code`] and [`QueryType::from_code`] are the
/// two directions of the mapping.
#[derive(Debug, Clone, Copy, PartialEq, Eq, Structural)]
pub enum QueryType {
    /// host address record
    A,
    /// authoritative name server record
    Ns,
    /// mail destination record (obsolete, use MX)
    Md,
    /// mail forwarder record (obsolete, use MX)
    Mf,
    /// canonical name for an alias
    Cname,
    /// start of a zone of authority
    Soa,
    /// mailbox domain name (EXPERIMENTAL)
    Mb,
    /// mail group member (EXPERIMENTAL)
    Mg,
    /// mail rename domain name (EXPERIMENTAL)
    Mr,
    /// null RR (EXPERIMENTAL)
    Null,
    /// well-known service description
    Wks,
    /// domain name pointer
    Ptr,
    /// host information
    Hinfo,
    /// mailbox or mail list information
    Minfo,
    /// mail exchange
    Mx,
    /// text strings
    Txt,
    /// IPv6 address
    Aaaa,
}

/// The numeric wire code of each known query type.
pub open spec fn spec_query_type_code(t: QueryType) -> u16 {
    match t {
        QueryType::A => 1,
        QueryType::Ns => 2,
        QueryType::Md => 3,
        QueryType::Mf => 4,
        QueryType::Cname => 5,
        QueryType::Soa => 6,
        QueryType::Mb => 7,
        QueryType::Mg => 8,
        QueryType::Mr => 9,
        QueryType::Null => 10,
        QueryType::Wks => 11,
        QueryType::Ptr => 12,
        QueryType::Hinfo => 13,
        QueryType::Minfo => 14,
        QueryType::Mx => 15,
        QueryType::Txt => 16,
        QueryType::Aaaa => 28,
    }
}

/// The inverse direction of the registry: which code decodes to which
/// variant.  Codes outside the closed set map to `None`.
pub open spec fn spec_query_type_from_code(code: u16) -> Option<QueryType> {
    if code == 1 {
        Some(QueryType::A)
    } else if code == 2 {
        Some(QueryType::Ns)
    } else if code == 3 {
        Some(QueryType::Md)
    } else if code == 4 {
        Some(QueryType::Mf)
    } else if code == 5 {
        Some(QueryType::Cname)
    } else if code == 6 {
        Some(QueryType::Soa)
    } else if code == 7 {
        Some(QueryType::Mb)
    } else if code == 8 {
        Some(QueryType::Mg)
    } else if code == 9 {
        Some(QueryType::Mr)
    } else if code == 10 {
        Some(QueryType::Null)
    } else if code == 11 {
        Some(QueryType::Wks)
    } else if code == 12 {
        Some(QueryType::Ptr)
    } else if code == 13 {
        Some(QueryType::Hinfo)
    } else if code == 14 {
        Some(QueryType::Minfo)
    } else if code == 15 {
        Some(QueryType::Mx)
    } else if code == 16 {
        Some(QueryType::Txt)
    } else if code == 28 {
        Some(QueryType::Aaaa)
    } else {
        None
    }
}

/// The error returned when a numeric code does not belong to the closed
/// set of known query types; it carries the offending code.
#[derive(Debug, Clone, Copy, PartialEq, Eq, Structural)]
pub enum TryFromQueryTypeError {
    /// The given code is not a known query type.
    Unknown(u16),
}

impl QueryType {
    /// The numeric wire code of this query type.
    pub fn code(&self) -> (c: u16)
        ensures
            c == spec_query_type_code(*self),
    {
        match self {
            QueryType::A => 1,
            QueryType::Ns => 2,
            QueryType::Md => 3,
            QueryType::Mf => 4,
            QueryType::Cname => 5,
            QueryType::Soa => 6,
            QueryType::Mb => 7,
            QueryType::Mg => 8,
            QueryType::Mr => 9,
            QueryType::Null => 10,
            QueryType::Wks => 11,
            QueryType::Ptr => 12,
            QueryType::Hinfo => 13,
            QueryType::Minfo => 14,
            QueryType::Mx => 15,
            QueryType::Txt => 16,
            QueryType::Aaaa => 28,
        }
    }

    /// Looks a numeric code up in the registry.  Returns the matching
    /// variant exactly for the codes of the closed set, and the unknown-code
    /// error for every other value.
    pub fn from_code(value: u16) -> (r: Result<QueryType, TryFromQueryTypeError>)
        ensures
            match r {
                Ok(t) => spec_query_type_from_code(value) == Some(t),
                Err(e) => spec_query_type_from_code(value) is None && e
                    == TryFromQueryTypeError::Unknown(value),
            },
    {
        match value {
            1u16 => Ok(QueryType::A),
            2u16 => Ok(QueryType::Ns),
            3u16 => Ok(QueryType::Md),
            4u16 => Ok(QueryType::Mf),
            5u16 => Ok(QueryType::Cname),
            6u16 => Ok(QueryType::Soa),
            7u16 => Ok(QueryType::Mb),
            8u16 => Ok(QueryType::Mg),
            9u16 => Ok(QueryType::Mr),
            10u16 => Ok(QueryType::Null),
            11u16 => Ok(QueryType::Wks),
            12u16 => Ok(QueryType::Ptr),
            13u16 => Ok(QueryType::Hinfo),
            14u16 => Ok(QueryType::Minfo),
            15u16 => Ok(QueryType::Mx),
            16u16 => Ok(QueryType::Txt),
            28u16 => Ok(QueryType::Aaaa),
            _ => Err(TryFromQueryTypeError::Unknown(value)),
        }
    }
}

/// The code/variant mapping is a bijection on the closed set: decoding a
/// type's code gives the type back, and any code that decodes at all
/// re-encodes to itself.
pub proof fn lemma_query_type_code_bijective(t: QueryType, code: u16)
    ensures
        spec_query_type_from_code(spec_query_type_code(t)) == Some(t),
        spec_query_type_from_code(code) matches Some(u) ==> spec_query_type_code(u) == code,
{
}

/// A record's decoded, type-tagged payload: one variant per known query
/// type, carrying the payload's semantic value where the registry parses
/// one (addresses, referenced names, text); the other types keep only
/// their raw bytes, which live beside this tag in the record.
#[derive(Debug)]
pub enum QueryResponse {
    /// host address record
    A(Ipv4Address),
    /// authoritative name server record
    Ns(String),
    /// mail destination record (obsolete, use MX)
    Md,
    /// mail forwarder record (obsolete, use MX)
    Mf,
    /// canonical name for an alias
    Cname(String),
    /// start of a zone of authority
    Soa,
    /// mailbox domain name (EXPERIMENTAL)
    Mb,
    /// mail group member (EXPERIMENTAL)
    Mg,
    /// mail rename domain name (EXPERIMENTAL)
    Mr,
    /// null RR (EXPERIMENTAL)
    Null,
    /// well-known service description
    Wks,
    /// domain name pointer
    Ptr,
    /// host information
    Hinfo,
    /// mailbox or mail list information
    Minfo,
    /// mail exchange
    Mx,
    /// text strings
    Txt(String),
    /// IPv6 address
    Aaaa(Ipv6Address),
}

/// When two payloads are the same: the same variant, with equal values
/// (strings compared by their characters).
pub open spec fn spec_query_response_eq(a: QueryResponse, b: QueryResponse) -> bool {
    match (a, b) {
        (QueryResponse::A(x), QueryResponse::A(y)) => x == y,
        (QueryResponse::Ns(x), QueryResponse::Ns(y)) => x@ == y@,
        (QueryResponse::Md, QueryResponse::Md) => true,
        (QueryResponse::Mf, QueryResponse::Mf) => true,
        (QueryResponse::Cname(x), QueryResponse::Cname(y)) => x@ == y@,
        (QueryResponse::Soa, QueryResponse::Soa) => true,
        (QueryResponse::Mb, QueryResponse::Mb) => true,
        (QueryResponse::Mg, QueryResponse::Mg) => true,
        (QueryResponse::Mr, QueryResponse::Mr) => true,
        (QueryResponse::Null, QueryResponse::Null) => true,
        (QueryResponse::Wks, QueryResponse::Wks) => true,
        (QueryResponse::Ptr, QueryResponse::Ptr) => true,
        (QueryResponse::Hinfo, QueryResponse::Hinfo) => true,
        (QueryResponse::Minfo, QueryResponse::Minfo) => true,
        (QueryResponse::Mx, QueryResponse::Mx) => true,
        (QueryResponse::Txt(x), QueryResponse::Txt(y)) => x@ == y@,
        (QueryResponse::Aaaa(x), QueryResponse::Aaaa(y)) => x == y,
        _ => false,
    }
}

impl PartialEq for QueryResponse {
    fn eq(&self, other: &Self) -> (r: bool) {
        match (self, other) {
            (QueryResponse::A(x), QueryResponse::A(y)) => x == y,
            (QueryResponse::Ns(x), QueryResponse::Ns(y)) => x.eq(y),
            (QueryResponse::Md, QueryResponse::Md) => true,
            (QueryResponse::Mf, QueryResponse::Mf) => true,
            (QueryResponse::Cname(x), QueryResponse::Cname(y)) => x.eq(y),
            (QueryResponse::Soa, QueryResponse::Soa) => true,
            (QueryResponse::Mb, QueryResponse::Mb) => true,
            (QueryResponse::Mg, QueryResponse::Mg) => true,
            (QueryResponse::Mr, QueryResponse::Mr) => true,
            (QueryResponse::Null, QueryResponse::Null) => true,
            (QueryResponse::Wks, QueryResponse::Wks) => true,
            (QueryResponse::Ptr, QueryResponse::Ptr) => true,
            (QueryResponse::Hinfo, QueryResponse::Hinfo) => true,
            (QueryResponse::Minfo, QueryResponse::Minfo) => true,
            (QueryResponse::Mx, QueryResponse::Mx) => true,
            (QueryResponse::Txt(x), QueryResponse::Txt(y)) => x.eq(y),
            (QueryResponse::Aaaa(x), QueryResponse::Aaaa(y)) => x == y,
            _ => false,
        }
    }
}

impl vstd::std_specs::cmp::PartialEqSpecImpl for QueryResponse {
    open spec fn obeys_eq_spec() -> bool {
        true
    }

    open spec fn eq_spec(&self, other: &Self) -> bool {
        spec_query_response_eq(*self, *other)
    }
}

impl Clone for QueryResponse {
    /// A clone carries the same variant and the same value.
    fn clone(&self) -> (r: Self)
        ensures
            r == *self,
    {
        match self {
            QueryResponse::A(x) => QueryResponse::A(*x),
            QueryResponse::Ns(x) => QueryResponse::Ns(x.clone()),
            QueryResponse::Md => QueryResponse::Md,
            QueryResponse::Mf => QueryResponse::Mf,
            QueryResponse::Cname(x) => QueryResponse::Cname(x.clone()),
            QueryResponse::Soa => QueryResponse::Soa,
            QueryResponse::Mb => QueryResponse::Mb,
            QueryResponse::Mg => QueryResponse::Mg,
            QueryResponse::Mr => QueryResponse::Mr,
            QueryResponse::Null => QueryResponse::Null,
            QueryResponse::Wks => QueryResponse::Wks,
            QueryResponse::Ptr => QueryResponse::Ptr,
            QueryResponse::Hinfo => QueryResponse::Hinfo,
            QueryResponse::Minfo => QueryResponse::Minfo,
            QueryResponse::Mx => QueryResponse::Mx,
            QueryResponse::Txt(x) => QueryResponse::Txt(x.clone()),
            QueryResponse::Aaaa(x) => QueryResponse::Aaaa(*x),
        }
    }
}

/// The query type a payload belongs to.
pub open spec fn spec_query_response_type(r: QueryResponse) -> QueryType {
    match r {
        QueryResponse::A(_) => QueryType::A,
        QueryResponse::Ns(_) => QueryType::Ns,
        QueryResponse::Md => QueryType::Md,
        QueryResponse::Mf => QueryType::Mf,
        QueryResponse::Cname(_) => QueryType::Cname,
        QueryResponse::Soa => QueryType::Soa,
        QueryResponse::Mb => QueryType::Mb,
        QueryResponse::Mg => QueryType::Mg,
        QueryResponse::Mr => QueryType::Mr,
        QueryResponse::Null => QueryType::Null,
        QueryResponse::Wks => QueryType::Wks,
        QueryResponse::Ptr => QueryType::Ptr,
        QueryResponse::Hinfo => QueryType::Hinfo,
        QueryResponse::Minfo => QueryType::Minfo,
        QueryResponse::Mx => QueryType::Mx,
        QueryResponse::Txt(_) => QueryType::Txt,
        QueryResponse::Aaaa(_) => QueryType::Aaaa,
    }
}

/// The short mnemonic of each payload variant.
pub open spec fn spec_query_response_name(r: QueryResponse) -> Seq<char> {
    match r {
        QueryResponse::A(_) => "A"@,
        QueryResponse::Ns(_) => "NS"@,
        QueryResponse::Md => "MD"@,
        QueryResponse::Mf => "MF"@,
        QueryResponse::Cname(_) => "CNAME"@,
        QueryResponse::Soa => "SOA"@,
        QueryResponse::Mb => "MB"@,
        QueryResponse::Mg => "MG"@,
        QueryResponse::Mr => "MR"@,
        QueryResponse::Null => "NULL"@,
        QueryResponse::Wks => "WKS"@,
        QueryResponse::Ptr => "PTR"@,
        QueryResponse::Hinfo => "HINFO"@,
        QueryResponse::Minfo => "MINFO"@,
        QueryResponse::Mx => "MX"@,
        QueryResponse::Txt(_) => "TXT"@,
        QueryResponse::Aaaa(_) => "AAAA"@,
    }
}

impl QueryResponse {
    /// The query type this payload belongs to.
    pub fn query_type(&self) -> (t: QueryType)
        ensures
            t == spec_query_response_type(*self),
    {
        match self {
            QueryResponse::A(_) => QueryType::A,
            QueryResponse::Ns(_) => QueryType::Ns,
            QueryResponse::Md => QueryType::Md,
            QueryResponse::Mf => QueryType::Mf,
            QueryResponse::Cname(_) => QueryType::Cname,
            QueryResponse::Soa => QueryType::Soa,
            QueryResponse::Mb => QueryType::Mb,
            QueryResponse::Mg => QueryType::Mg,
            QueryResponse::Mr => QueryType::Mr,
            QueryResponse::Null => QueryType::Null,
            QueryResponse::Wks => QueryType::Wks,
            QueryResponse::Ptr => QueryType::Ptr,
            QueryResponse::Hinfo => QueryType::Hinfo,
            QueryResponse::Minfo => QueryType::Minfo,
            QueryResponse::Mx => QueryType::Mx,
            QueryResponse::Txt(_) => QueryType::Txt,
            QueryResponse::Aaaa(_) => QueryType::Aaaa,
        }
    }

    /// The short mnemonic of this payload's type, e.g. "CNAME".
    pub fn name(&self) -> (r: &'static str)
        ensures
            r@ == spec_query_response_name(*self),
    {
        match self {
            QueryResponse::A(_) => "A",
            QueryResponse::Ns(_) => "NS",
            QueryResponse::Md => "MD",
            QueryResponse::Mf => "MF",
            QueryResponse::Cname(_) => "CNAME",
            QueryResponse::Soa => "SOA",
            QueryResponse::Mb => "MB",
            QueryResponse::Mg => "MG",
            QueryResponse::Mr => "MR",
            QueryResponse::Null => "NULL",
            QueryResponse::Wks => "WKS",
            QueryResponse::Ptr => "PTR",
            QueryResponse::Hinfo => "HINFO",
            QueryResponse::Minfo => "MINFO",
            QueryResponse::Mx => "MX",
            QueryResponse::Txt(_) => "TXT",
            QueryResponse::Aaaa(_) => "AAAA",
        }
    }
}

impl Default for QueryResponse {
    /// The default payload is an all-zero host address.
    fn default() -> (r: Self)
        ensures
            r == QueryResponse::A(Ipv4Address { o0: 0, o1: 0, o2: 0, o3: 0 }),
    {
        QueryResponse::A(Ipv4Address::new(0, 0, 0, 0))
    }
}

impl Default for QueryType {
    /// The default query type is a host address lookup.
    fn default() -> (r: Self)
        ensures
            r == QueryType::A,
    {
        QueryType::A
    }
}

/// A class type, as defined by RFC 1035 section 3.2.4.
#[derive(Debug, Clone, Copy, PartialEq, Eq, Structural)]
pub enum ClassType {
    /// the Internet class
    IN,
    /// the CSNET class (obsolete)
    CS,
    /// the CHAOS class
    CH,
    /// the Hesiod class
    HS,
}

/// The numeric wire code of each known class.
pub open spec fn spec_class_type_code(c: ClassType) -> u16 {
    match c {
        ClassType::IN => 1,
        ClassType::CS => 2,
        ClassType::CH => 3,
        ClassType::HS => 4,
    }
}

/// Which class code decodes to which variant; codes outside 1..=4 map to
/// `None`.
pub open spec fn spec_class_type_from_code(code: u16) -> Option<ClassType> {
    if code == 1 {
        Some(ClassType::IN)
    } else if code == 2 {
        Some(ClassType::CS)
    } else if code == 3 {
        Some(ClassType::CH)
    } else if code == 4 {
        Some(ClassType::HS)
    } else {
        None
    }
}

/// The error returned when a numeric code does not name a known class; it
/// carries the offending code.
#[derive(Debug, Clone, Copy, PartialEq, Eq, Structural)]
pub enum TryFromClassTypeError {
    /// The given code is not a known class type.
    Unknown(u16),
}

impl ClassType {
    /// The numeric wire code of this class.
    pub fn code(&self) -> (c: u16)
        ensures
            c == spec_class_type_code(*self),
    {
        match self {
            ClassType::IN => 1,
            ClassType::CS => 2,
            ClassType::CH => 3,
            ClassType::HS => 4,
        }
    }

    /// Looks a numeric class code up.  Returns the matching variant exactly
    /// for codes 1 through 4, and the unknown-code error for every other
    /// value.
    pub fn from_code(value: u16) -> (r: Result<ClassType, TryFromClassTypeError>)
        ensures
            match r {
                Ok(c) => spec_class_type_from_code(value) == Some(c),
                Err(e) => spec_class_type_from_code(value) is None && e
                    == TryFromClassTypeError::Unknown(value),
            },
    {
        match value {
            1u16 => Ok(ClassType::IN),
            2u16 => Ok(ClassType::CS),
            3u16 => Ok(ClassType::CH),
            4u16 => Ok(ClassType::HS),
            _ => Err(TryFromClassTypeError::Unknown(value)),
        }
    }
}

} // verus!
