//! The resolver engine: starting from a randomly chosen root nameserver,
//! it queries for the target name, takes the first answer of the target
//! type, follows glue addresses from the additional section, resolves
//! authority nameserver names by nested resolution, and fails when a
//! response offers none of these.  The network and the randomness are
//! injected through the [`Transport`] and [`RandomSource`] collaborators,
//! and every walk carries an explicit hop budget so that it terminates.

use vstd::prelude::*;

use vstd::string::StringSliceAdditionalSpecFns;

use crate::addr::Ipv4Address;
use crate::addr::Ipv6Address;
use crate::dns::build_query;
use crate::dns::spec_record_eq;
use crate::dns::Record;
use crate::dns::Response;
use crate::errors::ResolveError;
use crate::errors::TransportError;
use crate::name::name_is_encodable;
use crate::name::spec_name_encodable;
use crate::types::spec_query_response_type;
use crate::types::QueryResponse;
use crate::types::QueryType;

verus! {

/// The transport collaborator: sends a query datagram to a nameserver and
/// receives one response datagram.  Implementations live outside the
/// library (a UDP socket, or a scripted mock); nothing is assumed of
/// them beyond their signatures.
pub trait Transport {
    /// Sends `payload` as one datagram to `server` on the DNS port.
    fn send(&mut self, server: &Ipv4Address, payload: &Vec<u8>) -> Result<(), TransportError>;

    /// Receives one response datagram.
    fn receive(&mut self) -> Result<Vec<u8>, TransportError>;
}

/// The randomness provider for transaction ids and root-server selection,
/// injected so that the resolver stays deterministic under test.
pub trait RandomSource {
    /// A fresh transaction id.
    fn random_id(&mut self) -> u16;

    /// An index below `bound`.
    fn pick_index(&mut self, bound: usize) -> (r: usize)
        requires
            bound >= 1,
        ensures
            r < bound,
    ;
}

/// Relies on `rand::random`: a value drawn from the thread-local
/// generator's standard distribution.  Nothing can be promised of a
/// random value.
pub assume_specification<T>[ rand::random::<T> ]() -> (r: T)
    where
        rand::distributions::Standard: rand::distributions::Distribution<T>,
;

/// The library's own randomness provider, drawing from the rand crate's
/// thread-local generator.
pub struct ThreadRandom;

impl RandomSource for ThreadRandom {
    fn random_id(&mut self) -> u16 {
        rand::random::<u16>()
    }

    fn pick_index(&mut self, bound: usize) -> (r: usize) {
        let x = rand::random::<usize>();
        x % bound
    }
}

/// The fixed table of root nameservers: thirteen (IPv4, IPv6) address
/// pairs.
pub open spec fn spec_root_servers() -> Seq<(Ipv4Address, Ipv6Address)> {
    seq![
        (
            Ipv4Address { o0: 198, o1: 41, o2: 0, o3: 4 },
            Ipv6Address {
                g0: 0x2001,
                g1: 0x0503,
                g2: 0xba3e,
                g3: 0,
                g4: 0,
                g5: 0,
                g6: 0x0002,
                g7: 0x0030,
            },
        ),
        (
            Ipv4Address { o0: 199, o1: 9, o2: 14, o3: 201 },
            Ipv6Address {
                g0: 0x2001,
                g1: 0x500,
                g2: 0x200,
                g3: 0,
                g4: 0,
                g5: 0,
                g6: 0,
                g7: 0xb,
            },
        ),
        (
            Ipv4Address { o0: 192, o1: 33, o2: 4, o3: 12 },
            Ipv6Address { g0: 0x2001, g1: 0x500, g2: 0x2, g3: 0, g4: 0, g5: 0, g6: 0, g7: 0xc },
        ),
        (
            Ipv4Address { o0: 199, o1: 7, o2: 91, o3: 13 },
            Ipv6Address {
                g0: 0x2001,
                g1: 0x500,
                g2: 0x2d,
                g3: 0,
                g4: 0,
                g5: 0,
                g6: 0,
                g7: 0xd,
            },
        ),
        (
            Ipv4Address { o0: 192, o1: 203, o2: 230, o3: 10 },
            Ipv6Address {
                g0: 0x2001,
                g1: 0x500,
                g2: 0xa8,
                g3: 0,
                g4: 0,
                g5: 0,
                g6: 0,
                g7: 0xe,
            },
        ),
        (
            Ipv4Address { o0: 192, o1: 5, o2: 5, o3: 241 },
            Ipv6Address {
                g0: 0x2001,
                g1: 0x500,
                g2: 0x2f,
                g3: 0,
                g4: 0,
                g5: 0,
                g6: 0,
                g7: 0xf,
            },
        ),
        (
            Ipv4Address { o0: 192, o1: 112, o2: 36, o3: 4 },
            Ipv6Address {
                g0: 0x2001,
                g1: 0x500,
                g2: 0x12,
                g3: 0,
                g4: 0,
                g5: 0,
                g6: 0,
                g7: 0xd0d,
            },
        ),
        (
            Ipv4Address { o0: 198, o1: 97, o2: 190, o3: 53 },
            Ipv6Address {
                g0: 0x2001,
                g1: 0x500,
                g2: 0x1,
                g3: 0,
                g4: 0,
                g5: 0,
                g6: 0,
                g7: 0x53,
            },
        ),
        (
            Ipv4Address { o0: 192, o1: 36, o2: 148, o3: 17 },
            Ipv6Address { g0: 0x2001, g1: 0x7fe, g2: 0, g3: 0, g4: 0, g5: 0, g6: 0, g7: 0x53 },
        ),
        (
            Ipv4Address { o0: 192, o1: 58, o2: 128, o3: 30 },
            Ipv6Address {
                g0: 0x2001,
                g1: 0x503,
                g2: 0xc27,
                g3: 0,
                g4: 0,
                g5: 0,
                g6: 0x2,
                g7: 0x30,
            },
        ),
        (
            Ipv4Address { o0: 193, o1: 0, o2: 14, o3: 129 },
            Ipv6Address { g0: 0x2001, g1: 0x7fd, g2: 0, g3: 0, g4: 0, g5: 0, g6: 0, g7: 0x1 },
        ),
        (
            Ipv4Address { o0: 199, o1: 7, o2: 83, o3: 42 },
            Ipv6Address {
                g0: 0x2001,
                g1: 0x500,
                g2: 0x9f,
                g3: 0,
                g4: 0,
                g5: 0,
                g6: 0,
                g7: 0x42,
            },
        ),
        (
            Ipv4Address { o0: 202, o1: 12, o2: 27, o3: 33 },
            Ipv6Address { g0: 0x2001, g1: 0xdc3, g2: 0, g3: 0, g4: 0, g5: 0, g6: 0, g7: 0x35 },
        ),
    ]
}

/// The fixed, read-only table of well-known root nameservers, the
/// starting points of every resolution.
pub fn root_servers() -> (r: Vec<(Ipv4Address, Ipv6Address)>)
    ensures
        r@ == spec_root_servers(),
        r@.len() == 13,
{
    let mut v: Vec<(Ipv4Address, Ipv6Address)> = Vec::new();
    v.push((Ipv4Address::new(198, 41, 0, 4), Ipv6Address::new(0x2001, 0x0503, 0xba3e, 0, 0, 0, 0x0002, 0x0030)));
    v.push((Ipv4Address::new(199, 9, 14, 201), Ipv6Address::new(0x2001, 0x500, 0x200, 0, 0, 0, 0, 0xb)));
    v.push((Ipv4Address::new(192, 33, 4, 12), Ipv6Address::new(0x2001, 0x500, 0x2, 0, 0, 0, 0, 0xc)));
    v.push((Ipv4Address::new(199, 7, 91, 13), Ipv6Address::new(0x2001, 0x500, 0x2d, 0, 0, 0, 0, 0xd)));
    v.push((Ipv4Address::new(192, 203, 230, 10), Ipv6Address::new(0x2001, 0x500, 0xa8, 0, 0, 0, 0, 0xe)));
    v.push((Ipv4Address::new(192, 5, 5, 241), Ipv6Address::new(0x2001, 0x500, 0x2f, 0, 0, 0, 0, 0xf)));
    v.push((Ipv4Address::new(192, 112, 36, 4), Ipv6Address::new(0x2001, 0x500, 0x12, 0, 0, 0, 0, 0xd0d)));
    v.push((Ipv4Address::new(198, 97, 190, 53), Ipv6Address::new(0x2001, 0x500, 0x1, 0, 0, 0, 0, 0x53)));
    v.push((Ipv4Address::new(192, 36, 148, 17), Ipv6Address::new(0x2001, 0x7fe, 0, 0, 0, 0, 0, 0x53)));
    v.push((Ipv4Address::new(192, 58, 128, 30), Ipv6Address::new(0x2001, 0x503, 0xc27, 0, 0, 0, 0x2, 0x30)));
    v.push((Ipv4Address::new(193, 0, 14, 129), Ipv6Address::new(0x2001, 0x7fd, 0, 0, 0, 0, 0, 0x1)));
    v.push((Ipv4Address::new(199, 7, 83, 42), Ipv6Address::new(0x2001, 0x500, 0x9f, 0, 0, 0, 0, 0x42)));
    v.push((Ipv4Address::new(202, 12, 27, 33), Ipv6Address::new(0x2001, 0xdc3, 0, 0, 0, 0, 0, 0x35)));
    proof {
        assert(v@ =~= spec_root_servers());
    }
    v
}

/// What a decoded response tells the resolver to do next.
#[derive(Debug)]
pub enum ResolveStep {
    /// The answer section holds a record of the target type: done.
    Answered(Record),
    /// The additional section holds a glue A record: query its address
    /// next.
    Glue(Ipv4Address),
    /// The authority section holds an NS record: resolve that
    /// nameserver's name, then query its address.
    Authority(String),
    /// No answer, no glue, no authority: resolution cannot proceed.
    DeadEnd,
}

/// The first record whose declared type equals `target`, if any.
pub open spec fn spec_find_answer(rs: Seq<Record>, target: QueryType) -> Option<Record>
    decreases rs.len(),
{
    if rs.len() == 0 {
        None
    } else if spec_query_response_type(rs[0].ty) == target {
        Some(rs[0])
    } else {
        spec_find_answer(rs.drop_first(), target)
    }
}

/// The address of the first A record, if any.
pub open spec fn spec_find_glue(rs: Seq<Record>) -> Option<Ipv4Address>
    decreases rs.len(),
{
    if rs.len() == 0 {
        None
    } else {
        match rs[0].ty {
            QueryResponse::A(ip) => Some(ip),
            _ => spec_find_glue(rs.drop_first()),
        }
    }
}

/// The name carried by the first NS record, if any.
pub open spec fn spec_find_ns(rs: Seq<Record>) -> Option<String>
    decreases rs.len(),
{
    if rs.len() == 0 {
        None
    } else {
        match rs[0].ty {
            QueryResponse::Ns(nm) => Some(nm),
            _ => spec_find_ns(rs.drop_first()),
        }
    }
}

/// A found answer always has the target's type.
pub proof fn lemma_find_answer_type(rs: Seq<Record>, target: QueryType)
    ensures
        spec_find_answer(rs, target) matches Some(rec) ==> spec_query_response_type(rec.ty)
            == target,
    decreases rs.len(),
{
    if rs.len() == 0 {
    } else if spec_query_response_type(rs[0].ty) == target {
    } else {
        lemma_find_answer_type(rs.drop_first(), target);
    }
}

fn find_answer(records: &Vec<Record>, target: QueryType) -> (r: Option<Record>)
    ensures
        match r {
            Some(rec) => spec_find_answer(records@, target) matches Some(m) && spec_record_eq(
                rec,
                m,
            ) && rec.ty == m.ty,
            None => spec_find_answer(records@, target) is None,
        },
{
    let mut i: usize = 0;
    proof {
        assert(records@.skip(0) =~= records@);
    }
    while i < records.len()
        invariant
            i <= records@.len(),
            spec_find_answer(records@, target) == spec_find_answer(
                records@.skip(i as int),
                target,
            ),
        decreases records@.len() - i,
    {
        if records[i].ty.query_type() == target {
            proof {
                assert(records@.skip(i as int)[0] == records@[i as int]);
            }
            return Some(records[i].clone());
        }
        proof {
            assert(records@.skip(i as int).drop_first() =~= records@.skip(i + 1));
            assert(records@.skip(i as int)[0] == records@[i as int]);
        }
        i = i + 1;
    }
    proof {
        assert(records@.skip(records@.len() as int) =~= Seq::<Record>::empty());
    }
    None
}

fn find_glue(records: &Vec<Record>) -> (r: Option<Ipv4Address>)
    ensures
        r == spec_find_glue(records@),
{
    let mut i: usize = 0;
    proof {
        assert(records@.skip(0) =~= records@);
    }
    while i < records.len()
        invariant
            i <= records@.len(),
            spec_find_glue(records@) == spec_find_glue(records@.skip(i as int)),
        decreases records@.len() - i,
    {
        proof {
            assert(records@.skip(i as int).drop_first() =~= records@.skip(i + 1));
            assert(records@.skip(i as int)[0] == records@[i as int]);
        }
        match &records[i].ty {
            QueryResponse::A(ip) => {
                return Some(*ip);
            },
            _ => {},
        }
        i = i + 1;
    }
    proof {
        assert(records@.skip(records@.len() as int) =~= Seq::<Record>::empty());
    }
    None
}

fn find_ns(records: &Vec<Record>) -> (r: Option<String>)
    ensures
        match r {
            Some(nm) => spec_find_ns(records@) matches Some(m) && nm@ == m@,
            None => spec_find_ns(records@) is None,
        },
{
    let mut i: usize = 0;
    proof {
        assert(records@.skip(0) =~= records@);
    }
    while i < records.len()
        invariant
            i <= records@.len(),
            spec_find_ns(records@) == spec_find_ns(records@.skip(i as int)),
        decreases records@.len() - i,
    {
        proof {
            assert(records@.skip(i as int).drop_first() =~= records@.skip(i + 1));
            assert(records@.skip(i as int)[0] == records@[i as int]);
        }
        match &records[i].ty {
            QueryResponse::Ns(nm) => {
                return Some(nm.clone());
            },
            _ => {},
        }
        i = i + 1;
    }
    proof {
        assert(records@.skip(records@.len() as int) =~= Seq::<Record>::empty());
    }
    None
}

/// Decides what a response tells the resolver to do, in the fixed order
/// the algorithm prescribes: the first answer of the target type wins;
/// otherwise the first glue address from the additional section;
/// otherwise the first authority nameserver name; otherwise the walk is
/// at a dead end.
pub fn next_step(response: &Response, target: QueryType) -> (s: ResolveStep)
    ensures
        match spec_find_answer(response.answers@, target) {
            Some(rec) => s matches ResolveStep::Answered(a) && spec_record_eq(a, rec) && a.ty
                == rec.ty,
            None => match spec_find_glue(response.additionals@) {
                Some(ip) => s == ResolveStep::Glue(ip),
                None => match spec_find_ns(response.authorities@) {
                    Some(nm) => s matches ResolveStep::Authority(a) && a@ == nm@,
                    None => s == ResolveStep::DeadEnd,
                },
            },
        },
{
    if let Some(rec) = find_answer(&response.answers, target) {
        return ResolveStep::Answered(rec);
    }
    if let Some(ip) = find_glue(&response.additionals) {
        return ResolveStep::Glue(ip);
    }
    if let Some(nm) = find_ns(&response.authorities) {
        return ResolveStep::Authority(nm);
    }
    ResolveStep::DeadEnd
}

/// Sends one query for `domain_name` / `record_type` to `server` over the
/// transport, with a fresh random transaction id and a zero flags word,
/// and decodes the response.  On success the response's header counts
/// describe its sections exactly.  Every label of the name must fit in
/// 255 bytes.
pub fn query<T: Transport, R: RandomSource>(
    transport: &mut T,
    rng: &mut R,
    server: &Ipv4Address,
    domain_name: &str,
    record_type: QueryType,
) -> (r: Result<Response, ResolveError>)
    requires
        spec_name_encodable(domain_name.spec_bytes()),
    ensures
        r matches Ok(resp) ==> resp.wf(),
{
    let id = rng.random_id();
    let q = build_query(domain_name, record_type, id, 0);
    match transport.send(server, &q) {
        Ok(_) => {},
        Err(e) => {
            return Err(ResolveError::Transport(e));
        },
    }
    let datagram = match transport.receive() {
        Ok(d) => d,
        Err(e) => {
            return Err(ResolveError::Transport(e));
        },
    };
    match Response::parse(datagram.as_slice()) {
        Ok(resp) => Ok(resp),
        Err(e) => Err(ResolveError::Decode(e)),
    }
}

/// Resolves `domain_name` for `record_type` by walking the delegation
/// hierarchy from a randomly chosen root nameserver, spending at most
/// `budget` queries (nested resolutions included).  A successful result
/// is always a record of the requested type; an empty budget is rejected
/// outright, before anything is sent.  Every label of the name must fit
/// in 255 bytes.
pub fn resolve<T: Transport, R: RandomSource>(
    domain_name: &str,
    record_type: QueryType,
    transport: &mut T,
    rng: &mut R,
    budget: u64,
) -> (r: Result<Record, ResolveError>)
    requires
        spec_name_encodable(domain_name.spec_bytes()),
    ensures
        r matches Ok(rec) ==> spec_query_response_type(rec.ty) == record_type,
        budget == 0 ==> (r matches Err(e) && e == ResolveError::BudgetExhausted),
    decreases budget, 1int,
{
    let roots = root_servers();
    let i = rng.pick_index(roots.len());
    let server = roots[i].0;
    resolve_at(server, domain_name, record_type, transport, rng, budget)
}

/// One leg of the delegation walk, starting at a known nameserver
/// address.
fn resolve_at<T: Transport, R: RandomSource>(
    server: Ipv4Address,
    domain_name: &str,
    record_type: QueryType,
    transport: &mut T,
    rng: &mut R,
    budget: u64,
) -> (r: Result<Record, ResolveError>)
    requires
        spec_name_encodable(domain_name.spec_bytes()),
    ensures
        r matches Ok(rec) ==> spec_query_response_type(rec.ty) == record_type,
        budget == 0 ==> (r matches Err(e) && e == ResolveError::BudgetExhausted),
    decreases budget, 0int,
{
    if budget == 0 {
        return Err(ResolveError::BudgetExhausted);
    }
    let response = match query(transport, rng, &server, domain_name, record_type) {
        Ok(resp) => resp,
        Err(e) => {
            return Err(e);
        },
    };
    match next_step(&response, record_type) {
        ResolveStep::Answered(rec) => {
            proof {
                lemma_find_answer_type(response.answers@, record_type);
            }
            Ok(rec)
        },
        ResolveStep::Glue(ip) => resolve_at(
            ip,
            domain_name,
            record_type,
            transport,
            rng,
            budget - 1,
        ),
        ResolveStep::Authority(ns_name) => {
            if !name_is_encodable(ns_name.as_str()) {
                return Err(ResolveError::InvalidName);
            }
            let sub = match resolve(ns_name.as_str(), QueryType::A, transport, rng, budget - 1) {
                Ok(rec) => rec,
                Err(e) => {
                    return Err(e);
                },
            };
            match sub.ty {
                QueryResponse::A(ip) => resolve_at(
                    ip,
                    domain_name,
                    record_type,
                    transport,
                    rng,
                    budget - 1,
                ),
                _ => Err(ResolveError::UnexpectedRecordType),
            }
        },
        ResolveStep::DeadEnd => Err(ResolveError::UnableToResolve),
    }
}

} // verus!
