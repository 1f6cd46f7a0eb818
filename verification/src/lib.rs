//! A DNS message codec and a recursive resolver.
//!
//! The wire-format codec encodes query messages and decodes full response
//! messages, including the domain-name compression scheme with bounded
//! pointer traversal.  The resolver walks the DNS delegation hierarchy from
//! a fixed table of root nameservers until it obtains an answer of the
//! requested type or runs out of delegation paths.  All network I/O and
//! randomness reach the library through the [`Transport`] and
//! [`RandomSource`] collaborators.

pub mod addr;
pub mod dns;
pub mod errors;
pub mod name;
pub mod resolver;
pub mod text;
pub mod types;

pub use addr::Ipv4Address;
pub use addr::Ipv6Address;
pub use dns::build_query;
pub use dns::AsBytes;
pub use dns::Header;
pub use dns::Question;
pub use dns::Record;
pub use dns::Response;
pub use errors::DecodeError;
pub use errors::ResolveError;
pub use errors::TransportError;
pub use name::decode_dns_name;
pub use name::encode_dns_name;
pub use name::name_is_encodable;
pub use resolver::next_step;
pub use resolver::query;
pub use resolver::resolve;
pub use resolver::root_servers;
pub use resolver::RandomSource;
pub use resolver::ResolveStep;
pub use resolver::ThreadRandom;
pub use resolver::Transport;
pub use types::ClassType;
pub use types::QueryResponse;
pub use types::QueryType;
pub use types::TryFromClassTypeError;
pub use types::TryFromQueryTypeError;
