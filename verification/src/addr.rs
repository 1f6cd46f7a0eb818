//! Plain-value IP address types.  Records carry addresses as their raw
//! octets and groups; rendering to the usual textual forms is specified
//! exactly, including the `::` compression of the longest zero run in an
//! IPv6 address.

use vstd::prelude::*;

use crate::text::dec_string;
use crate::text::hex_string;
use crate::text::spec_dec_chars;
use crate::text::spec_hex_chars;

verus! {

/// An IPv4 address as its four octets.
#[derive(Debug, Clone, Copy, PartialEq, Eq, Structural)]
pub struct Ipv4Address {
    /// first (most significant) octet
    pub o0: u8,
    /// second octet
    pub o1: u8,
    /// third octet
    pub o2: u8,
    /// fourth octet
    pub o3: u8,
}

impl Ipv4Address {
    /// Builds an address from its four octets, most significant first.
    pub fn new(o0: u8, o1: u8, o2: u8, o3: u8) -> (r: Self)
        ensures
            r == (Ipv4Address { o0, o1, o2, o3 }),
    {
        Ipv4Address { o0, o1, o2, o3 }
    }

    /// The dotted-decimal rendering of the address.
    pub open spec fn spec_render(self) -> Seq<char> {
        spec_dec_chars(self.o0 as nat) + seq!['.'] + spec_dec_chars(self.o1 as nat) + seq!['.']
            + spec_dec_chars(self.o2 as nat) + seq!['.'] + spec_dec_chars(self.o3 as nat)
    }

    /// Renders the address in dotted-decimal form, e.g. "192.168.2.102".
    pub fn render(&self) -> (s: String)
        ensures
            s@ == self.spec_render(),
    {
        proof {
            reveal_strlit(".");
        }
        let mut s = dec_string(self.o0 as u32);
        s.append(".");
        let p1 = dec_string(self.o1 as u32);
        s.append(p1.as_str());
        s.append(".");
        let p2 = dec_string(self.o2 as u32);
        s.append(p2.as_str());
        s.append(".");
        let p3 = dec_string(self.o3 as u32);
        s.append(p3.as_str());
        proof {
            assert(s@ =~= self.spec_render());
        }
        s
    }
}

/// An IPv6 address as its eight 16-bit groups.
#[derive(Debug, Clone, Copy, PartialEq, Eq, Structural)]
pub struct Ipv6Address {
    /// first (most significant) group
    pub g0: u16,
    /// second group
    pub g1: u16,
    /// third group
    pub g2: u16,
    /// fourth group
    pub g3: u16,
    /// fifth group
    pub g4: u16,
    /// sixth group
    pub g5: u16,
    /// seventh group
    pub g6: u16,
    /// eighth group
    pub g7: u16,
}

/// The length of the run of zero groups starting at index `i`.
pub open spec fn spec_zero_run(gs: Seq<u16>, i: int) -> int
    decreases gs.len() - i,
{
    if i < 0 || i >= gs.len() || gs[i] != 0 {
        0
    } else {
        1 + spec_zero_run(gs, i + 1)
    }
}

/// The leftmost longest run of zero groups at or after index `i`, as a
/// (start, length) pair.
pub open spec fn spec_best_zero_run(gs: Seq<u16>, i: int) -> (int, int)
    decreases gs.len() - i,
{
    if i >= gs.len() {
        (i, 0)
    } else {
        let cur = spec_zero_run(gs, i);
        let later = spec_best_zero_run(gs, i + 1);
        if cur >= later.1 {
            (i, cur)
        } else {
            later
        }
    }
}

/// The groups `gs[i..j]` rendered in lowercase hexadecimal, joined by
/// colons.
pub open spec fn spec_hex_join(gs: Seq<u16>, i: int, j: int) -> Seq<char>
    decreases j - i,
{
    if i >= j {
        Seq::empty()
    } else if i == j - 1 {
        spec_hex_chars(gs[i] as nat)
    } else {
        spec_hex_chars(gs[i] as nat) + seq![':'] + spec_hex_join(gs, i + 1, j)
    }
}

fn zero_run(gs: &Vec<u16>, i: usize) -> (r: usize)
    requires
        i <= gs@.len(),
    ensures
        r == spec_zero_run(gs@, i as int),
        i + r <= gs@.len(),
    decreases gs@.len() - i,
{
    if i >= gs.len() || gs[i] != 0 {
        0
    } else {
        1 + zero_run(gs, i + 1)
    }
}

fn best_zero_run(gs: &Vec<u16>, i: usize) -> (r: (usize, usize))
    requires
        i <= gs@.len(),
    ensures
        (r.0 as int, r.1 as int) == spec_best_zero_run(gs@, i as int),
        i <= r.0,
        r.0 + r.1 <= gs@.len(),
    decreases gs@.len() - i,
{
    if i >= gs.len() {
        (i, 0)
    } else {
        let cur = zero_run(gs, i);
        let later = best_zero_run(gs, i + 1);
        if cur >= later.1 {
            (i, cur)
        } else {
            later
        }
    }
}

fn hex_join(gs: &Vec<u16>, i: usize, j: usize) -> (s: String)
    requires
        j <= gs@.len(),
    ensures
        s@ == spec_hex_join(gs@, i as int, j as int),
    decreases j - i,
{
    proof {
        reveal_strlit(":");
    }
    if i >= j {
        String::new()
    } else if i == j - 1 {
        hex_string(gs[i])
    } else {
        let mut s = hex_string(gs[i]);
        s.append(":");
        let rest = hex_join(gs, i + 1, j);
        s.append(rest.as_str());
        proof {
            assert(s@ =~= spec_hex_join(gs@, i as int, j as int));
        }
        s
    }
}

impl Ipv6Address {
    /// Builds an address from its eight groups, most significant first.
    pub fn new(g0: u16, g1: u16, g2: u16, g3: u16, g4: u16, g5: u16, g6: u16, g7: u16) -> (r:
        Self)
        ensures
            r == (Ipv6Address { g0, g1, g2, g3, g4, g5, g6, g7 }),
    {
        Ipv6Address { g0, g1, g2, g3, g4, g5, g6, g7 }
    }

    /// The address's eight groups in order.
    pub open spec fn spec_groups(self) -> Seq<u16> {
        seq![self.g0, self.g1, self.g2, self.g3, self.g4, self.g5, self.g6, self.g7]
    }

    /// Builds an address from sixteen bytes, each group big-endian.
    pub fn from_bytes(data: &Vec<u8>) -> (r: Self)
        requires
            data@.len() == 16,
        ensures
            forall|i: int|
                0 <= i < 8 ==> #[trigger] r.spec_groups()[i] == data@[2 * i] * 256 + data@[2 * i
                    + 1],
    {
        let r = Ipv6Address {
            g0: (data[0] as u16) * 256 + (data[1] as u16),
            g1: (data[2] as u16) * 256 + (data[3] as u16),
            g2: (data[4] as u16) * 256 + (data[5] as u16),
            g3: (data[6] as u16) * 256 + (data[7] as u16),
            g4: (data[8] as u16) * 256 + (data[9] as u16),
            g5: (data[10] as u16) * 256 + (data[11] as u16),
            g6: (data[12] as u16) * 256 + (data[13] as u16),
            g7: (data[14] as u16) * 256 + (data[15] as u16),
        };
        r
    }

    /// The textual rendering of the address: the groups in lowercase
    /// hexadecimal joined by colons, with the leftmost longest run of at
    /// least two zero groups abbreviated as `::`.
    pub open spec fn spec_render(self) -> Seq<char> {
        let gs = self.spec_groups();
        let best = spec_best_zero_run(gs, 0);
        if best.1 >= 2 {
            spec_hex_join(gs, 0, best.0) + seq![':', ':'] + spec_hex_join(
                gs,
                best.0 + best.1,
                gs.len() as int,
            )
        } else {
            spec_hex_join(gs, 0, gs.len() as int)
        }
    }

    /// Renders the address, abbreviating the leftmost longest zero run,
    /// e.g. "2001:503:ba3e::2:30" or "::1".
    pub fn render(&self) -> (s: String)
        ensures
            s@ == self.spec_render(),
    {
        proof {
            reveal_strlit("::");
        }
        let gs: Vec<u16> = vec![
            self.g0,
            self.g1,
            self.g2,
            self.g3,
            self.g4,
            self.g5,
            self.g6,
            self.g7,
        ];
        proof {
            assert(gs@ =~= self.spec_groups());
        }
        let best = best_zero_run(&gs, 0);
        if best.1 >= 2 {
            let mut s = hex_join(&gs, 0, best.0);
            s.append("::");
            let after = hex_join(&gs, best.0 + best.1, gs.len());
            s.append(after.as_str());
            proof {
                assert("::"@ =~= seq![':', ':']);
                assert(s@ =~= self.spec_render());
            }
            s
        } else {
            hex_join(&gs, 0, gs.len())
        }
    }
}

} // verus!
