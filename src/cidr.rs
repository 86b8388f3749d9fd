//! IP addresses and CIDR blocks, and the consumer filter built on them.

use vstd::prelude::*;
use crate::config::ConfigError;

verus! {

/// An IP address as its bits.
#[derive(Clone, Copy, Debug, PartialEq, Eq, Structural)]
pub enum IpAddr {
    V4(u32),
    V6(u128),
}

/// A CIDR block: a network address and the length of its prefix in bits.
#[derive(Clone, Copy, Debug, PartialEq, Eq, Structural)]
pub enum IpCidr {
    V4 { net: u32, len: u8 },
    V6 { net: u128, len: u8 },
}

/// The prefix fits the address and the network has no host bit set.
pub open spec fn cidr_valid(c: IpCidr) -> bool {
    match c {
        IpCidr::V4 { net, len } => len <= 32 && (len == 32 || net << (len as u32) == 0),
        IpCidr::V6 { net, len } => len <= 128 && (len == 128 || net << (len as u128) == 0),
    }
}

/// `ip` lies in block `c`: same family, and the first `len` bits agree.
pub open spec fn cidr_contains(c: IpCidr, ip: IpAddr) -> bool {
    match (c, ip) {
        (IpCidr::V4 { net, len }, IpAddr::V4(a)) => len <= 32 && (len == 0 || a >> ((32 - len) as u32)
            == net >> ((32 - len) as u32)),
        (IpCidr::V6 { net, len }, IpAddr::V6(a)) => len <= 128 && (len == 0 || a >> ((128 - len) as u128)
            == net >> ((128 - len) as u128)),
        _ => false,
    }
}

impl IpCidr {
    /// Checks that the block is well formed.
    pub fn check_valid(&self) -> (r: Result<(), ConfigError>)
        ensures
            r is Ok <==> cidr_valid(*self),
            r matches Err(e) ==> e is InvalidCidr,
    {
        let ok = match *self {
            IpCidr::V4 { net, len } => len <= 32 && (len == 32 || net << (len as u32) == 0),
            IpCidr::V6 { net, len } => len <= 128 && (len == 128 || net << (len as u128) == 0),
        };
        if ok { Ok(()) } else { Err(ConfigError::InvalidCidr) }
    }

    /// Whether `ip` lies in the block.
    pub fn contains(&self, ip: IpAddr) -> (r: bool)
        ensures
            r == cidr_contains(*self, ip),
    {
        match (*self, ip) {
            (IpCidr::V4 { net, len }, IpAddr::V4(a)) => len <= 32 && (len == 0 || a >> ((32 - len) as u32)
                == net >> ((32 - len) as u32)),
            (IpCidr::V6 { net, len }, IpAddr::V6(a)) => len <= 128 && (len == 0 || a >> ((128 - len) as u128)
                == net >> ((128 - len) as u128)),
            _ => false,
        }
    }
}

/// Some block of `blocks` holds `ip`.
pub open spec fn any_contains(blocks: Seq<IpCidr>, ip: IpAddr) -> bool {
    exists|k: int| 0 <= k < blocks.len() && cidr_contains(#[trigger] blocks[k], ip)
}

pub fn any_contains_exec(blocks: &Vec<IpCidr>, ip: IpAddr) -> (r: bool)
    ensures
        r == any_contains(blocks@, ip),
{
    let mut k: usize = 0;
    while k < blocks.len()
        invariant
            k <= blocks@.len(),
            forall|j: int| 0 <= j < k ==> !cidr_contains(#[trigger] blocks@[j], ip),
        decreases blocks@.len() - k,
    {
        if blocks[k].contains(ip) {
            return true;
        }
        k = k + 1;
    }
    false
}

} // verus!
