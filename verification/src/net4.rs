//! Host candidate discovery over the machine's IPv4 interfaces.
//!
//! Interface enumeration hands back a list of addresses. Of those, the
//! IPv4 addresses that are neither loopback nor link-local qualify as
//! host candidates; IPv6 addresses are skipped by design. Selection keeps
//! one candidate per qualifying interface, in enumeration order.

use vstd::prelude::*;

verus! {

/// An IPv4 address as its four octets.
#[derive(Clone, Copy, PartialEq, Eq, Structural, Debug)]
pub struct IpV4 {
    pub a: u8,
    pub b: u8,
    pub c: u8,
    pub d: u8,
}

/// One enumerated interface address: an IPv4 address, or an IPv6 address
/// which carries no further detail because it never becomes a candidate.
#[derive(Clone, Copy, PartialEq, Eq, Structural, Debug)]
pub enum IfAddr {
    V4(IpV4),
    V6,
}

/// A transport endpoint: an IPv4 address and a port.
#[derive(Clone, Copy, PartialEq, Eq, Structural, Debug)]
pub struct SockV4 {
    pub ip: IpV4,
    pub port: u16,
}

impl IpV4 {
    /// The loopback block 127.0.0.0/8.
    pub open spec fn is_loopback(self) -> bool {
        self.a == 127
    }

    /// The link-local block 169.254.0.0/16.
    pub open spec fn is_link_local(self) -> bool {
        self.a == 169 && self.b == 254
    }

    /// Usable as a host candidate: neither loopback nor link-local.
    pub open spec fn is_usable(self) -> bool {
        !self.is_loopback() && !self.is_link_local()
    }
}

/// The usable IPv4 addresses among the enumerated ones, in order: exactly
/// one entry per qualifying interface.
pub open spec fn usable_of(ifs: Seq<IfAddr>) -> Seq<IpV4>
    decreases ifs.len(),
{
    if ifs.len() == 0 {
        Seq::<IpV4>::empty()
    } else {
        let rest = usable_of(ifs.drop_last());
        match ifs.last() {
            IfAddr::V4(ip) => if ip.is_usable() {
                rest.push(ip)
            } else {
                rest
            },
            IfAddr::V6 => rest,
        }
    }
}

/// Every selected candidate is usable.
pub proof fn lemma_usable_of_usable(ifs: Seq<IfAddr>)
    ensures
        forall|k: int| 0 <= k < usable_of(ifs).len() ==> (#[trigger] usable_of(ifs)[k]).is_usable(),
    decreases ifs.len(),
{
    if ifs.len() > 0 {
        lemma_usable_of_usable(ifs.drop_last());
        let rest = usable_of(ifs.drop_last());
        match ifs.last() {
            IfAddr::V4(ip) => {
                if ip.is_usable() {
                    assert(usable_of(ifs) == rest.push(ip));
                    assert(forall|k: int|
                        0 <= k < rest.len() ==> #[trigger] rest.push(ip)[k] == rest[k]);
                    assert(rest.push(ip)[rest.len() as int] == ip);
                }
            },
            IfAddr::V6 => {},
        }
    }
}

/// Select the host candidates among the enumerated interface addresses:
/// every usable IPv4 address, each exactly once, in enumeration order.
pub fn select_candidates(ifs: &Vec<IfAddr>) -> (r: Vec<IpV4>)
    ensures
        r@ == usable_of(ifs@),
{
    let mut out: Vec<IpV4> = Vec::new();
    let mut i: usize = 0;
    while i < ifs.len()
        invariant
            i <= ifs.len(),
            out@ == usable_of(ifs@.take(i as int)),
        decreases ifs.len() - i,
    {
        assert(ifs@.take(i + 1).drop_last() =~= ifs@.take(i as int));
        assert(ifs@.take(i + 1).last() == ifs@[i as int]);
        match ifs[i] {
            IfAddr::V4(ip) => {
                let lo = ip.a == 127;
                let ll = ip.a == 169 && ip.b == 254;
                if !lo && !ll {
                    out.push(ip);
                }
            },
            IfAddr::V6 => {},
        }
        i += 1;
    }
    assert(ifs@.take(ifs.len() as int) =~= ifs@);
    out
}

} // verus!
