//! Choosing the local network interface that probes are sent from.
use vstd::prelude::*;
use crate::magic::MagicError;

verus! {

/// What the selector needs to know of a local interface.
#[derive(Debug, Clone)]
pub struct InterfaceInfo {
    /// Its hardware address, where it has one.
    pub mac: Option<[u8; 6]>,
    /// Its IPv4 addresses, in the order the system lists them.
    pub ipv4_addrs: Vec<[u8; 4]>,
}

/// Whether an interface has an IPv4 address.
pub open spec fn has_ipv4(i: InterfaceInfo) -> bool {
    i.ipv4_addrs@.len() > 0
}

/// How many interfaces of `s` have an IPv4 address.
pub open spec fn count_ipv4(s: Seq<InterfaceInfo>) -> nat
    decreases s.len(),
{
    if s.len() == 0 {
        0
    } else {
        count_ipv4(s.drop_last()) + if has_ipv4(s.last()) {
            1nat
        } else {
            0nat
        }
    }
}

/// Whether `s[j]` is the interface with an IPv4 address that has `nth`
/// such interfaces before it.
pub open spec fn is_nth_ipv4(s: Seq<InterfaceInfo>, j: int, nth: int) -> bool {
    0 <= j < s.len() && has_ipv4(s[j]) && count_ipv4(s.take(j)) == nth
}

/// Picks, among the interfaces with an IPv4 address, the one at position
/// `nth` (0 for the first), and returns its index in `ifaces`, its hardware
/// address and its first IPv4 address. Fails with `NoInterfaceFound` where fewer than `nth + 1`
/// interfaces have an IPv4 address, and with `InvalidHardwareAddress` where
/// the chosen one has no hardware address.
pub fn select_interface(ifaces: &Vec<InterfaceInfo>, nth: usize) -> (r: Result<
    (usize, [u8; 6], [u8; 4]),
    MagicError,
>)
    ensures
        (r == Err::<(usize, [u8; 6], [u8; 4]), MagicError>(MagicError::NoInterfaceFound))
            <==> count_ipv4(ifaces@) <= nth,
        r is Ok ==> is_nth_ipv4(ifaces@, r->Ok_0.0 as int, nth as int) && ifaces@[r->Ok_0.0 as int].mac
            == Some(r->Ok_0.1) && ifaces@[r->Ok_0.0 as int].ipv4_addrs@[0] == r->Ok_0.2,
        r is Err && r != Err::<(usize, [u8; 6], [u8; 4]), MagicError>(MagicError::NoInterfaceFound)
            ==> (r == Err::<(usize, [u8; 6], [u8; 4]), MagicError>(MagicError::InvalidHardwareAddress)
            && exists|j: int| is_nth_ipv4(ifaces@, j, nth as int) && ifaces@[j].mac is None),
{
    let mut seen: usize = 0;
    let mut i: usize = 0;
    while i < ifaces.len()
        invariant
            i <= ifaces@.len(),
            seen == count_ipv4(ifaces@.take(i as int)),
            seen <= nth,
        decreases ifaces@.len() - i,
    {
        assert(ifaces@.take(i + 1).drop_last() =~= ifaces@.take(i as int));
        if ifaces[i].ipv4_addrs.len() > 0 {
            if seen == nth {
                proof {
                    lemma_count_prefix(ifaces@, i as int + 1);
                    assert(is_nth_ipv4(ifaces@, i as int, nth as int));
                }
                return match ifaces[i].mac {
                    Some(m) => Ok((i, m, ifaces[i].ipv4_addrs[0])),
                    None => Err(MagicError::InvalidHardwareAddress),
                };
            }
            seen = seen + 1;
        }
        i = i + 1;
    }
    assert(ifaces@.take(i as int) =~= ifaces@);
    Err(MagicError::NoInterfaceFound)
}

proof fn lemma_count_prefix(s: Seq<InterfaceInfo>, k: int)
    requires
        0 <= k <= s.len(),
    ensures
        count_ipv4(s.take(k)) <= count_ipv4(s),
    decreases s.len(),
{
    if k < s.len() {
        lemma_count_prefix(s.drop_last(), k);
        assert(s.drop_last().take(k) =~= s.take(k));
    } else {
        assert(s.take(k) =~= s);
    }
}

} // verus!
