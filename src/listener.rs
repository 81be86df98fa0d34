//! The decisions of the reply listener: what one received frame means.
use vstd::prelude::*;
use crate::codec::{
    arp_of_bytes, lemma_hw_addr_unique, parse_arp, read_be16, ETHERNET_HEADER_LEN,
    ETHERTYPE_ARP, ETHERTYPE_IPV4, ICMP_ECHO_LEN, IPV4_HEADER_LEN, IP_PROTOCOL_ICMP,
};

verus! {

/// A reply to a probe, as seen in one received frame.
#[derive(Debug, Clone, Copy, PartialEq, Eq)]
pub enum Reply {
    /// An ARP message: its sender's hardware and IPv4 addresses.
    Arp { sender_hw_addr: [u8; 6], sender_proto_addr: [u8; 4] },
    /// An ICMP message in IPv4: its type and the frame's source hardware address.
    Icmp { icmp_type: u8, source: [u8; 6] },
}

/// Where the listener stands after a frame.
#[derive(Debug, Clone, Copy, PartialEq, Eq)]
pub enum ListenerState {
    /// Nothing of interest: wait for the next frame.
    Listening,
    /// The frame held a reply.
    Matched(Reply),
}

/// The reply that the Ethernet frame `f` holds, if any: an ARP message
/// after the EtherType of ARP, or an ICMP message (at least 8 bytes) after an
/// IPv4 header whose protocol is ICMP. Anything shorter or else is no reply.
pub open spec fn reply_of(f: Seq<u8>) -> Option<Reply> {
    if f.len() < 14 {
        None
    } else {
        let ethertype = read_be16(f, 12);
        let p = f.skip(14);
        if ethertype == ETHERTYPE_ARP {
            match arp_of_bytes(p) {
                Some(m) => Some(
                    Reply::Arp {
                        sender_hw_addr: m.sender_hw_addr,
                        sender_proto_addr: m.sender_proto_addr,
                    },
                ),
                None => None,
            }
        } else if ethertype == ETHERTYPE_IPV4 && p.len() >= 20 && p[9] == IP_PROTOCOL_ICMP {
            let ihl = (p[0] % 16) as int * 4;
            if ihl >= 20 && p.len() >= ihl + 8 {
                Some(
                    Reply::Icmp {
                        icmp_type: p[ihl],
                        source: choose|a: [u8; 6]| a@ == f.subrange(6, 12),
                    },
                )
            } else {
                None
            }
        } else {
            None
        }
    }
}

/// Reads the reply that an Ethernet frame holds, if any.
pub fn classify_frame(frame: &[u8]) -> (r: Option<Reply>)
    ensures
        r == reply_of(frame@),
{
    let n = frame.len();
    if n < ETHERNET_HEADER_LEN {
        return None;
    }
    let ethertype = (frame[12] as u16) * 256 + (frame[13] as u16);
    let ghost p = frame@.skip(14);
    assert(ethertype == read_be16(frame@, 12));
    assert(p.len() == n - 14);
    assert(n >= 24 ==> p[9] == frame@[23]);
    if ethertype == ETHERTYPE_ARP {
        let mut payload: Vec<u8> = Vec::new();
        let mut i: usize = ETHERNET_HEADER_LEN;
        while i < n
            invariant
                ETHERNET_HEADER_LEN <= i <= n == frame@.len(),
                payload@ == frame@.subrange(14, i as int),
            decreases n - i,
        {
            payload.push(frame[i]);
            i = i + 1;
            assert(payload@ =~= frame@.subrange(14, i as int));
        }
        assert(payload@ =~= p);
        match parse_arp(payload.as_slice()) {
            Some(m) => Some(
                Reply::Arp { sender_hw_addr: m.sender_hw_addr, sender_proto_addr: m.sender_proto_addr },
            ),
            None => None,
        }
    } else if ethertype == ETHERTYPE_IPV4 && n >= ETHERNET_HEADER_LEN + IPV4_HEADER_LEN
        && frame[ETHERNET_HEADER_LEN + 9] == IP_PROTOCOL_ICMP {
        let ihl: usize = ((frame[ETHERNET_HEADER_LEN] % 16) as usize) * 4;
        assert(p[0] == frame@[14] && p[9] == frame@[23]);
        assert(ihl == (p[0] % 16) as int * 4);
        if ihl >= IPV4_HEADER_LEN && n - ETHERNET_HEADER_LEN >= ihl + ICMP_ECHO_LEN {
            let source = [frame[6], frame[7], frame[8], frame[9], frame[10], frame[11]];
            proof {
                assert(source@ =~= frame@.subrange(6, 12));
                lemma_hw_addr_unique(source, frame@.subrange(6, 12));
            }
            assert(p[ihl as int] == frame@[14 + ihl]);
            let r = Reply::Icmp { icmp_type: frame[ETHERNET_HEADER_LEN + ihl], source };
            let ghost e = reply_of(frame@)->Some_0;
            assert(e->Icmp_source == source);
            assert(e->Icmp_icmp_type == r->Icmp_icmp_type);
            Some(r)
        } else {
            assert(reply_of(frame@) is None);
            None
        }
    } else {
        None
    }
}

/// Moves the listener on by one received frame: to `Matched` where the
/// frame holds a reply, else back to `Listening`. A frame whose EtherType is
/// neither IPv4 nor ARP is always ignored.
pub fn on_frame(frame: &[u8]) -> (r: ListenerState)
    ensures
        r == (match reply_of(frame@) {
            Some(x) => ListenerState::Matched(x),
            None => ListenerState::Listening,
        }),
        frame@.len() >= 14 && read_be16(frame@, 12) != ETHERTYPE_IPV4 && read_be16(frame@, 12)
            != ETHERTYPE_ARP ==> r == ListenerState::Listening,
        frame@.len() < 14 ==> r == ListenerState::Listening,
{
    match classify_frame(frame) {
        Some(x) => ListenerState::Matched(x),
        None => ListenerState::Listening,
    }
}

} // verus!
