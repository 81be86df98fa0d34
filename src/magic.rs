//! The Wake-on-LAN magic packet: six bytes of `0xFF` followed by the
//! target hardware address sixteen times over.
use vstd::prelude::*;

verus! {

/// Number of bytes in a hardware (MAC) address.
pub const MAC_LEN: usize = 6;

/// Number of bytes in a magic packet.
pub const PACKET_LEN: usize = 102;

/// UDP port that magic packets are sent to.
pub const WAKE_PORT: u16 = 9;

/// The 102 bytes a magic packet for `mac` consists of.
pub open spec fn magic_bytes(mac: Seq<u8>) -> Seq<u8> {
    Seq::new(102, |i: int| if i < 6 { 0xFFu8 } else { mac[(i - 6) % 6] })
}

/// A Wake-on-LAN payload.
#[derive(Debug)]
pub struct MagicPacket(pub [u8; 102]);

impl MagicPacket {
    /// Builds the magic packet that wakes the host with hardware address `mac`.
    pub fn new(mac: [u8; 6]) -> (r: MagicPacket)
        ensures
            r.0@ == magic_bytes(mac@),
            forall|i: int| 0 <= i < 6 ==> r.0@[i] == 0xFFu8,
            forall|k: int, j: int|
                0 <= k < 16 && 0 <= j < 6 ==> #[trigger] r.0@[6 + 6 * k + j] == mac@[j],
    {
        let mut p: [u8; 102] = [0xFFu8; 102];
        let mut i: usize = MAC_LEN;
        let mut j: usize = 0;
        while i < PACKET_LEN
            invariant
                MAC_LEN <= i <= PACKET_LEN,
                j < 6,
                j == (i - 6) % 6,
                forall|x: int| 0 <= x < 6 ==> p@[x] == 0xFFu8,
                forall|x: int| 6 <= x < i ==> p@[x] == mac@[(x - 6) % 6],
            decreases PACKET_LEN - i,
        {
            p[i] = mac[j];
            i = i + 1;
            if j == 5 {
                j = 0;
            } else {
                j = j + 1;
            }
        }
        let r = MagicPacket(p);
        assert(r.0@ =~= magic_bytes(mac@));
        assert forall|k: int, j: int| 0 <= k < 16 && 0 <= j < 6 implies #[trigger] r.0@[6 + 6 * k + j] == mac@[j] by {
            lemma_repeat_index(k, j);
        }
        r
    }
}

/// Reads a colon-separated hexadecimal hardware address, such as
/// `"00:1A:2B:3C:4D:5E"`.
pub fn parse_hardware_address(value: &str) -> (r: Result<[u8; 6], MagicError>)
    ensures
        match parse_mac(value@) {
            Ok(mac) => r is Ok && r->Ok_0@ == mac,
            Err(e) => r == Err::<[u8; 6], MagicError>(e),
        },
{
    let n = value.unicode_len();
    let mut c: Vec<char> = Vec::new();
    let mut i: usize = 0;
    while i < n
        invariant
            n == value@.len(),
            i <= n,
            c@ == value@.take(i as int),
        decreases n - i,
    {
        c.push(value.get_char(i));
        i = i + 1;
        assert(c@ =~= value@.take(i as int));
    }
    assert(c@ =~= value@);
    let mut done: Vec<u8> = Vec::new();
    let ghost mut done_segs: Seq<Seq<char>> = Seq::empty();
    let mut err: Option<usize> = None;
    let mut nsegs: usize = 0;
    let mut start: usize = 0;
    let mut k: usize = 0;
    assert(c@.take(0) =~= Seq::<char>::empty());
    assert(c@.subrange(0, 0) =~= Seq::<char>::empty());
    assert(done_segs.push(Seq::<char>::empty()) =~= seq![Seq::<char>::empty()]);
    while k < n
        invariant
            n == c@.len(),
            start <= k <= n,
            segments(c@.take(k as int)) == done_segs.push(c@.subrange(start as int, k as int)),
            nsegs == done_segs.len(),
            nsegs <= k,
            err is None ==> done@.len() == nsegs,
            bytes_of_segments(done_segs) == (match err {
                Some(x) => Err(MagicError::ParseInt(x)),
                None => Ok(done@),
            }),
        decreases n - k,
    {
        let ghost prev = c@.take(k as int);
        assert(c@.take(k + 1).drop_last() =~= prev);
        if c[k] == ':' {
            let b = parse_hex_byte(&c, start, k);
            let ghost seg = c@.subrange(start as int, k as int);
            assert(done_segs.push(seg).drop_last() =~= done_segs);
            if err.is_none() {
                match b {
                    Some(v) => done.push(v),
                    None => err = Some(nsegs),
                }
            }
            proof {
                done_segs = done_segs.push(seg);
            }
            nsegs = nsegs + 1;
            start = k + 1;
            assert(c@.subrange(start as int, start as int) =~= Seq::<char>::empty());
        } else {
            assert(c@.subrange(start as int, k + 1) =~= c@.subrange(start as int, k as int).push(c[k as int]));
            assert(done_segs.push(c@.subrange(start as int, k as int)).update(done_segs.len() as int, c@.subrange(start as int, k + 1)) =~= done_segs.push(c@.subrange(start as int, k + 1)));
        }
        k = k + 1;
    }
    assert(c@.take(n as int) =~= c@);
    let last = parse_hex_byte(&c, start, n);
    let ghost seg = c@.subrange(start as int, n as int);
    assert(done_segs.push(seg).drop_last() =~= done_segs);
    match err {
        Some(x) => Err(MagicError::ParseInt(x)),
        None => match last {
            None => Err(MagicError::ParseInt(done.len())),
            Some(v) => {
                done.push(v);
                if done.len() == MAC_LEN {
                    let mac: [u8; 6] = [done[0], done[1], done[2], done[3], done[4], done[5]];
                    assert(mac@ =~= done@);
                    Ok(mac)
                } else {
                    Err(MagicError::InvalidMac)
                }
            },
        },
    }
}

impl MagicPacket {
    /// Reads a colon-separated hexadecimal hardware address, such as
    /// `"00:1A:2B:3C:4D:5E"`, and builds its magic packet.
    pub fn parse(value: &str) -> (r: Result<MagicPacket, MagicError>)
        ensures
            r == parse_packet(value@),
            match parse_mac(value@) {
                Ok(mac) => r is Ok && r->Ok_0.0@ == magic_bytes(mac),
                Err(e) => r == Err::<MagicPacket, MagicError>(e),
            },
    {
        match parse_hardware_address(value) {
            Ok(mac) => {
                let p = MagicPacket::new(mac);
                proof {
                    let q = packet_of(mac@);
                    assert(q.0@ == magic_bytes(mac@));
                    assert(p.0 =~= q.0);
                }
                Ok(p)
            },
            Err(e) => Err(e),
        }
    }
}

/// The magic packet whose bytes are `magic_bytes(mac)`.
pub open spec fn packet_of(mac: Seq<u8>) -> MagicPacket {
    choose|p: MagicPacket| p.0@ == magic_bytes(mac)
}

/// What reading the text `s` gives, as a packet or an error.
pub open spec fn parse_packet(s: Seq<char>) -> Result<MagicPacket, MagicError> {
    match parse_mac(s) {
        Ok(mac) => Ok(packet_of(mac)),
        Err(e) => Err(e),
    }
}

impl From<[u8; 102]> for MagicPacket {
    /// Takes the 102 bytes as they are.
    fn from(packet: [u8; 102]) -> (r: MagicPacket) {
        MagicPacket(packet)
    }
}

impl vstd::std_specs::convert::FromSpecImpl<[u8; 102]> for MagicPacket {
    open spec fn obeys_from_spec() -> bool {
        true
    }

    open spec fn from_spec(v: [u8; 102]) -> MagicPacket {
        MagicPacket(v)
    }
}

impl<'a> TryFrom<&'a str> for MagicPacket {
    type Error = MagicError;

    /// Reads a colon-separated hexadecimal hardware address; see `parse`.
    fn try_from(value: &'a str) -> (r: Result<MagicPacket, MagicError>) {
        MagicPacket::parse(value)
    }
}

impl<'a> vstd::std_specs::convert::TryFromSpecImpl<&'a str> for MagicPacket {
    open spec fn obeys_try_from_spec() -> bool {
        true
    }

    open spec fn try_from_spec(v: &'a str) -> Result<MagicPacket, MagicError> {
        parse_packet(v@)
    }
}

proof fn lemma_repeat_index(k: int, j: int)
    requires
        0 <= k < 16,
        0 <= j < 6,
    ensures
        (6 * k + j) % 6 == j,
        6 <= 6 + 6 * k + j < 102,
{
    assert((6 * k + j) % 6 == j) by (nonlinear_arith)
        requires 0 <= k < 16, 0 <= j < 6;
}

/// Why a textual hardware address could not be turned into a magic packet,
/// or why a packet could not be sent.
#[derive(Debug, PartialEq, Eq)]
pub enum MagicError {
    /// The colon-separated segment at this zero-based position is not a
    /// hexadecimal byte.
    ParseInt(usize),
    /// The address does not have exactly six segments.
    InvalidMac,
    /// The network transport reported a failure; the text describes it.
    IoError(String),
    /// No local interface has an IPv4 address.
    NoInterfaceFound,
    /// The selected interface has no hardware address.
    InvalidHardwareAddress,
    /// The platform offers no Ethernet channel for the selected interface.
    UnsupportedChannel,
}

/// Whether `c` is a hexadecimal digit, in either case.
pub open spec fn is_hex_digit(c: char) -> bool {
    (48 <= c as u32 <= 57) || (65 <= c as u32 <= 70) || (97 <= c as u32 <= 102)
}

/// The value of the hexadecimal digit `c`.
pub open spec fn digit_value(c: char) -> nat {
    if c as u32 <= 57 {
        (c as u32 - 48) as nat
    } else if c as u32 <= 70 {
        (c as u32 - 55) as nat
    } else {
        (c as u32 - 87) as nat
    }
}

/// The value of the hexadecimal numeral `d`, most significant digit first.
pub open spec fn hex_value(d: Seq<char>) -> nat
    decreases d.len(),
{
    if d.len() == 0 {
        0
    } else {
        hex_value(d.drop_last()) * 16 + digit_value(d.last())
    }
}

/// The digits of a segment: an optional leading `+` is not one of them.
pub open spec fn segment_digits(seg: Seq<char>) -> Seq<char> {
    if seg.len() > 0 && seg[0] == '+' {
        seg.drop_first()
    } else {
        seg
    }
}

/// The byte a segment denotes: an optional `+` followed by one or more
/// hexadecimal digits whose value fits in a byte; `None` for anything else.
pub open spec fn hex_byte(seg: Seq<char>) -> Option<u8> {
    let d = segment_digits(seg);
    if d.len() > 0 && (forall|i: int| 0 <= i < d.len() ==> is_hex_digit(#[trigger] d[i]))
        && hex_value(d) <= 255 {
        Some(hex_value(d) as u8)
    } else {
        None
    }
}

/// The pieces of `s` between colons, in order; a string without a colon is
/// one piece, and every colon starts a new (possibly empty) piece.
pub open spec fn segments(s: Seq<char>) -> Seq<Seq<char>>
    decreases s.len(),
{
    if s.len() == 0 {
        seq![Seq::empty()]
    } else {
        let init = segments(s.drop_last());
        if s.last() == ':' {
            init.push(Seq::empty())
        } else {
            init.update(init.len() - 1, init.last().push(s.last()))
        }
    }
}

/// The bytes of a list of segments, or a `ParseInt` error that names the
/// first segment that is not a byte.
pub open spec fn bytes_of_segments(segs: Seq<Seq<char>>) -> Result<Seq<u8>, MagicError>
    decreases segs.len(),
{
    if segs.len() == 0 {
        Ok(Seq::empty())
    } else {
        match bytes_of_segments(segs.drop_last()) {
            Ok(b) => match hex_byte(segs.last()) {
                Some(v) => Ok(b.push(v)),
                None => Err(MagicError::ParseInt((segs.len() - 1) as usize)),
            },
            Err(e) => Err(e),
        }
    }
}

/// The hardware address that the text `s` denotes: every segment must be a
/// byte (else `ParseInt`), and there must be exactly six (else `InvalidMac`).
pub open spec fn parse_mac(s: Seq<char>) -> Result<Seq<u8>, MagicError> {
    match bytes_of_segments(segments(s)) {
        Ok(b) => if b.len() == 6 {
            Ok(b)
        } else {
            Err(MagicError::InvalidMac)
        },
        Err(e) => Err(e),
    }
}

/// Reads the byte denoted by the characters `c[start..end]`.
fn parse_hex_byte(c: &Vec<char>, start: usize, end: usize) -> (r: Option<u8>)
    requires
        start <= end <= c@.len(),
    ensures
        r == hex_byte(c@.subrange(start as int, end as int)),
{
    let ghost seg = c@.subrange(start as int, end as int);
    let mut from = start;
    if start < end && c[start] == '+' {
        from = start + 1;
    }
    let ghost d = segment_digits(seg);
    assert(d =~= c@.subrange(from as int, end as int));
    let mut acc: u32 = 0;
    let mut over = false;
    let mut all_hex = true;
    let mut k: usize = from;
    while k < end
        invariant
            start <= from <= k <= end <= c@.len(),
            d == c@.subrange(from as int, end as int),
            acc <= 255,
            all_hex && !over ==> acc as nat == hex_value(d.take(k - from)) && acc <= 255,
            all_hex && over ==> hex_value(d.take(k - from)) > 255,
            all_hex == (forall|i: int| 0 <= i < k - from ==> is_hex_digit(#[trigger] d[i])),
        decreases end - k,
    {
        let ch = c[k];
        let ghost t = d.take(k - from);
        assert(d.take(k + 1 - from).drop_last() =~= t);
        assert(d.take(k + 1 - from).last() == ch);
        assert(ch == d[k - from]);
        let cv = ch as u32;
        let v: u32 = if 48 <= cv && cv <= 57 {
            cv - 48
        } else if 65 <= cv && cv <= 70 {
            cv - 55
        } else if 97 <= cv && cv <= 102 {
            cv - 87
        } else {
            all_hex = false;
            0
        };
        if !over {
            let n = acc * 16 + v;
            if n > 255 {
                over = true;
            } else {
                acc = n;
            }
        }
        assert(forall|i: int| 0 <= i < k - from ==> d.take(k + 1 - from)[i] == d[i]);
        k = k + 1;
    }
    assert(d.take(end - from) =~= d);
    if all_hex && !over && from < end {
        Some(acc as u8)
    } else {
        None
    }
}

} // verus!
