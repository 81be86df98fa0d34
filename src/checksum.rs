//! The 16-bit ones-complement checksum of IPv4 and ICMP.
use vstd::prelude::*;

verus! {

/// The sum of the 16-bit big-endian words of `b`; an odd last byte counts
/// as the high byte of a word whose low byte is zero.
pub open spec fn word_sum(b: Seq<u8>) -> nat
    decreases b.len(),
{
    if b.len() == 0 {
        0
    } else if b.len() == 1 {
        b[0] as nat * 256
    } else {
        (b[0] as nat * 256 + b[1] as nat) + word_sum(b.skip(2))
    }
}

/// One end-around carry: the bits above the low sixteen are added back in.
pub open spec fn fold16(s: nat) -> nat {
    s % 65536 + s / 65536
}

/// The ones-complement sum of the words of `b`, for `b` of at most 65536 bytes.
pub open spec fn ones_sum(b: Seq<u8>) -> nat {
    fold16(fold16(word_sum(b)))
}

/// The checksum of `b`: the ones complement of its ones-complement sum.
pub open spec fn checksum_spec(b: Seq<u8>) -> u16 {
    (65535 - ones_sum(b)) as u16
}

/// `b` with the 16-bit word `c` written at `b[at]`, `b[at + 1]`.
pub open spec fn with_word(b: Seq<u8>, at: int, c: u16) -> Seq<u8> {
    b.update(at, (c / 256) as u8).update(at + 1, (c % 256) as u8)
}

proof fn lemma_word_sum_bound(b: Seq<u8>)
    ensures
        word_sum(b) <= (b.len() + 1) / 2 * 65535,
    decreases b.len(),
{
    if b.len() >= 2 {
        lemma_word_sum_bound(b.skip(2));
    }
}

proof fn lemma_fold_props(x: nat)
    requires
        x <= 0x8001_0000,
    ensures
        fold16(fold16(x)) <= 65535,
        x > 0 ==> fold16(fold16(x)) > 0,
        x == 0 ==> fold16(fold16(x)) == 0,
        (x - fold16(fold16(x))) % 65535 == 0,
{
    let q1 = x / 65536;
    let r1 = x % 65536;
    assert(x == 65536 * q1 + r1 && 0 <= r1 < 65536) by {
        vstd::arithmetic::div_mod::lemma_fundamental_div_mod(x as int, 65536);
    }
    let y = fold16(x);
    assert(q1 <= 32769) by (nonlinear_arith)
        requires x == 65536 * q1 + r1, x <= 0x8001_0000, 0 <= r1;
    let q2 = y / 65536;
    let r2 = y % 65536;
    assert(y == 65536 * q2 + r2 && 0 <= r2 < 65536) by {
        vstd::arithmetic::div_mod::lemma_fundamental_div_mod(y as int, 65536);
    }
    assert(q2 <= 1) by (nonlinear_arith)
        requires y == 65536 * q2 + r2, y <= 65535 + 32769, 0 <= r2;
    assert(x - fold16(y) == 65535 * (q1 + q2));
    vstd::arithmetic::div_mod::lemma_mod_multiples_basic((q1 + q2) as int, 65535);
    assert(x > 0 ==> q1 + r1 > 0) by (nonlinear_arith)
        requires x == 65536 * q1 + r1, 0 <= r1, 0 <= q1;
    assert(y > 0 ==> q2 + r2 > 0) by (nonlinear_arith)
        requires y == 65536 * q2 + r2, 0 <= r2, 0 <= q2;
}

proof fn lemma_with_word_sum(b: Seq<u8>, at: int, c: u16)
    requires
        0 <= at,
        at + 1 < b.len(),
        at % 2 == 0,
        b[at] == 0,
        b[at + 1] == 0,
    ensures
        word_sum(with_word(b, at, c)) == word_sum(b) + c,
    decreases at,
{
    let w = with_word(b, at, c);
    if at == 0 {
        assert(w.skip(2) =~= b.skip(2));
    } else {
        assert(w.skip(2) =~= with_word(b.skip(2), at - 2, c));
        lemma_with_word_sum(b.skip(2), at - 2, c);
    }
}

/// Checksum identity: where the checksum field of `h` (the word at the even
/// offset `at`) is zero, writing the checksum of `h` there gives a sequence
/// whose ones-complement sum is `0xFFFF`.
pub proof fn lemma_checksum_verifies(h: Seq<u8>, at: int)
    requires
        h.len() <= 65536,
        0 <= at,
        at + 1 < h.len(),
        at % 2 == 0,
        h[at] == 0,
        h[at + 1] == 0,
    ensures
        ones_sum(with_word(h, at, checksum_spec(h))) == 0xFFFF,
{
    let s = word_sum(h);
    lemma_word_sum_bound(h);
    assert(s <= 32768 * 65535) by (nonlinear_arith)
        requires s <= (h.len() + 1) / 2 * 65535, h.len() <= 65536;
    lemma_fold_props(s);
    let f = fold16(fold16(s));
    let c = checksum_spec(h);
    assert(c == 65535 - f);
    lemma_with_word_sum(h, at, c);
    let t = s + c;
    lemma_fold_props(t as nat);
    let g = fold16(fold16(t as nat));
    assert((t - g) % 65535 == 0);
    assert((s - f) % 65535 == 0);
    assert(g == 65535) by {
        vstd::arithmetic::div_mod::lemma_fundamental_div_mod(t - g, 65535);
        vstd::arithmetic::div_mod::lemma_fundamental_div_mod(s - f, 65535);
        let a = (t - g) / 65535;
        let d = (s - f) / 65535;
        assert(g == 65535 * (d + 1 - a));
        assert(0 < g <= 65535);
        assert(g == 65535) by (nonlinear_arith)
            requires g == 65535 * (d + 1 - a), 0 < g <= 65535;
    }
}

/// Relies on pnet::util::checksum: the ones complement of the folded sum of
/// the big-endian words of `data`, the word at index `skipword` counted as zero.
#[verifier::external_body]
fn pnet_checksum(data: &[u8], skipword: usize) -> (r: u16)
    requires
        0 < data@.len() <= 65536,
        2 * skipword + 1 < data@.len(),
    ensures
        r == checksum_spec(with_word(data@, 2 * skipword as int, 0)),
{
    pnet::util::checksum(data, skipword)
}

/// Computes the checksum of `b` with its checksum field, the word at the
/// even offset `at`, regarded as zero.
pub fn header_checksum(b: &[u8], at: usize) -> (r: u16)
    requires
        b@.len() <= 65536,
        at % 2 == 0,
        at + 1 < b@.len(),
    ensures
        r == checksum_spec(with_word(b@, at as int, 0)),
{
    pnet_checksum(b, at / 2)
}

} // verus!
