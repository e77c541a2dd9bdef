//! Big-endian integers on the wire.
use vstd::prelude::*;

verus! {

/// The value of two bytes read most significant first.
pub open spec fn be_u16(hi: u8, lo: u8) -> int {
    hi * 256 + lo
}

/// The value of four bytes read most significant first.
pub open spec fn be_u32(b0: u8, b1: u8, b2: u8, b3: u8) -> int {
    b0 * 16777216 + b1 * 65536 + b2 * 256 + b3
}

/// The value of the two bytes of `s` at `i`, most significant first.
pub open spec fn be_u16_at(s: Seq<u8>, i: int) -> int {
    be_u16(s[i], s[i + 1])
}

/// The value of the four bytes of `s` at `i`, most significant first.
pub open spec fn be_u32_at(s: Seq<u8>, i: int) -> int {
    be_u32(s[i], s[i + 1], s[i + 2], s[i + 3])
}

/// The two bytes of `x`, most significant first.
pub open spec fn u16_bytes(x: u16) -> Seq<u8> {
    seq![(x >> 8u16) as u8, (x & 0xffu16) as u8]
}

/// The four bytes of `x`, most significant first.
pub open spec fn u32_bytes(x: u32) -> Seq<u8> {
    seq![
        (x >> 24u32) as u8,
        ((x >> 16u32) & 0xffu32) as u8,
        ((x >> 8u32) & 0xffu32) as u8,
        (x & 0xffu32) as u8,
    ]
}

/// Reading back the two bytes of `x` gives `x`.
pub proof fn lemma_u16_bytes_value(x: u16)
    ensures
        u16_bytes(x).len() == 2,
        be_u16_at(u16_bytes(x), 0) == x,
{
    let hi = (x >> 8u16) as u8;
    let lo = (x & 0xffu16) as u8;
    assert(hi as int * 256 + lo as int == x as int) by (bit_vector)
        requires
            hi == (x >> 8u16) as u8,
            lo == (x & 0xffu16) as u8,
    ;
}

/// Reading back the four bytes of `x` gives `x`.
pub proof fn lemma_u32_bytes_value(x: u32)
    ensures
        u32_bytes(x).len() == 4,
        be_u32_at(u32_bytes(x), 0) == x,
{
    let b0 = (x >> 24u32) as u8;
    let b1 = ((x >> 16u32) & 0xffu32) as u8;
    let b2 = ((x >> 8u32) & 0xffu32) as u8;
    let b3 = (x & 0xffu32) as u8;
    assert(b0 as int * 16777216 + b1 as int * 65536 + b2 as int * 256 + b3 as int == x as int)
        by (bit_vector)
        requires
            b0 == (x >> 24u32) as u8,
            b1 == ((x >> 16u32) & 0xffu32) as u8,
            b2 == ((x >> 8u32) & 0xffu32) as u8,
            b3 == (x & 0xffu32) as u8,
    ;
}

/// `byteorder::BigEndian::read_u16`: the first two bytes of `buf`, most
/// significant first (its source is `u16::from_be_bytes(buf[..2])`, which
/// panics on a shorter slice).
#[verifier::external_body]
pub(crate) fn read_u16_be(buf: &[u8]) -> (r: u16)
    requires
        buf@.len() >= 2,
    ensures
        r == be_u16_at(buf@, 0),
{
    <byteorder::BigEndian as byteorder::ByteOrder>::read_u16(buf)
}

/// `byteorder::BigEndian::read_u32`: the first four bytes of `buf`, most
/// significant first (its source is `u32::from_be_bytes(buf[..4])`, which
/// panics on a shorter slice).
#[verifier::external_body]
pub(crate) fn read_u32_be(buf: &[u8]) -> (r: u32)
    requires
        buf@.len() >= 4,
    ensures
        r == be_u32_at(buf@, 0),
{
    <byteorder::BigEndian as byteorder::ByteOrder>::read_u32(buf)
}

/// The two bytes of `x`, most significant first.
pub fn u16_to_be_bytes(x: u16) -> (r: [u8; 2])
    ensures
        r@ == u16_bytes(x),
{
    let r = [(x >> 8u16) as u8, (x & 0xffu16) as u8];
    assert(r@ =~= u16_bytes(x));
    r
}

/// The four bytes of `x`, most significant first.
pub fn u32_to_be_bytes(x: u32) -> (r: [u8; 4])
    ensures
        r@ == u32_bytes(x),
{
    let r = [
        (x >> 24u32) as u8,
        ((x >> 16u32) & 0xffu32) as u8,
        ((x >> 8u32) & 0xffu32) as u8,
        (x & 0xffu32) as u8,
    ];
    assert(r@ =~= u32_bytes(x));
    r
}

/// The value of the eight bytes of `s` at `i`, most significant first.
pub open spec fn be_u64_at(s: Seq<u8>, i: int) -> int {
    s[i] * 72057594037927936 + s[i + 1] * 281474976710656 + s[i + 2] * 1099511627776
        + s[i + 3] * 4294967296 + s[i + 4] * 16777216 + s[i + 5] * 65536 + s[i + 6] * 256
        + s[i + 7]
}

/// The eight bytes of `x`, most significant first.
pub open spec fn u64_bytes(x: u64) -> Seq<u8> {
    seq![
        (x >> 56u64) as u8,
        ((x >> 48u64) & 0xffu64) as u8,
        ((x >> 40u64) & 0xffu64) as u8,
        ((x >> 32u64) & 0xffu64) as u8,
        ((x >> 24u64) & 0xffu64) as u8,
        ((x >> 16u64) & 0xffu64) as u8,
        ((x >> 8u64) & 0xffu64) as u8,
        (x & 0xffu64) as u8,
    ]
}

/// Reading back the eight bytes of `x` gives `x`.
pub proof fn lemma_u64_bytes_value(x: u64)
    ensures
        u64_bytes(x).len() == 8,
        be_u64_at(u64_bytes(x), 0) == x,
{
    let b0 = (x >> 56u64) as u8;
    let b1 = ((x >> 48u64) & 0xffu64) as u8;
    let b2 = ((x >> 40u64) & 0xffu64) as u8;
    let b3 = ((x >> 32u64) & 0xffu64) as u8;
    let b4 = ((x >> 24u64) & 0xffu64) as u8;
    let b5 = ((x >> 16u64) & 0xffu64) as u8;
    let b6 = ((x >> 8u64) & 0xffu64) as u8;
    let b7 = (x & 0xffu64) as u8;
    assert(b0 as int * 72057594037927936 + b1 as int * 281474976710656 + b2 as int
        * 1099511627776 + b3 as int * 4294967296 + b4 as int * 16777216 + b5 as int * 65536
        + b6 as int * 256 + b7 as int == x as int) by (bit_vector)
        requires
            b0 == (x >> 56u64) as u8,
            b1 == ((x >> 48u64) & 0xffu64) as u8,
            b2 == ((x >> 40u64) & 0xffu64) as u8,
            b3 == ((x >> 32u64) & 0xffu64) as u8,
            b4 == ((x >> 24u64) & 0xffu64) as u8,
            b5 == ((x >> 16u64) & 0xffu64) as u8,
            b6 == ((x >> 8u64) & 0xffu64) as u8,
            b7 == (x & 0xffu64) as u8,
    ;
}

/// The eight bytes of `s` at `i`, most significant first, as a `u64`.
pub fn read_u64_be_at(s: &[u8], i: usize) -> (r: u64)
    requires
        i + 8 <= s@.len(),
    ensures
        r == be_u64_at(s@, i as int),
{
    let b0 = s[i];
    let b1 = s[i + 1];
    let b2 = s[i + 2];
    let b3 = s[i + 3];
    let b4 = s[i + 4];
    let b5 = s[i + 5];
    let b6 = s[i + 6];
    let b7 = s[i + 7];
    let r = (b0 as u64) << 56u64 | (b1 as u64) << 48u64 | (b2 as u64) << 40u64 | (b3 as u64)
        << 32u64 | (b4 as u64) << 24u64 | (b5 as u64) << 16u64 | (b6 as u64) << 8u64
        | (b7 as u64);
    assert(r as int == b0 as int * 72057594037927936 + b1 as int * 281474976710656 + b2 as int
        * 1099511627776 + b3 as int * 4294967296 + b4 as int * 16777216 + b5 as int * 65536
        + b6 as int * 256 + b7 as int) by (bit_vector)
        requires
            r == (b0 as u64) << 56u64 | (b1 as u64) << 48u64 | (b2 as u64) << 40u64 | (b3 as u64)
                << 32u64 | (b4 as u64) << 24u64 | (b5 as u64) << 16u64 | (b6 as u64) << 8u64
                | (b7 as u64),
    ;
    r
}

/// The eight bytes of `x`, most significant first.
pub fn u64_to_be_bytes(x: u64) -> (r: [u8; 8])
    ensures
        r@ == u64_bytes(x),
{
    let r = [
        (x >> 56u64) as u8,
        ((x >> 48u64) & 0xffu64) as u8,
        ((x >> 40u64) & 0xffu64) as u8,
        ((x >> 32u64) & 0xffu64) as u8,
        ((x >> 24u64) & 0xffu64) as u8,
        ((x >> 16u64) & 0xffu64) as u8,
        ((x >> 8u64) & 0xffu64) as u8,
        (x & 0xffu64) as u8,
    ];
    assert(r@ =~= u64_bytes(x));
    r
}

/// The value of the bytes of `s` read as one big-endian number, most
/// significant first.
pub open spec fn be_value(s: Seq<u8>) -> int
    decreases s.len(),
{
    if s.len() == 0 {
        0
    } else {
        be_value(s.drop_last()) * 256 + s.last()
    }
}

proof fn lemma_be_value_step(s: Seq<u8>, k: int)
    requires
        0 < k <= s.len(),
    ensures
        be_value(s.take(k)) == be_value(s.take(k - 1)) * 256 + s[k - 1],
{
    assert(s.take(k).drop_last() =~= s.take(k - 1));
    assert(s.take(k).last() == s[k - 1]);
}

/// Sixteen bytes read as one big-endian number are their first eight bytes
/// times 2^64 plus their last eight.
pub proof fn lemma_be_value_16(s: Seq<u8>)
    requires
        s.len() == 16,
    ensures
        be_value(s) == be_u64_at(s, 0) * 18446744073709551616 + be_u64_at(s, 8),
        0 <= be_u64_at(s, 8) < 18446744073709551616,
{
    assert(be_value(s.take(0)) == 0) by {
        assert(s.take(0) =~= Seq::<u8>::empty());
    }
    lemma_be_value_step(s, 1);
    lemma_be_value_step(s, 2);
    lemma_be_value_step(s, 3);
    lemma_be_value_step(s, 4);
    lemma_be_value_step(s, 5);
    lemma_be_value_step(s, 6);
    lemma_be_value_step(s, 7);
    lemma_be_value_step(s, 8);
    lemma_be_value_step(s, 9);
    lemma_be_value_step(s, 10);
    lemma_be_value_step(s, 11);
    lemma_be_value_step(s, 12);
    lemma_be_value_step(s, 13);
    lemma_be_value_step(s, 14);
    lemma_be_value_step(s, 15);
    lemma_be_value_step(s, 16);
    assert(s.take(16) =~= s);
}

/// Two, four and eight bytes read as one big-endian number give the values
/// of [`be_u16_at`], [`be_u32_at`] and [`be_u64_at`]; so the bytes written for
/// a number read back, most significant first, as that number.
pub proof fn lemma_be_value_fixed(x16: u16, x32: u32, x64: u64)
    ensures
        be_value(u16_bytes(x16)) == x16,
        be_value(u32_bytes(x32)) == x32,
        be_value(u64_bytes(x64)) == x64,
{
    lemma_u16_bytes_value(x16);
    lemma_u32_bytes_value(x32);
    lemma_u64_bytes_value(x64);
    let s = u16_bytes(x16);
    assert(be_value(s.take(0)) == 0) by {
        assert(s.take(0) =~= Seq::<u8>::empty());
    }
    lemma_be_value_step(s, 1);
    lemma_be_value_step(s, 2);
    assert(s.take(2) =~= s);
    let s = u32_bytes(x32);
    assert(be_value(s.take(0)) == 0) by {
        assert(s.take(0) =~= Seq::<u8>::empty());
    }
    lemma_be_value_step(s, 1);
    lemma_be_value_step(s, 2);
    lemma_be_value_step(s, 3);
    lemma_be_value_step(s, 4);
    assert(s.take(4) =~= s);
    let s = u64_bytes(x64);
    assert(be_value(s.take(0)) == 0) by {
        assert(s.take(0) =~= Seq::<u8>::empty());
    }
    lemma_be_value_step(s, 1);
    lemma_be_value_step(s, 2);
    lemma_be_value_step(s, 3);
    lemma_be_value_step(s, 4);
    lemma_be_value_step(s, 5);
    lemma_be_value_step(s, 6);
    lemma_be_value_step(s, 7);
    lemma_be_value_step(s, 8);
    assert(s.take(8) =~= s);
}

/// The numbers read at `i` are the bytes there read as one big-endian
/// number, most significant first.
pub proof fn lemma_be_at_value(s: Seq<u8>, i: int)
    requires
        0 <= i,
    ensures
        i + 2 <= s.len() ==> be_u16_at(s, i) == be_value(s.subrange(i, i + 2)),
        i + 4 <= s.len() ==> be_u32_at(s, i) == be_value(s.subrange(i, i + 4)),
        i + 8 <= s.len() ==> be_u64_at(s, i) == be_value(s.subrange(i, i + 8)),
{
    if i + 2 <= s.len() {
        let w = s.subrange(i, i + 2);
        assert(be_value(w.take(0)) == 0) by {
            assert(w.take(0) =~= Seq::<u8>::empty());
        }
        lemma_be_value_step(w, 1);
        lemma_be_value_step(w, 2);
        assert(w.take(2) =~= w);
    }
    if i + 4 <= s.len() {
        let w = s.subrange(i, i + 4);
        assert(be_value(w.take(0)) == 0) by {
            assert(w.take(0) =~= Seq::<u8>::empty());
        }
        lemma_be_value_step(w, 1);
        lemma_be_value_step(w, 2);
        lemma_be_value_step(w, 3);
        lemma_be_value_step(w, 4);
        assert(w.take(4) =~= w);
    }
    if i + 8 <= s.len() {
        let w = s.subrange(i, i + 8);
        assert(be_value(w.take(0)) == 0) by {
            assert(w.take(0) =~= Seq::<u8>::empty());
        }
        lemma_be_value_step(w, 1);
        lemma_be_value_step(w, 2);
        lemma_be_value_step(w, 3);
        lemma_be_value_step(w, 4);
        lemma_be_value_step(w, 5);
        lemma_be_value_step(w, 6);
        lemma_be_value_step(w, 7);
        lemma_be_value_step(w, 8);
        assert(w.take(8) =~= w);
    }
}

} // verus!
