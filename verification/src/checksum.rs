//! CRC-32 (IEEE) as used on the wire: every path and every file body is
//! followed by the big-endian CRC-32 of its bytes.
use vstd::prelude::*;

verus! {

/// One step of the bit-serial CRC-32 register, repeated `k` times, with the
/// reflected IEEE polynomial `0xEDB88320`.
pub open spec fn crc32_shift(c: u32, k: nat) -> u32
    decreases k,
{
    if k == 0 {
        c
    } else {
        let next = if c & 1u32 == 1u32 {
            (c >> 1u32) ^ 0xEDB8_8320u32
        } else {
            c >> 1u32
        };
        crc32_shift(next, (k - 1) as nat)
    }
}

/// The (inverted) CRC register after feeding `data` byte by byte.
pub open spec fn crc32_register(reg: u32, data: Seq<u8>) -> u32
    decreases data.len(),
{
    if data.len() == 0 {
        reg
    } else {
        crc32_shift(crc32_register(reg, data.drop_last()) ^ (data.last() as u32), 8)
    }
}

/// The CRC-32 value of a hasher that started from the value `state` and was
/// then fed `data`.
pub open spec fn crc32_update(state: u32, data: Seq<u8>) -> u32 {
    !crc32_register(!state, data)
}

/// The CRC-32 of `data`, as a fresh hasher computes it.
pub open spec fn crc32(data: Seq<u8>) -> u32 {
    crc32_update(0, data)
}

proof fn lemma_register_concat(reg: u32, a: Seq<u8>, b: Seq<u8>)
    ensures
        crc32_register(reg, a + b) == crc32_register(crc32_register(reg, a), b),
    decreases b.len(),
{
    if b.len() == 0 {
        assert(a + b =~= a);
    } else {
        lemma_register_concat(reg, a, b.drop_last());
        assert((a + b).drop_last() =~= a + b.drop_last());
        assert((a + b).last() == b.last());
    }
}

/// Feeding a hasher `a` and then `b` is feeding it `a + b`.
pub proof fn lemma_crc32_update_concat(state: u32, a: Seq<u8>, b: Seq<u8>)
    ensures
        crc32_update(crc32_update(state, a), b) == crc32_update(state, a + b),
{
    let r = crc32_register(!state, a);
    assert(!(!r) == r) by (bit_vector);
    lemma_register_concat(!state, a, b);
}

/// Feeding a hasher nothing leaves its value unchanged.
pub proof fn lemma_crc32_update_empty(state: u32)
    ensures
        crc32_update(state, Seq::empty()) == state,
{
    assert(!(!state) == state) by (bit_vector);
}

/// `crc32fast::Hasher`, created with `Hasher::new_with_initial(state)`, fed
/// `data` with `Hasher::update` and read back with `Hasher::finalize`.
/// Trusted: that crc32fast computes the standard reflected CRC-32 with the
/// polynomial 0xEDB88320 (its byte table and `update_slow` show this), and that
/// `finalize` returns the running value (its source returns `self.state`).
#[verifier::external_body]
pub(crate) fn crc32_continue(state: u32, data: &[u8]) -> (r: u32)
    ensures
        r == crc32_update(state, data@),
{
    let mut hasher = crc32fast::Hasher::new_with_initial(state);
    hasher.update(data);
    hasher.finalize()
}

} // verus!
