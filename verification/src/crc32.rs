//! CRC-32 with the reflected IEEE 802.3 polynomial.

use vstd::prelude::*;

verus! {

/// The reflected polynomial.
pub const POLY: u32 = 0xEDB8_8320;

/// One bit of the division: shift right, and subtract the polynomial where a
/// one fell out.
pub open spec fn crc_bit(crc: u32) -> u32 {
    if crc & 1 != 0 {
        (crc >> 1) ^ POLY
    } else {
        crc >> 1
    }
}

/// `n` bits of the division.
pub open spec fn crc_bits(crc: u32, n: nat) -> u32
    decreases n,
{
    if n == 0 {
        crc
    } else {
        crc_bits(crc_bit(crc), (n - 1) as nat)
    }
}

/// The register after the byte `b` has gone in.
pub open spec fn crc_byte(crc: u32, b: u8) -> u32 {
    crc_bits(crc ^ (b as u32), 8)
}

/// The register after all of `data` has gone in, starting from all ones.
pub open spec fn crc_register(data: Seq<u8>) -> u32
    decreases data.len(),
{
    if data.len() == 0 {
        0xFFFF_FFFFu32
    } else {
        crc_byte(crc_register(data.drop_last()), data.last())
    }
}

/// The CRC-32 of `data`: the complement of the register.
pub open spec fn spec_crc32(data: Seq<u8>) -> u32 {
    !crc_register(data)
}

/// Computes the CRC-32 of `data`.
pub fn crc32(data: &[u8]) -> (sum: u32)
    ensures
        sum == spec_crc32(data@),
{
    let mut crc: u32 = 0xFFFF_FFFF;
    let mut i: usize = 0;
    assert(data@.take(0) =~= Seq::<u8>::empty());
    while i < data.len()
        invariant
            i <= data@.len(),
            crc == crc_register(data@.take(i as int)),
        decreases data@.len() - i,
    {
        let ghost before = crc;
        crc = crc ^ (data[i] as u32);
        let mut k: u8 = 0;
        while k < 8
            invariant
                k <= 8,
                crc_bits(crc, (8 - k) as nat) == crc_byte(before, data@[i as int]),
            decreases 8 - k,
        {
            if crc & 1 != 0 {
                crc = (crc >> 1) ^ POLY;
            } else {
                crc = crc >> 1;
            }
            k += 1;
        }
        proof {
            let cur = data@.take(i as int + 1);
            assert(cur.drop_last() =~= data@.take(i as int));
            assert(cur.last() == data@[i as int]);
        }
        i += 1;
    }
    assert(data@.take(data@.len() as int) =~= data@);
    !crc
}

} // verus!
