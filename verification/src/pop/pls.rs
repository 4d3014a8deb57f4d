//! The scrambling of play-list files.

use vstd::prelude::*;

verus! {

/// The bit that is kept as it is in byte `k` of a file: the count starts at
/// bit 5 and goes round the byte.
pub open spec fn kept_bit(k: int) -> u8 {
    1u8 << (((k + 5) % 8) as u8)
}

/// Byte `k` of a file unscrambled: every bit turned over but one.
pub open spec fn decoded(v: u8, k: int) -> u8 {
    !(v ^ kept_bit(k))
}

/// Unscrambles a file in place.
pub fn decode(data: &mut [u8])
    ensures
        final(data)@.len() == old(data)@.len(),
        forall|k: int| 0 <= k < old(data)@.len() ==> #[trigger] final(data)@[k] == decoded(
            old(data)@[k],
            k,
        ),
{
    let mut m: u8 = 0;
    let len = data.len();
    let mut n: usize = 0;
    while n < len
        invariant
            n <= len,
            len == data@.len(),
            data@.len() == old(data)@.len(),
            m == n % 256,
            forall|k: int| 0 <= k < n ==> #[trigger] data@[k] == decoded(old(data)@[k], k),
            forall|k: int| n <= k < len ==> #[trigger] data@[k] == old(data)@[k],
        decreases len - n,
    {
        let back: u8 = m.wrapping_sub(3);
        let k: u8 = back & 7;
        assert(k == back % 8) by (bit_vector)
            requires
                k == back & 7,
        ;
        assert(back == (if m >= 3 {
            m - 3
        } else {
            m + 253
        }));
        assert(k == (n + 5) % 8);
        let mask: u8 = 1 << k;
        let v = data[n];
        data[n] = !(v ^ mask);
        m = m.wrapping_add(1);
        n += 1;
    }
}

} // verus!
