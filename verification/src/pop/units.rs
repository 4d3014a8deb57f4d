//! The units and the tribes of a level as its file holds them.

use vstd::prelude::*;
use crate::pop::types::{read_u16_le, read_u32_le, u16_le, u32_le, BinDeserializer};

verus! {

/// Copies `N` bytes from `at` on into an array.
pub fn read_bytes<const N: usize>(bytes: &[u8], at: usize) -> (r: [u8; N])
    requires
        at + N <= bytes@.len(),
    ensures
        r@ == bytes@.subrange(at as int, at + N),
{
    let mut r = [0u8; N];
    let len = bytes.len();
    let mut k: usize = 0;
    while k < N
        invariant
            k <= N,
            len == bytes@.len(),
            at + N <= bytes@.len(),
            forall|m: int| 0 <= m < k ==> r@[m] == bytes@[at + m],
        decreases N - k,
    {
        r[k] = bytes[at + k];
        k += 1;
    }
    assert(r@ =~= bytes@.subrange(at as int, at + N));
    r
}

/// A unit as the level file holds it.
#[derive(Debug, Copy, Clone)]
pub struct UnitRaw {
    pub unit_type: u8,
    pub unit_class: u8,
    pub tribe_index: u8,
    pub loc_x: u16,
    pub loc_y: u16,
    pub f1: u32,
    pub f2: u16,
    pub f3: u16,
    pub fd: [u8; 40],
}

impl BinDeserializer for UnitRaw {
    open spec fn spec_size() -> usize {
        55
    }

    open spec fn decodes(bytes: Seq<u8>, record: &Self) -> bool {
        &&& record.unit_type == bytes[0]
        &&& record.unit_class == bytes[1]
        &&& record.tribe_index == bytes[2]
        &&& record.loc_x == u16_le(bytes, 3)
        &&& record.loc_y == u16_le(bytes, 5)
        &&& record.f1 == u32_le(bytes, 7)
        &&& record.f2 == u16_le(bytes, 11)
        &&& record.f3 == u16_le(bytes, 13)
        &&& record.fd@ == bytes.subrange(15, 55)
    }

    proof fn lemma_size_positive() {
    }

    fn size() -> usize {
        55
    }

    fn decode(bytes: &[u8]) -> Self {
        UnitRaw {
            unit_type: bytes[0],
            unit_class: bytes[1],
            tribe_index: bytes[2],
            loc_x: read_u16_le(bytes, 3),
            loc_y: read_u16_le(bytes, 5),
            f1: read_u32_le(bytes, 7),
            f2: read_u16_le(bytes, 11),
            f3: read_u16_le(bytes, 13),
            fd: read_bytes::<40>(bytes, 15),
        }
    }
}

/// The settings of a tribe as the level file holds them.
#[derive(Debug, Copy, Clone)]
pub struct TribeConfigRaw {
    pub data: [u8; 16],
}

impl BinDeserializer for TribeConfigRaw {
    open spec fn spec_size() -> usize {
        16
    }

    open spec fn decodes(bytes: Seq<u8>, record: &Self) -> bool {
        record.data@ == bytes.subrange(0, 16)
    }

    proof fn lemma_size_positive() {
    }

    fn size() -> usize {
        16
    }

    fn decode(bytes: &[u8]) -> Self {
        TribeConfigRaw { data: read_bytes::<16>(bytes, 0) }
    }
}

} // verus!
