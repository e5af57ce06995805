//! Byte order of multi-byte values on the wire.

use vstd::prelude::*;
use crate::wire::{digit, image, pow256};

verus! {

/// The order in which the bytes of a multi-byte number travel.
#[derive(Clone, Copy, Debug, PartialEq, Eq, Structural)]
pub enum ByteOrder {
    /// Least significant byte first.
    Little,
    /// Most significant byte first.
    Big,
}

/// `u16::to_ne_bytes`: the two bytes of `v` as this machine lays them out in
/// memory. Which of the two orders that is depends on the machine, so the
/// contract only says that it is one of them.
#[verifier::external_body]
fn memory_image(v: u16) -> (r: [u8; 2])
    ensures
        r@ == image(v as nat, 2, ByteOrder::Little) || r@ == image(v as nat, 2, ByteOrder::Big),
{
    v.to_ne_bytes()
}

impl ByteOrder {
    /// The byte order of a machine that stores the number one, in two bytes,
    /// as `stored`: least significant byte first if the one comes first.
    pub fn of_stored_one(stored: [u8; 2]) -> (order: ByteOrder)
        ensures
            order == (if stored@[0] == 1 {
                ByteOrder::Little
            } else {
                ByteOrder::Big
            }),
            stored@ == image(1, 2, ByteOrder::Little) ==> order == ByteOrder::Little,
            stored@ == image(1, 2, ByteOrder::Big) ==> order == ByteOrder::Big,
    {
        proof {
            reveal_with_fuel(pow256, 3);
            assert(pow256(0) == 1 && pow256(1) == 256);
            assert(digit(1, 0) == 1u8);
            assert(digit(1, 1) == 0u8);
            assert(image(1, 2, ByteOrder::Little) =~= seq![1u8, 0u8]);
            assert(image(1, 2, ByteOrder::Big) =~= seq![0u8, 1u8]);
        }
        if stored[0] == 1u8 {
            ByteOrder::Little
        } else {
            ByteOrder::Big
        }
    }

    /// The byte order of the machine the program runs on, found by looking at
    /// how it stores the number one.
    pub fn native() -> (order: ByteOrder) {
        Self::of_stored_one(memory_image(1u16))
    }

    /// The other order.
    pub fn swapped(self) -> (other: ByteOrder)
        ensures
            other != self,
            other == (match self {
                ByteOrder::Little => ByteOrder::Big,
                ByteOrder::Big => ByteOrder::Little,
            }),
    {
        match self {
            ByteOrder::Little => ByteOrder::Big,
            ByteOrder::Big => ByteOrder::Little,
        }
    }
}

} // verus!
