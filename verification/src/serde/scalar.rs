//! The fixed-width integers as wire scalars.

use vstd::prelude::*;
use crate::order::ByteOrder;
use crate::serde::{Byte, Primitive, Scalar};
use crate::wire::{decode, encode, lemma_image_of_value, lemma_pow256_values};

verus! {

impl Scalar for u8 {
    open spec fn width() -> nat {
        1
    }

    open spec fn number(self) -> nat {
        self as nat
    }

    open spec fn of_number(n: nat) -> u8 {
        n as u8
    }

    proof fn lemma_width() {
    }

    proof fn lemma_number(v: u8) {
        lemma_pow256_values();
    }

    proof fn lemma_of_number(n: nat) {
        lemma_pow256_values();
    }

    fn size() -> (w: usize) {
        1
    }

    fn to_wire(self, order: ByteOrder) -> (bytes: Vec<u8>) {
        encode(self as u128, 1, order)
    }

    fn from_wire(bytes: &[u8], order: ByteOrder) -> (v: u8) {
        let n: u128 = decode(bytes, order);
        proof {
            lemma_image_of_value(bytes@, order);
            lemma_pow256_values();
        }
        n as u8
    }
}

impl Scalar for u16 {
    open spec fn width() -> nat {
        2
    }

    open spec fn number(self) -> nat {
        self as nat
    }

    open spec fn of_number(n: nat) -> u16 {
        n as u16
    }

    proof fn lemma_width() {
    }

    proof fn lemma_number(v: u16) {
        lemma_pow256_values();
    }

    proof fn lemma_of_number(n: nat) {
        lemma_pow256_values();
    }

    fn size() -> (w: usize) {
        2
    }

    fn to_wire(self, order: ByteOrder) -> (bytes: Vec<u8>) {
        encode(self as u128, 2, order)
    }

    fn from_wire(bytes: &[u8], order: ByteOrder) -> (v: u16) {
        let n: u128 = decode(bytes, order);
        proof {
            lemma_image_of_value(bytes@, order);
            lemma_pow256_values();
        }
        n as u16
    }
}

impl Scalar for u32 {
    open spec fn width() -> nat {
        4
    }

    open spec fn number(self) -> nat {
        self as nat
    }

    open spec fn of_number(n: nat) -> u32 {
        n as u32
    }

    proof fn lemma_width() {
    }

    proof fn lemma_number(v: u32) {
        lemma_pow256_values();
    }

    proof fn lemma_of_number(n: nat) {
        lemma_pow256_values();
    }

    fn size() -> (w: usize) {
        4
    }

    fn to_wire(self, order: ByteOrder) -> (bytes: Vec<u8>) {
        encode(self as u128, 4, order)
    }

    fn from_wire(bytes: &[u8], order: ByteOrder) -> (v: u32) {
        let n: u128 = decode(bytes, order);
        proof {
            lemma_image_of_value(bytes@, order);
            lemma_pow256_values();
        }
        n as u32
    }
}

impl Scalar for u64 {
    open spec fn width() -> nat {
        8
    }

    open spec fn number(self) -> nat {
        self as nat
    }

    open spec fn of_number(n: nat) -> u64 {
        n as u64
    }

    proof fn lemma_width() {
    }

    proof fn lemma_number(v: u64) {
        lemma_pow256_values();
    }

    proof fn lemma_of_number(n: nat) {
        lemma_pow256_values();
    }

    fn size() -> (w: usize) {
        8
    }

    fn to_wire(self, order: ByteOrder) -> (bytes: Vec<u8>) {
        encode(self as u128, 8, order)
    }

    fn from_wire(bytes: &[u8], order: ByteOrder) -> (v: u64) {
        let n: u128 = decode(bytes, order);
        proof {
            lemma_image_of_value(bytes@, order);
            lemma_pow256_values();
        }
        n as u64
    }
}

impl Scalar for u128 {
    open spec fn width() -> nat {
        16
    }

    open spec fn number(self) -> nat {
        self as nat
    }

    open spec fn of_number(n: nat) -> u128 {
        n as u128
    }

    proof fn lemma_width() {
    }

    proof fn lemma_number(v: u128) {
        lemma_pow256_values();
    }

    proof fn lemma_of_number(n: nat) {
        lemma_pow256_values();
    }

    fn size() -> (w: usize) {
        16
    }

    fn to_wire(self, order: ByteOrder) -> (bytes: Vec<u8>) {
        encode(self as u128, 16, order)
    }

    fn from_wire(bytes: &[u8], order: ByteOrder) -> (v: u128) {
        let n: u128 = decode(bytes, order);
        proof {
            lemma_image_of_value(bytes@, order);
            lemma_pow256_values();
        }
        n as u128
    }
}

impl Scalar for i8 {
    open spec fn width() -> nat {
        1
    }

    open spec fn number(self) -> nat {
        if self < 0 {
            (self + 0x100int) as nat
        } else {
            self as nat
        }
    }

    open spec fn of_number(n: nat) -> i8 {
        if n >= 0x80 {
            (n - 0x100int) as i8
        } else {
            n as i8
        }
    }

    proof fn lemma_width() {
    }

    proof fn lemma_number(v: i8) {
        lemma_pow256_values();
    }

    proof fn lemma_of_number(n: nat) {
        lemma_pow256_values();
    }

    fn size() -> (w: usize) {
        1
    }

    fn to_wire(self, order: ByteOrder) -> (bytes: Vec<u8>) {
        let bits: u8 = if self < 0 {
            ((self - i8::MIN) as u8) + 0x80
        } else {
            self as u8
        };
        encode(bits as u128, 1, order)
    }

    fn from_wire(bytes: &[u8], order: ByteOrder) -> (v: i8) {
        let n: u128 = decode(bytes, order);
        proof {
            lemma_image_of_value(bytes@, order);
            lemma_pow256_values();
        }
        let bits: u8 = n as u8;
        if bits >= 0x80 {
            ((bits - 0x80) as i8) + i8::MIN
        } else {
            bits as i8
        }
    }
}

impl Scalar for i16 {
    open spec fn width() -> nat {
        2
    }

    open spec fn number(self) -> nat {
        if self < 0 {
            (self + 0x1_0000int) as nat
        } else {
            self as nat
        }
    }

    open spec fn of_number(n: nat) -> i16 {
        if n >= 0x8000 {
            (n - 0x1_0000int) as i16
        } else {
            n as i16
        }
    }

    proof fn lemma_width() {
    }

    proof fn lemma_number(v: i16) {
        lemma_pow256_values();
    }

    proof fn lemma_of_number(n: nat) {
        lemma_pow256_values();
    }

    fn size() -> (w: usize) {
        2
    }

    fn to_wire(self, order: ByteOrder) -> (bytes: Vec<u8>) {
        let bits: u16 = if self < 0 {
            ((self - i16::MIN) as u16) + 0x8000
        } else {
            self as u16
        };
        encode(bits as u128, 2, order)
    }

    fn from_wire(bytes: &[u8], order: ByteOrder) -> (v: i16) {
        let n: u128 = decode(bytes, order);
        proof {
            lemma_image_of_value(bytes@, order);
            lemma_pow256_values();
        }
        let bits: u16 = n as u16;
        if bits >= 0x8000 {
            ((bits - 0x8000) as i16) + i16::MIN
        } else {
            bits as i16
        }
    }
}

impl Scalar for i32 {
    open spec fn width() -> nat {
        4
    }

    open spec fn number(self) -> nat {
        if self < 0 {
            (self + 0x1_0000_0000int) as nat
        } else {
            self as nat
        }
    }

    open spec fn of_number(n: nat) -> i32 {
        if n >= 0x8000_0000 {
            (n - 0x1_0000_0000int) as i32
        } else {
            n as i32
        }
    }

    proof fn lemma_width() {
    }

    proof fn lemma_number(v: i32) {
        lemma_pow256_values();
    }

    proof fn lemma_of_number(n: nat) {
        lemma_pow256_values();
    }

    fn size() -> (w: usize) {
        4
    }

    fn to_wire(self, order: ByteOrder) -> (bytes: Vec<u8>) {
        let bits: u32 = if self < 0 {
            ((self - i32::MIN) as u32) + 0x8000_0000
        } else {
            self as u32
        };
        encode(bits as u128, 4, order)
    }

    fn from_wire(bytes: &[u8], order: ByteOrder) -> (v: i32) {
        let n: u128 = decode(bytes, order);
        proof {
            lemma_image_of_value(bytes@, order);
            lemma_pow256_values();
        }
        let bits: u32 = n as u32;
        if bits >= 0x8000_0000 {
            ((bits - 0x8000_0000) as i32) + i32::MIN
        } else {
            bits as i32
        }
    }
}

impl Scalar for i64 {
    open spec fn width() -> nat {
        8
    }

    open spec fn number(self) -> nat {
        if self < 0 {
            (self + 0x1_0000_0000_0000_0000int) as nat
        } else {
            self as nat
        }
    }

    open spec fn of_number(n: nat) -> i64 {
        if n >= 0x8000_0000_0000_0000 {
            (n - 0x1_0000_0000_0000_0000int) as i64
        } else {
            n as i64
        }
    }

    proof fn lemma_width() {
    }

    proof fn lemma_number(v: i64) {
        lemma_pow256_values();
    }

    proof fn lemma_of_number(n: nat) {
        lemma_pow256_values();
    }

    fn size() -> (w: usize) {
        8
    }

    fn to_wire(self, order: ByteOrder) -> (bytes: Vec<u8>) {
        let bits: u64 = if self < 0 {
            ((self - i64::MIN) as u64) + 0x8000_0000_0000_0000
        } else {
            self as u64
        };
        encode(bits as u128, 8, order)
    }

    fn from_wire(bytes: &[u8], order: ByteOrder) -> (v: i64) {
        let n: u128 = decode(bytes, order);
        proof {
            lemma_image_of_value(bytes@, order);
            lemma_pow256_values();
        }
        let bits: u64 = n as u64;
        if bits >= 0x8000_0000_0000_0000 {
            ((bits - 0x8000_0000_0000_0000) as i64) + i64::MIN
        } else {
            bits as i64
        }
    }
}

impl Scalar for i128 {
    open spec fn width() -> nat {
        16
    }

    open spec fn number(self) -> nat {
        if self < 0 {
            (self + 0x1_0000_0000_0000_0000_0000_0000_0000_0000int) as nat
        } else {
            self as nat
        }
    }

    open spec fn of_number(n: nat) -> i128 {
        if n >= 0x8000_0000_0000_0000_0000_0000_0000_0000 {
            (n - 0x1_0000_0000_0000_0000_0000_0000_0000_0000int) as i128
        } else {
            n as i128
        }
    }

    proof fn lemma_width() {
    }

    proof fn lemma_number(v: i128) {
        lemma_pow256_values();
    }

    proof fn lemma_of_number(n: nat) {
        lemma_pow256_values();
    }

    fn size() -> (w: usize) {
        16
    }

    fn to_wire(self, order: ByteOrder) -> (bytes: Vec<u8>) {
        let bits: u128 = if self < 0 {
            ((self - i128::MIN) as u128) + 0x8000_0000_0000_0000_0000_0000_0000_0000
        } else {
            self as u128
        };
        encode(bits as u128, 16, order)
    }

    fn from_wire(bytes: &[u8], order: ByteOrder) -> (v: i128) {
        let n: u128 = decode(bytes, order);
        proof {
            lemma_image_of_value(bytes@, order);
            lemma_pow256_values();
        }
        let bits: u128 = n as u128;
        if bits >= 0x8000_0000_0000_0000_0000_0000_0000_0000 {
            ((bits - 0x8000_0000_0000_0000_0000_0000_0000_0000) as i128) + i128::MIN
        } else {
            bits as i128
        }
    }
}

impl Scalar for usize {
    open spec fn width() -> nat {
        (usize::BITS / 8) as nat
    }

    open spec fn number(self) -> nat {
        self as nat
    }

    open spec fn of_number(n: nat) -> usize {
        n as usize
    }

    proof fn lemma_width() {
    }

    proof fn lemma_number(v: usize) {
        lemma_pow256_values();
    }

    proof fn lemma_of_number(n: nat) {
        lemma_pow256_values();
    }

    fn size() -> (w: usize) {
        (usize::BITS / 8) as usize
    }

    fn to_wire(self, order: ByteOrder) -> (bytes: Vec<u8>) {
        encode(self as u128, (usize::BITS / 8) as usize, order)
    }

    fn from_wire(bytes: &[u8], order: ByteOrder) -> (v: usize) {
        let n: u128 = decode(bytes, order);
        proof {
            lemma_image_of_value(bytes@, order);
            lemma_pow256_values();
        }
        n as usize
    }
}

impl Scalar for isize {
    open spec fn width() -> nat {
        (usize::BITS / 8) as nat
    }

    open spec fn number(self) -> nat {
        if self < 0 {
            (self + usize::MAX + 1) as nat
        } else {
            self as nat
        }
    }

    open spec fn of_number(n: nat) -> isize {
        if n > isize::MAX {
            (n - usize::MAX - 1) as isize
        } else {
            n as isize
        }
    }

    proof fn lemma_width() {
    }

    proof fn lemma_number(v: isize) {
        lemma_pow256_values();
    }

    proof fn lemma_of_number(n: nat) {
        lemma_pow256_values();
    }

    fn size() -> (w: usize) {
        (usize::BITS / 8) as usize
    }

    fn to_wire(self, order: ByteOrder) -> (bytes: Vec<u8>) {
        let bits: usize = if self < 0 {
            ((self - isize::MIN) as usize) + (usize::MAX / 2 + 1)
        } else {
            self as usize
        };
        encode(bits as u128, (usize::BITS / 8) as usize, order)
    }

    fn from_wire(bytes: &[u8], order: ByteOrder) -> (v: isize) {
        let n: u128 = decode(bytes, order);
        proof {
            lemma_image_of_value(bytes@, order);
            lemma_pow256_values();
        }
        let bits: usize = n as usize;
        if bits > usize::MAX / 2 {
            ((bits - (usize::MAX / 2 + 1)) as isize) + isize::MIN
        } else {
            bits as isize
        }
    }
}

impl Byte for u8 {
    proof fn lemma_single() {
    }
}

impl Byte for i8 {
    proof fn lemma_single() {
    }
}

impl Primitive for u16 {
    proof fn lemma_several() {
    }
}

impl Primitive for i16 {
    proof fn lemma_several() {
    }
}

impl Primitive for u32 {
    proof fn lemma_several() {
    }
}

impl Primitive for i32 {
    proof fn lemma_several() {
    }
}

impl Primitive for u64 {
    proof fn lemma_several() {
    }
}

impl Primitive for i64 {
    proof fn lemma_several() {
    }
}

impl Primitive for u128 {
    proof fn lemma_several() {
    }
}

impl Primitive for i128 {
    proof fn lemma_several() {
    }
}

impl Primitive for usize {
    proof fn lemma_several() {
    }
}

impl Primitive for isize {
    proof fn lemma_several() {
    }
}

} // verus!
