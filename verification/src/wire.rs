//! Numbers as bytes: the image of a number in a given width and byte order,
//! and the number that a run of bytes stands for.

use vstd::prelude::*;
use vstd::arithmetic::div_mod::*;
use vstd::arithmetic::mul::*;
use crate::order::ByteOrder;

verus! {

/// 256 to the power `n`.
pub open spec fn pow256(n: nat) -> nat
    decreases n,
{
    if n == 0 {
        1
    } else {
        256 * pow256((n - 1) as nat)
    }
}

/// The `i`-th base-256 digit of `v`, counted from the least significant one.
pub open spec fn digit(v: nat, i: nat) -> u8 {
    ((v / pow256(i)) % 256) as u8
}

/// The `width` low digits of `v`, least significant first.
pub open spec fn le_image(v: nat, width: nat) -> Seq<u8> {
    Seq::new(width, |i: int| digit(v, i as nat))
}

/// The bytes that carry `v` in `width` bytes and the given order. Digits of
/// `v` above the width are not part of the image.
pub open spec fn image(v: nat, width: nat, order: ByteOrder) -> Seq<u8> {
    match order {
        ByteOrder::Little => le_image(v, width),
        ByteOrder::Big => le_image(v, width).reverse(),
    }
}

/// The number whose digits, least significant first, are `bytes`.
pub open spec fn le_value(bytes: Seq<u8>) -> nat
    decreases bytes.len(),
{
    if bytes.len() == 0 {
        0
    } else {
        bytes[0] as nat + 256 * le_value(bytes.skip(1))
    }
}

/// The number that `bytes` stand for in the given order.
pub open spec fn value(bytes: Seq<u8>, order: ByteOrder) -> nat {
    match order {
        ByteOrder::Little => le_value(bytes),
        ByteOrder::Big => le_value(bytes.reverse()),
    }
}

/// A power of 256 is positive.
pub proof fn lemma_pow256_positive(n: nat)
    ensures
        pow256(n) > 0,
    decreases n,
{
    if n > 0 {
        lemma_pow256_positive((n - 1) as nat);
    }
}

/// The powers of 256 up to the sixteenth, which is the first that a `u128`
/// cannot hold.
pub proof fn lemma_pow256_values()
    ensures
        pow256(0) == 1,
        pow256(1) == 0x100,
        pow256(2) == 0x1_0000,
        pow256(4) == 0x1_0000_0000,
        pow256(8) == 0x1_0000_0000_0000_0000,
        pow256(15) == 0x1_0000_0000_0000_0000_0000_0000_0000_00,
        pow256(16) == 0x1_0000_0000_0000_0000_0000_0000_0000_0000,
{
    reveal_with_fuel(pow256, 17);
}

/// The powers of 256 grow with the exponent.
pub proof fn lemma_pow256_monotonic(a: nat, b: nat)
    requires
        a <= b,
    ensures
        pow256(a) <= pow256(b),
    decreases b,
{
    if a < b {
        lemma_pow256_monotonic(a, (b - 1) as nat);
    }
}

/// Dropping the lowest digit of `v` shifts every other digit down by one.
pub proof fn lemma_digit_shift(v: nat, i: nat)
    ensures
        digit(v, i + 1) == digit(v / 256, i),
{
    lemma_pow256_positive(i);
    lemma_div_denominator(v as int, 256, pow256(i) as int);
    assert(pow256(i + 1) == 256 * pow256(i));
}

/// An image begins with the lowest digit and goes on with the image of the
/// rest of the number.
pub proof fn lemma_le_image_step(v: nat, width: nat)
    requires
        width > 0,
    ensures
        le_image(v, width)[0] == (v % 256) as u8,
        le_image(v, width).skip(1) == le_image(v / 256, (width - 1) as nat),
{
    assert(pow256(0) == 1);
    assert forall|i: int| 0 <= i < width - 1 implies #[trigger] le_image(v, width).skip(1)[i]
        == le_image(v / 256, (width - 1) as nat)[i] by {
        lemma_digit_shift(v, i as nat);
    }
    assert(le_image(v, width).skip(1) =~= le_image(v / 256, (width - 1) as nat));
}

/// Reading back an image gives the number, as far as the width could hold it.
pub proof fn lemma_le_value_of_image(v: nat, width: nat)
    ensures
        le_value(le_image(v, width)) == v % pow256(width),
    decreases width,
{
    if width == 0 {
        assert(le_image(v, 0).len() == 0);
    } else {
        let w1 = (width - 1) as nat;
        lemma_le_image_step(v, width);
        lemma_le_value_of_image(v / 256, w1);
        lemma_pow256_positive(w1);
        lemma_mod_breakdown(v as int, 256, pow256(w1) as int);
        assert(le_image(v, width).len() == width);
        assert(le_value(le_image(v, width)) == (v % 256) + 256 * ((v / 256) % pow256(w1)));
    }
}

/// A run of bytes stands for a number below 256 to the power of its length.
pub proof fn lemma_le_value_bound(bytes: Seq<u8>)
    ensures
        le_value(bytes) < pow256(bytes.len()),
    decreases bytes.len(),
{
    if bytes.len() > 0 {
        lemma_le_value_bound(bytes.skip(1));
        let rest = le_value(bytes.skip(1));
        let p = pow256((bytes.len() - 1) as nat);
        assert(bytes.skip(1).len() == bytes.len() - 1);
        assert(rest + 1 <= p);
        assert(256 * (rest + 1) <= 256 * p) by (nonlinear_arith)
            requires
                rest + 1 <= p,
        ;
    }
}

/// The image of the number that a run of bytes stands for is that run.
pub proof fn lemma_le_image_of_value(bytes: Seq<u8>)
    ensures
        le_image(le_value(bytes), bytes.len()) == bytes,
    decreases bytes.len(),
{
    if bytes.len() == 0 {
        assert(le_image(le_value(bytes), 0) =~= bytes);
    } else {
        let v = le_value(bytes);
        let rest = le_value(bytes.skip(1));
        lemma_le_image_of_value(bytes.skip(1));
        lemma_le_image_step(v, bytes.len());
        assert(v == bytes[0] as nat + 256 * rest);
        lemma_fundamental_div_mod_converse(v as int, 256, rest as int, bytes[0] as int);
        assert(v / 256 == rest);
        assert(v % 256 == bytes[0] as nat);
        assert(bytes.skip(1).len() == bytes.len() - 1);
        let img = le_image(v, bytes.len());
        assert(img.len() == bytes.len());
        assert forall|i: int| 0 <= i < bytes.len() implies img[i] == bytes[i] by {
            if i > 0 {
                assert(img[i] == img.skip(1)[i - 1]);
                assert(bytes[i] == bytes.skip(1)[i - 1]);
            }
        }
        assert(img =~= bytes);
    }
}

/// Decoding an encoded number gives it back, in either order, when the width
/// can hold it.
pub proof fn lemma_value_of_image(v: nat, width: nat, order: ByteOrder)
    requires
        v < pow256(width),
    ensures
        image(v, width, order).len() == width,
        value(image(v, width, order), order) == v,
{
    lemma_le_value_of_image(v, width);
    lemma_small_mod(v, pow256(width));
    assert(le_image(v, width).reverse().reverse() =~= le_image(v, width));
}

/// Encoding a decoded run of bytes gives the same bytes, in either order.
pub proof fn lemma_image_of_value(bytes: Seq<u8>, order: ByteOrder)
    ensures
        value(bytes, order) < pow256(bytes.len()),
        image(value(bytes, order), bytes.len(), order) == bytes,
{
    match order {
        ByteOrder::Little => {
            lemma_le_value_bound(bytes);
            lemma_le_image_of_value(bytes);
        },
        ByteOrder::Big => {
            lemma_le_value_bound(bytes.reverse());
            lemma_le_image_of_value(bytes.reverse());
            assert(bytes.reverse().len() == bytes.len());
            assert(bytes.reverse().reverse() =~= bytes);
        },
    }
}

/// One byte is its own image, in either order.
pub proof fn lemma_image_byte(v: u8, order: ByteOrder)
    ensures
        image(v as nat, 1, order) == seq![v],
        value(seq![v], order) == v as nat,
{
    assert(pow256(0) == 1);
    assert(le_image(v as nat, 1) =~= seq![v]);
    assert(seq![v].reverse() =~= seq![v]);
    assert(seq![v].skip(1).len() == 0);
    assert(le_value(seq![v]) == v as nat + 256 * le_value(seq![v].skip(1)));
}

/// Two numbers that fit the width and have the same image are the same number.
pub proof fn lemma_image_injective(a: nat, b: nat, width: nat, order: ByteOrder)
    requires
        a < pow256(width),
        b < pow256(width),
        image(a, width, order) == image(b, width, order),
    ensures
        a == b,
{
    lemma_value_of_image(a, width, order);
    lemma_value_of_image(b, width, order);
}

/// The image of `v` in `width` bytes.
pub fn encode(v: u128, width: usize, order: ByteOrder) -> (bytes: Vec<u8>)
    requires
        width <= 16,
    ensures
        bytes@ == image(v as nat, width as nat, order),
{
    let mut low: Vec<u8> = Vec::new();
    let mut x: u128 = v;
    let mut k: usize = 0;
    proof {
        assert(pow256(0) == 1);
        assert(low@ =~= le_image(v as nat, 0));
    }
    while k < width
        invariant
            k <= width <= 16,
            x as nat == (v as nat) / pow256(k as nat),
            low@ == le_image(v as nat, k as nat),
        decreases width - k,
    {
        let d: u8 = (x % 256) as u8;
        proof {
            lemma_pow256_positive(k as nat);
            lemma_div_denominator(v as int, pow256(k as nat) as int, 256);
            assert(pow256((k + 1) as nat) == 256 * pow256(k as nat));
            assert(pow256(k as nat) * 256 == 256 * pow256(k as nat)) by (nonlinear_arith);
        }
        low.push(d);
        x = x / 256;
        k = k + 1;
        proof {
            assert(low@ =~= le_image(v as nat, k as nat));
        }
    }
    match order {
        ByteOrder::Little => low,
        ByteOrder::Big => {
            let mut high: Vec<u8> = Vec::new();
            let mut i: usize = 0;
            while i < width
                invariant
                    i <= width,
                    low@.len() == width,
                    high@ == low@.reverse().take(i as int),
                decreases width - i,
            {
                high.push(low[width - 1 - i]);
                i = i + 1;
                proof {
                    assert(high@ =~= low@.reverse().take(i as int));
                }
            }
            proof {
                assert(high@ =~= low@.reverse());
            }
            high
        },
    }
}

/// The number that `bytes` stand for.
pub fn decode(bytes: &[u8], order: ByteOrder) -> (v: u128)
    requires
        bytes@.len() <= 16,
    ensures
        v as nat == value(bytes@, order),
{
    let n: usize = bytes.len();
    let mut acc: u128 = 0;
    let mut i: usize = 0;
    match order {
        ByteOrder::Little => {
            proof {
                assert(bytes@.skip(n as int).len() == 0);
            }
            while i < n
                invariant
                    i <= n,
                    n == bytes@.len(),
                    n <= 16,
                    acc as nat == le_value(bytes@.skip(n - i)),
                decreases n - i,
            {
                let j: usize = n - 1 - i;
                proof {
                    let tail = bytes@.skip(n - i);
                    let next = bytes@.skip(j as int);
                    assert(next.skip(1) =~= tail);
                    assert(next[0] == bytes@[j as int]);
                    lemma_le_value_bound(next);
                    lemma_pow256_monotonic(next.len(), 16);
                    lemma_pow256_values();
                }
                acc = acc * 256 + bytes[j] as u128;
                i = i + 1;
            }
            proof {
                assert(bytes@.skip(0) =~= bytes@);
            }
        },
        ByteOrder::Big => {
            proof {
                assert(bytes@.take(0).reverse().len() == 0);
            }
            while i < n
                invariant
                    i <= n,
                    n == bytes@.len(),
                    n <= 16,
                    acc as nat == le_value(bytes@.take(i as int).reverse()),
                decreases n - i,
            {
                proof {
                    let done = bytes@.take(i as int).reverse();
                    let next = bytes@.take(i + 1).reverse();
                    assert(next.skip(1) =~= done);
                    assert(next[0] == bytes@[i as int]);
                    lemma_le_value_bound(next);
                    lemma_pow256_monotonic(next.len(), 16);
                    lemma_pow256_values();
                }
                acc = acc * 256 + bytes[i] as u128;
                i = i + 1;
            }
            proof {
                assert(bytes@.take(n as int) =~= bytes@);
            }
        },
    }
    acc
}

} // verus!
