//! Products of two 128-bit numbers, which take up to 256 bits.
use vstd::prelude::*;

verus! {

/// A number of up to 256 bits in two halves.
#[derive(Clone, Copy, Debug, PartialEq, Eq, Structural)]
pub struct Wide {
    pub high: u128,
    pub low: u128,
}

impl Wide {
    /// The number that the two halves stand for.
    pub open spec fn value(self) -> int {
        self.high * 0x1_0000_0000_0000_0000_0000_0000_0000_0000 + self.low
    }

    /// Whether this number is at most `other`.
    pub fn at_most(&self, other: &Wide) -> (holds: bool)
        ensures
            holds == (self.value() <= other.value()),
    {
        self.high < other.high || (self.high == other.high && self.low <= other.low)
    }
}

/// The product of two numbers: of the lower halves of `a` and `b`, of the
/// one's lower and the other's upper half, and of the upper halves, each
/// with the power of `2^64` at which it stands.
proof fn lemma_expand(a: int, b: int, a0: int, a1: int, b0: int, b1: int)
    requires
        a == a1 * 0x1_0000_0000_0000_0000 + a0,
        b == b1 * 0x1_0000_0000_0000_0000 + b0,
    ensures
        a * b == ((a1 * b1) * 0x1_0000_0000_0000_0000) * 0x1_0000_0000_0000_0000 + (a0 * b1 + a1
            * b0) * 0x1_0000_0000_0000_0000 + a0 * b0,
{
    assert(a * b == ((a1 * b1) * 0x1_0000_0000_0000_0000) * 0x1_0000_0000_0000_0000 + (a0 * b1
        + a1 * b0) * 0x1_0000_0000_0000_0000 + a0 * b0) by (nonlinear_arith)
        requires
            a == a1 * 0x1_0000_0000_0000_0000 + a0,
            b == b1 * 0x1_0000_0000_0000_0000 + b0,
    ;
}

/// The product of two numbers below `2^64`.
fn limb_product(x: u128, y: u128) -> (p: u128)
    requires
        x < 0x1_0000_0000_0000_0000,
        y < 0x1_0000_0000_0000_0000,
    ensures
        p == x * y,
        p <= 0xffff_ffff_ffff_ffff * 0xffff_ffff_ffff_ffff,
{
    assert(0 <= x * y <= 0xffff_ffff_ffff_ffff * 0xffff_ffff_ffff_ffff) by (nonlinear_arith)
        requires
            0 <= x <= 0xffff_ffff_ffff_ffff,
            0 <= y <= 0xffff_ffff_ffff_ffff,
    ;
    x * y
}

/// The sum of four partial products, each at the power of `2^64` at which it
/// stands: `p00` at one, `p01` and `p10` at `2^64`, `p11` at `2^128`.
fn column_sum(p00: u128, p01: u128, p10: u128, p11: u128) -> (sum: Wide)
    requires
        p00 <= 0xffff_ffff_ffff_ffff * 0xffff_ffff_ffff_ffff,
        p01 <= 0xffff_ffff_ffff_ffff * 0xffff_ffff_ffff_ffff,
        p10 <= 0xffff_ffff_ffff_ffff * 0xffff_ffff_ffff_ffff,
        p11 <= 0xffff_ffff_ffff_ffff * 0xffff_ffff_ffff_ffff,
    ensures
        sum.value() == (p11 * 0x1_0000_0000_0000_0000) * 0x1_0000_0000_0000_0000 + (p01 + p10)
            * 0x1_0000_0000_0000_0000 + p00,
{
    let c1: u128 = p00 / 0x1_0000_0000_0000_0000 + p01 % 0x1_0000_0000_0000_0000 + p10
        % 0x1_0000_0000_0000_0000;
    let c2: u128 = p01 / 0x1_0000_0000_0000_0000 + p10 / 0x1_0000_0000_0000_0000 + p11
        % 0x1_0000_0000_0000_0000 + c1 / 0x1_0000_0000_0000_0000;
    let c3: u128 = p11 / 0x1_0000_0000_0000_0000 + c2 / 0x1_0000_0000_0000_0000;
    let d0: u128 = p00 % 0x1_0000_0000_0000_0000;
    let d1: u128 = c1 % 0x1_0000_0000_0000_0000;
    let d2: u128 = c2 % 0x1_0000_0000_0000_0000;
    assert(c3 < 0x1_0000_0000_0000_0000);
    Wide { high: c3 * 0x1_0000_0000_0000_0000 + d2, low: d1 * 0x1_0000_0000_0000_0000 + d0 }
}

/// The full product of `a` and `b`.
pub fn wide_product(a: u128, b: u128) -> (product: Wide)
    ensures
        product.value() == a * b,
{
    let a0: u128 = a % 0x1_0000_0000_0000_0000;
    let a1: u128 = a / 0x1_0000_0000_0000_0000;
    let b0: u128 = b % 0x1_0000_0000_0000_0000;
    let b1: u128 = b / 0x1_0000_0000_0000_0000;
    let p00 = limb_product(a0, b0);
    let p01 = limb_product(a0, b1);
    let p10 = limb_product(a1, b0);
    let p11 = limb_product(a1, b1);
    proof {
        lemma_expand(a as int, b as int, a0 as int, a1 as int, b0 as int, b1 as int);
    }
    column_sum(p00, p01, p10, p11)
}

} // verus!
