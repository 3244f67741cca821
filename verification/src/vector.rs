//! Three-component integer vectors and the saturating arithmetic on them.
use vstd::prelude::*;
use crate::roots::integer_sqrt;
use crate::roots::lemma_sqrt_floor_bounds;
use crate::roots::lemma_sqrt_floor_unique;
use crate::roots::lemma_square_monotonic;
use crate::roots::sqrt_floor;
use crate::wide::wide_product;

verus! {

/// The value of `x` brought into the range of `i64`.
pub open spec fn saturate(x: int) -> int {
    if x < i64::MIN {
        i64::MIN as int
    } else if x > i64::MAX {
        i64::MAX as int
    } else {
        x
    }
}

/// `value + rate * ticks`, brought into the range of `i64`.
pub open spec fn advanced(value: int, rate: int, ticks: int) -> int {
    saturate(value + rate * ticks)
}

/// Bounds on the product of a signed and an unsigned 64-bit number.
proof fn lemma_product_bounds(rate: int, ticks: int)
    requires
        i64::MIN <= rate <= i64::MAX,
        0 <= ticks <= u64::MAX,
    ensures
        -0x8000_0000_0000_0000 * 0xffff_ffff_ffff_ffff <= rate * ticks,
        rate * ticks <= 0x7fff_ffff_ffff_ffff * 0xffff_ffff_ffff_ffff,
{
    assert(-0x8000_0000_0000_0000 * 0xffff_ffff_ffff_ffff <= rate * ticks
        && rate * ticks <= 0x7fff_ffff_ffff_ffff * 0xffff_ffff_ffff_ffff) by (nonlinear_arith)
        requires
            -0x8000_0000_0000_0000 <= rate <= 0x7fff_ffff_ffff_ffff,
            0 <= ticks <= 0xffff_ffff_ffff_ffff,
    ;
}

/// Computes `value + rate * ticks` and saturates it at the ends of `i64`.
pub fn advance(value: i64, rate: i64, ticks: u64) -> (r: i64)
    ensures
        r == advanced(value as int, rate as int, ticks as int),
{
    proof {
        lemma_product_bounds(rate as int, ticks as int);
    }
    let wide: i128 = (value as i128) + (rate as i128) * (ticks as i128);
    if wide < i64::MIN as i128 {
        i64::MIN
    } else if wide > i64::MAX as i128 {
        i64::MAX
    } else {
        wide as i64
    }
}

/// The size of `c` without its sign.
pub open spec fn magnitude_of(c: int) -> int {
    if c >= 0 {
        c
    } else {
        -c
    }
}

/// One component of a vector brought to the length `length`, where `c` is
/// that component before and `square` the square of the vector's length:
/// `c * length` over the root of `square`, rounded toward zero, and brought
/// into the range of `i64`.
pub open spec fn rescaled(c: int, length: int, square: int) -> int {
    let size = sqrt_floor((((c * c) * (length * length)) / square) as nat) as int;
    saturate(
        if c >= 0 {
            size
        } else {
            -size
        },
    )
}

/// The size of `c` without its sign.
fn magnitude(c: i64) -> (m: u128)
    ensures
        m == magnitude_of(c as int),
        m <= 0x8000_0000_0000_0000,
{
    if c >= 0 {
        c as u128
    } else {
        (-(c as i128)) as u128
    }
}

/// Brings one component of a vector to the length `length`, where `square`
/// is the square of the vector's length.
fn rescale(c: i64, length: u64, square: u128) -> (r: i64)
    requires
        square > 0,
        c * c <= square,
    ensures
        r == rescaled(c as int, length as int, square as int),
{
    let m = magnitude(c);
    proof {
        lemma_square_monotonic(m as int, 0x8000_0000_0000_0000);
        lemma_square_monotonic(length as int, 0xffff_ffff_ffff_ffff);
        assert(m * m == c * c) by (nonlinear_arith)
            requires
                m == c || m == -c,
        ;
    }
    let target = wide_product(m * m, (length as u128) * (length as u128));
    let ghost goal: int = (c * c) * (length * length);
    let mut low: u128 = 0;
    let mut high: u128 = length as u128 + 1;
    proof {
        assert(0 <= goal && goal < ((length + 1) * (length + 1)) * square) by (nonlinear_arith)
            requires
                goal == (c * c) * (length * length),
                0 <= c * c <= square,
                0 < square,
                0 <= length,
        ;
        assert((low * low) * square == 0) by (nonlinear_arith)
            requires
                low == 0,
        ;
    }
    while high - low > 1
        invariant
            low < high <= length + 1,
            square > 0,
            target.value() == goal,
            (low * low) * square <= goal,
            goal < (high * high) * square,
        decreases high - low,
    {
        let middle: u128 = low + (high - low) / 2;
        proof {
            lemma_square_monotonic(middle as int, 0xffff_ffff_ffff_ffff);
        }
        let trial = wide_product(middle * middle, square);
        if trial.at_most(&target) {
            low = middle;
        } else {
            high = middle;
        }
    }
    proof {
        let quotient = goal / (square as int);
        assert(0 <= quotient) by (nonlinear_arith)
            requires
                quotient == goal / (square as int),
                0 <= goal,
                0 < square,
        ;
        assert(low * low <= quotient < (low + 1) * (low + 1)) by (nonlinear_arith)
            requires
                quotient == goal / (square as int),
                0 < square,
                (low * low) * square <= goal,
                goal < ((low + 1) * (low + 1)) * square,
        ;
        lemma_sqrt_floor_unique(quotient as nat, low as nat);
    }
    if c >= 0 {
        if low > 0x7fff_ffff_ffff_ffff {
            i64::MAX
        } else {
            low as i64
        }
    } else {
        if low > 0x8000_0000_0000_0000 {
            i64::MIN
        } else {
            (-(low as i128)) as i64
        }
    }
}

/// A vector of three fixed-point components.
#[derive(Clone, Copy, Debug, PartialEq, Eq, Structural)]
pub struct Vec3 {
    pub x: i64,
    pub y: i64,
    pub z: i64,
}

impl Vec3 {
    /// The vector with the given components.
    pub fn new(x: i64, y: i64, z: i64) -> (v: Vec3)
        ensures
            v == (Vec3 { x, y, z }),
    {
        Vec3 { x, y, z }
    }

    /// The zero vector.
    pub fn zero() -> (v: Vec3)
        ensures
            v == (Vec3 { x: 0, y: 0, z: 0 }),
    {
        Vec3 { x: 0, y: 0, z: 0 }
    }

    /// `self + rate * ticks`, each component saturated on its own.
    pub open spec fn advanced(self, rate: Vec3, ticks: int) -> Vec3 {
        Vec3 {
            x: advanced(self.x as int, rate.x as int, ticks) as i64,
            y: advanced(self.y as int, rate.y as int, ticks) as i64,
            z: advanced(self.z as int, rate.z as int, ticks) as i64,
        }
    }

    /// The square of the vector's length.
    pub open spec fn norm_squared(self) -> nat {
        (self.x * self.x + self.y * self.y + self.z * self.z) as nat
    }

    /// The vector's length, rounded down.
    pub open spec fn norm(self) -> nat {
        sqrt_floor(self.norm_squared())
    }

    /// The square of the length that the vector would have if every
    /// component were one larger in size.
    pub open spec fn outer_norm_squared(self) -> nat {
        ((magnitude_of(self.x as int) + 1) * (magnitude_of(self.x as int) + 1) + (magnitude_of(
            self.y as int,
        ) + 1) * (magnitude_of(self.y as int) + 1) + (magnitude_of(self.z as int) + 1) * (
        magnitude_of(self.z as int) + 1)) as nat
    }

    /// The vector along `self` whose length is `length`, each component
    /// rounded toward zero. The zero vector has no direction and gives the
    /// zero vector.
    pub open spec fn stretched(self, length: int) -> Vec3 {
        let square = self.norm_squared() as int;
        if square == 0 {
            Vec3 { x: 0, y: 0, z: 0 }
        } else {
            Vec3 {
                x: rescaled(self.x as int, length, square) as i64,
                y: rescaled(self.y as int, length, square) as i64,
                z: rescaled(self.z as int, length, square) as i64,
            }
        }
    }

    /// The square of the vector's length.
    pub fn length_squared(self) -> (square: u128)
        ensures
            square == self.norm_squared(),
    {
        let mx = magnitude(self.x);
        let my = magnitude(self.y);
        let mz = magnitude(self.z);
        proof {
            lemma_square_monotonic(mx as int, 0x8000_0000_0000_0000);
            lemma_square_monotonic(my as int, 0x8000_0000_0000_0000);
            lemma_square_monotonic(mz as int, 0x8000_0000_0000_0000);
            assert(mx * mx == self.x * self.x) by (nonlinear_arith)
                requires
                    mx == self.x || mx == -self.x,
            ;
            assert(my * my == self.y * self.y) by (nonlinear_arith)
                requires
                    my == self.y || my == -self.y,
            ;
            assert(mz * mz == self.z * self.z) by (nonlinear_arith)
                requires
                    mz == self.z || mz == -self.z,
            ;
        }
        mx * mx + my * my + mz * mz
    }

    /// The vector's length, rounded down.
    pub fn length(self) -> (norm: u64)
        ensures
            norm == self.norm(),
    {
        integer_sqrt(self.length_squared())
    }

    /// The vector of the same direction and of length `length`, each
    /// component rounded toward zero. It is never longer than `length`, and
    /// would be longer if every component were one larger in size. The zero
    /// vector has no direction: it stays the zero vector.
    pub fn with_length(self, length: u64) -> (v: Vec3)
        ensures
            v == self.stretched(length as int),
            self.norm_squared() > 0 && length <= i64::MAX ==> v.norm_squared() <= length * length
                < v.outer_norm_squared(),
    {
        let square = self.length_squared();
        proof {
            if square > 0 && length <= i64::MAX {
                lemma_stretched_length(self, length as int);
            }
        }
        if square == 0 {
            Vec3::zero()
        } else {
            proof {
                assert(0 <= self.x * self.x && 0 <= self.y * self.y && 0 <= self.z * self.z)
                    by (nonlinear_arith);
            }
            Vec3 {
                x: rescale(self.x, length, square),
                y: rescale(self.y, length, square),
                z: rescale(self.z, length, square),
            }
        }
    }

    /// Moves the vector by `rate * ticks`, saturating each component.
    pub fn advance(self, rate: Vec3, ticks: u64) -> (v: Vec3)
        ensures
            v == self.advanced(rate, ticks as int),
    {
        Vec3 {
            x: advance(self.x, rate.x, ticks),
            y: advance(self.y, rate.y, ticks),
            z: advance(self.z, rate.z, ticks),
        }
    }
}

/// Only the zero vector has the length zero.
pub proof fn lemma_norm_zero(v: Vec3)
    ensures
        v.norm_squared() == 0 <==> v == (Vec3 { x: 0, y: 0, z: 0 }),
{
    assert(0 <= v.x * v.x && 0 <= v.y * v.y && 0 <= v.z * v.z) by (nonlinear_arith);
    assert(v.x != 0 ==> v.x * v.x >= 1) by (nonlinear_arith);
    assert(v.y != 0 ==> v.y * v.y >= 1) by (nonlinear_arith);
    assert(v.z != 0 ==> v.z * v.z >= 1) by (nonlinear_arith);
}

/// Degenerate directions: the zero vector brought to any length is the zero
/// vector.
pub proof fn lemma_stretched_zero(length: int)
    ensures
        (Vec3 { x: 0, y: 0, z: 0 }).stretched(length) == (Vec3 { x: 0, y: 0, z: 0 }),
{
}

/// One component, brought to `length`, between its two bounds: its square
/// times `square` is at most `c * c * length * length`, which the same with
/// the component one larger in size exceeds. It has the sign of `c` and is
/// within `length`.
proof fn lemma_rescaled_squares(c: int, length: int, square: int)
    requires
        0 <= length <= i64::MAX,
        0 < square,
        c * c <= square,
    ensures
        ({
            let w = rescaled(c, length, square);
            let m = magnitude_of(w);
            &&& (w * w) * square <= (c * c) * (length * length)
            &&& ((m + 1) * (m + 1)) * square > (c * c) * (length * length)
            &&& -length <= w <= length
            &&& c >= 0 ==> w >= 0
            &&& c <= 0 ==> w <= 0
        }),
{
    let goal = (c * c) * (length * length);
    assert(0 <= c * c) by (nonlinear_arith);
    assert(0 <= goal <= square * (length * length)) by (nonlinear_arith)
        requires
            goal == (c * c) * (length * length),
            0 <= c * c <= square,
    ;
    let quotient = goal / square;
    assert(0 <= quotient && quotient * square <= goal < (quotient + 1) * square
        && quotient <= length * length) by (nonlinear_arith)
        requires
            quotient == goal / square,
            0 <= goal <= square * (length * length),
            0 < square,
    ;
    let q = sqrt_floor(quotient as nat) as int;
    lemma_sqrt_floor_bounds(quotient as nat);
    assert(q * q <= quotient < (q + 1) * (q + 1));
    if q > length {
        lemma_square_monotonic(length + 1, q);
        assert((length + 1) * (length + 1) > length * length) by (nonlinear_arith)
            requires
                0 <= length,
        ;
    }
    assert(q <= length);
    assert(c == 0 ==> q == 0) by {
        if c == 0 {
            assert(goal == 0) by (nonlinear_arith)
                requires
                    goal == (c * c) * (length * length),
                    c == 0,
            ;
            assert(quotient == 0);
            assert(q * q >= 1 || q == 0) by (nonlinear_arith)
                requires
                    q >= 0,
            ;
        }
    }
    let w = rescaled(c, length, square);
    assert(w == if c >= 0 {
        q
    } else {
        -q
    });
    assert(magnitude_of(w) == q);
    assert(w * w == q * q) by (nonlinear_arith)
        requires
            w == q || w == -q,
    ;
    assert((q * q) * square <= goal) by (nonlinear_arith)
        requires
            q * q <= quotient,
            quotient * square <= goal,
            0 < square,
    ;
    assert(((q + 1) * (q + 1)) * square > goal) by (nonlinear_arith)
        requires
            quotient + 1 <= (q + 1) * (q + 1),
            goal < (quotient + 1) * square,
            0 < square,
    ;
}

/// How long a vector brought to `length` is: never longer than `length`,
/// and longer than `length` if every component were one larger in size. No
/// component is larger in size than `length`, and each keeps its sign.
pub proof fn lemma_stretched_length(v: Vec3, length: int)
    requires
        0 <= length <= i64::MAX,
        v.norm_squared() > 0,
    ensures
        ({
            let w = v.stretched(length);
            &&& w.norm_squared() <= length * length < w.outer_norm_squared()
            &&& -length <= w.x <= length
            &&& -length <= w.y <= length
            &&& -length <= w.z <= length
            &&& v.x >= 0 ==> w.x >= 0
            &&& v.x <= 0 ==> w.x <= 0
            &&& v.y >= 0 ==> w.y >= 0
            &&& v.y <= 0 ==> w.y <= 0
            &&& v.z >= 0 ==> w.z >= 0
            &&& v.z <= 0 ==> w.z <= 0
        }),
{
    let w = v.stretched(length);
    let s = v.norm_squared() as int;
    let (vx, vy, vz) = (v.x * v.x, v.y * v.y, v.z * v.z);
    assert(0 <= vx && 0 <= vy && 0 <= vz) by (nonlinear_arith)
        requires
            vx == v.x * v.x,
            vy == v.y * v.y,
            vz == v.z * v.z,
    ;
    assert(s == vx + vy + vz);
    lemma_rescaled_squares(v.x as int, length, s);
    lemma_rescaled_squares(v.y as int, length, s);
    lemma_rescaled_squares(v.z as int, length, s);
    let ll = length * length;
    let (wx, wy, wz) = (w.x * w.x, w.y * w.y, w.z * w.z);
    assert(0 <= wx && 0 <= wy && 0 <= wz) by (nonlinear_arith)
        requires
            wx == w.x * w.x,
            wy == w.y * w.y,
            wz == w.z * w.z,
    ;
    let inner = wx + wy + wz;
    assert(inner * s == wx * s + wy * s + wz * s) by (nonlinear_arith)
        requires
            inner == wx + wy + wz,
    ;
    assert(s * ll == vx * ll + vy * ll + vz * ll) by (nonlinear_arith)
        requires
            s == vx + vy + vz,
    ;
    assert(inner <= ll) by (nonlinear_arith)
        requires
            inner * s <= s * ll,
            s > 0,
    ;
    let mx = magnitude_of(w.x as int) + 1;
    let my = magnitude_of(w.y as int) + 1;
    let mz = magnitude_of(w.z as int) + 1;
    let outer = mx * mx + my * my + mz * mz;
    assert(0 <= mx * mx && 0 <= my * my && 0 <= mz * mz) by (nonlinear_arith);
    assert(outer * s == (mx * mx) * s + (my * my) * s + (mz * mz) * s) by (nonlinear_arith)
        requires
            outer == mx * mx + my * my + mz * mz,
    ;
    assert(outer > ll) by (nonlinear_arith)
        requires
            outer * s > s * ll,
            s > 0,
    ;
}

} // verus!
