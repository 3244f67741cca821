//! Sphere colliders and the overlap test between two of them.
use vstd::prelude::*;
use crate::vector::Vec3;

verus! {

/// Identifier of an object. The host hands identifiers out; the simulation
/// only stores and compares them.
pub type ObjectId = u64;

/// The largest radius a collider can have.
pub const MAX_RADIUS: u64 = 0x4000_0000_0000_0000;

/// Square of the distance between two points.
pub open spec fn distance_squared(a: Vec3, b: Vec3) -> int {
    (a.x - b.x) * (a.x - b.x) + (a.y - b.y) * (a.y - b.y) + (a.z - b.z) * (a.z - b.z)
}

/// Two spheres overlap when their centres are no further apart than the sum
/// of their radii. Touching spheres overlap. Compared as squares, which is
/// the same for distances and radii that are not negative.
pub open spec fn spheres_overlap(a: Vec3, radius_a: int, b: Vec3, radius_b: int) -> bool {
    distance_squared(a, b) <= (radius_a + radius_b) * (radius_a + radius_b)
}

/// The overlap test does not depend on the order of the two spheres.
pub proof fn lemma_overlap_symmetric(a: Vec3, radius_a: int, b: Vec3, radius_b: int)
    ensures
        spheres_overlap(a, radius_a, b, radius_b) == spheres_overlap(b, radius_b, a, radius_a),
{
    assert((a.x - b.x) * (a.x - b.x) == (b.x - a.x) * (b.x - a.x)) by (nonlinear_arith);
    assert((a.y - b.y) * (a.y - b.y) == (b.y - a.y) * (b.y - a.y)) by (nonlinear_arith);
    assert((a.z - b.z) * (a.z - b.z) == (b.z - a.z) * (b.z - a.z)) by (nonlinear_arith);
    assert((radius_a + radius_b) * (radius_a + radius_b) == (radius_b + radius_a) * (radius_b
        + radius_a));
}

/// Two spheres whose centres lie `d` apart overlap exactly when `d` is at
/// most the sum of their radii.
pub proof fn lemma_overlap_by_distance(a: Vec3, radius_a: int, b: Vec3, radius_b: int, d: int)
    requires
        0 <= d,
        d * d == distance_squared(a, b),
        0 <= radius_a,
        0 <= radius_b,
    ensures
        spheres_overlap(a, radius_a, b, radius_b) <==> d <= radius_a + radius_b,
{
    let r = radius_a + radius_b;
    assert(d <= r ==> d * d <= r * r) by (nonlinear_arith)
        requires
            0 <= d,
            0 <= r,
    ;
    assert(d > r ==> d * d > r * r) by (nonlinear_arith)
        requires
            0 <= d,
            0 <= r,
    ;
}

/// The distance between two coordinates.
fn gap(a: i64, b: i64) -> (d: u128)
    ensures
        d == if a >= b { a - b } else { b - a },
        d <= u64::MAX,
{
    if a >= b {
        ((a as i128) - (b as i128)) as u128
    } else {
        ((b as i128) - (a as i128)) as u128
    }
}

/// Whether two spheres overlap.
pub fn overlaps(a: Vec3, radius_a: u64, b: Vec3, radius_b: u64) -> (hit: bool)
    requires
        radius_a <= MAX_RADIUS,
        radius_b <= MAX_RADIUS,
    ensures
        hit == spheres_overlap(a, radius_a as int, b, radius_b as int),
{
    let reach: u128 = (radius_a as u128) + (radius_b as u128);
    let dx = gap(a.x, b.x);
    let dy = gap(a.y, b.y);
    let dz = gap(a.z, b.z);
    proof {
        assert((a.x - b.x) * (a.x - b.x) == dx * dx) by (nonlinear_arith)
            requires
                dx == a.x - b.x || dx == b.x - a.x,
        ;
        assert((a.y - b.y) * (a.y - b.y) == dy * dy) by (nonlinear_arith)
            requires
                dy == a.y - b.y || dy == b.y - a.y,
        ;
        assert((a.z - b.z) * (a.z - b.z) == dz * dz) by (nonlinear_arith)
            requires
                dz == a.z - b.z || dz == b.z - a.z,
        ;
        assert(0 <= dx * dx && 0 <= dy * dy && 0 <= dz * dz) by (nonlinear_arith);
    }
    if dx > reach || dy > reach || dz > reach {
        proof {
            assert(forall|d: int| d > reach ==> #[trigger] (d * d) > reach * reach)
                by (nonlinear_arith)
                requires
                    0 <= reach,
            ;
        }
        return false;
    }
    proof {
        assert(forall|d: int|
            0 <= d <= reach ==> #[trigger] (d * d) <= 0x8000_0000_0000_0000
                * 0x8000_0000_0000_0000) by (nonlinear_arith)
            requires
                0 <= reach <= 0x8000_0000_0000_0000,
        ;
    }
    dx * dx + dy * dy + dz * dz <= reach * reach
}

/// The sphere collider of one object: its radius and the identifiers of the
/// objects that overlapped it when collisions were last detected.
#[derive(Clone, Debug)]
pub struct Collider {
    pub radius: u64,
    pub colliding_with: Vec<ObjectId>,
}

impl Collider {
    /// The radius is positive and within `MAX_RADIUS`, and no identifier is
    /// listed twice.
    pub open spec fn wf(self) -> bool {
        &&& 0 < self.radius <= MAX_RADIUS
        &&& self.colliding_with@.no_duplicates()
    }

    /// A collider of the given radius that overlaps nothing yet. There is
    /// none for a radius of zero or above `MAX_RADIUS`.
    pub fn new(radius: u64) -> (collider: Option<Collider>)
        ensures
            collider.is_some() <==> 0 < radius <= MAX_RADIUS,
            collider matches Some(c) ==> c.wf() && c.radius == radius && c.colliding_with@
                == Seq::<ObjectId>::empty(),
    {
        if radius == 0 || radius > MAX_RADIUS {
            None
        } else {
            Some(Collider { radius, colliding_with: Vec::new() })
        }
    }

    /// Whether the collider is valid: for callers that built or changed one
    /// by hand.
    pub fn is_valid(&self) -> (valid: bool)
        ensures
            valid == self.wf(),
    {
        if self.radius == 0 || self.radius > MAX_RADIUS {
            return false;
        }
        let n = self.colliding_with.len();
        let mut i: usize = 0;
        while i < n
            invariant
                i <= n,
                n == self.colliding_with@.len(),
                forall|a: int, b: int|
                    0 <= a < i && a < b < n ==> self.colliding_with@[a] != self.colliding_with@[b],
            decreases n - i,
        {
            let mut j: usize = i + 1;
            while j < n
                invariant
                    i < j <= n,
                    n == self.colliding_with@.len(),
                    forall|b: int| i < b < j ==> self.colliding_with@[i as int]
                        != self.colliding_with@[b],
                decreases n - j,
            {
                if self.colliding_with[i] == self.colliding_with[j] {
                    return false;
                }
                j += 1;
            }
            i += 1;
        }
        assert forall|a: int, b: int| 0 <= a < n && 0 <= b < n && a != b implies self.colliding_with@[a]
            != self.colliding_with@[b] by {
            if a < b {
                assert(self.colliding_with@[a] != self.colliding_with@[b]);
            } else {
                assert(self.colliding_with@[b] != self.colliding_with@[a]);
            }
        }
        true
    }

    /// Whether `id` was found overlapping this collider.
    pub fn is_colliding_with(&self, id: ObjectId) -> (found: bool)
        ensures
            found == self.colliding_with@.contains(id),
    {
        let mut k: usize = 0;
        while k < self.colliding_with.len()
            invariant
                k <= self.colliding_with.len(),
                forall|m: int| 0 <= m < k ==> self.colliding_with@[m] != id,
            decreases self.colliding_with.len() - k,
        {
            if self.colliding_with[k] == id {
                return true;
            }
            k += 1;
        }
        false
    }
}

} // verus!
