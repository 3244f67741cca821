//! The collision detector: which spheres overlap which, recomputed from the
//! positions of the current frame alone.
use vstd::prelude::*;
use crate::collision::overlaps;
use crate::collision::spheres_overlap;
use crate::collision::lemma_overlap_symmetric;
use crate::collision::ObjectId;
use crate::world::distinct_ids;
use crate::world::Object;
use crate::world::World;

verus! {

/// Whether the spheres of two objects overlap.
pub open spec fn objects_overlap(a: Object, b: Object) -> bool {
    spheres_overlap(a.position, a.collider.radius as int, b.position, b.collider.radius as int)
}

/// The identifiers of the objects that overlap object `a`, looking only at
/// the first `k` objects and never at `a` itself, in the order of the world.
pub open spec fn overlap_list(objects: Seq<Object>, a: int, k: int) -> Seq<ObjectId>
    decreases k,
{
    if k <= 0 {
        Seq::empty()
    } else {
        let before = overlap_list(objects, a, k - 1);
        if k - 1 != a && objects_overlap(objects[a], objects[k - 1]) {
            before.push(objects[k - 1].id)
        } else {
            before
        }
    }
}

/// The overlap set of object `a`: the identifiers of all other objects whose
/// spheres overlap it.
pub open spec fn overlap_set(objects: Seq<Object>, a: int) -> Seq<ObjectId> {
    overlap_list(objects, a, objects.len() as int)
}

/// Whether the collider of object `a` lists the identifier of object `b`.
pub open spec fn listed(objects: Seq<Object>, a: int, b: int) -> bool {
    objects[a].collider.colliding_with@.contains(objects[b].id)
}

/// Two worlds have the same geometry: the same identifiers, positions and
/// radii, object by object.
pub open spec fn same_geometry(p: Seq<Object>, q: Seq<Object>) -> bool {
    &&& p.len() == q.len()
    &&& forall|i: int|
        0 <= i < p.len() ==> {
            &&& (#[trigger] p[i]).id == q[i].id
            &&& p[i].position == q[i].position
            &&& p[i].collider.radius == q[i].collider.radius
        }
}

/// An identifier is in the list exactly when it belongs to one of the first
/// `k` objects, other than `a`, that overlaps `a`.
pub proof fn lemma_overlap_list_contains(objects: Seq<Object>, a: int, k: int, id: ObjectId)
    requires
        0 <= a < objects.len(),
        0 <= k <= objects.len(),
    ensures
        overlap_list(objects, a, k).contains(id) <==> exists|b: int|
            0 <= b < k && b != a && #[trigger] objects[b].id == id && objects_overlap(
                objects[a],
                objects[b],
            ),
    decreases k,
{
    if k > 0 {
        lemma_overlap_list_contains(objects, a, k - 1, id);
        let before = overlap_list(objects, a, k - 1);
        let full = overlap_list(objects, a, k);
        let here = k - 1 != a && objects_overlap(objects[a], objects[k - 1]);
        if here {
            assert(full == before.push(objects[k - 1].id));
            assert(full[before.len() as int] == objects[k - 1].id);
            if full.contains(id) {
                let m = choose|m: int| 0 <= m < full.len() && full[m] == id;
                if m < before.len() {
                    assert(before[m] == id);
                    assert(before.contains(id));
                } else {
                    assert(objects[k - 1].id == id);
                }
            }
            if before.contains(id) {
                let m = choose|m: int| 0 <= m < before.len() && before[m] == id;
                assert(full[m] == id);
            }
        }
    }
}

/// Where identifiers are distinct, no identifier is listed twice.
pub proof fn lemma_overlap_list_no_duplicates(objects: Seq<Object>, a: int, k: int)
    requires
        0 <= a < objects.len(),
        0 <= k <= objects.len(),
        distinct_ids(objects),
    ensures
        overlap_list(objects, a, k).no_duplicates(),
    decreases k,
{
    if k > 0 {
        lemma_overlap_list_no_duplicates(objects, a, k - 1);
        let before = overlap_list(objects, a, k - 1);
        if k - 1 != a && objects_overlap(objects[a], objects[k - 1]) {
            lemma_overlap_list_contains(objects, a, k - 1, objects[k - 1].id);
            assert(!before.contains(objects[k - 1].id));
            let full = before.push(objects[k - 1].id);
            assert forall|m: int, n: int| 0 <= m < full.len() && 0 <= n < full.len() && m
                != n implies full[m] != full[n] by {
                if m < before.len() {
                    assert(before.contains(full[m]));
                }
                if n < before.len() {
                    assert(before.contains(full[n]));
                }
            }
        }
    }
}

/// Overlap correctness: where identifiers are distinct, the identifier of
/// `b` is in the overlap set of another object `a` exactly when the two
/// spheres overlap.
pub proof fn lemma_overlap_set_exact(objects: Seq<Object>, a: int, b: int)
    requires
        distinct_ids(objects),
        0 <= a < objects.len(),
        0 <= b < objects.len(),
        a != b,
    ensures
        overlap_set(objects, a).contains(objects[b].id) <==> objects_overlap(
            objects[a],
            objects[b],
        ),
{
    lemma_overlap_list_contains(objects, a, objects.len() as int, objects[b].id);
    if overlap_set(objects, a).contains(objects[b].id) {
        let c = choose|c: int|
            0 <= c < objects.len() && c != a && #[trigger] objects[c].id == objects[b].id
                && objects_overlap(objects[a], objects[c]);
        assert(c == b) by {
            if c < b {
                assert(objects[c].id != objects[b].id);
            }
            if b < c {
                assert(objects[b].id != objects[c].id);
            }
        }
    }
}

/// Overlap symmetry: where identifiers are distinct, `b` is in the overlap
/// set of `a` exactly when `a` is in the overlap set of `b`.
pub proof fn lemma_overlap_set_symmetric(objects: Seq<Object>, a: int, b: int)
    requires
        distinct_ids(objects),
        0 <= a < objects.len(),
        0 <= b < objects.len(),
        a != b,
    ensures
        overlap_set(objects, a).contains(objects[b].id) <==> overlap_set(objects, b).contains(
            objects[a].id,
        ),
{
    lemma_overlap_set_exact(objects, a, b);
    lemma_overlap_set_exact(objects, b, a);
    lemma_overlap_symmetric(
        objects[a].position,
        objects[a].collider.radius as int,
        objects[b].position,
        objects[b].collider.radius as int,
    );
}

/// No self-collision: where identifiers are distinct, no object is in its
/// own overlap set.
pub proof fn lemma_overlap_set_excludes_self(objects: Seq<Object>, a: int)
    requires
        distinct_ids(objects),
        0 <= a < objects.len(),
    ensures
        !overlap_set(objects, a).contains(objects[a].id),
{
    lemma_overlap_list_contains(objects, a, objects.len() as int, objects[a].id);
    if overlap_set(objects, a).contains(objects[a].id) {
        let c = choose|c: int|
            0 <= c < objects.len() && c != a && #[trigger] objects[c].id == objects[a].id
                && objects_overlap(objects[a], objects[c]);
        if c < a {
            assert(objects[c].id != objects[a].id);
        } else {
            assert(objects[a].id != objects[c].id);
        }
    }
}

/// The list depends on identifiers, positions and radii alone.
pub proof fn lemma_overlap_list_of_geometry(p: Seq<Object>, q: Seq<Object>, a: int, k: int)
    requires
        same_geometry(p, q),
        0 <= a < p.len(),
        0 <= k <= p.len(),
    ensures
        overlap_list(p, a, k) == overlap_list(q, a, k),
    decreases k,
{
    if k > 0 {
        lemma_overlap_list_of_geometry(p, q, a, k - 1);
        assert(p[a].id == q[a].id);
        assert(p[k - 1].id == q[k - 1].id);
    }
}

/// Frame isolation: the overlap sets are a function of the identifiers,
/// positions and radii of the frame. Whatever the colliders listed before,
/// and whatever else differs, two worlds of the same geometry get the same
/// overlap sets.
pub proof fn lemma_overlap_set_of_geometry(p: Seq<Object>, q: Seq<Object>, a: int)
    requires
        same_geometry(p, q),
        0 <= a < p.len(),
    ensures
        overlap_set(p, a) == overlap_set(q, a),
{
    lemma_overlap_list_of_geometry(p, q, a, p.len() as int);
}

/// How many objects the pairwise pass has compared with object `a` when it
/// stands at the pair `(i, j)`, out of `n` objects.
spec fn compared(n: int, a: int, i: int, j: int) -> int {
    if a < i {
        n
    } else if a == i {
        j
    } else if a < j {
        i + 1
    } else {
        i
    }
}

/// Looking at an object itself adds nothing to its list.
proof fn lemma_overlap_list_skips_self(objects: Seq<Object>, a: int)
    requires
        0 <= a,
    ensures
        overlap_list(objects, a, a + 1) == overlap_list(objects, a, a),
{
}

impl World {
    /// Recomputes the overlap set of every object from the current positions
    /// and radii, replacing what the colliders listed before. Each pair of
    /// objects is compared once and the result is written to both: an object
    /// lists another exactly when their spheres overlap, and then the other
    /// lists it too.
    pub fn detect_collisions(&mut self)
        requires
            old(self).wf(),
        ensures
            final(self).wf(),
            final(self).objects@.len() == old(self).objects@.len(),
            forall|i: int|
                0 <= i < old(self).objects@.len() ==> {
                    &&& (#[trigger] final(self).objects@[i]).id == old(self).objects@[i].id
                    &&& final(self).objects@[i].category == old(self).objects@[i].category
                    &&& final(self).objects@[i].position == old(self).objects@[i].position
                    &&& final(self).objects@[i].motion == old(self).objects@[i].motion
                    &&& final(self).objects@[i].collider.radius == old(
                        self,
                    ).objects@[i].collider.radius
                    &&& final(self).objects@[i].collider.colliding_with@ == overlap_set(
                        old(self).objects@,
                        i,
                    )
                },
            forall|i: int, j: int|
                0 <= i < old(self).objects@.len() && 0 <= j < old(self).objects@.len() && i != j
                    ==> {
                    &&& listed(final(self).objects@, i, j) == objects_overlap(
                        old(self).objects@[i],
                        old(self).objects@[j],
                    )
                    &&& #[trigger] listed(final(self).objects@, i, j) == listed(
                        final(self).objects@,
                        j,
                        i,
                    )
                },
    {
        let n = self.objects.len();
        let ghost start = self.objects@;
        let mut c: usize = 0;
        while c < n
            invariant
                c <= n,
                n == start.len(),
                self.objects@.len() == n,
                forall|k: int|
                    0 <= k < n ==> {
                        &&& (#[trigger] self.objects@[k]).id == start[k].id
                        &&& self.objects@[k].category == start[k].category
                        &&& self.objects@[k].position == start[k].position
                        &&& self.objects@[k].motion == start[k].motion
                        &&& self.objects@[k].collider.radius == start[k].collider.radius
                    },
                forall|k: int|
                    0 <= k < c ==> (#[trigger] self.objects@[k]).collider.colliding_with@.len()
                        == 0,
            decreases n - c,
        {
            self.objects[c].collider.colliding_with = Vec::new();
            c += 1;
        }
        let mut i: usize = 0;
        assert forall|a: int| 0 <= a < n implies (
        #[trigger] self.objects@[a]).collider.colliding_with@ == overlap_list(
            start,
            a,
            compared(n as int, a, 0, 1),
        ) by {
            assert(self.objects@[a].collider.colliding_with@.len() == 0);
            if a == 0 {
                lemma_overlap_list_skips_self(start, 0);
            }
            assert(self.objects@[a].collider.colliding_with@ =~= Seq::<ObjectId>::empty());
        }
        while i < n
            invariant
                i <= n,
                n == start.len(),
                self.objects@.len() == n,
                old(self).wf(),
                start == old(self).objects@,
                forall|k: int|
                    0 <= k < n ==> {
                        &&& (#[trigger] self.objects@[k]).id == start[k].id
                        &&& self.objects@[k].category == start[k].category
                        &&& self.objects@[k].position == start[k].position
                        &&& self.objects@[k].motion == start[k].motion
                        &&& self.objects@[k].collider.radius == start[k].collider.radius
                    },
                forall|a: int|
                    0 <= a < n ==> (#[trigger] self.objects@[a]).collider.colliding_with@
                        == overlap_list(start, a, compared(n as int, a, i as int, i + 1)),
            decreases n - i,
        {
            let mut j: usize = i + 1;
            while j < n
                invariant
                    i < j <= n,
                    n == start.len(),
                    self.objects@.len() == n,
                    old(self).wf(),
                    start == old(self).objects@,
                    forall|k: int|
                        0 <= k < n ==> {
                            &&& (#[trigger] self.objects@[k]).id == start[k].id
                            &&& self.objects@[k].category == start[k].category
                            &&& self.objects@[k].position == start[k].position
                            &&& self.objects@[k].motion == start[k].motion
                            &&& self.objects@[k].collider.radius == start[k].collider.radius
                        },
                    forall|a: int|
                        0 <= a < n ==> (#[trigger] self.objects@[a]).collider.colliding_with@
                            == overlap_list(start, a, compared(n as int, a, i as int, j as int)),
                decreases n - j,
            {
                let ghost before = self.objects@;
                assert(start[i as int].wf());
                assert(start[j as int].wf());
                assert(before[i as int].id == start[i as int].id);
                assert(before[j as int].id == start[j as int].id);
                let hit = overlaps(
                    self.objects[i].position,
                    self.objects[i].collider.radius,
                    self.objects[j].position,
                    self.objects[j].collider.radius,
                );
                proof {
                    lemma_overlap_symmetric(
                        start[i as int].position,
                        start[i as int].collider.radius as int,
                        start[j as int].position,
                        start[j as int].collider.radius as int,
                    );
                    assert(hit == objects_overlap(start[i as int], start[j as int]));
                    assert(hit == objects_overlap(start[j as int], start[i as int]));
                }
                if hit {
                    let id_i = self.objects[i].id;
                    let id_j = self.objects[j].id;
                    self.objects[i].collider.colliding_with.push(id_j);
                    self.objects[j].collider.colliding_with.push(id_i);
                }
                proof {
                    assert forall|a: int| 0 <= a < n implies (
                    #[trigger] self.objects@[a]).collider.colliding_with@ == overlap_list(
                        start,
                        a,
                        compared(n as int, a, i as int, j + 1),
                    ) by {
                        assert(before[a].collider.colliding_with@ == overlap_list(
                            start,
                            a,
                            compared(n as int, a, i as int, j as int),
                        ));
                    }
                }
                j += 1;
            }
            proof {
                assert forall|a: int| 0 <= a < n implies (
                #[trigger] self.objects@[a]).collider.colliding_with@ == overlap_list(
                    start,
                    a,
                    compared(n as int, a, i + 1, i + 2),
                ) by {
                    if a == i + 1 {
                        lemma_overlap_list_skips_self(start, a);
                    }
                }
            }
            i += 1;
        }
        proof {
            assert forall|a: int| 0 <= a < n implies (#[trigger] self.objects@[a]).wf() by {
                lemma_overlap_list_no_duplicates(start, a, n as int);
                lemma_overlap_set_excludes_self(start, a);
                assert(start[a].wf());
            }
            assert forall|a: int, b: int| 0 <= a < b < n implies #[trigger] self.objects@[a].id
                != #[trigger] self.objects@[b].id by {
                assert(start[a].id != start[b].id);
            }
            assert forall|a: int, b: int| 0 <= a < n && 0 <= b < n && a != b implies {
                &&& listed(self.objects@, a, b) == objects_overlap(start[a], start[b])
                &&& #[trigger] listed(self.objects@, a, b) == listed(self.objects@, b, a)
            } by {
                lemma_overlap_set_exact(start, a, b);
                lemma_overlap_set_exact(start, b, a);
                lemma_overlap_set_symmetric(start, a, b);
                assert(self.objects@[a].id == start[a].id);
                assert(self.objects@[b].id == start[b].id);
            }
        }
    }
}

} // verus!
