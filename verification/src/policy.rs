//! The collision policy: which overlaps destroy which objects.
use vstd::prelude::*;
use crate::collision::ObjectId;
use crate::world::Category;
use crate::world::Object;
use crate::world::World;

verus! {

/// Whether overlapping a live object of category `other` destroys an object
/// of category `victim`. An asteroid is destroyed by anything that is not an
/// asteroid; a projectile and a ship are destroyed by an asteroid.
pub open spec fn destroys(victim: Category, other: Category) -> bool {
    match victim {
        Category::Asteroid => other != Category::Asteroid,
        Category::Projectile => other == Category::Asteroid,
        Category::Ship => other == Category::Asteroid,
    }
}

/// Whether overlapping a live object of category `other` destroys an object
/// of category `victim`.
pub fn is_destroyed_by(victim: Category, other: Category) -> (destroyed: bool)
    ensures
        destroyed == destroys(victim, other),
{
    match victim {
        Category::Asteroid => other != Category::Asteroid,
        Category::Projectile => other == Category::Asteroid,
        Category::Ship => other == Category::Asteroid,
    }
}

/// No category destroys its own kind.
pub proof fn lemma_same_category_is_safe(category: Category)
    ensures
        !destroys(category, category),
{
}

/// `other` is in the overlap set of `victim` and destroys it.
pub open spec fn strikes(other: Object, victim: Object) -> bool {
    victim.collider.colliding_with@.contains(other.id) && destroys(victim.category, other.category)
}

/// `victim` is to be destroyed: some live object strikes it. An identifier in
/// its overlap set that no live object has counts for nothing.
pub open spec fn condemned(objects: Seq<Object>, victim: Object) -> bool {
    exists|b: int| 0 <= b < objects.len() && strikes(#[trigger] objects[b], victim)
}

/// The objects of `category` that are to be destroyed.
pub open spec fn falls(objects: Seq<Object>, category: Category) -> spec_fn(Object) -> bool {
    |o: Object| o.category == category && condemned(objects, o)
}

/// All objects but those of `category` that are to be destroyed.
pub open spec fn stays(objects: Seq<Object>, category: Category) -> spec_fn(Object) -> bool {
    |o: Object| !(o.category == category && condemned(objects, o))
}

/// The identifier of an object.
pub open spec fn id_of() -> spec_fn(Object) -> ObjectId {
    |o: Object| o.id
}

/// A pass over one category does not depend on the order in which its
/// objects are taken: whether an object of `category` is to be destroyed is
/// the same before the pass and after the others of its category have been
/// removed, because only objects of other categories can strike it.
pub proof fn lemma_pass_order_free(objects: Seq<Object>, category: Category, victim: Object)
    requires
        victim.category == category,
    ensures
        condemned(objects.filter(stays(objects, category)), victim) == condemned(objects, victim),
{
    broadcast use {
        Seq::lemma_filter_contains,
        Seq::lemma_filter_contains_rev,
        Seq::lemma_filter_pred,
    };

    let keep = stays(objects, category);
    let rest = objects.filter(keep);
    if condemned(objects, victim) {
        let b = choose|b: int| 0 <= b < objects.len() && strikes(#[trigger] objects[b], victim);
        assert(objects[b].category != category);
        assert(keep(objects[b]));
        assert(rest.contains(objects[b]));
        let c = choose|c: int| 0 <= c < rest.len() && rest[c] == objects[b];
        assert(strikes(rest[c], victim));
    }
    if condemned(rest, victim) {
        let c = choose|c: int| 0 <= c < rest.len() && strikes(#[trigger] rest[c], victim);
        assert(rest.contains(rest[c]));
        assert(objects.contains(rest[c]));
        let b = choose|b: int| 0 <= b < objects.len() && objects[b] == rest[c];
        assert(strikes(objects[b], victim));
    }
}

impl World {
    /// Whether the object at `index` is to be destroyed: whether its overlap
    /// set names a live object that destroys its category.
    pub fn is_condemned(&self, index: usize) -> (doomed: bool)
        requires
            index < self.objects@.len(),
        ensures
            doomed == condemned(self.objects@, self.objects@[index as int]),
    {
        let victim = &self.objects[index];
        let n = self.objects.len();
        let mut b: usize = 0;
        while b < n
            invariant
                b <= n,
                n == self.objects@.len(),
                index < n,
                *victim == self.objects@[index as int],
                forall|c: int| 0 <= c < b ==> !strikes(#[trigger] self.objects@[c], *victim),
            decreases n - b,
        {
            let other = &self.objects[b];
            if is_destroyed_by(victim.category, other.category)
                && victim.collider.is_colliding_with(other.id) {
                return true;
            }
            b += 1;
        }
        false
    }

    /// Applies the policy of one category: every object of `category` whose
    /// overlap set names a live object that destroys it is removed. All
    /// decisions are taken on the world as it stands before the first
    /// removal; the other objects keep their order. Returns the identifiers
    /// of the removed objects, in the order of the world.
    pub fn handle_collisions(&mut self, category: Category) -> (destroyed: Vec<ObjectId>)
        ensures
            old(self).wf() ==> final(self).wf(),
            final(self).objects@ == old(self).objects@.filter(stays(old(self).objects@, category)),
            destroyed@ == old(self).objects@.filter(
                falls(old(self).objects@, category),
            ).map_values(id_of()),
    {
        let n = self.objects.len();
        let ghost start = self.objects@;
        let mut doomed: Vec<bool> = Vec::new();
        let mut c: usize = 0;
        while c < n
            invariant
                c <= n,
                n == self.objects@.len(),
                self.objects@ == start,
                doomed@.len() == c,
                forall|k: int|
                    0 <= k < c ==> #[trigger] doomed@[k] == falls(start, category)(start[k]),
            decreases n - c,
        {
            let flag = self.objects[c].category == category && self.is_condemned(c);
            doomed.push(flag);
            c += 1;
        }
        let mut destroyed: Vec<ObjectId> = Vec::new();
        let mut i: usize = 0;
        let mut k: usize = 0;
        proof {
            reveal(Seq::filter);
            assert(start.take(0).filter(stays(start, category)) =~= Seq::<Object>::empty());
            assert(start.take(0).filter(falls(start, category)) =~= Seq::<Object>::empty());
            assert(start.skip(0) =~= start);
            assert(self.objects@ =~= start.take(0).filter(stays(start, category)) + start.skip(0));
            assert(destroyed@ =~= start.take(0).filter(falls(start, category)).map_values(
                id_of(),
            ));
        }
        while k < n
            invariant
                k <= n,
                n == start.len(),
                doomed@.len() == n,
                forall|m: int|
                    0 <= m < n ==> #[trigger] doomed@[m] == falls(start, category)(start[m]),
                old(self).wf() ==> self.wf(),
                i == start.take(k as int).filter(stays(start, category)).len(),
                self.objects@ == start.take(k as int).filter(stays(start, category)) + start.skip(
                    k as int,
                ),
                destroyed@ == start.take(k as int).filter(falls(start, category)).map_values(
                    id_of(),
                ),
            decreases n - k,
        {
            let ghost kept = start.take(k as int).filter(stays(start, category));
            let ghost gone = start.take(k as int).filter(falls(start, category));
            proof {
                assert(start.take(k + 1) =~= start.take(k as int).push(start[k as int]));
                start.take(k as int).lemma_filter_push(start[k as int], stays(start, category));
                start.take(k as int).lemma_filter_push(start[k as int], falls(start, category));
                assert(self.objects@[i as int] == start.skip(k as int)[0]);
            }
            if doomed[k] {
                let object = self.objects.remove(i);
                destroyed.push(object.id);
                proof {
                    assert(self.objects@ =~= kept + start.skip(k + 1));
                    assert(destroyed@ =~= gone.push(start[k as int]).map_values(id_of()));
                }
            } else {
                proof {
                    assert(self.objects@ =~= kept.push(start[k as int]) + start.skip(k + 1));
                }
                i += 1;
            }
            k += 1;
        }
        proof {
            assert(start.take(n as int) =~= start);
            assert(start.skip(n as int) =~= Seq::<Object>::empty());
            assert(self.objects@ =~= start.filter(stays(start, category)));
        }
        destroyed
    }
}

} // verus!
