//! The registry of live objects.
use vstd::prelude::*;
use crate::collision::Collider;
use crate::collision::ObjectId;
use crate::movement::integrate;
use crate::movement::moved;
use crate::movement::KinematicState;
use crate::vector::Vec3;

verus! {

/// What kind of thing an object is. Only the collision policy reads it.
#[derive(Clone, Copy, Debug, PartialEq, Eq, Structural)]
pub enum Category {
    Asteroid,
    Projectile,
    Ship,
}

/// What a new object starts with: where it is, how it moves and its collider.
#[derive(Clone, Debug)]
pub struct MovingObjectBundle {
    pub position: Vec3,
    pub motion: KinematicState,
    pub collider: Collider,
}

impl MovingObjectBundle {
    /// The collider is valid and lists no overlap yet.
    pub open spec fn wf(self) -> bool {
        &&& self.collider.wf()
        &&& self.collider.colliding_with@.len() == 0
    }

    /// Whether the bundle is valid: for callers that built or changed one
    /// by hand.
    pub fn is_valid(&self) -> (valid: bool)
        ensures
            valid == self.wf(),
    {
        self.collider.colliding_with.len() == 0 && self.collider.is_valid()
    }

    /// The bundle of an object at `position` with the given motion and
    /// radius. There is none for a radius that no collider can have.
    pub fn new(position: Vec3, velocity: Vec3, acceleration: Vec3, radius: u64) -> (bundle: Option<
        MovingObjectBundle,
    >)
        ensures
            bundle.is_some() <==> 0 < radius <= crate::collision::MAX_RADIUS,
            bundle matches Some(b) ==> {
                &&& b.wf()
                &&& b.position == position
                &&& b.motion == (KinematicState { velocity, acceleration })
                &&& b.collider.radius == radius
            },
    {
        match Collider::new(radius) {
            Some(collider) => Some(
                MovingObjectBundle {
                    position,
                    motion: KinematicState::new(velocity, acceleration),
                    collider,
                },
            ),
            None => None,
        }
    }
}

/// One live object.
#[derive(Clone, Debug)]
pub struct Object {
    pub id: ObjectId,
    pub category: Category,
    pub position: Vec3,
    pub motion: KinematicState,
    pub collider: Collider,
}

impl Object {
    /// The collider is valid and does not list the object itself.
    pub open spec fn wf(self) -> bool {
        &&& self.collider.wf()
        &&& !self.collider.colliding_with@.contains(self.id)
    }

    /// Whether the object is valid: for callers that built or changed one
    /// by hand.
    pub fn is_valid(&self) -> (valid: bool)
        ensures
            valid == self.wf(),
    {
        self.collider.is_valid() && !self.collider.is_colliding_with(self.id)
    }

    /// The object after one integration step of `ticks`.
    pub open spec fn stepped(self, ticks: int) -> Object {
        Object {
            position: moved(self.position, self.motion, ticks),
            motion: self.motion.stepped(ticks),
            ..self
        }
    }
}

/// Whether some object of `objects` has the identifier `id`.
pub open spec fn is_live(objects: Seq<Object>, id: ObjectId) -> bool {
    exists|i: int| 0 <= i < objects.len() && #[trigger] objects[i].id == id
}

/// No two objects of `objects` share an identifier.
pub open spec fn distinct_ids(objects: Seq<Object>) -> bool {
    forall|i: int, j: int|
        0 <= i < j < objects.len() ==> #[trigger] objects[i].id != #[trigger] objects[j].id
}

/// All live objects, in the order in which they were created.
#[derive(Debug)]
pub struct World {
    pub objects: Vec<Object>,
}

impl World {
    /// Identifiers are unique and every object is valid.
    pub open spec fn wf(self) -> bool {
        &&& distinct_ids(self.objects@)
        &&& forall|i: int| 0 <= i < self.objects@.len() ==> #[trigger] self.objects@[i].wf()
    }

    /// Whether the world is valid: for callers that changed its objects by
    /// hand.
    pub fn is_valid(&self) -> (valid: bool)
        ensures
            valid == self.wf(),
    {
        let n = self.objects.len();
        let mut i: usize = 0;
        while i < n
            invariant
                i <= n,
                n == self.objects@.len(),
                forall|a: int| 0 <= a < i ==> #[trigger] self.objects@[a].wf(),
                forall|a: int, b: int|
                    0 <= a < i && a < b < n ==> #[trigger] self.objects@[a].id
                        != #[trigger] self.objects@[b].id,
            decreases n - i,
        {
            if !self.objects[i].is_valid() {
                return false;
            }
            let mut j: usize = i + 1;
            while j < n
                invariant
                    i < j <= n,
                    n == self.objects@.len(),
                    forall|b: int|
                        i < b < j ==> self.objects@[i as int].id != #[trigger] self.objects@[b].id,
                decreases n - j,
            {
                if self.objects[i].id == self.objects[j].id {
                    return false;
                }
                j += 1;
            }
            i += 1;
        }
        true
    }

    /// A world without objects.
    pub fn new() -> (world: World)
        ensures
            world.wf(),
            world.objects@.len() == 0,
    {
        World { objects: Vec::new() }
    }

    /// The number of live objects.
    pub fn len(&self) -> (n: usize)
        ensures
            n == self.objects@.len(),
    {
        self.objects.len()
    }

    /// The index of the first object with identifier `id`.
    pub fn find(&self, id: ObjectId) -> (found: Option<usize>)
        ensures
            found is None <==> !is_live(self.objects@, id),
            found matches Some(i) ==> {
                &&& i < self.objects@.len()
                &&& self.objects@[i as int].id == id
                &&& forall|k: int| 0 <= k < i ==> self.objects@[k].id != id
            },
    {
        let mut i: usize = 0;
        while i < self.objects.len()
            invariant
                i <= self.objects@.len(),
                forall|k: int| 0 <= k < i ==> self.objects@[k].id != id,
            decreases self.objects@.len() - i,
        {
            if self.objects[i].id == id {
                return Some(i);
            }
            i += 1;
        }
        None
    }

    /// Whether an object with identifier `id` is live.
    pub fn contains(&self, id: ObjectId) -> (live: bool)
        ensures
            live == is_live(self.objects@, id),
    {
        self.find(id).is_some()
    }

    /// The object with identifier `id`, if it is live.
    pub fn get(&self, id: ObjectId) -> (object: Option<&Object>)
        ensures
            object is None <==> !is_live(self.objects@, id),
            object matches Some(o) ==> exists|i: int|
                0 <= i < self.objects@.len() && *o == #[trigger] self.objects@[i] && o.id == id
                    && forall|k: int| 0 <= k < i ==> self.objects@[k].id != id,
    {
        match self.find(id) {
            Some(i) => Some(&self.objects[i]),
            None => None,
        }
    }

    /// The category of the object with identifier `id`. An identifier that
    /// is not live has none.
    pub fn category_of(&self, id: ObjectId) -> (category: Option<Category>)
        ensures
            category is None <==> !is_live(self.objects@, id),
            category matches Some(c) ==> exists|i: int|
                0 <= i < self.objects@.len() && #[trigger] self.objects@[i].id == id
                    && self.objects@[i].category == c && forall|k: int|
                    0 <= k < i ==> self.objects@[k].id != id,
    {
        match self.find(id) {
            Some(i) => Some(self.objects[i].category),
            None => None,
        }
    }

    /// Adds a new object under the identifier `id`, behind all others. An
    /// identifier that is already live is refused and nothing changes.
    pub fn spawn(&mut self, id: ObjectId, category: Category, bundle: MovingObjectBundle) -> (added:
        bool)
        ensures
            old(self).wf() && bundle.wf() ==> final(self).wf(),
            added == !is_live(old(self).objects@, id),
            added ==> final(self).objects@ == old(self).objects@.push(
                Object {
                    id,
                    category,
                    position: bundle.position,
                    motion: bundle.motion,
                    collider: bundle.collider,
                },
            ),
            !added ==> final(self).objects@ == old(self).objects@,
    {
        if self.contains(id) {
            return false;
        }
        let object = Object {
            id,
            category,
            position: bundle.position,
            motion: bundle.motion,
            collider: bundle.collider,
        };
        self.objects.push(object);
        true
    }

    /// Removes the object with identifier `id`. An identifier that is not
    /// live is not an error: nothing changes then.
    pub fn destroy(&mut self, id: ObjectId) -> (removed: bool)
        ensures
            removed == is_live(old(self).objects@, id),
            final(self).objects@ == without(old(self).objects@, id),
            old(self).wf() ==> final(self).wf(),
    {
        match self.find(id) {
            Some(i) => {
                proof {
                    lemma_without_at(self.objects@, id, i as int);
                }
                self.objects.remove(i);
                true
            },
            None => {
                proof {
                    lemma_without_absent(self.objects@, id);
                }
                false
            },
        }
    }

    /// Advances every object by `ticks`. Identifiers, categories and
    /// colliders are not touched.
    pub fn integrate(&mut self, ticks: u64)
        ensures
            final(self).objects@.len() == old(self).objects@.len(),
            forall|i: int|
                0 <= i < old(self).objects@.len() ==> #[trigger] final(self).objects@[i] == old(
                    self,
                ).objects@[i].stepped(ticks as int),
            old(self).wf() ==> final(self).wf(),
    {
        let n = self.objects.len();
        let mut i: usize = 0;
        while i < n
            invariant
                i <= n,
                n == self.objects@.len(),
                n == old(self).objects@.len(),
                forall|k: int|
                    0 <= k < i ==> #[trigger] self.objects@[k] == old(self).objects@[k].stepped(
                        ticks as int,
                    ),
                forall|k: int| i <= k < n ==> #[trigger] self.objects@[k] == old(self).objects@[k],
            decreases n - i,
        {
            let mut position = self.objects[i].position;
            let mut motion = self.objects[i].motion;
            integrate(&mut position, &mut motion, ticks);
            self.objects[i].position = position;
            self.objects[i].motion = motion;
            i += 1;
        }
        proof {
            if old(self).wf() {
                assert forall|k: int| 0 <= k < n implies #[trigger] self.objects@[k].wf() by {
                    assert(old(self).objects@[k].wf());
                }
                assert forall|a: int, b: int| 0 <= a < b < n implies #[trigger] self.objects@[a].id
                    != #[trigger] self.objects@[b].id by {
                    assert(old(self).objects@[a].id != old(self).objects@[b].id);
                }
            }
        }
    }
}

/// `objects` with the first object of identifier `id` taken out.
pub open spec fn without(objects: Seq<Object>, id: ObjectId) -> Seq<Object>
    decreases objects.len(),
{
    if objects.len() == 0 {
        objects
    } else if objects.first().id == id {
        objects.drop_first()
    } else {
        seq![objects.first()] + without(objects.drop_first(), id)
    }
}

/// Taking out an identifier that is not live changes nothing.
pub proof fn lemma_without_absent(objects: Seq<Object>, id: ObjectId)
    requires
        !is_live(objects, id),
    ensures
        without(objects, id) == objects,
    decreases objects.len(),
{
    if objects.len() > 0 {
        assert(objects[0].id != id);
        let rest = objects.drop_first();
        assert forall|i: int| 0 <= i < rest.len() implies #[trigger] rest[i].id != id by {
            assert(objects[i + 1].id != id);
        }
        lemma_without_absent(rest, id);
        assert(seq![objects.first()] + rest =~= objects);
    }
}

/// Taking out an identifier whose first object stands at `i` removes that
/// object and keeps the others in order.
pub proof fn lemma_without_at(objects: Seq<Object>, id: ObjectId, i: int)
    requires
        0 <= i < objects.len(),
        objects[i].id == id,
        forall|k: int| 0 <= k < i ==> objects[k].id != id,
    ensures
        without(objects, id) == objects.remove(i),
    decreases objects.len(),
{
    if i == 0 {
        assert(objects.drop_first() =~= objects.remove(0));
    } else {
        let rest = objects.drop_first();
        assert(objects[0].id != id);
        assert forall|k: int| 0 <= k < i - 1 implies rest[k].id != id by {
            assert(objects[k + 1].id != id);
        }
        lemma_without_at(rest, id, i - 1);
        assert(seq![objects.first()] + rest.remove(i - 1) =~= objects.remove(i));
    }
}

/// Among distinct identifiers, the one taken out is no longer live, and the
/// others are live exactly when they were.
pub proof fn lemma_without_live(objects: Seq<Object>, id: ObjectId, other: ObjectId)
    requires
        distinct_ids(objects),
    ensures
        !is_live(without(objects, id), id),
        other != id ==> (is_live(without(objects, id), other) <==> is_live(objects, other)),
        distinct_ids(without(objects, id)),
{
    if is_live(objects, id) {
        let i = choose|i: int| 0 <= i < objects.len() && #[trigger] objects[i].id == id;
        lemma_without_at(objects, id, i);
        let rest = objects.remove(i);
        assert forall|k: int| 0 <= k < rest.len() implies #[trigger] rest[k].id != id by {
            if k < i {
                assert(rest[k] == objects[k]);
            } else {
                assert(rest[k] == objects[k + 1]);
            }
        }
        if other != id {
            if is_live(objects, other) {
                let j = choose|j: int| 0 <= j < objects.len() && #[trigger] objects[j].id == other;
                if j < i {
                    assert(rest[j].id == other);
                } else {
                    assert(rest[j - 1].id == other);
                }
            }
            if is_live(rest, other) {
                let j = choose|j: int| 0 <= j < rest.len() && #[trigger] rest[j].id == other;
                if j < i {
                    assert(objects[j].id == other);
                } else {
                    assert(objects[j + 1].id == other);
                }
            }
        }
        assert forall|a: int, b: int| 0 <= a < b < rest.len() implies #[trigger] rest[a].id
            != #[trigger] rest[b].id by {
            let a0 = if a < i { a } else { a + 1 };
            let b0 = if b < i { b } else { b + 1 };
            assert(rest[a] == objects[a0]);
            assert(rest[b] == objects[b0]);
        }
    } else {
        lemma_without_absent(objects, id);
    }
}

/// Destroying twice is destroying once: a second request for the same
/// identifier leaves the world as the first one left it.
pub proof fn lemma_destroy_idempotent(objects: Seq<Object>, id: ObjectId)
    requires
        distinct_ids(objects),
    ensures
        without(without(objects, id), id) == without(objects, id),
{
    lemma_without_live(objects, id, id);
    lemma_without_absent(without(objects, id), id);
}

} // verus!
