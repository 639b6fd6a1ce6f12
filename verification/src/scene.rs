use vstd::prelude::*;

use crate::error::FatalError;
use crate::object::{Object, ObjectKind, ObjectV};

verus! {

/// True when `s` has a live slot at `id` holding an object of kind `kind`:
/// exactly the condition under which acquiring a handle `(id, kind)`
/// succeeds.
pub open spec fn spec_can_get(s: Seq<Option<ObjectV>>, id: int, kind: ObjectKind) -> bool {
    &&& 0 <= id < s.len()
    &&& s[id] is Some
    &&& s[id]->0.kind() == kind
}

/// Index-stable storage for heterogeneous game objects. A slot is either
/// empty — never filled, currently borrowed out, or permanently deleted —
/// or holds exactly one object. Once created, a slot's index never moves
/// or is reused for the lifetime of the arena (until `clear` starts a new
/// generation).
pub struct Scene {
    slots: Vec<Option<Object>>,
}

impl View for Scene {
    type V = Seq<Option<ObjectV>>;

    closed spec fn view(&self) -> Seq<Option<ObjectV>> {
        Seq::new(
            self.slots@.len(),
            |i: int|
                match self.slots@[i] {
                    Some(o) => Some(o@),
                    None => None,
                },
        )
    }
}

impl Scene {
    /// An empty arena.
    pub fn new() -> (s: Scene)
        ensures
            s@ == Seq::<Option<ObjectV>>::empty(),
    {
        let s = Scene { slots: Vec::new() };
        proof {
            assert(s@ =~= Seq::<Option<ObjectV>>::empty());
        }
        s
    }

    /// True when slot `id` currently holds an object.
    pub open spec fn live(self, id: int) -> bool {
        0 <= id < self@.len() && self@[id] is Some
    }

    /// True when `h` can be acquired on this arena.
    pub open spec fn can_get(self, h: GameObject) -> bool {
        spec_can_get(self@, h.id as int, h.kind)
    }

    /// Number of slots ever created in this generation.
    pub fn len(&self) -> (n: usize)
        ensures
            n == self@.len(),
    {
        self.slots.len()
    }

    /// Whether slot `id` currently holds an object.
    pub fn has(&self, id: usize) -> (b: bool)
        ensures
            b == self.live(id as int),
    {
        id < self.slots.len() && self.slots[id].is_some()
    }

    /// The kind of the object in slot `id`, if the slot is live.
    pub fn kind_at(&self, id: usize) -> (k: Option<ObjectKind>)
        ensures
            match k {
                Some(kind) => self.live(id as int) && self@[id as int]->0.kind() == kind,
                None => !self.live(id as int),
            },
    {
        if id < self.slots.len() {
            match &self.slots[id] {
                Some(o) => Some(o.kind()),
                None => None,
            }
        } else {
            None
        }
    }
}

/// An opaque, copyable reference to an arena slot: the slot's index plus a
/// static kind marker. It carries no ownership; equality is by index (and
/// marker). It is useful only while its slot has not been permanently
/// deleted.
#[derive(Clone, Copy, PartialEq, Eq, Structural, Debug)]
pub struct GameObject {
    pub id: usize,
    pub kind: ObjectKind,
}

/// A temporary exclusive borrow of one arena slot's object. Acquiring
/// moves the object out of its slot into the guard; `release` writes it
/// back to the same index, unless `delete` was called, in which case the
/// slot stays permanently empty.
pub struct GameObjectRef {
    object: Object,
    id: usize,
    deleted: bool,
}

impl GameObjectRef {
    /// The index of the slot this guard was taken from.
    pub closed spec fn id_spec(&self) -> int {
        self.id as int
    }

    /// Whether the borrowed object is marked for permanent deletion.
    pub closed spec fn deleted_spec(&self) -> bool {
        self.deleted
    }

    /// Model of the borrowed object.
    pub closed spec fn object_view(&self) -> ObjectV {
        self.object@
    }

    /// Read the borrowed object.
    pub fn object(&self) -> (o: &Object)
        ensures
            o@ == self.object_view(),
    {
        &self.object
    }

    /// Overwrite the borrowed object; the change is written back to the
    /// slot on release.
    pub fn set_object(&mut self, o: Object)
        ensures
            final(self).object_view() == o@,
            final(self).id_spec() == old(self).id_spec(),
            final(self).deleted_spec() == old(self).deleted_spec(),
    {
        self.object = o;
    }

    /// Swap the borrowed object for `o`, returning the previous one.
    pub fn replace_object(&mut self, o: Object) -> (prev: Object)
        ensures
            final(self).object_view() == o@,
            prev@ == old(self).object_view(),
            final(self).id_spec() == old(self).id_spec(),
            final(self).deleted_spec() == old(self).deleted_spec(),
    {
        let mut tmp = o;
        core::mem::swap(&mut tmp, &mut self.object);
        tmp
    }

    /// The index of the slot this guard was taken from.
    pub fn id(&self) -> (r: usize)
        ensures
            r as int == self.id_spec(),
    {
        self.id
    }

    /// Mark the borrowed object for deletion: on release the slot is left
    /// permanently empty instead of receiving the object back.
    pub fn delete(&mut self)
        ensures
            final(self).deleted_spec(),
            final(self).id_spec() == old(self).id_spec(),
            final(self).object_view() == old(self).object_view(),
    {
        self.deleted = true;
    }

    /// Whether `delete` has been called on this guard.
    pub fn is_deleted(&self) -> (r: bool)
        ensures
            r == self.deleted_spec(),
    {
        self.deleted
    }

    /// End the borrow: write the object back into its slot, or leave the
    /// slot permanently empty if the guard was marked deleted.
    pub fn release(self, scene: &mut Scene)
        requires
            !self.deleted_spec() ==> {
                &&& 0 <= self.id_spec() < old(scene)@.len()
                &&& old(scene)@[self.id_spec()] is None
            },
        ensures
            final(scene)@ == if self.deleted_spec() {
                old(scene)@
            } else {
                old(scene)@.update(self.id_spec(), Some(self.object_view()))
            },
    {
        if !self.deleted {
            let ghost v = self.object_view();
            let mut slot: Option<Object> = Some(self.object);
            core::mem::swap(&mut slot, &mut scene.slots[self.id]);
            proof {
                assert(scene@ =~= old(scene)@.update(self.id_spec(), Some(v)));
            }
        }
    }
}

impl GameObject {
    /// Insert an object into a fresh slot and return a handle to it. The
    /// new slot's index is the previous length of the arena; all existing
    /// slots keep their indices and contents.
    pub fn new(scene: &mut Scene, data: Object) -> (h: GameObject)
        ensures
            final(scene)@ == old(scene)@.push(Some(data@)),
            h.id as int == old(scene)@.len(),
            h.kind == data@.kind(),
    {
        let id = scene.slots.len();
        let kind = data.kind();
        scene.slots.push(Some(data));
        proof {
            assert(scene@ =~= old(scene)@.push(Some(data@)));
        }
        GameObject { id, kind }
    }

    /// Acquire exclusive access to the object this handle refers to,
    /// moving it out of its slot into the returned guard. Acquiring an
    /// empty slot — never allocated, currently borrowed, or deleted — or
    /// one holding a different kind is a caller defect; the precondition
    /// rules it out, and `try_get` reports it as a fatal error instead.
    pub fn get(&self, scene: &mut Scene) -> (g: GameObjectRef)
        requires
            old(scene).can_get(*self),
        ensures
            g.id_spec() == self.id as int,
            !g.deleted_spec(),
            Some(g.object_view()) == old(scene)@[self.id as int],
            final(scene)@ == old(scene)@.update(self.id as int, None),
    {
        let taken = scene.slots[self.id].take();
        let object = taken.unwrap();
        proof {
            assert(scene@ =~= old(scene)@.update(self.id as int, None));
        }
        GameObjectRef { object, id: self.id, deleted: false }
    }

    /// Acquire like `get`, but report the invariant violation as a value:
    /// `Err(InvariantViolation)` exactly when the slot is empty (never
    /// allocated, borrowed out, or deleted) or holds a different kind, in
    /// which case the arena is unchanged.
    pub fn try_get(&self, scene: &mut Scene) -> (r: Result<GameObjectRef, FatalError>)
        ensures
            match r {
                Ok(g) => {
                    &&& old(scene).can_get(*self)
                    &&& g.id_spec() == self.id as int
                    &&& !g.deleted_spec()
                    &&& Some(g.object_view()) == old(scene)@[self.id as int]
                    &&& final(scene)@ == old(scene)@.update(self.id as int, None)
                },
                Err(e) => {
                    &&& e == FatalError::InvariantViolation
                    &&& !old(scene).can_get(*self)
                    &&& *final(scene) == *old(scene)
                },
            },
    {
        let ok = match scene.kind_at(self.id) {
            Some(k) => k == self.kind,
            None => false,
        };
        if ok {
            Ok(self.get(scene))
        } else {
            Err(FatalError::InvariantViolation)
        }
    }
}

/// Empty the whole arena, ending the current generation. Every slot and
/// every outstanding handle becomes invalid.
pub fn clear(scene: &mut Scene)
    ensures
        final(scene)@ == Seq::<Option<ObjectV>>::empty(),
{
    scene.slots.clear();
    proof {
        assert(scene@ =~= Seq::<Option<ObjectV>>::empty());
    }
}

/// Law: a handle returned by allocation is immediately acquirable, and
/// the object acquired through it equals the object allocated. `s` is the
/// arena before the allocation, `v` the allocated object: allocation
/// yields the arena `s.push(Some(v))` and the handle `(s.len(), v.kind())`,
/// on which acquiring succeeds and returns exactly `v`.
pub proof fn lemma_new_then_get(s: Seq<Option<ObjectV>>, v: ObjectV)
    ensures
        spec_can_get(s.push(Some(v)), s.len() as int, v.kind()),
        s.push(Some(v))[s.len() as int] == Some(v),
{
}

/// Law: acquire, mutate, release, acquire round-trips. Acquiring emptied
/// slot `id` (the arena `s` with `s[id] is None`), then releasing a guard
/// carrying the mutated object `w`, leaves an arena in which acquiring
/// slot `id` succeeds and observes exactly `w`.
pub proof fn lemma_release_then_get(s: Seq<Option<ObjectV>>, id: int, w: ObjectV)
    requires
        0 <= id < s.len(),
        s[id] is None,
    ensures
        spec_can_get(s.update(id, Some(w)), id, w.kind()),
        s.update(id, Some(w))[id] == Some(w),
{
}

/// Law: deletion is permanent. Once a deleted guard has been released the
/// slot is empty, so acquiring it fails — for every kind — and it stays
/// empty under every further allocation and under every acquire or
/// release that touches another slot.
pub proof fn lemma_deleted_slot_stays_empty(s: Seq<Option<ObjectV>>, id: int)
    requires
        0 <= id < s.len(),
        s[id] is None,
    ensures
        forall|k: ObjectKind| !spec_can_get(s, id, k),
        forall|v: ObjectV| #[trigger] s.push(Some(v))[id] is None,
        forall|j: int, c: Option<ObjectV>|
            0 <= j < s.len() && j != id ==> #[trigger] s.update(j, c)[id] is None,
{
}

/// Law: `delete` on a guard makes every subsequent acquire of its handle
/// a fatal invariant violation. Starting from any arena where `h` is
/// acquirable: acquiring takes the object out (`get`'s contract yields
/// the arena updated to `None` at the slot), a deleted guard's release
/// leaves that arena unchanged, and on the resulting arena no acquire of
/// the slot can succeed for any kind — so `try_get` returns
/// `Err(InvariantViolation)` and leaves the arena as it is — and the slot
/// stays empty under every further allocation and under every acquire or
/// release that touches another slot.
pub proof fn lemma_delete_then_get_fails(s: Seq<Option<ObjectV>>, h: GameObject)
    requires
        spec_can_get(s, h.id as int, h.kind),
    ensures
        ({
            let after = s.update(h.id as int, None);
            &&& forall|k: ObjectKind| !spec_can_get(after, h.id as int, k)
            &&& forall|v: ObjectV| #[trigger] after.push(Some(v))[h.id as int] is None
            &&& forall|j: int, c: Option<ObjectV>|
                0 <= j < after.len() && j != h.id as int ==> #[trigger] after.update(j, c)[h.id
                    as int] is None
        }),
{
    lemma_deleted_slot_stays_empty(s.update(h.id as int, None), h.id as int);
}

/// The live entries of `s`, in slot order: one `(index, kind)` pair per
/// slot that currently holds an object.
pub open spec fn spec_live_entries(s: Seq<Option<ObjectV>>) -> Seq<(usize, ObjectKind)>
    decreases s.len(),
{
    if s.len() == 0 {
        Seq::empty()
    } else {
        spec_live_entries(s.drop_last()) + match s.last() {
            Some(o) => seq![((s.len() - 1) as usize, o.kind())],
            None => Seq::empty(),
        }
    }
}

/// Visit every live object: the `(index, kind)` of each occupied slot, in
/// index order. Callers test the kind before acquiring a slot's handle;
/// several concrete kinds may coexist in one arena.
pub fn all_scene_objects(scene: &Scene) -> (r: Vec<(usize, ObjectKind)>)
    ensures
        r@ == spec_live_entries(scene@),
{
    let mut r: Vec<(usize, ObjectKind)> = Vec::new();
    let n = scene.len();
    let mut i: usize = 0;
    while i < n
        invariant
            i <= n,
            n == scene@.len(),
            r@ == spec_live_entries(scene@.take(i as int)),
        decreases n - i,
    {
        proof {
            assert(scene@.take(i as int + 1).drop_last() =~= scene@.take(i as int));
            assert(scene@.take(i as int + 1).last() == scene@[i as int]);
        }
        match scene.kind_at(i) {
            Some(k) => {
                r.push((i, k));
            },
            None => {},
        }
        i = i + 1;
    }
    proof {
        assert(scene@.take(n as int) =~= scene@);
    }
    r
}

} // verus!
