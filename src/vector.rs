use vstd::prelude::*;

use crate::handle::Handle;
use crate::metadata::Metadata;
use crate::ID;

verus! {

/// A vector that gives each stored object a stable logical ID.
///
/// Objects sit compacted in `data`. Position `p` of `data` is described by
/// `metadata[p]`, which names the ID of the object there and the position's
/// generation. `indices[id]` gives the position of the object with ID `id`.
/// Entries of `metadata` beyond the end of `data` describe free positions:
/// `metadata[data.len()]` names the ID that the next insertion reuses.
#[derive(Clone, Debug, PartialEq, Eq, Hash)]
pub struct Vector<T> {
    data: Vec<T>,
    metadata: Vec<Metadata>,
    indices: Vec<ID>,
}

/// Relies on Vec::capacity: the capacity is never below the length.
#[verifier::external_body]
fn vec_capacity<T>(v: &Vec<T>) -> (r: usize)
    ensures
        r >= v@.len(),
{
    v.capacity()
}

impl<T> Vector<T> {
    /// The stored objects, in dense order.
    pub closed spec fn values(self) -> Seq<T> {
        self.data@
    }

    /// The logical ID described by each position, live ones first.
    pub closed spec fn slot_ids(self) -> Seq<usize> {
        self.metadata@.map_values(|m: Metadata| m.reverse_id)
    }

    /// The generation of each position.
    pub closed spec fn slot_gens(self) -> Seq<usize> {
        self.metadata@.map_values(|m: Metadata| m.validity_id)
    }

    /// The position that the logical ID `id` refers to.
    pub closed spec fn position(self, id: int) -> int {
        self.indices@[id] as int
    }

    /// `self` and `other` agree on the ID and generation of every position
    /// and on the position of every ID; only the stored objects may differ.
    pub open spec fn same_slots(self, other: Self) -> bool {
        &&& self.slot_ids() == other.slot_ids()
        &&& self.slot_gens() == other.slot_gens()
        &&& forall|j: int| #![trigger self.position(j)] self.position(j) == other.position(j)
    }

    /// What well-formedness gives a caller: positions and IDs invert each
    /// other, and the live positions come first.
    pub open spec fn layout(self) -> bool {
        &&& self.values().len() <= self.slot_count()
        &&& self.slot_gens().len() == self.slot_count()
        &&& forall|p: int|
            #![trigger self.slot_ids()[p]]
            0 <= p < self.slot_count() ==> {
                &&& (self.slot_ids()[p] as int) < self.slot_count()
                &&& self.position(self.slot_ids()[p] as int) == p
            }
        &&& forall|i: int|
            #![trigger self.position(i)]
            0 <= i < self.slot_count() ==> {
                &&& 0 <= self.position(i) < self.slot_count()
                &&& self.slot_ids()[self.position(i)] == i
            }
    }

    /// `slot_ids` and `indices` are inverse permutations, and every live
    /// position has a slot.
    pub closed spec fn wf(self) -> bool {
        &&& self.data@.len() <= self.metadata@.len()
        &&& self.indices@.len() == self.metadata@.len()
        &&& forall|p: int|
            #![trigger self.metadata@[p]]
            0 <= p < self.metadata@.len() ==> {
                &&& (self.metadata@[p].reverse_id as int) < self.indices@.len()
                &&& self.indices@[self.metadata@[p].reverse_id as int] == p
            }
        &&& forall|i: int|
            #![trigger self.indices@[i]]
            0 <= i < self.indices@.len() ==> {
                &&& (self.indices@[i] as int) < self.metadata@.len()
                &&& self.metadata@[self.indices@[i] as int].reverse_id == i
            }
    }

    /// A well-formed vector has the layout that `layout` describes.
    pub proof fn lemma_wf_layout(self)
        requires
            self.wf(),
        ensures
            self.layout(),
    {
        assert forall|p: int| 0 <= p < self.slot_count() implies {
            &&& (self.slot_ids()[p] as int) < self.slot_count()
            &&& self.position(self.slot_ids()[p] as int) == p
        } by {
            assert(self.slot_ids()[p] == self.metadata@[p].reverse_id);
        }
        assert forall|i: int| 0 <= i < self.slot_count() implies {
            &&& 0 <= self.position(i) < self.slot_count()
            &&& self.slot_ids()[self.position(i)] == i
        } by {
            assert(self.indices@[i] == self.indices@[i]);
        }
    }

    /// The number of logical IDs handed out so far, live or free.
    pub open spec fn slot_count(self) -> nat {
        self.slot_ids().len()
    }

    /// The current generation of the logical ID `id`.
    pub open spec fn generation(self, id: int) -> usize {
        self.slot_gens()[self.position(id)]
    }

    /// `id` names an object that is stored now.
    pub open spec fn is_live(self, id: int) -> bool {
        0 <= id < self.slot_count() && 0 <= self.position(id) < self.values().len()
    }

    /// The object that the live ID `id` names.
    pub open spec fn value_of(self, id: int) -> T {
        self.values()[self.position(id)]
    }

    /// Some position beyond the live ones is free for reuse.
    pub open spec fn has_free_slot(self) -> bool {
        self.values().len() < self.slot_count()
    }

    /// The logical ID that the next insertion hands out.
    pub open spec fn next_id_spec(self) -> int {
        if self.has_free_slot() {
            self.slot_ids()[self.values().len() as int] as int
        } else {
            self.values().len() as int
        }
    }

    /// What a handle made of `id` and `validity_id` refers to: the object
    /// named by `id` when it is live and carries that generation.
    pub open spec fn resolve(self, id: int, validity_id: int) -> Option<T> {
        if self.is_live(id) && validity_id == self.generation(id) {
            Some(self.value_of(id))
        } else {
            None
        }
    }

    /// The next insertion cannot overflow a generation or the ID space.
    pub open spec fn can_push(self) -> bool {
        if self.has_free_slot() {
            self.slot_gens()[self.values().len() as int] < usize::MAX
        } else {
            self.slot_count() < usize::MAX
        }
    }

    /// IDs other than `id` keep their liveness, generation and object from
    /// `self` to `next`.
    pub open spec fn others_unchanged(self, next: Self, id: int) -> bool {
        forall|j: int|
            #![trigger next.is_live(j)]
            #![trigger next.generation(j)]
            #![trigger next.value_of(j)]
            0 <= j < self.slot_count() && j != id ==> {
                &&& next.is_live(j) == self.is_live(j)
                &&& next.generation(j) == self.generation(j)
                &&& self.is_live(j) ==> next.value_of(j) == self.value_of(j)
            }
    }

    /// `next` is `self` after `object` was inserted under the ID `id`.
    pub open spec fn pushed(self, next: Self, object: T, id: int) -> bool {
        let n = self.values().len() as int;
        &&& id == self.next_id_spec()
        &&& next.values() == self.values().push(object)
        &&& !self.is_live(id)
        &&& next.is_live(id)
        &&& next.value_of(id) == object
        &&& next.position(id) == n
        &&& if self.has_free_slot() {
            &&& next.slot_ids() == self.slot_ids()
            &&& next.slot_gens() == self.slot_gens().update(n, (self.slot_gens()[n] + 1) as usize)
            &&& next.generation(id) == self.generation(id) + 1
        } else {
            &&& id == self.slot_count()
            &&& next.slot_ids() == self.slot_ids().push(id as usize)
            &&& next.slot_gens() == self.slot_gens().push(0)
            &&& next.generation(id) == 0
        }
        &&& forall|j: int| #![trigger next.is_live(j)] next.is_live(j) == (self.is_live(j) || j == id)
        &&& self.others_unchanged(next, id)
    }

    /// `next` is `self` after the live object with ID `id` was removed: the
    /// last object moved into its position, and its generation went up.
    pub open spec fn erased(self, next: Self, id: int) -> bool {
        let p = self.position(id);
        let l = self.values().len() - 1;
        &&& next.values() == self.values().update(p, self.values().last()).drop_last()
        &&& next.values().len() == self.values().len() - 1
        &&& next.slot_ids() == self.slot_ids().update(p, self.slot_ids()[l]).update(l, id as usize)
        &&& next.slot_gens() == self.slot_gens().update(p, self.slot_gens()[l]).update(
            l,
            (self.slot_gens()[p] + 1) as usize,
        )
        &&& next.slot_count() == self.slot_count()
        &&& next.position(self.slot_ids()[l] as int) == p
        &&& next.position(id) == l
        &&& next.has_free_slot()
        &&& !next.is_live(id)
        &&& next.generation(id) == self.generation(id) + 1
        &&& next.next_id_spec() == id
        &&& self.others_unchanged(next, id)
    }

    /// No ID known to `self` is forgotten by `next` or has its generation
    /// lowered there.
    pub open spec fn gens_grow(self, next: Self) -> bool {
        &&& self.slot_count() <= next.slot_count()
        &&& forall|j: int|
            #![trigger next.generation(j)]
            0 <= j < self.slot_count() ==> self.generation(j) <= next.generation(j)
    }

    /// `next` is `self` after every object was removed and every generation
    /// went up by one.
    pub open spec fn cleared(self, next: Self) -> bool {
        &&& next.values() == Seq::<T>::empty()
        &&& next.slot_ids() == self.slot_ids()
        &&& forall|j: int|
            #![trigger next.position(j)]
            0 <= j < self.slot_count() ==> next.position(j) == self.position(j)
        &&& self.slot_count() > 0 ==> 0 <= next.next_id_spec() < self.slot_count()
        &&& next.slot_gens().len() == self.slot_gens().len()
        &&& forall|p: int|
            0 <= p < self.slot_count() ==> #[trigger] next.slot_gens()[p] == self.slot_gens()[p] + 1
        &&& forall|j: int|
            #![trigger next.generation(j)]
            0 <= j < self.slot_count() ==> {
                &&& !next.is_live(j)
                &&& next.generation(j) == self.generation(j) + 1
            }
    }

    /// Places `object` at the end of dense storage, under a reused ID if one
    /// is free (the most recently freed one), else under a new one, and
    /// returns that ID.
    ///
    /// A reused slot's generation goes up once more on reuse, on top of the
    /// raise when it was vacated. This is deliberate: the generation that a
    /// vacated slot shows (which `get_validity_id` reports and a handle can
    /// be built from) is never the one its next object gets, so a handle
    /// made while the slot was free cannot reach that object.
    pub fn push(&mut self, object: T) -> (r: ID)
        requires
            old(self).wf(),
            old(self).can_push(),
        ensures
            final(self).wf(),
            old(self).pushed(*final(self), object, r as int),
            old(self).gens_grow(*final(self)),
    {
        let id = self.get_free_slot();
        self.data.push(object);
        proof {
            assert forall|j: int| 0 <= j < old(self).slot_count() && j != id implies {
                &&& self.position(j) == old(self).position(j)
                &&& self.slot_gens()[self.position(j)] == old(self).slot_gens()[old(self).position(
                    j,
                )]
            } by {
                assert(self.indices@[j] == old(self).indices@[j]);
                assert(self.metadata@[self.indices@[j] as int].reverse_id == j);
            }
            assert(old(self).others_unchanged(*self, id as int));
        }
        id
    }

    /// Takes a free position at the end of dense storage for the next
    /// insertion and returns the ID it hands out.
    fn get_free_slot(&mut self) -> (r: ID)
        requires
            old(self).wf(),
            old(self).can_push(),
        ensures
            final(self).wf(),
            final(self).values() == old(self).values(),
            r == old(self).next_id_spec(),
            final(self).has_free_slot(),
            final(self).slot_ids()[final(self).values().len() as int] == r,
            final(self).position(r as int) == final(self).values().len(),
            if old(self).has_free_slot() {
                &&& final(self).slot_ids() == old(self).slot_ids()
                &&& final(self).indices@ == old(self).indices@
                &&& final(self).slot_gens() == old(self).slot_gens().update(
                    old(self).values().len() as int,
                    (old(self).slot_gens()[old(self).values().len() as int] + 1) as usize,
                )
            } else {
                &&& final(self).slot_ids() == old(self).slot_ids().push(r)
                &&& final(self).slot_gens() == old(self).slot_gens().push(0)
                &&& final(self).indices@ == old(self).indices@.push(r)
            },
    {
        let id = self.get_free_id();
        let n = self.data.len();
        proof {
            assert(self.indices@.update(id as int, n) =~= self.indices@);
        }
        self.indices.set(id, n);
        id
    }

    /// Returns the ID that the next insertion hands out: the one at the free
    /// boundary position, whose generation goes up, or a new one.
    fn get_free_id(&mut self) -> (r: ID)
        requires
            old(self).wf(),
            old(self).can_push(),
        ensures
            final(self).wf(),
            final(self).data == old(self).data,
            r == old(self).next_id_spec(),
            final(self).has_free_slot(),
            final(self).slot_ids()[final(self).values().len() as int] == r,
            if old(self).has_free_slot() {
                &&& final(self).slot_ids() == old(self).slot_ids()
                &&& final(self).indices@ == old(self).indices@
                &&& final(self).slot_gens() == old(self).slot_gens().update(
                    old(self).values().len() as int,
                    (old(self).slot_gens()[old(self).values().len() as int] + 1) as usize,
                )
            } else {
                &&& final(self).slot_ids() == old(self).slot_ids().push(r)
                &&& final(self).slot_gens() == old(self).slot_gens().push(0)
                &&& final(self).indices@ == old(self).indices@.push(r)
            },
    {
        let n = self.data.len();
        if self.metadata.len() > n {
            let mut md = self.metadata[n];
            md.validity_id = md.validity_id + 1;
            self.metadata.set(n, md);
            proof {
                assert(self.slot_ids() =~= old(self).slot_ids());
                assert(self.slot_gens() =~= old(self).slot_gens().update(
                    n as int,
                    (old(self).slot_gens()[n as int] + 1) as usize,
                ));
            }
            return self.metadata[n].reverse_id;
        }
        let new_id = n;
        self.metadata.push(Metadata::new(new_id, 0));
        self.indices.push(new_id);
        proof {
            assert(self.slot_ids() =~= old(self).slot_ids().push(new_id));
            assert(self.slot_gens() =~= old(self).slot_gens().push(0));
        }
        new_id
    }

    /// Removes the live object with ID `id`: its generation goes up, which
    /// invalidates every handle to it, and the last object moves into its
    /// position. Handles to all other objects stay valid.
    pub fn erase_by_id(&mut self, id: ID)
        requires
            old(self).wf(),
            old(self).is_live(id as int),
            old(self).generation(id as int) < usize::MAX,
        ensures
            final(self).wf(),
            old(self).erased(*final(self), id as int),
            old(self).gens_grow(*final(self)),
    {
        let data_id = self.indices[id];
        let last_data_id = self.data.len() - 1;
        let last_id = self.metadata[last_data_id].reverse_id;

        let mut erased_md = self.metadata[data_id];
        erased_md.validity_id = erased_md.validity_id + 1;
        let last_md = self.metadata[last_data_id];
        self.metadata.set(data_id, last_md);
        self.metadata.set(last_data_id, erased_md);

        let moved_index = self.indices[last_id];
        self.indices.set(id, moved_index);
        self.indices.set(last_id, data_id);
        let _removed = self.data.swap_remove(data_id);
        proof {
            let o = *old(self);
            let p = data_id as int;
            let l = last_data_id as int;
            assert(self.slot_ids() =~= o.slot_ids().update(p, o.slot_ids()[l]).update(
                l,
                id,
            ));
            assert(self.slot_gens() =~= o.slot_gens().update(p, o.slot_gens()[l]).update(
                l,
                (o.slot_gens()[p] + 1) as usize,
            ));
            assert forall|q: int| 0 <= q < self.metadata@.len() implies {
                &&& (self.metadata@[q].reverse_id as int) < self.indices@.len()
                &&& self.indices@[self.metadata@[q].reverse_id as int] == q
            } by {
                assert(o.metadata@[q].reverse_id == o.slot_ids()[q]);
            }
            assert forall|i: int| 0 <= i < self.indices@.len() implies {
                &&& (self.indices@[i] as int) < self.metadata@.len()
                &&& self.metadata@[self.indices@[i] as int].reverse_id == i
            } by {
                assert(o.metadata@[o.indices@[i] as int].reverse_id == i);
            }
            assert(self.wf());
            assert(self.slot_ids()[self.values().len() as int] == id);
        }
    }

    /// Removes the object at position `index` of dense storage.
    pub fn erase_by_data(&mut self, index: usize)
        requires
            old(self).wf(),
            index < old(self).values().len(),
            old(self).slot_gens()[index as int] < usize::MAX,
        ensures
            final(self).wf(),
            old(self).is_live(old(self).slot_ids()[index as int] as int),
            old(self).position(old(self).slot_ids()[index as int] as int) == index,
            old(self).erased(*final(self), old(self).slot_ids()[index as int] as int),
            old(self).gens_grow(*final(self)),
    {
        let id = self.metadata[index].reverse_id;
        self.erase_by_id(id);
    }

    /// Removes the object with the handle's ID. The handle's generation is
    /// not checked: where the ID was reused, the object now under it goes.
    pub fn erase_by_handle(&mut self, handle: &Handle<T>)
        requires
            old(self).wf(),
            old(self).is_live(handle.id as int),
            old(self).generation(handle.id as int) < usize::MAX,
        ensures
            final(self).wf(),
            old(self).erased(*final(self), handle.id as int),
            old(self).gens_grow(*final(self)),
    {
        self.erase_by_id(handle.get_id());
    }

    /// The position in dense storage that the ID `id` refers to.
    pub fn get_data_index(&self, id: ID) -> (r: usize)
        requires
            self.wf(),
            id < self.slot_count(),
        ensures
            r == self.position(id as int),
            r < self.slot_count(),
            self.slot_ids()[r as int] == id,
    {
        self.indices[id]
    }

    /// The number of stored objects.
    pub fn len(&self) -> (r: usize)
        ensures
            r == self.values().len(),
    {
        self.data.len()
    }

    /// No object is stored.
    pub fn is_empty(&self) -> (r: bool)
        ensures
            r == (self.values().len() == 0),
    {
        self.data.is_empty()
    }

    /// The number of objects that dense storage holds without reallocating.
    pub fn capacity(&self) -> (r: usize)
        ensures
            r >= self.values().len(),
    {
        vec_capacity(&self.data)
    }

    /// A handle to the object with ID `id`, carrying its current generation;
    /// none where `id` names no live object.
    pub fn create_handle(&self, id: ID) -> (r: Option<Handle<T>>)
        requires
            self.wf(),
        ensures
            r is Some <==> self.is_live(id as int),
            r matches Some(h) ==> h.id == id && h.validity_id == self.generation(id as int),
    {
        if id >= self.indices.len() {
            return None;
        }
        let data_index = self.get_data_index(id);
        if data_index >= self.data.len() {
            return None;
        }
        Some(Handle::new(id, self.metadata[data_index].validity_id))
    }

    /// A handle to the object at position `index` of dense storage; none
    /// where no object is there.
    pub fn create_handle_from_data(&self, index: usize) -> (r: Option<Handle<T>>)
        requires
            self.wf(),
        ensures
            r is Some <==> index < self.values().len(),
            r matches Some(h) ==> {
                &&& h.id == self.slot_ids()[index as int]
                &&& self.is_live(h.id as int)
                &&& self.position(h.id as int) == index
                &&& h.validity_id == self.generation(h.id as int)
            },
    {
        if index >= self.data.len() {
            return None;
        }
        Some(Handle::new(self.metadata[index].reverse_id, self.metadata[index].validity_id))
    }

    /// Whether `validity_id` is the current generation of the ID `id`.
    pub fn is_valid(&self, id: ID, validity_id: ID) -> (r: bool)
        requires
            self.wf(),
            id < self.slot_count(),
        ensures
            r == (validity_id == self.generation(id as int)),
    {
        validity_id == self.metadata[self.indices[id]].validity_id
    }

    /// The current generation of the ID `id`.
    pub fn get_validity_id(&self, id: ID) -> (r: ID)
        requires
            self.wf(),
            id < self.slot_count(),
        ensures
            r == self.generation(id as int),
    {
        self.metadata[self.indices[id]].validity_id
    }

    /// The ID that the next insertion hands out.
    pub fn get_next_id(&self) -> (r: ID)
        requires
            self.wf(),
        ensures
            r == self.next_id_spec(),
            !self.is_live(r as int),
            r <= self.slot_count(),
            (r == self.slot_count()) == !self.has_free_slot(),
    {
        if self.metadata.len() > self.data.len() {
            return self.metadata[self.data.len()].reverse_id;
        }
        self.data.len()
    }

    /// Whether `id` has ever been handed out, live or not.
    pub fn is_valid_id(&self, id: ID) -> (r: bool)
        requires
            self.wf(),
        ensures
            r == (id < self.slot_count()),
    {
        id < self.indices.len()
    }

    /// The object that the handle refers to; none where its ID is unknown or
    /// not live, or its generation is not current.
    pub fn get(&self, handle: &Handle<T>) -> (r: Option<&T>)
        requires
            self.wf(),
        ensures
            match r {
                Some(x) => self.resolve(handle.id as int, handle.validity_id as int) == Some(*x),
                None => self.resolve(handle.id as int, handle.validity_id as int) is None,
            },
    {
        if handle.id >= self.indices.len() {
            return None;
        }
        let data_index = self.indices[handle.id];
        if data_index >= self.data.len() {
            return None;
        }
        let current_validity = self.metadata[data_index].validity_id;
        if handle.validity_id != current_validity {
            return None;
        }
        Some(&self.data[data_index])
    }

    /// Mutable access to the object that the handle refers to, on the same
    /// terms as `get`. Only that object can change through the result.
    pub fn get_mut(&mut self, handle: &Handle<T>) -> (r: Option<&mut T>)
        requires
            old(self).wf(),
        ensures
            final(self).wf(),
            match r {
                Some(x) => {
                    &&& old(self).resolve(handle.id as int, handle.validity_id as int) == Some(*x)
                    &&& final(self).values() == old(self).values().update(
                        old(self).position(handle.id as int),
                        *final(x),
                    )
                    &&& final(self).same_slots(*old(self))
                    &&& forall|j: int, g: int|
                        j != handle.id ==> #[trigger] final(self).resolve(j, g) == old(self).resolve(j, g)
                },
                None => {
                    &&& old(self).resolve(handle.id as int, handle.validity_id as int) is None
                    &&& *final(self) == *old(self)
                },
            },
            old(self).gens_grow(*final(self)),
    {
        if handle.id >= self.indices.len() {
            return None;
        }
        let data_index = self.indices[handle.id];
        if data_index >= self.data.len() {
            return None;
        }
        let current_validity = self.metadata[data_index].validity_id;
        if handle.validity_id != current_validity {
            return None;
        }
        Some(&mut self.data[data_index])
    }

    /// Removes every object and bumps the generation of every position, so
    /// that no handle issued before stays valid. IDs are reused afterwards.
    pub fn clear(&mut self)
        requires
            old(self).wf(),
            forall|p: int|
                0 <= p < old(self).slot_count() ==> #[trigger] old(self).slot_gens()[p] < usize::MAX,
        ensures
            final(self).wf(),
            old(self).cleared(*final(self)),
            old(self).gens_grow(*final(self)),
    {
        self.data.clear();
        let n = self.metadata.len();
        let mut i: usize = 0;
        while i < n
            invariant
                0 <= i <= n,
                n == self.metadata@.len(),
                n == old(self).metadata@.len(),
                self.data@.len() == 0,
                self.indices@ == old(self).indices@,
                forall|p: int|
                    #![trigger self.metadata@[p]]
                    0 <= p < n ==> {
                        &&& self.metadata@[p].reverse_id == old(self).metadata@[p].reverse_id
                        &&& self.metadata@[p].validity_id == if p < i {
                            (old(self).metadata@[p].validity_id + 1) as usize
                        } else {
                            old(self).metadata@[p].validity_id
                        }
                    },
                forall|p: int|
                    0 <= p < old(self).slot_count() ==> #[trigger] old(self).slot_gens()[p]
                        < usize::MAX,
                old(self).wf(),
            decreases n - i,
        {
            let mut md = self.metadata[i];
            proof {
                assert(old(self).slot_gens()[i as int] == old(self).metadata@[i as int].validity_id);
            }
            md.validity_id = md.validity_id + 1;
            self.metadata.set(i, md);
            i = i + 1;
        }
        proof {
            assert(self.values() =~= Seq::<T>::empty());
            assert(self.slot_ids() =~= old(self).slot_ids());
            assert forall|p: int| 0 <= p < old(self).slot_count() implies #[trigger] self.slot_gens()[p]
                == old(self).slot_gens()[p] + 1 by {
                assert(self.metadata@[p].validity_id == (old(self).metadata@[p].validity_id + 1) as usize);
                assert(old(self).slot_gens()[p] < usize::MAX);
            }
            assert forall|j: int| 0 <= j < old(self).slot_count() implies {
                &&& !self.is_live(j)
                &&& self.generation(j) == old(self).generation(j) + 1
            } by {
                let p = self.indices@[j] as int;
                assert(self.metadata@[p].validity_id == (old(self).metadata@[p].validity_id + 1) as usize);
                assert(old(self).slot_gens()[p] < usize::MAX);
            }
        }
    }

    /// Makes room for `size` more objects without changing the contents.
    pub fn reserve(&mut self, size: usize)
        requires
            old(self).wf(),
        ensures
            final(self).wf(),
            final(self).values() == old(self).values(),
            final(self).same_slots(*old(self)),
            old(self).gens_grow(*final(self)),
    {
        self.data.reserve(size);
        self.metadata.reserve(size);
        self.indices.reserve(size);
    }

    /// An iterator over the stored objects, in dense order.
    pub fn iter(&self) -> (r: std::slice::Iter<'_, T>)
        ensures
            vstd::std_specs::iter::IteratorSpec::remaining(&r) == self.values().as_ref(),
    {
        self.data.iter()
    }

    /// The stored objects, in dense order, as a mutable slice: iterating it
    /// visits each object mutably. The objects' IDs and generations stay.
    ///
    /// A mutable slice rather than `std::slice::IterMut`, and no
    /// `IntoIterator for &mut Vector<T>`: vstd specifies no `IterMut`, so
    /// Verus refuses `iter_mut` on `Vec` or a slice in verified code.
    pub fn iter_mut(&mut self) -> (r: &mut [T])
        requires
            old(self).wf(),
        ensures
            r@ == old(self).values(),
            final(self).values() == final(r)@,
            final(self).same_slots(*old(self)),
            old(self).gens_grow(*final(self)),
            final(r)@.len() == r@.len() ==> final(self).wf(),
    {
        self.data.as_mut_slice()
    }

    /// The first object in dense order, if any.
    pub fn first(&self) -> (r: Option<&T>)
        ensures
            match r {
                Some(x) => self.values().len() > 0 && *x == self.values()[0],
                None => self.values().len() == 0,
            },
    {
        self.data.as_slice().first()
    }

    /// The stored objects, in dense order.
    pub fn get_data(&self) -> (r: &Vec<T>)
        ensures
            r@ == self.values(),
    {
        &self.data
    }

    /// Direct access to dense storage. The vector stays well formed only if
    /// the caller leaves its length as it was.
    pub fn get_data_mut(&mut self) -> (r: &mut Vec<T>)
        requires
            old(self).wf(),
        ensures
            r@ == old(self).values(),
            final(self).values() == final(r)@,
            final(self).same_slots(*old(self)),
            old(self).gens_grow(*final(self)),
            final(r)@.len() == r@.len() ==> final(self).wf(),
    {
        &mut self.data
    }

    /// The object with the live ID `id`, without a generation check.
    pub fn index(&self, id: ID) -> (r: &T)
        requires
            self.wf(),
            self.is_live(id as int),
        ensures
            *r == self.value_of(id as int),
    {
        let data_index = self.indices[id];
        &self.data[data_index]
    }

    /// Mutable access to the object with the live ID `id`, without a
    /// generation check.
    pub fn index_mut(&mut self, id: ID) -> (r: &mut T)
        requires
            old(self).wf(),
            old(self).is_live(id as int),
        ensures
            *r == old(self).value_of(id as int),
            final(self).wf(),
            final(self).values() == old(self).values().update(old(self).position(id as int), *final(r)),
            final(self).same_slots(*old(self)),
            forall|j: int, g: int|
                j != id ==> #[trigger] final(self).resolve(j, g) == old(self).resolve(j, g),
            old(self).gens_grow(*final(self)),
    {
        let data_index = self.indices[id];
        &mut self.data[data_index]
    }
}

impl<'a, T> IntoIterator for &'a Vector<T> {
    type Item = &'a T;

    type IntoIter = std::slice::Iter<'a, T>;

    fn into_iter(self) -> (r: std::slice::Iter<'a, T>)
        ensures
            vstd::std_specs::iter::IteratorSpec::remaining(&r) == self.values().as_ref(),
    {
        self.data.iter()
    }
}

impl<T> IntoIterator for Vector<T> {
    type Item = T;

    type IntoIter = std::vec::IntoIter<T>;

    fn into_iter(self) -> (r: std::vec::IntoIter<T>)
        ensures
            vstd::std_specs::iter::IteratorSpec::remaining(&r) == self.values(),
    {
        self.data.into_iter()
    }
}

impl<T> Default for Vector<T> {
    fn default() -> (r: Self)
        ensures
            r.wf(),
            r.values() == Seq::<T>::empty(),
            r.slot_count() == 0,
    {
        Self { data: Vec::new(), metadata: Vec::new(), indices: Vec::new() }
    }
}


/// The sum of +1 for each insertion and -1 for each erasure in `is_insert`.
pub open spec fn net_insertions(is_insert: Seq<bool>) -> int
    decreases is_insert.len(),
{
    if is_insert.len() == 0 {
        0
    } else {
        net_insertions(is_insert.drop_last()) + if is_insert.last() {
            1int
        } else {
            -1int
        }
    }
}

/// In a run of insertions, each ID handed out differs from those handed out
/// before and stays live, and a handle made right after an insertion, with
/// the generation of that moment, resolves to the inserted object in every
/// later state of the run.
pub proof fn lemma_insertions_unique_and_resolve<T>(
    states: Seq<Vector<T>>,
    objects: Seq<T>,
    ids: Seq<int>,
)
    requires
        states.len() == ids.len() + 1,
        objects.len() == ids.len(),
        states[0].wf(),
        forall|i: int|
            0 <= i < ids.len() ==> #[trigger] states[i].pushed(states[i + 1], objects[i], ids[i]),
    ensures
        forall|i: int, k: int| 0 <= i < k < ids.len() ==> ids[i] != ids[k],
        forall|i: int, k: int|
            #![trigger states[k].resolve(ids[i], states[i + 1].generation(ids[i]) as int)]
            0 <= i < k <= ids.len() ==> states[k].resolve(
                ids[i],
                states[i + 1].generation(ids[i]) as int,
            ) == Some(objects[i]),
    decreases ids.len(),
{
    if ids.len() > 0 {
        let m = ids.len() - 1;
        let s0 = states.drop_last();
        lemma_insertions_unique_and_resolve(s0, objects.drop_last(), ids.drop_last());
        assert(states[m].pushed(states[m + 1], objects[m], ids[m]));
        assert forall|i: int, k: int| 0 <= i < k < ids.len() implies ids[i] != ids[k] by {
            if k < m {
                assert(s0[k] == states[k]);
                assert(ids.drop_last()[i] == ids[i]);
                assert(ids.drop_last()[k] == ids[k]);
            } else {
                assert(s0[m] == states[m]);
                assert(s0[i + 1] == states[i + 1]);
                assert(ids.drop_last()[i] == ids[i]);
                assert(objects.drop_last()[i] == objects[i]);
                assert(states[i].pushed(states[i + 1], objects[i], ids[i]));
                if i + 1 < m {
                    assert(states[m].resolve(ids[i], states[i + 1].generation(ids[i]) as int)
                        == Some(objects[i]));
                }
                assert(states[m].is_live(ids[i]));
            }
        }
        assert forall|i: int, k: int|
            0 <= i < k <= ids.len() implies #[trigger] states[k].resolve(
            ids[i],
            states[i + 1].generation(ids[i]) as int,
        ) == Some(objects[i]) by {
            assert(states[i].pushed(states[i + 1], objects[i], ids[i]));
            if i == m {
            } else if k <= m {
                assert(s0[i + 1] == states[i + 1]);
                assert(ids.drop_last()[i] == ids[i]);
                assert(objects.drop_last()[i] == objects[i]);
                assert(s0[k] == states[k]);
            } else {
                assert(s0[i + 1] == states[i + 1]);
                assert(ids.drop_last()[i] == ids[i]);
                assert(objects.drop_last()[i] == objects[i]);
                assert(s0[m] == states[m]);
                if i + 1 < m {
                    assert(states[m].resolve(ids[i], states[i + 1].generation(ids[i]) as int)
                        == Some(objects[i]));
                }
                assert(states[m].is_live(ids[i]));
            }
        }
    }
}

/// A handle whose generation is below the current one of its ID resolves to
/// nothing in every state of a run in which no generation goes down; every
/// mutating method of `Vector` ensures that of its step.
pub proof fn lemma_stale_handle_stays_absent<T>(states: Seq<Vector<T>>, id: int, validity_id: int)
    requires
        states.len() > 0,
        0 <= id < states[0].slot_count(),
        validity_id < states[0].generation(id),
        forall|i: int| 0 <= i < states.len() - 1 ==> #[trigger] states[i].gens_grow(states[i + 1]),
    ensures
        forall|k: int|
            0 <= k < states.len() ==> {
                &&& id < states[k].slot_count()
                &&& validity_id < states[k].generation(id)
                &&& #[trigger] states[k].resolve(id, validity_id) is None
            },
    decreases states.len(),
{
    if states.len() > 1 {
        let m = states.len() - 1;
        let s0 = states.drop_last();
        assert forall|i: int| 0 <= i < s0.len() - 1 implies #[trigger] s0[i].gens_grow(s0[i + 1]) by {
            assert(states[i].gens_grow(states[i + 1]));
        }
        lemma_stale_handle_stays_absent(s0, id, validity_id);
        let i = m - 1;
        assert(s0[i] == states[i]);
        assert(states[i].gens_grow(states[i + 1]));
        assert forall|k: int| 0 <= k < states.len() implies {
            &&& id < states[k].slot_count()
            &&& validity_id < states[k].generation(id)
            &&& #[trigger] states[k].resolve(id, validity_id) is None
        } by {
            if k < m {
                assert(s0[k] == states[k]);
                assert(s0[k].resolve(id, validity_id) is None);
            } else {
                assert(s0[i].resolve(id, validity_id) is None);
                assert(states[i + 1] == states[k]);
                assert(states[k].generation(id) >= states[i].generation(id));
            }
        }
    }
}

/// A handle that was valid when its object was erased resolves to nothing
/// right after and in every later state of a run in which no generation
/// goes down.
pub proof fn lemma_erased_handle_stays_absent<T>(
    states: Seq<Vector<T>>,
    id: int,
    validity_id: int,
)
    requires
        states.len() >= 2,
        states[0].wf(),
        states[0].resolve(id, validity_id) is Some,
        states[0].erased(states[1], id),
        forall|i: int|
            1 <= i < states.len() - 1 ==> #[trigger] states[i].gens_grow(states[i + 1]),
    ensures
        forall|k: int| 1 <= k < states.len() ==> #[trigger] states[k].resolve(id, validity_id) is None,
{
    let rest = states.subrange(1, states.len() as int);
    assert(rest[0] == states[1]);
    assert forall|i: int| 0 <= i < rest.len() - 1 implies #[trigger] rest[i].gens_grow(rest[i + 1]) by {
        assert(rest[i] == states[i + 1]);
        assert(rest[i + 1] == states[i + 2]);
        assert(states[i + 1].gens_grow(states[i + 2]));
    }
    lemma_stale_handle_stays_absent(rest, id, validity_id);
    assert forall|k: int| 1 <= k < states.len() implies #[trigger] states[k].resolve(
        id,
        validity_id,
    ) is None by {
        assert(rest[k - 1] == states[k]);
    }
}

/// Erasing one object leaves what every handle to another ID resolves to
/// as it was, although the last object moved.
pub proof fn lemma_erase_keeps_other_handles<T>(
    v: Vector<T>,
    w: Vector<T>,
    erased_id: int,
    id: int,
    validity_id: int,
)
    requires
        v.wf(),
        v.is_live(erased_id),
        v.erased(w, erased_id),
        id != erased_id,
    ensures
        w.resolve(id, validity_id) == v.resolve(id, validity_id),
{
    if 0 <= id < v.slot_count() {
        assert(w.is_live(id) == v.is_live(id));
        assert(w.generation(id) == v.generation(id));
    } else {
        assert(w.slot_count() == v.slot_count());
    }
}

/// When an erased object's ID is handed out again by the next insertion,
/// the new generation differs from the one that old handles carry: an old
/// handle resolves to nothing and a new one to the new object.
pub proof fn lemma_reused_id_rejects_old_handle<T>(
    v0: Vector<T>,
    v1: Vector<T>,
    v2: Vector<T>,
    id: int,
    validity_id: int,
    object: T,
    new_id: int,
)
    requires
        v0.wf(),
        v0.resolve(id, validity_id) is Some,
        v0.erased(v1, id),
        v1.pushed(v2, object, new_id),
    ensures
        new_id == id,
        v2.generation(id) != validity_id,
        v2.resolve(id, validity_id) is None,
        v2.resolve(id, v2.generation(id) as int) == Some(object),
{
    assert(v1.has_free_slot());
}

/// Clearing leaves no object, and every handle issued before (its
/// generation is not above the current one) resolves to nothing then and in every later state of a run in which no generation
/// goes down.
pub proof fn lemma_clear_invalidates_all<T>(states: Seq<Vector<T>>, id: int, validity_id: int)
    requires
        states.len() >= 2,
        states[0].wf(),
        states[0].cleared(states[1]),
        0 <= id < states[0].slot_count(),
        validity_id <= states[0].generation(id),
        forall|i: int|
            1 <= i < states.len() - 1 ==> #[trigger] states[i].gens_grow(states[i + 1]),
    ensures
        states[1].values().len() == 0,
        forall|k: int| 1 <= k < states.len() ==> #[trigger] states[k].resolve(id, validity_id) is None,
{
    let rest = states.subrange(1, states.len() as int);
    assert(rest[0] == states[1]);
    assert(states[0].slot_ids().len() == states[1].slot_ids().len());
    assert forall|i: int| 0 <= i < rest.len() - 1 implies #[trigger] rest[i].gens_grow(rest[i + 1]) by {
        assert(rest[i] == states[i + 1]);
        assert(rest[i + 1] == states[i + 2]);
        assert(states[i + 1].gens_grow(states[i + 2]));
    }
    lemma_stale_handle_stays_absent(rest, id, validity_id);
    assert forall|k: int| 1 <= k < states.len() implies #[trigger] states[k].resolve(
        id,
        validity_id,
    ) is None by {
        assert(rest[k - 1] == states[k]);
    }
}

/// Over a run of insertions and erasures, the number of stored objects
/// changes by the number of insertions minus the number of erasures.
pub proof fn lemma_len_counts_insertions_and_erasures<T>(
    states: Seq<Vector<T>>,
    objects: Seq<T>,
    ids: Seq<int>,
    is_insert: Seq<bool>,
)
    requires
        states.len() == is_insert.len() + 1,
        objects.len() == is_insert.len(),
        ids.len() == is_insert.len(),
        forall|i: int|
            0 <= i < is_insert.len() ==> if #[trigger] is_insert[i] {
                states[i].pushed(states[i + 1], objects[i], ids[i])
            } else {
                states[i].erased(states[i + 1], ids[i]) && states[i].is_live(ids[i])
            },
    ensures
        states.last().values().len() == states[0].values().len() + net_insertions(is_insert),
    decreases is_insert.len(),
{
    if is_insert.len() > 0 {
        let m = is_insert.len() - 1;
        let s0 = states.drop_last();
        assert forall|i: int| 0 <= i < is_insert.drop_last().len() implies if #[trigger] is_insert.drop_last()[i] {
            s0[i].pushed(s0[i + 1], objects.drop_last()[i], ids.drop_last()[i])
        } else {
            s0[i].erased(s0[i + 1], ids.drop_last()[i]) && s0[i].is_live(ids.drop_last()[i])
        } by {
            assert(is_insert[i] == is_insert.drop_last()[i]);
        }
        lemma_len_counts_insertions_and_erasures(
            s0,
            objects.drop_last(),
            ids.drop_last(),
            is_insert.drop_last(),
        );
        assert(s0.last() == states[m]);
        assert(is_insert[m] == is_insert.last());
        if is_insert[m] {
            assert(states[m].pushed(states[m + 1], objects[m], ids[m]));
        } else {
            assert(states[m].erased(states[m + 1], ids[m]));
        }
    }
}

/// Writing new objects through `iter_mut` (same count) is what handles see
/// afterwards: each valid handle resolves to the new object at its position.
pub proof fn lemma_writes_through_slice_are_visible<T>(
    v: Vector<T>,
    w: Vector<T>,
    new_values: Seq<T>,
    id: int,
    validity_id: int,
)
    requires
        v.wf(),
        w.same_slots(v),
        w.values() == new_values,
        new_values.len() == v.values().len(),
    ensures
        w.resolve(id, validity_id) == if v.resolve(id, validity_id) is Some {
            Some(new_values[v.position(id)])
        } else {
            None
        },
{
}

} // verus!
