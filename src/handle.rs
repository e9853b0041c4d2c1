use vstd::prelude::*;

use crate::ID;
use std::marker::PhantomData;

verus! {

/// A checked reference to an object of a `Vector<T>`: the object's logical ID
/// together with the generation that its slot had when the handle was made.
///
/// A handle owns nothing. Only the vector that issued it can tell whether it
/// still refers to a live object; the type parameter keeps handles of one
/// element type from being used on a vector of another.
#[derive(Debug, Hash)]
pub struct Handle<T> {
    /// The logical ID of the object.
    pub id: ID,
    /// The generation of the object's slot when the handle was made.
    pub validity_id: ID,
    /// Ties the handle to the element type of its vector.
    pub _marker: PhantomData<T>,
}

impl<T> Clone for Handle<T> {
    fn clone(&self) -> (r: Self)
        ensures
            r.id == self.id,
            r.validity_id == self.validity_id,
    {
        Handle { id: self.id, validity_id: self.validity_id, _marker: PhantomData }
    }
}

impl<T> Copy for Handle<T> {}

impl<T> PartialEq for Handle<T> {
    fn eq(&self, other: &Handle<T>) -> (r: bool)
        ensures
            r == (self.id == other.id && self.validity_id == other.validity_id),
    {
        self.id == other.id && self.validity_id == other.validity_id
    }
}

impl<T> vstd::std_specs::cmp::PartialEqSpecImpl for Handle<T> {
    open spec fn obeys_eq_spec() -> bool {
        true
    }

    open spec fn eq_spec(&self, other: &Handle<T>) -> bool {
        self.id == other.id && self.validity_id == other.validity_id
    }
}

impl<T> Eq for Handle<T> {}

impl<T> Handle<T> {
    pub fn new(id: ID, validity_id: ID) -> (r: Self)
        ensures
            r.id == id,
            r.validity_id == validity_id,
    {
        Self { id, validity_id, _marker: PhantomData }
    }

    /// The logical ID of the referenced object.
    pub fn get_id(&self) -> (r: usize)
        ensures
            r == self.id,
    {
        self.id
    }
}

impl<T> Default for Handle<T> {
    fn default() -> (r: Self)
        ensures
            r.id == 0,
            r.validity_id == 0,
    {
        Self { id: 0, validity_id: 0, _marker: PhantomData }
    }
}

} // verus!
