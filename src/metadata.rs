use vstd::prelude::*;

use crate::ID;

verus! {

/// Bookkeeping for one position of dense storage.
#[derive(Clone, Copy, Debug, PartialEq, Eq, Hash, Structural)]
pub struct Metadata {
    /// The logical ID of the object at this position; for a free position,
    /// the ID that this position hands out when it is reused.
    pub reverse_id: ID,
    /// The generation of this position, bumped each time it is vacated or
    /// reused. A handle is valid while it carries the current generation.
    pub validity_id: ID,
}

impl Metadata {
    pub fn new(reverse_id: ID, validity_id: ID) -> (r: Self)
        ensures
            r.reverse_id == reverse_id,
            r.validity_id == validity_id,
    {
        Self { reverse_id, validity_id }
    }
}

impl Default for Metadata {
    fn default() -> (r: Self)
        ensures
            r.reverse_id == 0,
            r.validity_id == 0,
    {
        Self { reverse_id: 0, validity_id: 0 }
    }
}

} // verus!
