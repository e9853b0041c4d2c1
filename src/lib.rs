//! A generational slot map: a container that hands out stable, checked
//! handles to the objects it stores.
use vstd::prelude::*;

pub mod handle;
pub mod metadata;
pub mod vector;

pub use crate::handle::Handle;
pub use crate::metadata::Metadata;
pub use crate::vector::Vector;

verus! {

/// A logical ID. It names an object for as long as the object lives and does
/// not change when other objects are removed, unlike the object's position in
/// dense storage.
pub type ID = usize;

/// An ID that no slot map ever hands out.
pub const INVALID_ID: usize = usize::MAX;

} // verus!
