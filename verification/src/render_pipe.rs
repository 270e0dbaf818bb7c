//! What the render pipeline knows of the client.
use vstd::prelude::*;

verus! {

/// Marker for the client the render pipeline belongs to.
pub trait ClientInterface {}

} // verus!
