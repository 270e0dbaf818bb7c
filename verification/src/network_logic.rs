//! The component that answers the server's messages.
use vstd::prelude::*;

verus! {

/// Makes the client send the network events that the server's state asks
/// for (such as "ready" once the map is loaded); it keeps no state.
pub struct NetworkLogic {}

impl NetworkLogic {
    pub fn new() -> (r: NetworkLogic)
        ensures
            r == (NetworkLogic {}),
    {
        NetworkLogic {}
    }
}

} // verus!
