use vstd::prelude::*;

verus! {

/// What each processor keeps for itself; cores are numbered in the order they come online.
pub struct CoreLocal {
    pub core_id: u32,
}

impl CoreLocal {
    pub fn core_id(&self) -> (r: u32)
        ensures
            r == self.core_id,
    {
        self.core_id
    }
}

} // verus!
