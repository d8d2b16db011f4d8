use vstd::prelude::*;

verus! {

/// The material that occupies one cell of the world.
///
/// `Air` is the empty voxel: it is what a cell holds until something is written to it.
#[derive(Clone, Copy, Debug, PartialEq, Eq, Hash, Structural)]
pub enum Bloc {
    Air,
    Dirt,
    Grass,
    Stone,
    Granite,
    Sand,
    Sandstone,
    Mud,
    Podzol,
    Snow,
    Ice,
    Log,
    Leaves,
}

impl Default for Bloc {
    fn default() -> (bloc: Bloc)
        ensures
            bloc == Bloc::Air,
    {
        Bloc::Air
    }
}

impl Bloc {
    /// Whether this is the empty voxel.
    pub open spec fn empty(self) -> bool {
        self == Bloc::Air
    }

    #[verifier::when_used_as_spec(empty)]
    pub fn is_empty(self) -> (empty: bool)
        ensures
            empty == self.empty(),
    {
        self == Bloc::Air
    }
}

} // verus!
