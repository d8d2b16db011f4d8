use vstd::prelude::*;

verus! {

/// The kinds of vegetation that the generator can ask to be grown.
#[derive(Clone, Copy, Debug, PartialEq, Eq, Hash, Structural)]
pub enum Tree {
    Oak,
    Spruce,
    Birch,
    Acacia,
    Palm,
    Cypress,
    Sequoia,
    Baobab,
    Cactus,
    Bamboo,
}

} // verus!
