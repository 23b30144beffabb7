use vstd::prelude::*;

verus! {

/// An opaque, stable handle of a node in the tree.
#[derive(Clone, Copy, Debug, PartialEq, Eq, Structural, Hash)]
pub struct Entity {
    pub id: usize,
}

impl Entity {
    /// The handle's position in document order.
    pub open spec fn spec_index(self) -> nat {
        self.id as nat
    }

    pub fn new(id: usize) -> (r: Entity)
        ensures
            r.spec_index() == id,
    {
        Entity { id }
    }

    /// The reserved handle of the tree root.
    pub fn root() -> (r: Entity)
        ensures
            r.spec_index() == 0,
    {
        Entity { id: 0 }
    }

    pub open spec fn null_spec() -> Entity {
        Entity { id: usize::MAX }
    }

    /// A handle that names no node.
    pub fn null() -> (r: Entity)
        ensures
            r == Entity::null_spec(),
    {
        Entity { id: usize::MAX }
    }

    pub fn index(&self) -> (r: usize)
        ensures
            r == self.spec_index(),
    {
        self.id
    }

    pub fn is_root(&self) -> (r: bool)
        ensures
            r == (self.spec_index() == 0),
    {
        self.id == 0
    }
}

} // verus!
