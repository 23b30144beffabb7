use vstd::prelude::*;

use crate::entity::Entity;
use crate::hierarchy::Hierarchy;
use crate::state::State;

verus! {

/// A kind of node that sets up the node it is built on: its element tag,
/// its pseudo-classes, its text and any child nodes it needs.
pub trait Node: Sized {
    /// Building `self` on node `entity` takes the state from `s0` to `s1`,
    /// the tree from `h0` to `h1`, and leaves the node kind as `after`.
    spec fn builds(self, after: Self, s0: State, s1: State, h0: Hierarchy, h1: Hierarchy, entity: Entity) -> bool;

    /// Sets up node `entity`; see `builds`. Nodes are only ever added, and
    /// the links of the nodes already there stay. New nodes can only go
    /// below `entity` if it may take children (see `Hierarchy::is_open`).
    fn on_build(&mut self, state: &mut State, hierarchy: &mut Hierarchy, entity: Entity) -> (r: Entity)
        requires
            old(hierarchy).wf(),
            old(hierarchy).contains(entity),
            old(hierarchy).is_open(entity.spec_index() as int),
            old(hierarchy).spec_len() + 2 < usize::MAX,
        ensures
            r == entity,
            final(hierarchy).wf(),
            final(hierarchy).spec_len() >= old(hierarchy).spec_len(),
            forall|n: int| 0 <= n < old(hierarchy).spec_len() ==> #[trigger] final(hierarchy).parent_of(n) == old(hierarchy).parent_of(n),
            old(self).builds(*final(self), *old(state), *final(state), *old(hierarchy), *final(hierarchy), entity),
    ;

    /// Adds a node as the last child of `parent`, builds `self` on it and
    /// returns it.
    fn build(&mut self, state: &mut State, hierarchy: &mut Hierarchy, parent: Entity) -> (r: Entity)
        requires
            old(hierarchy).wf(),
            old(hierarchy).contains(parent),
            old(hierarchy).is_open(parent.spec_index() as int),
            old(hierarchy).spec_len() + 3 < usize::MAX,
        ensures
            r.spec_index() == old(hierarchy).spec_len(),
            final(hierarchy).wf(),
            final(hierarchy).parent_of(r.spec_index() as int) == Some(parent.spec_index() as int),
            forall|n: int| 0 <= n < old(hierarchy).spec_len() ==> #[trigger] final(hierarchy).parent_of(n) == old(hierarchy).parent_of(n),
    {
        let entity = hierarchy.add(parent);
        let r = self.on_build(state, hierarchy, entity);
        assert(hierarchy.parent_of(entity.spec_index() as int) == Some(parent.spec_index() as int));
        r
    }
}

} // verus!
