use vstd::prelude::*;

use crate::entity::Entity;
use crate::hierarchy::Hierarchy;
use crate::node::Node;
use crate::state::State;

verus! {

/// A slider made of a track (its own node), an overlay that shows the
/// value, and a thumb that marks it.
pub struct Slider2 {
    pub thumb: Entity,
    pub active: Entity,
    pub sliding: bool,
}

impl Slider2 {
    /// A slider that is not built yet and is not being dragged.
    pub fn new() -> (r: Slider2)
        ensures
            r.thumb == Entity::null_spec(),
            r.active == Entity::null_spec(),
            !r.sliding,
    {
        Slider2 { thumb: Entity::null(), active: Entity::null(), sliding: false }
    }
}

impl Node for Slider2 {
    /// Building a slider gives the node the element tag `slider2` and two
    /// new children: the overlay, with class `active`, then the thumb, with
    /// class `thumb`.
    open spec fn builds(self, after: Self, s0: State, s1: State, h0: Hierarchy, h1: Hierarchy, entity: Entity) -> bool {
        &&& h1.spec_len() == h0.spec_len() + 2
        &&& after.active.spec_index() == h0.spec_len()
        &&& after.thumb.spec_index() == h0.spec_len() + 1
        &&& after.sliding == self.sliding
        &&& h1.parent_of(after.active.spec_index() as int) == Some(entity.spec_index() as int)
        &&& h1.parent_of(after.thumb.spec_index() as int) == Some(entity.spec_index() as int)
        &&& s1.style.attributes.has_class(after.active.spec_index() as int, "active"@)
        &&& s1.style.attributes.has_class(after.thumb.spec_index() as int, "thumb"@)
        &&& s1.style.attributes.element_of(entity.spec_index() as int) == Some("slider2"@)
        &&& s1.events == s0.events
        &&& s1.style.rules == s0.style.rules
        &&& s1.style.stores == s0.style.stores
    }

    fn on_build(&mut self, state: &mut State, hierarchy: &mut Hierarchy, entity: Entity) -> (r: Entity) {
        let ghost s0 = *state;
        let ghost h0 = *hierarchy;
        let ghost before = *self;
        self.active = hierarchy.add(entity);
        assert(hierarchy.is_ancestor(entity.spec_index() as int, self.active.spec_index() as int));
        state.style.attributes.add_class(self.active, "active");
        self.thumb = hierarchy.add(entity);
        state.style.attributes.add_class(self.thumb, "thumb");
        state.style.attributes.set_element(entity, "slider2");
        assert(before.builds(*self, s0, *state, h0, *hierarchy, entity));
        entity
    }
}

} // verus!
