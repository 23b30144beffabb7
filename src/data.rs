use vstd::prelude::*;

use crate::entity::Entity;
use crate::values::{Visibility, OPACITY_FULL};

verus! {

/// The paint state derived from the cascade's output: per node the resolved
/// visibility, opacity and clip region, the z-order that the paint order
/// follows, and the paint order itself. A node past the end of a table has
/// the default: visible, fully opaque, clipped by the root, z-order 0.
pub struct Data {
    pub visibility: Vec<Visibility>,
    pub opacity: Vec<u32>,
    pub clip_widget: Vec<Entity>,
    pub z_order: Vec<i32>,
    pub draw_order: Vec<Entity>,
}

impl Data {
    pub fn new() -> (r: Data)
        ensures
            r.visibility@.len() == 0,
            r.opacity@.len() == 0,
            r.clip_widget@.len() == 0,
            r.z_order@.len() == 0,
            r.draw_order@.len() == 0,
    {
        Data { visibility: Vec::new(), opacity: Vec::new(), clip_widget: Vec::new(), z_order: Vec::new(), draw_order: Vec::new() }
    }

    pub open spec fn visibility_of(&self, n: int) -> Visibility {
        if 0 <= n < self.visibility@.len() {
            self.visibility@[n]
        } else {
            Visibility::Visible
        }
    }

    pub fn get_visibility(&self, entity: Entity) -> (r: Visibility)
        ensures
            r == self.visibility_of(entity.spec_index() as int),
    {
        let n = entity.index();
        if n < self.visibility.len() {
            self.visibility[n]
        } else {
            Visibility::Visible
        }
    }

    /// Sets the resolved visibility of `entity`.
    pub fn set_visibility(&mut self, entity: Entity, value: Visibility)
        requires
            entity.spec_index() < usize::MAX,
        ensures
            final(self).visibility_of(entity.spec_index() as int) == value,
            forall|n: int| n != entity.spec_index() ==> #[trigger] final(self).visibility_of(n) == old(self).visibility_of(n),
            final(self).opacity == old(self).opacity,
            final(self).clip_widget == old(self).clip_widget,
            final(self).z_order == old(self).z_order,
            final(self).draw_order == old(self).draw_order,
    {
        let i = entity.index();
        while self.visibility.len() <= i
            invariant
                i < usize::MAX,
                forall|n: int| #[trigger] self.visibility_of(n) == old(self).visibility_of(n),
                self.opacity == old(self).opacity,
                self.clip_widget == old(self).clip_widget,
                self.z_order == old(self).z_order,
                self.draw_order == old(self).draw_order,
            decreases i + 1 - self.visibility@.len(),
        {
            let ghost before = *self;
            self.visibility.push(Visibility::Visible);
            assert forall|n: int| #[trigger] self.visibility_of(n) == before.visibility_of(n) by {
                if 0 <= n < before.visibility@.len() {
                    assert(self.visibility@[n] == before.visibility@[n]);
                }
            }
        }
        let ghost mid = *self;
        self.visibility.set(i, value);
        proof {
            assert forall|n: int| n != entity.spec_index() implies #[trigger] self.visibility_of(n) == old(self).visibility_of(n) by {
                assert(mid.visibility_of(n) == old(self).visibility_of(n));
                if 0 <= n < self.visibility@.len() {
                    assert(self.visibility@[n] == mid.visibility@[n]);
                }
            }
        }
    }

    pub open spec fn opacity_of(&self, n: int) -> u32 {
        if 0 <= n < self.opacity@.len() {
            self.opacity@[n]
        } else {
            OPACITY_FULL
        }
    }

    pub fn get_opacity(&self, entity: Entity) -> (r: u32)
        ensures
            r == self.opacity_of(entity.spec_index() as int),
    {
        let n = entity.index();
        if n < self.opacity.len() {
            self.opacity[n]
        } else {
            OPACITY_FULL
        }
    }

    /// Sets the resolved opacity of `entity`.
    pub fn set_opacity(&mut self, entity: Entity, value: u32)
        requires
            entity.spec_index() < usize::MAX,
        ensures
            final(self).opacity_of(entity.spec_index() as int) == value,
            forall|n: int| n != entity.spec_index() ==> #[trigger] final(self).opacity_of(n) == old(self).opacity_of(n),
            final(self).visibility == old(self).visibility,
            final(self).clip_widget == old(self).clip_widget,
            final(self).z_order == old(self).z_order,
            final(self).draw_order == old(self).draw_order,
    {
        let i = entity.index();
        while self.opacity.len() <= i
            invariant
                i < usize::MAX,
                forall|n: int| #[trigger] self.opacity_of(n) == old(self).opacity_of(n),
                self.visibility == old(self).visibility,
                self.clip_widget == old(self).clip_widget,
                self.z_order == old(self).z_order,
                self.draw_order == old(self).draw_order,
            decreases i + 1 - self.opacity@.len(),
        {
            let ghost before = *self;
            self.opacity.push(OPACITY_FULL);
            assert forall|n: int| #[trigger] self.opacity_of(n) == before.opacity_of(n) by {
                if 0 <= n < before.opacity@.len() {
                    assert(self.opacity@[n] == before.opacity@[n]);
                }
            }
        }
        let ghost mid = *self;
        self.opacity.set(i, value);
        proof {
            assert forall|n: int| n != entity.spec_index() implies #[trigger] self.opacity_of(n) == old(self).opacity_of(n) by {
                assert(mid.opacity_of(n) == old(self).opacity_of(n));
                if 0 <= n < self.opacity@.len() {
                    assert(self.opacity@[n] == mid.opacity@[n]);
                }
            }
        }
    }

    pub open spec fn clip_of(&self, n: int) -> Entity {
        if 0 <= n < self.clip_widget@.len() {
            self.clip_widget@[n]
        } else {
            Entity { id: 0 }
        }
    }

    pub fn get_clip_widget(&self, entity: Entity) -> (r: Entity)
        ensures
            r == self.clip_of(entity.spec_index() as int),
    {
        let n = entity.index();
        if n < self.clip_widget.len() {
            self.clip_widget[n]
        } else {
            Entity::root()
        }
    }

    /// Sets the resolved clip region of `entity`.
    pub fn set_clip_widget(&mut self, entity: Entity, value: Entity)
        requires
            entity.spec_index() < usize::MAX,
        ensures
            final(self).clip_of(entity.spec_index() as int) == value,
            forall|n: int| n != entity.spec_index() ==> #[trigger] final(self).clip_of(n) == old(self).clip_of(n),
            final(self).visibility == old(self).visibility,
            final(self).opacity == old(self).opacity,
            final(self).z_order == old(self).z_order,
            final(self).draw_order == old(self).draw_order,
    {
        let i = entity.index();
        while self.clip_widget.len() <= i
            invariant
                i < usize::MAX,
                forall|n: int| #[trigger] self.clip_of(n) == old(self).clip_of(n),
                self.visibility == old(self).visibility,
                self.opacity == old(self).opacity,
                self.z_order == old(self).z_order,
                self.draw_order == old(self).draw_order,
            decreases i + 1 - self.clip_widget@.len(),
        {
            let ghost before = *self;
            self.clip_widget.push(Entity::root());
            assert forall|n: int| #[trigger] self.clip_of(n) == before.clip_of(n) by {
                if 0 <= n < before.clip_widget@.len() {
                    assert(self.clip_widget@[n] == before.clip_widget@[n]);
                }
            }
        }
        let ghost mid = *self;
        self.clip_widget.set(i, value);
        proof {
            assert forall|n: int| n != entity.spec_index() implies #[trigger] self.clip_of(n) == old(self).clip_of(n) by {
                assert(mid.clip_of(n) == old(self).clip_of(n));
                if 0 <= n < self.clip_widget@.len() {
                    assert(self.clip_widget@[n] == mid.clip_widget@[n]);
                }
            }
        }
    }

    pub open spec fn z_order_of(&self, n: int) -> i32 {
        if 0 <= n < self.z_order@.len() {
            self.z_order@[n]
        } else {
            0
        }
    }

    pub fn get_z_order(&self, entity: Entity) -> (r: i32)
        ensures
            r == self.z_order_of(entity.spec_index() as int),
    {
        let n = entity.index();
        if n < self.z_order.len() {
            self.z_order[n]
        } else {
            0
        }
    }

    /// Sets the z-order of `entity`.
    pub fn set_z_order(&mut self, entity: Entity, value: i32)
        requires
            entity.spec_index() < usize::MAX,
        ensures
            final(self).z_order_of(entity.spec_index() as int) == value,
            forall|n: int| n != entity.spec_index() ==> #[trigger] final(self).z_order_of(n) == old(self).z_order_of(n),
            final(self).visibility == old(self).visibility,
            final(self).opacity == old(self).opacity,
            final(self).clip_widget == old(self).clip_widget,
            final(self).draw_order == old(self).draw_order,
    {
        let i = entity.index();
        while self.z_order.len() <= i
            invariant
                i < usize::MAX,
                forall|n: int| #[trigger] self.z_order_of(n) == old(self).z_order_of(n),
                self.visibility == old(self).visibility,
                self.opacity == old(self).opacity,
                self.clip_widget == old(self).clip_widget,
                self.draw_order == old(self).draw_order,
            decreases i + 1 - self.z_order@.len(),
        {
            let ghost before = *self;
            self.z_order.push(0);
            assert forall|n: int| #[trigger] self.z_order_of(n) == before.z_order_of(n) by {
                if 0 <= n < before.z_order@.len() {
                    assert(self.z_order@[n] == before.z_order@[n]);
                }
            }
        }
        let ghost mid = *self;
        self.z_order.set(i, value);
        proof {
            assert forall|n: int| n != entity.spec_index() implies #[trigger] self.z_order_of(n) == old(self).z_order_of(n) by {
                assert(mid.z_order_of(n) == old(self).z_order_of(n));
                if 0 <= n < self.z_order@.len() {
                    assert(self.z_order@[n] == mid.z_order@[n]);
                }
            }
        }
    }
}

} // verus!
