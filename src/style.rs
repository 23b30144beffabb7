use vstd::prelude::*;

use crate::attributes::NodeAttributes;
use crate::entity::Entity;
use crate::selector::Rule;
use crate::store::PropertyStore;
use crate::values::{default_value, fits, property_default, Display, Property, Value, Visibility, OPACITY_FULL, PROPERTY_COUNT};

verus! {

/// The stylesheet and what the cascade reads and writes: the ordered rules
/// (a rule's index is its priority), the node attributes that selectors
/// test, one property store per property, and the clip regions set on nodes.
pub struct Style {
    pub rules: Vec<Rule>,
    pub attributes: NodeAttributes,
    pub stores: Vec<PropertyStore>,
    pub clip_widget: Vec<Option<Entity>>,
}

/// The display a linked value gives; `Flex` when unset.
pub open spec fn display_of_value(v: Option<Value>) -> Display {
    match v {
        Some(Value::Display(d)) => d,
        _ => Display::Flex,
    }
}

/// The visibility a linked value gives; `Visible` when unset.
pub open spec fn visibility_of_value(v: Option<Value>) -> Visibility {
    match v {
        Some(Value::Visibility(d)) => d,
        _ => Visibility::Visible,
    }
}

/// The opacity a linked value gives, capped at full; full when unset.
pub open spec fn opacity_of_value(v: Option<Value>) -> u32 {
    match v {
        Some(Value::Opacity(o)) => if o > OPACITY_FULL { OPACITY_FULL } else { o },
        _ => OPACITY_FULL,
    }
}

/// The z-order a linked value gives; 0 when unset.
pub open spec fn z_order_of_value(v: Option<Value>) -> i32 {
    match v {
        Some(Value::Number(z)) => z,
        _ => 0,
    }
}

impl Style {
    /// One store per property, each holding its property's type default.
    pub open spec fn wf(&self) -> bool {
        &&& self.stores@.len() == PROPERTY_COUNT
        &&& forall|p: int| 0 <= p < PROPERTY_COUNT ==> (#[trigger] self.stores@[p]).default == property_default(p)
    }

    /// The store of the property with index `p`.
    pub open spec fn store(&self, p: int) -> PropertyStore {
        self.stores@[p]
    }

    pub open spec fn value_of(&self, p: Property, n: int) -> Option<Value> {
        self.stores@[p.spec_index() as int].value(n)
    }

    pub open spec fn clip_of(&self, n: int) -> Option<Entity> {
        if 0 <= n < self.clip_widget@.len() {
            self.clip_widget@[n]
        } else {
            None
        }
    }

    /// An empty stylesheet over nodes without attributes.
    pub fn new() -> (r: Style)
        ensures
            r.wf(),
            r.rules@.len() == 0,
            forall|p: int, k: int| 0 <= p < PROPERTY_COUNT ==> #[trigger] r.store(p).declared(k) is None,
            forall|p: int, n: int| 0 <= p < PROPERTY_COUNT ==> #[trigger] r.store(p).entry(n) is None,
            forall|n: int| r.attributes.element_of(n) is None,
            forall|n: int, c: Seq<char>| !r.attributes.has_class(n, c),
            forall|n: int| r.attributes.pseudo_of(n) == 0,
            forall|n: int| r.clip_of(n) is None,
    {
        let mut stores: Vec<PropertyStore> = Vec::new();
        while stores.len() < PROPERTY_COUNT
            invariant
                stores@.len() <= PROPERTY_COUNT,
                forall|p: int, k: int| 0 <= p < stores@.len() ==> #[trigger] stores@[p].declared(k) is None,
                forall|p: int, n: int| 0 <= p < stores@.len() ==> #[trigger] stores@[p].entry(n) is None,
                forall|p: int| 0 <= p < stores@.len() ==> (#[trigger] stores@[p]).default == property_default(p),
            decreases PROPERTY_COUNT - stores@.len(),
        {
            stores.push(PropertyStore::new(default_value(stores.len())));
        }
        Style { rules: Vec::new(), attributes: NodeAttributes::new(), stores, clip_widget: Vec::new() }
    }

    /// Appends `rule` to the stylesheet and returns its index, which is its
    /// priority: a later rule wins over an earlier one.
    pub fn add_rule(&mut self, rule: Rule) -> (r: usize)
        requires
            old(self).rules@.len() < usize::MAX,
        ensures
            r == old(self).rules@.len(),
            final(self).rules@ == old(self).rules@.push(rule),
            final(self).attributes == old(self).attributes,
            final(self).stores == old(self).stores,
            final(self).clip_widget == old(self).clip_widget,
    {
        let r = self.rules.len();
        self.rules.push(rule);
        r
    }

    /// Records that rule `rule` declares `value` for `property`; the value
    /// must have the property's type (see `Property::accepts`).
    pub fn set_property(&mut self, rule: usize, property: Property, value: Value)
        requires
            old(self).wf(),
            rule < usize::MAX,
            fits(property.spec_index() as int, value),
        ensures
            final(self).wf(),
            final(self).store(property.spec_index() as int).declared(rule as int) == Some(value),
            forall|k: int| k != rule ==> final(self).store(property.spec_index() as int).declared(k)
                == old(self).store(property.spec_index() as int).declared(k),
            final(self).store(property.spec_index() as int).entries == old(self).store(property.spec_index() as int).entries,
            forall|p: int| 0 <= p < PROPERTY_COUNT && p != property.spec_index() ==> #[trigger] final(self).stores@[p] == old(self).stores@[p],
            final(self).rules == old(self).rules,
            final(self).attributes == old(self).attributes,
            final(self).clip_widget == old(self).clip_widget,
    {
        let p = property.index();
        self.stores[p].declare(rule, value);
    }

    /// The value the cascade linked to `entity` for `property`.
    pub fn get(&self, property: Property, entity: Entity) -> (r: Option<Value>)
        requires
            self.wf(),
        ensures
            r == self.value_of(property, entity.spec_index() as int),
    {
        self.stores[property.index()].get(entity)
    }

    /// The resolved value of `property` at `entity`: the linked value, or
    /// the property's type default when the node is unset.
    pub fn get_resolved(&self, property: Property, entity: Entity) -> (r: Value)
        requires
            self.wf(),
        ensures
            r == self.store(property.spec_index() as int).resolved(entity.spec_index() as int),
    {
        self.stores[property.index()].get_resolved(entity)
    }

    pub fn get_display(&self, entity: Entity) -> (r: Display)
        requires
            self.wf(),
        ensures
            r == display_of_value(self.value_of(Property::Display, entity.spec_index() as int)),
    {
        match self.get(Property::Display, entity) {
            Some(Value::Display(d)) => d,
            _ => Display::Flex,
        }
    }

    pub fn get_visibility(&self, entity: Entity) -> (r: Visibility)
        requires
            self.wf(),
        ensures
            r == visibility_of_value(self.value_of(Property::Visibility, entity.spec_index() as int)),
    {
        match self.get(Property::Visibility, entity) {
            Some(Value::Visibility(v)) => v,
            _ => Visibility::Visible,
        }
    }

    pub fn get_opacity(&self, entity: Entity) -> (r: u32)
        requires
            self.wf(),
        ensures
            r == opacity_of_value(self.value_of(Property::Opacity, entity.spec_index() as int)),
    {
        match self.get(Property::Opacity, entity) {
            Some(Value::Opacity(o)) => if o > OPACITY_FULL { OPACITY_FULL } else { o },
            _ => OPACITY_FULL,
        }
    }

    pub fn get_z_order(&self, entity: Entity) -> (r: i32)
        requires
            self.wf(),
        ensures
            r == z_order_of_value(self.value_of(Property::ZOrder, entity.spec_index() as int)),
    {
        match self.get(Property::ZOrder, entity) {
            Some(Value::Number(z)) => z,
            _ => 0,
        }
    }

    /// The clip region set on `entity`, if any.
    pub fn get_clip_widget(&self, entity: Entity) -> (r: Option<Entity>)
        ensures
            r == self.clip_of(entity.spec_index() as int),
    {
        let n = entity.index();
        if n < self.clip_widget.len() {
            self.clip_widget[n]
        } else {
            None
        }
    }

    /// Sets the clip region of `entity` explicitly.
    pub fn set_clip_widget(&mut self, entity: Entity, clip: Entity)
        requires
            entity.spec_index() < usize::MAX,
        ensures
            final(self).clip_of(entity.spec_index() as int) == Some(clip),
            forall|n: int| n != entity.spec_index() ==> final(self).clip_of(n) == old(self).clip_of(n),
            final(self).rules == old(self).rules,
            final(self).attributes == old(self).attributes,
            final(self).stores == old(self).stores,
    {
        let i = entity.index();
        while self.clip_widget.len() <= i
            invariant
                i < usize::MAX,
                forall|n: int| #[trigger] self.clip_of(n) == old(self).clip_of(n),
                self.rules == old(self).rules,
                self.attributes == old(self).attributes,
                self.stores == old(self).stores,
            decreases i + 1 - self.clip_widget@.len(),
        {
            let ghost before = *self;
            self.clip_widget.push(None);
            assert forall|n: int| #[trigger] self.clip_of(n) == before.clip_of(n) by {
                if 0 <= n < before.clip_widget@.len() {
                    assert(self.clip_widget@[n] == before.clip_widget@[n]);
                }
            }
        }
        let ghost mid = *self;
        self.clip_widget.set(i, Some(clip));
        proof {
            assert forall|n: int| n != entity.spec_index() implies self.clip_of(n) == old(self).clip_of(n) by {
                assert(mid.clip_of(n) == old(self).clip_of(n));
                if 0 <= n < self.clip_widget@.len() {
                    assert(self.clip_widget@[n] == mid.clip_widget@[n]);
                }
            }
        }
    }
}

} // verus!
