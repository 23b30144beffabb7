use vstd::prelude::*;

use crate::entity::Entity;
use crate::selector::{PseudoClasses, ACTIVE};

verus! {

/// What the matcher reads of each node: element tag, classes and
/// pseudo-classes. Nodes past the end of a table have none of them.
pub struct NodeAttributes {
    pub elements: Vec<Option<String>>,
    pub classes: Vec<Vec<String>>,
    pub pseudo_classes: Vec<PseudoClasses>,
}

impl NodeAttributes {
    pub open spec fn element_of(&self, n: int) -> Option<Seq<char>> {
        if 0 <= n < self.elements@.len() {
            match self.elements@[n] {
                Some(e) => Some(e@),
                None => None,
            }
        } else {
            None
        }
    }

    pub open spec fn has_class(&self, n: int, c: Seq<char>) -> bool {
        &&& 0 <= n < self.classes@.len()
        &&& exists|j: int| 0 <= j < self.classes@[n]@.len() && (#[trigger] self.classes@[n]@[j])@ == c
    }

    pub open spec fn pseudo_of(&self, n: int) -> u16 {
        if 0 <= n < self.pseudo_classes@.len() {
            self.pseudo_classes@[n].bits
        } else {
            0
        }
    }

    /// The pseudo-classes that matching sees: the stored ones, with the
    /// active state forced on for the node that is currently pressed.
    pub open spec fn descriptor_pseudo(&self, n: int, active: Entity) -> u16 {
        if n == active.spec_index() {
            self.pseudo_of(n) | ACTIVE
        } else {
            self.pseudo_of(n)
        }
    }

    pub fn new() -> (r: NodeAttributes)
        ensures
            forall|n: int| r.element_of(n) is None,
            forall|n: int, c: Seq<char>| !r.has_class(n, c),
            forall|n: int| r.pseudo_of(n) == 0,
    {
        NodeAttributes { elements: Vec::new(), classes: Vec::new(), pseudo_classes: Vec::new() }
    }

    pub fn set_element(&mut self, entity: Entity, name: &str)
        requires
            entity.spec_index() < usize::MAX,
        ensures
            final(self).element_of(entity.spec_index() as int) == Some(name@),
            forall|n: int| n != entity.spec_index() ==> final(self).element_of(n) == old(self).element_of(n),
            final(self).classes == old(self).classes,
            final(self).pseudo_classes == old(self).pseudo_classes,
    {
        let i = entity.index();
        while self.elements.len() <= i
            invariant
                i < usize::MAX,
                forall|n: int| #[trigger] self.element_of(n) == old(self).element_of(n),
                self.classes == old(self).classes,
                self.pseudo_classes == old(self).pseudo_classes,
            decreases i + 1 - self.elements@.len(),
        {
            let ghost before = *self;
            self.elements.push(None);
            assert forall|n: int| #[trigger] self.element_of(n) == before.element_of(n) by {
                if 0 <= n < before.elements@.len() {
                    assert(self.elements@[n] == before.elements@[n]);
                }
            }
        }
        let ghost mid = *self;
        self.elements.set(i, Some(name.to_owned()));
        proof {
            assert forall|n: int| n != entity.spec_index() implies self.element_of(n) == old(self).element_of(n) by {
                assert(mid.element_of(n) == old(self).element_of(n));
                if 0 <= n < self.elements@.len() {
                    assert(self.elements@[n] == mid.elements@[n]);
                }
            }
        }
    }

    pub fn add_class(&mut self, entity: Entity, name: &str)
        requires
            entity.spec_index() < usize::MAX,
        ensures
            final(self).has_class(entity.spec_index() as int, name@),
            forall|c: Seq<char>| old(self).has_class(entity.spec_index() as int, c) ==> final(self).has_class(entity.spec_index() as int, c),
            forall|c: Seq<char>| c != name@ ==> (final(self).has_class(entity.spec_index() as int, c) ==> old(self).has_class(entity.spec_index() as int, c)),
            forall|n: int, c: Seq<char>| n != entity.spec_index() ==> final(self).has_class(n, c) == old(self).has_class(n, c),
            final(self).elements == old(self).elements,
            final(self).pseudo_classes == old(self).pseudo_classes,
    {
        let i = entity.index();
        while self.classes.len() <= i
            invariant
                i < usize::MAX,
                forall|n: int, c: Seq<char>| self.has_class(n, c) == old(self).has_class(n, c),
                forall|n: int| 0 <= n < old(self).classes@.len() ==> #[trigger] self.classes@[n] == old(self).classes@[n],
                old(self).classes@.len() <= self.classes@.len(),
                forall|n: int| old(self).classes@.len() <= n < self.classes@.len() ==> (#[trigger] self.classes@[n])@.len() == 0,
                self.elements == old(self).elements,
                self.pseudo_classes == old(self).pseudo_classes,
            decreases i + 1 - self.classes@.len(),
        {
            let ghost before = *self;
            self.classes.push(Vec::new());
            assert forall|n: int, c: Seq<char>| self.has_class(n, c) == before.has_class(n, c) by {
                if 0 <= n < before.classes@.len() {
                    assert(self.classes@[n] == before.classes@[n]);
                } else if n == before.classes@.len() {
                    assert(self.classes@[n]@.len() == 0);
                }
            }
        }
        let ghost mid = self.classes@;
        self.classes[i].push(name.to_owned());
        proof {
            let k = entity.spec_index() as int;
            assert(self.classes@[k]@[mid[k]@.len() as int]@ == name@);
            assert forall|c: Seq<char>| old(self).has_class(k, c) implies self.has_class(k, c) by {
                let j = choose|j: int| 0 <= j < mid[k]@.len() && (#[trigger] mid[k]@[j])@ == c;
                assert(self.classes@[k]@[j] == mid[k]@[j]);
            }
            assert forall|c: Seq<char>| c != name@ && self.has_class(k, c) implies old(self).has_class(k, c) by {
                let j = choose|j: int| 0 <= j < self.classes@[k]@.len() && (#[trigger] self.classes@[k]@[j])@ == c;
                assert(mid[k]@[j] == self.classes@[k]@[j]);
            }
            assert forall|n: int, c: Seq<char>| n != k implies self.has_class(n, c) == old(self).has_class(n, c) by {
                if 0 <= n < self.classes@.len() {
                    assert(self.classes@[n] == mid[n]);
                }
            }
        }
    }

    pub fn set_pseudo_class(&mut self, entity: Entity, flag: u16, on: bool)
        requires
            entity.spec_index() < usize::MAX,
        ensures
            final(self).pseudo_of(entity.spec_index() as int)
                == if on { old(self).pseudo_of(entity.spec_index() as int) | flag } else { old(self).pseudo_of(entity.spec_index() as int) & !flag },
            forall|n: int| n != entity.spec_index() ==> final(self).pseudo_of(n) == old(self).pseudo_of(n),
            final(self).elements == old(self).elements,
            final(self).classes == old(self).classes,
    {
        let i = entity.index();
        while self.pseudo_classes.len() <= i
            invariant
                i < usize::MAX,
                forall|n: int| #[trigger] self.pseudo_of(n) == old(self).pseudo_of(n),
                self.elements == old(self).elements,
                self.classes == old(self).classes,
            decreases i + 1 - self.pseudo_classes@.len(),
        {
            let ghost before = *self;
            self.pseudo_classes.push(PseudoClasses::new());
            assert forall|n: int| #[trigger] self.pseudo_of(n) == before.pseudo_of(n) by {
                if 0 <= n < before.pseudo_classes@.len() {
                    assert(self.pseudo_classes@[n] == before.pseudo_classes@[n]);
                }
            }
        }
        let ghost mid = *self;
        assert(mid.pseudo_of(i as int) == old(self).pseudo_of(i as int));
        let mut p = self.pseudo_classes[i];
        p.set(flag, on);
        self.pseudo_classes.set(i, p);
        proof {
            assert forall|n: int| n != entity.spec_index() implies self.pseudo_of(n) == old(self).pseudo_of(n) by {
                assert(mid.pseudo_of(n) == old(self).pseudo_of(n));
                if 0 <= n < self.pseudo_classes@.len() {
                    assert(self.pseudo_classes@[n] == mid.pseudo_classes@[n]);
                }
            }
        }
    }
}

} // verus!
