use vstd::prelude::*;

verus! {

pub const HOVER: u16 = 1;
pub const ACTIVE: u16 = 2;
pub const FOCUS: u16 = 4;
pub const ENABLED: u16 = 8;
pub const DISABLED: u16 = 16;
pub const CHECKED: u16 = 32;
pub const SELECTED: u16 = 64;
pub const OVER: u16 = 128;

/// A set of transient node states, one bit each.
#[derive(Clone, Copy, Debug, PartialEq, Eq, Structural)]
pub struct PseudoClasses {
    pub bits: u16,
}

impl PseudoClasses {
    pub open spec fn has(self, flag: u16) -> bool {
        self.bits & flag == flag
    }

    /// The empty set.
    pub fn new() -> (r: PseudoClasses)
        ensures
            r.bits == 0,
    {
        PseudoClasses { bits: 0 }
    }

    /// Turns the states in `flag` on or off.
    pub fn set(&mut self, flag: u16, on: bool)
        ensures
            final(self).bits == if on { old(self).bits | flag } else { old(self).bits & !flag },
    {
        if on {
            self.bits = self.bits | flag;
        } else {
            self.bits = self.bits & !flag;
        }
    }

    pub fn set_active(&mut self, on: bool)
        ensures
            final(self).bits == if on { old(self).bits | ACTIVE } else { old(self).bits & !ACTIVE },
            final(self).has(ACTIVE) == on,
    {
        self.set(ACTIVE, on);
        proof {
            let b = old(self).bits;
            assert((b | 2u16) & 2u16 == 2u16) by (bit_vector);
            assert((b & !2u16) & 2u16 != 2u16) by (bit_vector);
        }
    }

    pub fn get(&self, flag: u16) -> (r: bool)
        ensures
            r == self.has(flag),
    {
        self.bits & flag == flag
    }

    /// Every state of `other` is in this set.
    pub fn contains_all(&self, other: &PseudoClasses) -> (r: bool)
        ensures
            r == (other.bits & self.bits == other.bits),
    {
        other.bits & self.bits == other.bits
    }
}

/// How a selector of a chain relates to the node that the selector to its
/// right matched (or to the node under test, for the rightmost one).
#[derive(Clone, Copy, Debug, PartialEq, Eq, Structural)]
pub enum Relation {
    /// Match that same node.
    Same,
    /// Match its immediate parent.
    Parent,
    /// Match its nearest strict ancestor that matches.
    Ancestor,
}

/// A predicate over a node's element tag, class set and pseudo-classes.
pub struct Selector {
    pub element: Option<String>,
    pub classes: Vec<String>,
    pub pseudo_classes: PseudoClasses,
    pub relation: Relation,
}

impl Selector {
    /// A selector that matches every node, with relation `Same`.
    pub fn new() -> (r: Selector)
        ensures
            r.element is None,
            r.classes@.len() == 0,
            r.pseudo_classes.bits == 0,
            r.relation == Relation::Same,
    {
        Selector { element: None, classes: Vec::new(), pseudo_classes: PseudoClasses::new(), relation: Relation::Same }
    }

    /// Requires the element tag `name`.
    pub fn element(self, name: &str) -> (r: Selector)
        ensures
            r.element matches Some(e) && e@ == name@,
            r.classes == self.classes,
            r.pseudo_classes == self.pseudo_classes,
            r.relation == self.relation,
    {
        let Selector { element: _, classes, pseudo_classes, relation } = self;
        Selector { element: Some(name.to_owned()), classes, pseudo_classes, relation }
    }

    /// Requires the class `name` too.
    pub fn class(self, name: &str) -> (r: Selector)
        ensures
            r.element == self.element,
            r.classes@.len() == self.classes@.len() + 1,
            forall|i: int| 0 <= i < self.classes@.len() ==> r.classes@[i] == self.classes@[i],
            r.classes@[self.classes@.len() as int]@ == name@,
            r.pseudo_classes == self.pseudo_classes,
            r.relation == self.relation,
    {
        let Selector { element, mut classes, pseudo_classes, relation } = self;
        classes.push(name.to_owned());
        Selector { element, classes, pseudo_classes, relation }
    }

    /// Requires the states in `flag` too.
    pub fn pseudo(self, flag: u16) -> (r: Selector)
        ensures
            r.element == self.element,
            r.classes == self.classes,
            r.pseudo_classes.bits == self.pseudo_classes.bits | flag,
            r.relation == self.relation,
    {
        let Selector { element, classes, pseudo_classes, relation } = self;
        Selector { element, classes, pseudo_classes: PseudoClasses { bits: pseudo_classes.bits | flag }, relation }
    }

    pub fn relation(self, relation: Relation) -> (r: Selector)
        ensures
            r.element == self.element,
            r.classes == self.classes,
            r.pseudo_classes == self.pseudo_classes,
            r.relation == relation,
    {
        let Selector { element, classes, pseudo_classes, relation: _ } = self;
        Selector { element, classes, pseudo_classes, relation }
    }
}

/// A selector chain, read from right to left; the rightmost selector is
/// tested against the node itself.
pub struct Rule {
    pub selectors: Vec<Selector>,
}

impl Rule {
    pub fn new(selectors: Vec<Selector>) -> (r: Rule)
        ensures
            r.selectors == selectors,
    {
        Rule { selectors }
    }
}

} // verus!
