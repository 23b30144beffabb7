use vstd::prelude::*;

use crate::entity::Entity;
use crate::values::Value;

verus! {

/// The value that rule `r` declares, in a table of declarations by rule.
pub open spec fn declared_in(decls: Seq<Option<Value>>, r: int) -> Option<Value> {
    if 0 <= r < decls.len() {
        decls[r]
    } else {
        None
    }
}

/// The last rule of `matched` that has a declaration in `decls`: the
/// winner of the cascade, since rules are matched in ascending order and a
/// later rule has the higher priority.
pub open spec fn cascade_winner(decls: Seq<Option<Value>>, matched: Seq<usize>) -> Option<usize>
    decreases matched.len(),
{
    if matched.len() == 0 {
        None
    } else if declared_in(decls, matched.last() as int) is Some {
        Some(matched.last())
    } else {
        cascade_winner(decls, matched.drop_last())
    }
}

/// The cascade picks the last rule of `matched` that declares the property
/// (with rules in ascending order, the one with the highest index): it is
/// in `matched`, it declares the property, and no rule after it does. When
/// no rule of `matched` declares the property, none is picked.
pub proof fn lemma_last_declaring_rule_wins(decls: Seq<Option<Value>>, matched: Seq<usize>)
    ensures
        match cascade_winner(decls, matched) {
            Some(r) => exists|i: int| {
                &&& 0 <= i < matched.len()
                &&& #[trigger] matched[i] == r
                &&& declared_in(decls, r as int) is Some
                &&& forall|j: int| i < j < matched.len() ==> declared_in(decls, #[trigger] matched[j] as int) is None
            },
            None => forall|j: int| 0 <= j < matched.len() ==> declared_in(decls, #[trigger] matched[j] as int) is None,
        },
    decreases matched.len(),
{
    if matched.len() > 0 {
        let last = matched.len() - 1;
        if declared_in(decls, matched.last() as int) is Some {
            assert(matched[last] == matched.last());
        } else {
            let rest = matched.drop_last();
            lemma_last_declaring_rule_wins(decls, rest);
            match cascade_winner(decls, rest) {
                Some(r) => {
                    let i = choose|i: int| {
                        &&& 0 <= i < rest.len()
                        &&& #[trigger] rest[i] == r
                        &&& declared_in(decls, r as int) is Some
                        &&& forall|j: int| i < j < rest.len() ==> declared_in(decls, #[trigger] rest[j] as int) is None
                    };
                    assert(matched[i] == r);
                    assert forall|j: int| i < j < matched.len() implies declared_in(decls, #[trigger] matched[j] as int) is None by {
                        if j < last {
                            assert(matched[j] == rest[j]);
                        }
                    }
                },
                None => {
                    assert forall|j: int| 0 <= j < matched.len() implies declared_in(decls, #[trigger] matched[j] as int) is None by {
                        if j < last {
                            assert(matched[j] == rest[j]);
                        }
                    }
                },
            }
        }
    }
}

/// The rule that wins declares the property.
pub proof fn lemma_winner_declares(decls: Seq<Option<Value>>, matched: Seq<usize>)
    ensures
        cascade_winner(decls, matched) matches Some(r) ==> declared_in(decls, r as int) is Some,
    decreases matched.len(),
{
    if matched.len() > 0 {
        lemma_winner_declares(decls, matched.drop_last());
    }
}

/// The store of one style property: the value each rule declares, and for
/// each node the value the cascade linked to it together with the rule that
/// supplied it. A node without an entry is unset and takes the property's
/// type default, which the store holds too.
pub struct PropertyStore {
    pub rules: Vec<Option<Value>>,
    pub entries: Vec<Option<(usize, Value)>>,
    pub default: Value,
}

impl PropertyStore {
    /// The value rule `r` declares for this property.
    pub open spec fn declared(&self, r: int) -> Option<Value> {
        declared_in(self.rules@, r)
    }

    /// The rule and value linked to node `n`.
    pub open spec fn entry(&self, n: int) -> Option<(usize, Value)> {
        if 0 <= n < self.entries@.len() {
            self.entries@[n]
        } else {
            None
        }
    }

    /// The value linked to node `n`.
    pub open spec fn value(&self, n: int) -> Option<Value> {
        match self.entry(n) {
            Some(e) => Some(e.1),
            None => None,
        }
    }

    /// The last rule of `matched` that declares this property.
    pub open spec fn winner(&self, matched: Seq<usize>) -> Option<usize> {
        cascade_winner(self.rules@, matched)
    }

    /// The entry that linking a node to the rules `matched` gives.
    pub open spec fn resolve(&self, matched: Seq<usize>) -> Option<(usize, Value)> {
        match self.winner(matched) {
            Some(r) => Some((r, declared_in(self.rules@, r as int)->0)),
            None => None,
        }
    }

    /// The value that linking a node to the rules `matched` gives.
    pub open spec fn resolve_value(&self, matched: Seq<usize>) -> Option<Value> {
        match self.resolve(matched) {
            Some(e) => Some(e.1),
            None => None,
        }
    }

    /// The resolved value of node `n`: the linked one, or the default when
    /// the node is unset.
    pub open spec fn resolved(&self, n: int) -> Value {
        match self.value(n) {
            Some(v) => v,
            None => self.default,
        }
    }

    /// The resolved value that linking a node to the rules `matched` gives.
    pub open spec fn cascaded(&self, matched: Seq<usize>) -> Value {
        match self.resolve_value(matched) {
            Some(v) => v,
            None => self.default,
        }
    }

    /// A store with no declaration and no entry.
    pub fn new(default: Value) -> (r: PropertyStore)
        ensures
            forall|k: int| r.declared(k) is None,
            forall|n: int| r.entry(n) is None,
            r.default == default,
    {
        PropertyStore { rules: Vec::new(), entries: Vec::new(), default }
    }

    /// Records that rule `rule` declares `value` for this property.
    pub fn declare(&mut self, rule: usize, value: Value)
        requires
            rule < usize::MAX,
        ensures
            final(self).declared(rule as int) == Some(value),
            forall|k: int| k != rule ==> final(self).declared(k) == old(self).declared(k),
            final(self).entries == old(self).entries,
            final(self).default == old(self).default,
    {
        while self.rules.len() <= rule
            invariant
                rule < usize::MAX,
                forall|k: int| #[trigger] self.declared(k) == old(self).declared(k),
                self.entries == old(self).entries,
                self.default == old(self).default,
            decreases rule + 1 - self.rules@.len(),
        {
            let ghost before = *self;
            self.rules.push(None);
            assert forall|k: int| #[trigger] self.declared(k) == before.declared(k) by {
                if 0 <= k < before.rules@.len() {
                    assert(self.rules@[k] == before.rules@[k]);
                }
            }
        }
        let ghost mid = *self;
        self.rules.set(rule, Some(value));
        proof {
            assert forall|k: int| k != rule implies self.declared(k) == old(self).declared(k) by {
                assert(mid.declared(k) == old(self).declared(k));
                if 0 <= k < self.rules@.len() {
                    assert(self.rules@[k] == mid.rules@[k]);
                }
            }
        }
    }

    /// The value rule `rule` declares.
    pub fn get_declared(&self, rule: usize) -> (r: Option<Value>)
        ensures
            r == self.declared(rule as int),
    {
        if rule < self.rules.len() {
            self.rules[rule]
        } else {
            None
        }
    }

    /// The value linked to `entity`.
    pub fn get(&self, entity: Entity) -> (r: Option<Value>)
        ensures
            r == self.value(entity.spec_index() as int),
    {
        let n = entity.index();
        if n < self.entries.len() {
            match self.entries[n] {
                Some(e) => Some(e.1),
                None => None,
            }
        } else {
            None
        }
    }

    /// The rule whose value is linked to `entity`.
    pub fn get_rule(&self, entity: Entity) -> (r: Option<usize>)
        ensures
            r == match self.entry(entity.spec_index() as int) {
                Some(e) => Some(e.0),
                None => None,
            },
    {
        let n = entity.index();
        if n < self.entries.len() {
            match self.entries[n] {
                Some(e) => Some(e.0),
                None => None,
            }
        } else {
            None
        }
    }

    /// The last rule of `matched` that declares this property.
    fn find_winner(&self, matched: &Vec<usize>) -> (r: Option<usize>)
        ensures
            r == self.winner(matched@),
    {
        let mut i: usize = matched.len();
        assert(matched@.take(i as int) =~= matched@);
        while i > 0
            invariant
                i <= matched@.len(),
                self.winner(matched@) == self.winner(matched@.take(i as int)),
            decreases i,
        {
            let r = matched[i - 1];
            assert(matched@.take(i as int).last() == r);
            if self.get_declared(r).is_some() {
                return Some(r);
            }
            assert(matched@.take(i as int).drop_last() =~= matched@.take(i - 1));
            i -= 1;
        }
        assert(matched@.take(0).len() == 0);
        None
    }

    /// The resolved value of `entity`.
    pub fn get_resolved(&self, entity: Entity) -> (r: Value)
        ensures
            r == self.resolved(entity.spec_index() as int),
    {
        match self.get(entity) {
            Some(v) => v,
            None => self.default,
        }
    }

    /// Links `entity` to the last rule of `matched` that declares this
    /// property, or unsets it when none does. Returns whether the resolved
    /// value changed (an unset node resolves to the default).
    pub fn link_rule(&mut self, entity: Entity, matched: &Vec<usize>) -> (changed: bool)
        requires
            entity.spec_index() < usize::MAX,
        ensures
            final(self).rules == old(self).rules,
            final(self).default == old(self).default,
            final(self).entry(entity.spec_index() as int) == old(self).resolve(matched@),
            forall|n: int| n != entity.spec_index() ==> #[trigger] final(self).entry(n) == old(self).entry(n),
            changed == (old(self).resolved(entity.spec_index() as int) != old(self).cascaded(matched@)),
    {
        proof {
            lemma_winner_declares(self.rules@, matched@);
        }
        let previous = self.get_resolved(entity);
        let next: Option<(usize, Value)> = match self.find_winner(matched) {
            Some(r) => {
                match self.get_declared(r) {
                    Some(v) => Some((r, v)),
                    None => None,
                }
            },
            None => None,
        };
        let n = entity.index();
        while self.entries.len() <= n
            invariant
                n < usize::MAX,
                forall|k: int| #[trigger] self.entry(k) == old(self).entry(k),
                self.rules == old(self).rules,
                self.default == old(self).default,
            decreases n + 1 - self.entries@.len(),
        {
            let ghost before = *self;
            self.entries.push(None);
            assert forall|k: int| #[trigger] self.entry(k) == before.entry(k) by {
                if 0 <= k < before.entries@.len() {
                    assert(self.entries@[k] == before.entries@[k]);
                }
            }
        }
        let ghost mid = *self;
        self.entries.set(n, next);
        proof {
            assert forall|k: int| k != n implies #[trigger] self.entry(k) == old(self).entry(k) by {
                assert(mid.entry(k) == old(self).entry(k));
                if 0 <= k < self.entries@.len() {
                    assert(self.entries@[k] == mid.entries@[k]);
                }
            }
        }
        let resolved = match next {
            Some(e) => e.1,
            None => self.default,
        };
        previous != resolved
    }
}

} // verus!
