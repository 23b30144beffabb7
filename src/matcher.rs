use vstd::prelude::*;

use crate::attributes::NodeAttributes;
use crate::entity::Entity;
use crate::hierarchy::Hierarchy;
use crate::selector::{Relation, Rule, Selector, ACTIVE};
use crate::state::State;

verus! {

/// `sel` matches node `n`: the element tag is unset or equal, every class of
/// the selector is on the node, and every pseudo-class bit of the selector is
/// set for the node (with the active bit forced on for the pressed node).
pub open spec fn selector_matches(sel: Selector, attrs: NodeAttributes, active: Entity, n: int) -> bool {
    &&& match sel.element {
        Some(e) => attrs.element_of(n) == Some(e@),
        None => true,
    }
    &&& forall|i: int| 0 <= i < sel.classes@.len() ==> attrs.has_class(n, #[trigger] sel.classes@[i]@)
    &&& sel.pseudo_classes.bits & attrs.descriptor_pseudo(n, active) == sel.pseudo_classes.bits
}

/// The nearest strict ancestor of `n` that `sel` matches.
pub open spec fn nearest_matching_ancestor(
    h: Hierarchy,
    sel: Selector,
    attrs: NodeAttributes,
    active: Entity,
    n: int,
) -> Option<int>
    decreases n,
{
    match h.parent_of(n) {
        Some(p) => if 0 <= p < n {
            if selector_matches(sel, attrs, active, p) {
                Some(p)
            } else {
                nearest_matching_ancestor(h, sel, attrs, active, p)
            }
        } else {
            None
        },
        None => None,
    }
}

/// The first `k` selectors of `sels` match, read from right to left, with
/// `cur` as the node the `k`-th selector relates to.
pub open spec fn chain_matches(
    h: Hierarchy,
    sels: Seq<Selector>,
    attrs: NodeAttributes,
    active: Entity,
    k: int,
    cur: int,
) -> bool
    decreases k,
{
    if k <= 0 {
        true
    } else {
        let sel = sels[k - 1];
        match sel.relation {
            Relation::Same => selector_matches(sel, attrs, active, cur) && chain_matches(h, sels, attrs, active, k - 1, cur),
            Relation::Parent => match h.parent_of(cur) {
                Some(p) => selector_matches(sel, attrs, active, p) && chain_matches(h, sels, attrs, active, k - 1, p),
                None => false,
            },
            Relation::Ancestor => match nearest_matching_ancestor(h, sel, attrs, active, cur) {
                Some(a) => chain_matches(h, sels, attrs, active, k - 1, a),
                None => false,
            },
        }
    }
}

/// `rule` matches node `n`. A rule without selectors matches nothing.
pub open spec fn rule_matches(h: Hierarchy, rule: Rule, attrs: NodeAttributes, active: Entity, n: int) -> bool {
    &&& rule.selectors@.len() > 0
    &&& chain_matches(h, rule.selectors@, attrs, active, rule.selectors@.len() as int, n)
}

/// The ascending indices of the rules of `rules` that match node `n`.
pub open spec fn matched_rules(h: Hierarchy, rules: Seq<Rule>, attrs: NodeAttributes, active: Entity, n: int) -> Seq<usize>
    decreases rules.len(),
{
    if rules.len() == 0 {
        Seq::empty()
    } else {
        let before = matched_rules(h, rules.drop_last(), attrs, active, n);
        if rule_matches(h, rules.last(), attrs, active, n) {
            before.push((rules.len() - 1) as usize)
        } else {
            before
        }
    }
}

/// Appending rules to a stylesheet never removes a match: the rules that
/// matched node `n` before still match it, in the same order, ahead of any
/// of the new rules that match.
pub proof fn lemma_matches_grow_with_rules(
    h: Hierarchy,
    rules: Seq<Rule>,
    extra: Seq<Rule>,
    attrs: NodeAttributes,
    active: Entity,
    n: int,
)
    ensures
        matched_rules(h, rules, attrs, active, n).len() <= matched_rules(h, rules + extra, attrs, active, n).len(),
        matched_rules(h, rules + extra, attrs, active, n).take(matched_rules(h, rules, attrs, active, n).len() as int)
            == matched_rules(h, rules, attrs, active, n),
    decreases extra.len(),
{
    let before = matched_rules(h, rules, attrs, active, n);
    if extra.len() == 0 {
        assert(rules + extra =~= rules);
        assert(before.take(before.len() as int) =~= before);
    } else {
        let shorter = extra.drop_last();
        lemma_matches_grow_with_rules(h, rules, shorter, attrs, active, n);
        assert((rules + extra).drop_last() =~= rules + shorter);
        let mid = matched_rules(h, rules + shorter, attrs, active, n);
        let all = matched_rules(h, rules + extra, attrs, active, n);
        if rule_matches(h, (rules + extra).last(), attrs, active, n) {
            assert(all == mid.push((rules.len() + extra.len() - 1) as usize));
            assert(all.take(before.len() as int) =~= mid.take(before.len() as int));
        } else {
            assert(all == mid);
        }
    }
}

/// A rule made of one selector, with relation `Same`, that requires
/// element tag `tag` and nothing else matches exactly the nodes whose
/// element tag is `tag`, whatever their classes and pseudo-classes.
pub proof fn lemma_element_rule(h: Hierarchy, rule: Rule, attrs: NodeAttributes, active: Entity, tag: Seq<char>, n: int)
    requires
        rule.selectors@.len() == 1,
        rule.selectors@[0].element matches Some(e) && e@ == tag,
        rule.selectors@[0].classes@.len() == 0,
        rule.selectors@[0].pseudo_classes.bits == 0,
        rule.selectors@[0].relation == Relation::Same,
    ensures
        rule_matches(h, rule, attrs, active, n) <==> attrs.element_of(n) == Some(tag),
{
    let d = attrs.descriptor_pseudo(n, active);
    assert(0u16 & d == 0u16) by (bit_vector);
    assert(chain_matches(h, rule.selectors@, attrs, active, 0, n));
}

/// A rule `[parent class c] [element e]`, the first selector with relation
/// `Parent`, matches node `n` exactly when `n` has element tag `e` and its
/// immediate parent has class `c`; a grandparent with class `c` does not
/// count.
pub proof fn lemma_parent_rule(
    h: Hierarchy,
    rule: Rule,
    attrs: NodeAttributes,
    active: Entity,
    class: Seq<char>,
    tag: Seq<char>,
    n: int,
)
    requires
        rule.selectors@.len() == 2,
        rule.selectors@[0].element is None,
        rule.selectors@[0].classes@.len() == 1,
        rule.selectors@[0].classes@[0]@ == class,
        rule.selectors@[0].pseudo_classes.bits == 0,
        rule.selectors@[0].relation == Relation::Parent,
        rule.selectors@[1].element matches Some(e) && e@ == tag,
        rule.selectors@[1].classes@.len() == 0,
        rule.selectors@[1].pseudo_classes.bits == 0,
        rule.selectors@[1].relation == Relation::Same,
    ensures
        rule_matches(h, rule, attrs, active, n) <==> {
            &&& attrs.element_of(n) == Some(tag)
            &&& h.parent_of(n) matches Some(p) && attrs.has_class(p, class)
        },
{
    let sels = rule.selectors@;
    assert(0u16 & attrs.descriptor_pseudo(n, active) == 0u16) by (bit_vector);
    assert(selector_matches(sels[1], attrs, active, n) <==> attrs.element_of(n) == Some(tag));
    assert(chain_matches(h, sels, attrs, active, 2, n)
        == (selector_matches(sels[1], attrs, active, n) && chain_matches(h, sels, attrs, active, 1, n)));
    if let Some(p) = h.parent_of(n) {
        let d = attrs.descriptor_pseudo(p, active);
        assert(0u16 & d == 0u16) by (bit_vector);
        assert(chain_matches(h, sels, attrs, active, 0, p));
        if attrs.has_class(p, class) {
            assert(selector_matches(sels[0], attrs, active, p));
        }
        if selector_matches(sels[0], attrs, active, p) {
            assert(attrs.has_class(p, sels[0].classes@[0]@));
        }
    }
}

/// The nearest matching ancestor exists exactly when some strict ancestor
/// matches.
pub proof fn lemma_nearest_ancestor_exists(h: Hierarchy, sel: Selector, attrs: NodeAttributes, active: Entity, n: int)
    requires
        h.wf(),
    ensures
        nearest_matching_ancestor(h, sel, attrs, active, n) is Some
            <==> exists|a: int| h.is_ancestor(a, n) && #[trigger] selector_matches(sel, attrs, active, a),
    decreases n,
{
    if n > 0 {
        match h.parent_of(n) {
            Some(p) => {
                if 0 <= p < n {
                    lemma_nearest_ancestor_exists(h, sel, attrs, active, p);
                    if selector_matches(sel, attrs, active, p) {
                        assert(h.is_ancestor(p, n));
                    } else if exists|a: int| h.is_ancestor(a, n) && #[trigger] selector_matches(sel, attrs, active, a) {
                        let a = choose|a: int| h.is_ancestor(a, n) && #[trigger] selector_matches(sel, attrs, active, a);
                        assert(h.is_ancestor(a, p));
                    }
                }
            },
            None => {},
        }
    }
}

/// A rule `[ancestor class c] [element e]`, the first selector with
/// relation `Ancestor`, matches node `n` exactly when `n` has element tag
/// `e` and some ancestor of `n`, at any depth, has class `c`.
pub proof fn lemma_ancestor_rule(
    h: Hierarchy,
    rule: Rule,
    attrs: NodeAttributes,
    active: Entity,
    class: Seq<char>,
    tag: Seq<char>,
    n: int,
)
    requires
        h.wf(),
        rule.selectors@.len() == 2,
        rule.selectors@[0].element is None,
        rule.selectors@[0].classes@.len() == 1,
        rule.selectors@[0].classes@[0]@ == class,
        rule.selectors@[0].pseudo_classes.bits == 0,
        rule.selectors@[0].relation == Relation::Ancestor,
        rule.selectors@[1].element matches Some(e) && e@ == tag,
        rule.selectors@[1].classes@.len() == 0,
        rule.selectors@[1].pseudo_classes.bits == 0,
        rule.selectors@[1].relation == Relation::Same,
    ensures
        rule_matches(h, rule, attrs, active, n) <==> {
            &&& attrs.element_of(n) == Some(tag)
            &&& exists|a: int| h.is_ancestor(a, n) && #[trigger] attrs.has_class(a, class)
        },
{
    let sels = rule.selectors@;
    let sel = sels[0];
    assert(0u16 & attrs.descriptor_pseudo(n, active) == 0u16) by (bit_vector);
    assert(selector_matches(sels[1], attrs, active, n) <==> attrs.element_of(n) == Some(tag));
    assert(chain_matches(h, sels, attrs, active, 2, n)
        == (selector_matches(sels[1], attrs, active, n) && chain_matches(h, sels, attrs, active, 1, n)));
    lemma_nearest_ancestor_exists(h, sel, attrs, active, n);
    assert forall|a: int| selector_matches(sel, attrs, active, a) <==> #[trigger] attrs.has_class(a, class) by {
        let d = attrs.descriptor_pseudo(a, active);
        assert(0u16 & d == 0u16) by (bit_vector);
        if attrs.has_class(a, class) {
            assert forall|i: int| 0 <= i < sel.classes@.len() implies attrs.has_class(a, #[trigger] sel.classes@[i]@) by {
                assert(i == 0);
            }
        }
        if selector_matches(sel, attrs, active, a) {
            assert(attrs.has_class(a, sel.classes@[0]@));
        }
    }
    if let Some(a) = nearest_matching_ancestor(h, sel, attrs, active, n) {
        assert(chain_matches(h, sels, attrs, active, 0, a));
    }
    if exists|a: int| h.is_ancestor(a, n) && #[trigger] attrs.has_class(a, class) {
        let a = choose|a: int| h.is_ancestor(a, n) && #[trigger] attrs.has_class(a, class);
        assert(selector_matches(sel, attrs, active, a));
    }
}

/// The node that is currently pressed matches a selector that requires
/// only the active pseudo-class, even when its stored pseudo-classes lack
/// the active bit.
pub proof fn lemma_pressed_node_is_active(sel: Selector, attrs: NodeAttributes, active: Entity)
    requires
        sel.element is None,
        sel.classes@.len() == 0,
        sel.pseudo_classes.bits == ACTIVE,
    ensures
        selector_matches(sel, attrs, active, active.spec_index() as int),
{
    let stored = attrs.pseudo_of(active.spec_index() as int);
    assert(2u16 & (stored | 2u16) == 2u16) by (bit_vector);
}

/// Tests `selector` against `entity`; see `selector_matches`.
pub fn check_match(state: &State, entity: Entity, selector: &Selector) -> (r: bool)
    ensures
        r == selector_matches(*selector, state.style.attributes, state.active, entity.spec_index() as int),
{
    let attrs = &state.style.attributes;
    let active = state.active;
    let n = entity.index();
    let ghost ni = n as int;
    // Element tag
    match &selector.element {
        Some(e) => {
            if n >= attrs.elements.len() {
                return false;
            }
            match &attrs.elements[n] {
                Some(own) => {
                    if !own.eq(e) {
                        return false;
                    }
                },
                None => {
                    return false;
                },
            }
        },
        None => {},
    }
    // Classes
    let mut i: usize = 0;
    while i < selector.classes.len()
        invariant
            i <= selector.classes@.len(),
            n == ni,
            ni == entity.spec_index(),
            *attrs == state.style.attributes,
            forall|k: int| 0 <= k < i ==> attrs.has_class(ni, #[trigger] selector.classes@[k]@),
        decreases selector.classes@.len() - i,
    {
        if n >= attrs.classes.len() {
            assert(!attrs.has_class(ni, selector.classes@[i as int]@));
            return false;
        }
        let list = &attrs.classes[n];
        let mut found = false;
        let mut j: usize = 0;
        while j < list.len()
            invariant
                j <= list@.len(),
                n == ni,
                n < attrs.classes@.len(),
                *list == attrs.classes@[ni],
                i < selector.classes@.len(),
                found ==> attrs.has_class(ni, selector.classes@[i as int]@),
                !found ==> forall|m: int| 0 <= m < j ==> (#[trigger] list@[m])@ != selector.classes@[i as int]@,
            decreases list@.len() - j,
        {
            if list[j].eq(&selector.classes[i]) {
                assert(attrs.classes@[ni]@[j as int]@ == selector.classes@[i as int]@);
                found = true;
            }
            j += 1;
        }
        if !found {
            assert(!attrs.has_class(ni, selector.classes@[i as int]@));
            return false;
        }
        i += 1;
    }
    // Pseudo-classes, with the pressed node forced active
    let mut pseudo = if n < attrs.pseudo_classes.len() {
        attrs.pseudo_classes[n]
    } else {
        crate::selector::PseudoClasses::new()
    };
    if active == entity {
        pseudo.set_active(true);
    }
    pseudo.contains_all(&selector.pseudo_classes)
}

/// The nearest strict ancestor of `entity` that `selector` matches.
pub fn find_ancestor(h: &Hierarchy, state: &State, entity: Entity, selector: &Selector) -> (r: Option<Entity>)
    requires
        h.wf(),
        h.contains(entity),
    ensures
        match r {
            Some(a) => nearest_matching_ancestor(*h, *selector, state.style.attributes, state.active, entity.spec_index() as int)
                == Some(a.spec_index() as int),
            None => nearest_matching_ancestor(*h, *selector, state.style.attributes, state.active, entity.spec_index() as int) is None,
        },
        r matches Some(a) ==> h.contains(a),
{
    let ghost attrs = state.style.attributes;
    let ghost active = state.active;
    let mut cur = entity;
    loop
        invariant
            h.wf(),
            h.contains(cur),
            attrs == state.style.attributes,
            active == state.active,
            nearest_matching_ancestor(*h, *selector, attrs, active, entity.spec_index() as int)
                == nearest_matching_ancestor(*h, *selector, attrs, active, cur.spec_index() as int),
        decreases cur.spec_index(),
    {
        proof {
            let c = cur.spec_index() as int;
            if c >= 1 {
                assert(h.parents@[c] is Some);
            }
        }
        match h.get_parent(cur) {
            None => {
                return None;
            },
            Some(p) => {
                if check_match(state, p, selector) {
                    return Some(p);
                }
                cur = p;
            },
        }
    }
}

/// Tests `rule` against `entity`; see `rule_matches`.
pub fn check_rule(h: &Hierarchy, state: &State, entity: Entity, rule: &Rule) -> (r: bool)
    requires
        h.wf(),
        h.contains(entity),
    ensures
        r == rule_matches(*h, *rule, state.style.attributes, state.active, entity.spec_index() as int),
{
    let ghost attrs = state.style.attributes;
    let ghost active = state.active;
    let sels = &rule.selectors;
    if sels.len() == 0 {
        return false;
    }
    let ghost full = sels@.len() as int;
    let mut k: usize = sels.len();
    let mut cur = entity;
    while k > 0
        invariant
            h.wf(),
            h.contains(cur),
            k <= sels@.len(),
            full == sels@.len(),
            *sels == rule.selectors,
            attrs == state.style.attributes,
            active == state.active,
            chain_matches(*h, sels@, attrs, active, full, entity.spec_index() as int)
                == chain_matches(*h, sels@, attrs, active, k as int, cur.spec_index() as int),
        decreases k,
    {
        let sel = &sels[k - 1];
        match sel.relation {
            Relation::Same => {
                if !check_match(state, cur, sel) {
                    return false;
                }
            },
            Relation::Parent => {
                proof {
                    let c = cur.spec_index() as int;
                    if c >= 1 {
                        assert(h.parents@[c] is Some);
                    }
                }
                match h.get_parent(cur) {
                    Some(p) => {
                        if !check_match(state, p, sel) {
                            return false;
                        }
                        cur = p;
                    },
                    None => {
                        return false;
                    },
                }
            },
            Relation::Ancestor => {
                match find_ancestor(h, state, cur, sel) {
                    Some(a) => {
                        cur = a;
                    },
                    None => {
                        return false;
                    },
                }
            },
        }
        k -= 1;
    }
    true
}

/// The ascending indices of the rules that match `entity`.
pub fn match_rules(h: &Hierarchy, state: &State, entity: Entity) -> (r: Vec<usize>)
    requires
        h.wf(),
        h.contains(entity),
    ensures
        r@ == matched_rules(*h, state.style.rules@, state.style.attributes, state.active, entity.spec_index() as int),
{
    let rules = &state.style.rules;
    let ghost attrs = state.style.attributes;
    let ghost active = state.active;
    let mut matched: Vec<usize> = Vec::new();
    let mut i: usize = 0;
    while i < rules.len()
        invariant
            h.wf(),
            h.contains(entity),
            i <= rules@.len(),
            *rules == state.style.rules,
            attrs == state.style.attributes,
            active == state.active,
            matched@ == matched_rules(*h, rules@.take(i as int), attrs, active, entity.spec_index() as int),
        decreases rules@.len() - i,
    {
        assert(rules@.take(i + 1).drop_last() =~= rules@.take(i as int));
        assert(rules@.take(i + 1).last() == rules@[i as int]);
        if check_rule(h, state, entity, &rules[i]) {
            matched.push(i);
        }
        i += 1;
    }
    assert(rules@.take(i as int) =~= rules@);
    matched
}

} // verus!
