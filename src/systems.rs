use vstd::prelude::*;

use crate::entity::Entity;
use crate::hierarchy::Hierarchy;
use crate::matcher::{match_rules, matched_rules};
use crate::state::{redraw_event, relayout_event, Event, Message, State, WindowEvent};
use crate::store::PropertyStore;
use crate::style::Style;
use crate::values::{affects_layout, affects_paint, Value, LAYOUT_END, PAINT_END, PROPERTY_COUNT};

verus! {

/// The rules of `style` that match node `n`, in ascending order.
pub open spec fn matched_for(style: Style, h: Hierarchy, active: Entity, n: int) -> Seq<usize> {
    matched_rules(h, style.rules@, style.attributes, active, n)
}

/// A restyle pass links node `n`: it is a node other than the root, and
/// some rule matches it.
pub open spec fn restyles(style: Style, h: Hierarchy, active: Entity, n: int) -> bool {
    1 <= n < h.spec_len() && matched_for(style, h, active, n).len() > 0
}

/// Linking a node to the rules `matched` changes the resolved value that
/// `store` gives it (an unset node resolves to the type default).
pub open spec fn store_changes(store: PropertyStore, n: int, matched: Seq<usize>) -> bool {
    store.resolved(n) != store.cascaded(matched)
}

/// A restyle pass over `style` changes the value of property `p` at node `n`.
pub open spec fn changes(style: Style, h: Hierarchy, active: Entity, p: int, n: int) -> bool {
    &&& restyles(style, h, active, n)
    &&& store_changes(style.store(p), n, matched_for(style, h, active, n))
}

/// A restyle pass over `style` changes a value that layout depends on.
pub open spec fn needs_relayout(style: Style, h: Hierarchy, active: Entity) -> bool {
    exists|p: int, n: int| affects_layout(p) && #[trigger] changes(style, h, active, p, n)
}

/// A restyle pass over `style` changes a value that drawing depends on.
pub open spec fn needs_redraw(style: Style, h: Hierarchy, active: Entity) -> bool {
    exists|p: int, n: int| affects_paint(p) && #[trigger] changes(style, h, active, p, n)
}

/// The entry of property `p` at node `n` after a restyle pass over `style`.
pub open spec fn restyled_entry(style: Style, h: Hierarchy, active: Entity, p: int, n: int) -> Option<(usize, Value)> {
    if restyles(style, h, active, n) {
        style.store(p).resolve(matched_for(style, h, active, n))
    } else {
        style.store(p).entry(n)
    }
}

/// `new` is what a restyle pass over `old` leaves: the stylesheet and the
/// node attributes as they were, and every node that some rule matches
/// linked, in every store, to the last matching rule that declares the
/// property (or unset where none does).
pub open spec fn restyled(old: Style, new: Style, h: Hierarchy, active: Entity) -> bool {
    &&& new.wf()
    &&& new.rules == old.rules
    &&& new.attributes == old.attributes
    &&& new.clip_widget == old.clip_widget
    &&& forall|p: int| 0 <= p < PROPERTY_COUNT ==> (#[trigger] new.store(p)).rules == old.store(p).rules
    &&& forall|p: int, n: int| 0 <= p < PROPERTY_COUNT ==> #[trigger] new.store(p).entry(n) == restyled_entry(old, h, active, p, n)
}

/// `new` is `old` followed by one relayout signal if `relayout` holds, then
/// one redraw signal if `redraw` holds.
pub open spec fn signals_sent(old: Seq<Event>, new: Seq<Event>, relayout: bool, redraw: bool) -> bool {
    &&& new.len() == old.len() + (if relayout { 1int } else { 0int }) + (if redraw { 1int } else { 0int })
    &&& forall|i: int| 0 <= i < old.len() ==> new[i] == old[i]
    &&& relayout ==> relayout_event(new[old.len() as int])
    &&& redraw ==> redraw_event(new[new.len() - 1])
}

/// Restyling twice in a row, with nothing changed in between, changes
/// nothing the second time: every entry stays as the first pass left it,
/// and the second pass asks for neither a new layout nor a redraw.
pub proof fn lemma_restyle_idempotent(s0: Style, s1: Style, s2: Style, h: Hierarchy, active: Entity)
    requires
        restyled(s0, s1, h, active),
        restyled(s1, s2, h, active),
    ensures
        forall|p: int, n: int| 0 <= p < PROPERTY_COUNT ==> #[trigger] s2.store(p).entry(n) == s1.store(p).entry(n),
        !needs_relayout(s1, h, active),
        !needs_redraw(s1, h, active),
{
    assert forall|p: int, n: int| 0 <= p < PROPERTY_COUNT implies #[trigger] s2.store(p).entry(n) == s1.store(p).entry(n) by {
        assert(s1.store(p).rules == s0.store(p).rules);
    }
    assert forall|p: int, n: int| 0 <= p < PROPERTY_COUNT implies !#[trigger] changes(s1, h, active, p, n) by {
        if restyles(s1, h, active, n) {
            assert(s1.store(p).rules == s0.store(p).rules);
            assert(s1.store(p).entry(n) == restyled_entry(s0, h, active, p, n));
        }
    }
}

/// Links `entity` to `matched` in every store. Returns whether a value that
/// layout depends on changed, and whether a value that drawing depends on
/// changed.
fn link_all(style: &mut Style, entity: Entity, matched: &Vec<usize>) -> (r: (bool, bool))
    requires
        old(style).wf(),
        entity.spec_index() < usize::MAX,
    ensures
        final(style).wf(),
        final(style).rules == old(style).rules,
        final(style).attributes == old(style).attributes,
        final(style).clip_widget == old(style).clip_widget,
        forall|p: int| 0 <= p < PROPERTY_COUNT ==> (#[trigger] final(style).store(p)).rules == old(style).store(p).rules,
        forall|p: int, n: int| 0 <= p < PROPERTY_COUNT ==> #[trigger] final(style).store(p).entry(n)
            == if n == entity.spec_index() { old(style).store(p).resolve(matched@) } else { old(style).store(p).entry(n) },
        r.0 == exists|p: int| affects_layout(p) && #[trigger] store_changes(old(style).store(p), entity.spec_index() as int, matched@),
        r.1 == exists|p: int| affects_paint(p) && #[trigger] store_changes(old(style).store(p), entity.spec_index() as int, matched@),
{
    let ghost e = entity.spec_index() as int;
    let mut relayout = false;
    let mut redraw = false;
    let mut p: usize = 0;
    while p < PROPERTY_COUNT
        invariant
            style.wf(),
            e == entity.spec_index(),
            entity.spec_index() < usize::MAX,
            style.rules == old(style).rules,
            style.attributes == old(style).attributes,
            style.clip_widget == old(style).clip_widget,
            forall|q: int| 0 <= q < PROPERTY_COUNT ==> (#[trigger] style.store(q)).rules == old(style).store(q).rules,
            forall|q: int| 0 <= q < PROPERTY_COUNT ==> (#[trigger] style.store(q)).default == old(style).store(q).default,
            forall|q: int, n: int| 0 <= q < PROPERTY_COUNT ==> #[trigger] style.store(q).entry(n)
                == if n == e && q < p { old(style).store(q).resolve(matched@) } else { old(style).store(q).entry(n) },
            relayout == exists|q: int| 0 <= q < p && affects_layout(q) && #[trigger] store_changes(old(style).store(q), e, matched@),
            redraw == exists|q: int| 0 <= q < p && affects_paint(q) && #[trigger] store_changes(old(style).store(q), e, matched@),
        decreases PROPERTY_COUNT - p,
    {
        let ghost before = *style;
        let changed = style.stores[p].link_rule(entity, matched);
        proof {
            let pi = p as int;
            assert(before.store(pi).entry(e) == old(style).store(pi).entry(e));
            assert(changed == store_changes(old(style).store(pi), e, matched@));
            assert forall|q: int| 0 <= q < PROPERTY_COUNT && q != pi implies #[trigger] style.store(q) == before.store(q) by {
                assert(style.stores@[q] == before.stores@[q]);
            }
            assert forall|q: int, n: int| 0 <= q < PROPERTY_COUNT implies #[trigger] style.store(q).entry(n)
                == if n == e && q < p + 1 { old(style).store(q).resolve(matched@) } else { old(style).store(q).entry(n) } by {
                if q != pi {
                    assert(style.store(q) == before.store(q));
                } else {
                    assert(before.store(pi).entry(n) == old(style).store(pi).entry(n));
                }
            }
        }
        if changed {
            if p < LAYOUT_END {
                relayout = true;
            }
            if p < PAINT_END {
                redraw = true;
            }
        }
        p += 1;
    }
    (relayout, redraw)
}

/// Resolves the styles of every node but the root, in document order. A
/// node that no rule matches is left as it was. Each store links the node
/// to the last matching rule that declares its property; when a changed
/// value is one that layout depends on, one relayout signal targeted at the
/// root is queued after the pass, and when it is one that drawing depends
/// on, one redraw signal.
pub fn apply_styles(state: &mut State, hierarchy: &Hierarchy)
    requires
        old(state).style.wf(),
        hierarchy.wf(),
        hierarchy.spec_len() < usize::MAX,
    ensures
        restyled(old(state).style, final(state).style, *hierarchy, old(state).active),
        signals_sent(
            old(state).events@,
            final(state).events@,
            needs_relayout(old(state).style, *hierarchy, old(state).active),
            needs_redraw(old(state).style, *hierarchy, old(state).active),
        ),
        final(state).data == old(state).data,
        final(state).active == old(state).active,
        final(state).hovered == old(state).hovered,
        final(state).focused == old(state).focused,
        final(state).captured == old(state).captured,
        final(state).text == old(state).text,
{
    let ghost old_style = state.style;
    let ghost active = state.active;
    let ghost h = *hierarchy;
    let mut should_relayout = false;
    let mut should_redraw = false;
    let mut i: usize = 1;
    while i < hierarchy.len()
        invariant
            1 <= i <= h.spec_len(),
            h == *hierarchy,
            h.wf(),
            h.spec_len() < usize::MAX,
            state.active == active,
            state.style.wf(),
            old_style.wf(),
            state.style.rules == old_style.rules,
            state.style.attributes == old_style.attributes,
            state.style.clip_widget == old_style.clip_widget,
            forall|p: int| 0 <= p < PROPERTY_COUNT ==> (#[trigger] state.style.store(p)).rules == old_style.store(p).rules,
            forall|p: int, n: int| 0 <= p < PROPERTY_COUNT ==> #[trigger] state.style.store(p).entry(n)
                == if n < i { restyled_entry(old_style, h, active, p, n) } else { old_style.store(p).entry(n) },
            should_relayout == exists|p: int, n: int| n < i && affects_layout(p) && #[trigger] changes(old_style, h, active, p, n),
            should_redraw == exists|p: int, n: int| n < i && affects_paint(p) && #[trigger] changes(old_style, h, active, p, n),
            state.events == old(state).events,
            state.data == old(state).data,
            state.hovered == old(state).hovered,
            state.focused == old(state).focused,
            state.captured == old(state).captured,
            state.text == old(state).text,
        decreases h.spec_len() - i,
    {
        let entity = Entity::new(i);
        let ghost n = i as int;
        let matched = match_rules(hierarchy, &*state, entity);
        assert(matched@ == matched_for(old_style, h, active, n));
        if matched.len() > 0 {
            let ghost before = state.style;
            let ghost before_relayout = should_relayout;
            let ghost before_redraw = should_redraw;
            let (relayout, redraw) = link_all(&mut state.style, entity, &matched);
            proof {
                assert forall|p: int| 0 <= p < PROPERTY_COUNT implies
                    store_changes(before.store(p), n, matched@) == #[trigger] changes(old_style, h, active, p, n) by {
                    assert(before.store(p).entry(n) == old_style.store(p).entry(n));
                }
                assert forall|p: int, m: int| 0 <= p < PROPERTY_COUNT implies #[trigger] state.style.store(p).entry(m)
                    == if m < i + 1 { restyled_entry(old_style, h, active, p, m) } else { old_style.store(p).entry(m) } by {
                    assert(before.store(p).entry(m) == if m < i { restyled_entry(old_style, h, active, p, m) } else { old_style.store(p).entry(m) });
                }
                if relayout {
                    let p = choose|p: int| affects_layout(p) && #[trigger] store_changes(before.store(p), n, matched@);
                    assert(changes(old_style, h, active, p, n));
                }
                if before_relayout {
                    let (p, m) = choose|p: int, m: int| m < i && affects_layout(p) && #[trigger] changes(old_style, h, active, p, m);
                    assert(m < i + 1 && changes(old_style, h, active, p, m));
                }
                if redraw {
                    let p = choose|p: int| affects_paint(p) && #[trigger] store_changes(before.store(p), n, matched@);
                    assert(changes(old_style, h, active, p, n));
                }
                if before_redraw {
                    let (p, m) = choose|p: int, m: int| m < i && affects_paint(p) && #[trigger] changes(old_style, h, active, p, m);
                    assert(m < i + 1 && changes(old_style, h, active, p, m));
                }
                if exists|p: int, m: int| m < i + 1 && affects_layout(p) && #[trigger] changes(old_style, h, active, p, m) {
                    let (p, m) = choose|p: int, m: int| m < i + 1 && affects_layout(p) && #[trigger] changes(old_style, h, active, p, m);
                    if m == n {
                        assert(store_changes(before.store(p), n, matched@));
                    }
                }
                if exists|p: int, m: int| m < i + 1 && affects_paint(p) && #[trigger] changes(old_style, h, active, p, m) {
                    let (p, m) = choose|p: int, m: int| m < i + 1 && affects_paint(p) && #[trigger] changes(old_style, h, active, p, m);
                    if m == n {
                        assert(store_changes(before.store(p), n, matched@));
                    }
                }
            }
            should_relayout = should_relayout || relayout;
            should_redraw = should_redraw || redraw;
        } else {
            proof {
                assert forall|p: int, m: int| 0 <= p < PROPERTY_COUNT implies #[trigger] state.style.store(p).entry(m)
                    == if m < i + 1 { restyled_entry(old_style, h, active, p, m) } else { old_style.store(p).entry(m) } by {
                }
                assert forall|p: int| !#[trigger] changes(old_style, h, active, p, n) by {
                }
            }
        }
        i += 1;
    }
    proof {
        assert forall|p: int, n: int| 0 <= p < PROPERTY_COUNT implies #[trigger] state.style.store(p).entry(n)
            == restyled_entry(old_style, h, active, p, n) by {
            if n >= i {
                assert(!restyles(old_style, h, active, n));
            }
        }
        if needs_relayout(old_style, h, active) {
            let (p, n) = choose|p: int, n: int| affects_layout(p) && #[trigger] changes(old_style, h, active, p, n);
            assert(n < i);
        }
        if needs_redraw(old_style, h, active) {
            let (p, n) = choose|p: int, n: int| affects_paint(p) && #[trigger] changes(old_style, h, active, p, n);
            assert(n < i);
        }
    }
    if should_relayout {
        state.insert_event(Event::new(Message::Window(WindowEvent::Relayout)).target(Entity::root()));
    }
    if should_redraw {
        state.insert_event(Event::new(Message::Window(WindowEvent::Redraw)).target(Entity::root()));
    }
}

} // verus!
