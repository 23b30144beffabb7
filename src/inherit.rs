use vstd::prelude::*;

use crate::data::Data;
use crate::entity::Entity;
use crate::hierarchy::Hierarchy;
use crate::state::State;
use crate::style::{display_of_value, opacity_of_value, visibility_of_value, Style};
use crate::values::{Display, Property, Visibility, OPACITY_FULL};

verus! {

/// The clip region of node `n`: its own, where one is set, else its
/// parent's; the root keeps `root_clip`.
pub open spec fn resolved_clip(style: Style, h: Hierarchy, root_clip: Entity, n: int) -> Entity
    decreases n,
{
    if n <= 0 {
        root_clip
    } else {
        match style.clip_of(n) {
            Some(c) => c,
            None => match h.parent_of(n) {
                Some(p) => if 0 <= p < n { resolved_clip(style, h, root_clip, p) } else { root_clip },
                None => root_clip,
            },
        }
    }
}

pub open spec fn display_at(style: Style, n: int) -> Display {
    display_of_value(style.value_of(Property::Display, n))
}

/// The visibility of node `n`: invisible when its own visibility is
/// invisible, when it or its parent is not displayed, or when its parent is
/// invisible; visible otherwise. The root keeps `root_visibility`.
pub open spec fn resolved_visibility(style: Style, h: Hierarchy, root_visibility: Visibility, n: int) -> Visibility
    decreases n,
{
    if n <= 0 {
        root_visibility
    } else {
        match h.parent_of(n) {
            Some(p) => if 0 <= p < n {
                if visibility_of_value(style.value_of(Property::Visibility, n)) == Visibility::Invisible
                    || display_at(style, n) == Display::Hidden
                    || resolved_visibility(style, h, root_visibility, p) == Visibility::Invisible
                    || display_at(style, p) == Display::Hidden {
                    Visibility::Invisible
                } else {
                    Visibility::Visible
                }
            } else {
                root_visibility
            },
            None => root_visibility,
        }
    }
}

/// The opacity of node `n`: its own times its parent's (in millionths,
/// rounded down); the root keeps `root_opacity`.
pub open spec fn resolved_opacity(style: Style, h: Hierarchy, root_opacity: u32, n: int) -> int
    decreases n,
{
    if n <= 0 {
        root_opacity as int
    } else {
        match h.parent_of(n) {
            Some(p) => if 0 <= p < n {
                opacity_of_value(style.value_of(Property::Opacity, n)) * resolved_opacity(style, h, root_opacity, p)
                    / (OPACITY_FULL as int)
            } else {
                root_opacity as int
            },
            None => root_opacity as int,
        }
    }
}

/// Node `a` is drawn before node `b`: it has a lower z-order, or the same
/// z-order and comes first in document order.
pub open spec fn paints_before(data: Data, a: Entity, b: Entity) -> bool {
    ||| data.z_order_of(a.spec_index() as int) < data.z_order_of(b.spec_index() as int)
    ||| (data.z_order_of(a.spec_index() as int) == data.z_order_of(b.spec_index() as int)
        && a.spec_index() < b.spec_index())
}

/// `order` lists the nodes of `h`, each once, sorted by z-order, with ties
/// in document order.
pub open spec fn is_paint_order(data: Data, h: Hierarchy, order: Seq<Entity>) -> bool {
    &&& order.len() == h.spec_len()
    &&& forall|i: int| 0 <= i < order.len() ==> (#[trigger] order[i]).spec_index() < h.spec_len()
    &&& forall|i: int, j: int| 0 <= i < j < order.len() ==> paints_before(data, #[trigger] order[i], #[trigger] order[j])
}

/// A node below a node that is not displayed is invisible, at any depth,
/// whatever its own visibility and display say.
pub proof fn lemma_hidden_ancestor_hides(style: Style, h: Hierarchy, root_visibility: Visibility, a: int, n: int)
    requires
        h.wf(),
        0 <= n < h.spec_len(),
        h.is_ancestor(a, n),
        display_at(style, a) == Display::Hidden,
    ensures
        resolved_visibility(style, h, root_visibility, n) == Visibility::Invisible,
    decreases n,
{
    let p = h.parent_of(n)->0;
    assert(h.parents@[n] is Some);
    if p != a {
        lemma_hidden_ancestor_hides(style, h, root_visibility, a, p);
    }
}

/// Gives every node but the root its clip region: the one set on it, or
/// else its parent's. Parents come before children in document order, so
/// each parent is resolved first.
pub fn apply_clipping(state: &mut State, hierarchy: &Hierarchy)
    requires
        hierarchy.wf(),
        hierarchy.spec_len() < usize::MAX,
    ensures
        forall|n: int| 1 <= n < hierarchy.spec_len() ==> #[trigger] final(state).data.clip_of(n)
            == resolved_clip(old(state).style, *hierarchy, old(state).data.clip_of(0), n),
        forall|n: int| !(1 <= n < hierarchy.spec_len()) ==> #[trigger] final(state).data.clip_of(n) == old(state).data.clip_of(n),
        final(state).data.visibility == old(state).data.visibility,
        final(state).data.opacity == old(state).data.opacity,
        final(state).data.z_order == old(state).data.z_order,
        final(state).data.draw_order == old(state).data.draw_order,
        final(state).style == old(state).style,
        final(state).events == old(state).events,
        final(state).active == old(state).active,
        final(state).text == old(state).text,
        final(state).hovered == old(state).hovered,
        final(state).focused == old(state).focused,
        final(state).captured == old(state).captured,
{
    let ghost h = *hierarchy;
    let ghost root_clip = state.data.clip_of(0);
    let mut i: usize = 1;
    while i < hierarchy.len()
        invariant
            1 <= i <= h.spec_len(),
            h == *hierarchy,
            h.wf(),
            h.spec_len() < usize::MAX,
            root_clip == old(state).data.clip_of(0),
            forall|n: int| 1 <= n < i ==> #[trigger] state.data.clip_of(n) == resolved_clip(old(state).style, h, root_clip, n),
            forall|n: int| !(1 <= n < i) ==> #[trigger] state.data.clip_of(n) == old(state).data.clip_of(n),
            state.data.visibility == old(state).data.visibility,
            state.data.opacity == old(state).data.opacity,
            state.data.z_order == old(state).data.z_order,
            state.data.draw_order == old(state).data.draw_order,
            state.style == old(state).style,
            state.events == old(state).events,
            state.active == old(state).active,
            state.text == old(state).text,
            state.hovered == old(state).hovered,
            state.focused == old(state).focused,
            state.captured == old(state).captured,
        decreases h.spec_len() - i,
    {
        let entity = Entity::new(i);
        assert(h.parents@[i as int] is Some);
        let parent = match hierarchy.get_parent(entity) {
            Some(p) => p,
            None => Entity::root(),
        };
        let ghost pi = parent.spec_index() as int;
        assert(0 <= pi < i);
        assert(state.data.clip_of(pi) == resolved_clip(old(state).style, h, root_clip, pi));
        let clip = match state.style.get_clip_widget(entity) {
            Some(c) => c,
            None => state.data.get_clip_widget(parent),
        };
        assert(clip == resolved_clip(old(state).style, h, root_clip, i as int));
        state.data.set_clip_widget(entity, clip);
        i += 1;
    }
}

/// Resolves visibility and opacity in document order, so that every parent
/// is resolved before its children.
fn resolve_visibility(state: &mut State, hierarchy: &Hierarchy)
    requires
        hierarchy.wf(),
        hierarchy.spec_len() < usize::MAX,
        old(state).style.wf(),
    ensures
        forall|n: int| 1 <= n < hierarchy.spec_len() ==> #[trigger] final(state).data.visibility_of(n)
            == resolved_visibility(old(state).style, *hierarchy, old(state).data.visibility_of(0), n),
        forall|n: int| 1 <= n < hierarchy.spec_len() ==> #[trigger] final(state).data.opacity_of(n)
            == resolved_opacity(old(state).style, *hierarchy, old(state).data.opacity_of(0), n),
        forall|n: int| !(1 <= n < hierarchy.spec_len()) ==> #[trigger] final(state).data.visibility_of(n) == old(state).data.visibility_of(n),
        forall|n: int| !(1 <= n < hierarchy.spec_len()) ==> #[trigger] final(state).data.opacity_of(n) == old(state).data.opacity_of(n),
        final(state).data.clip_widget == old(state).data.clip_widget,
        final(state).data.z_order == old(state).data.z_order,
        final(state).data.draw_order == old(state).data.draw_order,
        final(state).style == old(state).style,
        final(state).events == old(state).events,
        final(state).active == old(state).active,
        final(state).text == old(state).text,
        final(state).hovered == old(state).hovered,
        final(state).focused == old(state).focused,
        final(state).captured == old(state).captured,
{
    let ghost h = *hierarchy;
    let ghost style = state.style;
    let ghost root_visibility = state.data.visibility_of(0);
    let ghost root_opacity = state.data.opacity_of(0);
    let mut i: usize = 1;
    while i < hierarchy.len()
        invariant
            1 <= i <= h.spec_len(),
            h == *hierarchy,
            h.wf(),
            h.spec_len() < usize::MAX,
            style == old(state).style,
            style.wf(),
            root_visibility == old(state).data.visibility_of(0),
            root_opacity == old(state).data.opacity_of(0),
            forall|n: int| 1 <= n < i ==> #[trigger] state.data.visibility_of(n) == resolved_visibility(style, h, root_visibility, n),
            forall|n: int| 1 <= n < i ==> #[trigger] state.data.opacity_of(n) == resolved_opacity(style, h, root_opacity, n),
            forall|n: int| !(1 <= n < i) ==> #[trigger] state.data.visibility_of(n) == old(state).data.visibility_of(n),
            forall|n: int| !(1 <= n < i) ==> #[trigger] state.data.opacity_of(n) == old(state).data.opacity_of(n),
            state.data.clip_widget == old(state).data.clip_widget,
            state.data.z_order == old(state).data.z_order,
            state.data.draw_order == old(state).data.draw_order,
            state.style == old(state).style,
            state.events == old(state).events,
            state.active == old(state).active,
            state.text == old(state).text,
            state.hovered == old(state).hovered,
            state.focused == old(state).focused,
            state.captured == old(state).captured,
        decreases h.spec_len() - i,
    {
        let entity = Entity::new(i);
        assert(h.parents@[i as int] is Some);
        let parent = match hierarchy.get_parent(entity) {
            Some(p) => p,
            None => Entity::root(),
        };
        let ghost pi = parent.spec_index() as int;
        assert(0 <= pi < i);
        assert(state.data.visibility_of(pi) == resolved_visibility(style, h, root_visibility, pi));
        let mut visibility = state.style.get_visibility(entity);
        if state.style.get_display(entity) == Display::Hidden {
            visibility = Visibility::Invisible;
        }
        if state.data.get_visibility(parent) == Visibility::Invisible {
            visibility = Visibility::Invisible;
        }
        if state.style.get_display(parent) == Display::Hidden {
            visibility = Visibility::Invisible;
        }
        let own = state.style.get_opacity(entity);
        let inherited = state.data.get_opacity(parent);
        proof {
            assert(state.data.opacity_of(pi) == resolved_opacity(style, h, root_opacity, pi));
            assert(own as int * inherited as int <= OPACITY_FULL as int * inherited as int) by (nonlinear_arith)
                requires own <= OPACITY_FULL;
            assert((own as int * inherited as int) / (OPACITY_FULL as int) <= inherited as int) by (nonlinear_arith)
                requires own as int * inherited as int <= OPACITY_FULL as int * inherited as int, OPACITY_FULL > 0;
            assert(own as u64 * inherited as u64 <= u64::MAX) by (nonlinear_arith)
                requires own <= OPACITY_FULL, inherited <= u32::MAX;
        }
        let opacity = ((own as u64 * inherited as u64) / (OPACITY_FULL as u64)) as u32;
        assert(visibility == resolved_visibility(style, h, root_visibility, i as int));
        assert(opacity == resolved_opacity(style, h, root_opacity, i as int));
        let ghost before = state.data;
        state.data.set_visibility(entity, visibility);
        let ghost mid = state.data;
        state.data.set_opacity(entity, opacity);
        proof {
            assert forall|n: int| #![trigger state.data.visibility_of(n)] n != i implies state.data.visibility_of(n) == before.visibility_of(n) by {
                assert(mid.visibility_of(n) == before.visibility_of(n));
            }
            assert forall|n: int| #![trigger state.data.opacity_of(n)] n != i implies state.data.opacity_of(n) == before.opacity_of(n) by {
                assert(mid.opacity_of(n) == before.opacity_of(n));
            }
        }
        i += 1;
    }
}

/// Lists every node of the tree in paint order; see `is_paint_order`.
fn paint_order(data: &Data, hierarchy: &Hierarchy) -> (r: Vec<Entity>)
    requires
        hierarchy.wf(),
    ensures
        is_paint_order(*data, *hierarchy, r@),
{
    let mut order: Vec<Entity> = Vec::new();
    let mut k: usize = 0;
    while k < hierarchy.len()
        invariant
            k <= hierarchy.spec_len(),
            order@.len() == k,
            forall|i: int| 0 <= i < order@.len() ==> (#[trigger] order@[i]).spec_index() < k,
            forall|i: int, j: int| 0 <= i < j < order@.len() ==> paints_before(*data, #[trigger] order@[i], #[trigger] order@[j]),
        decreases hierarchy.spec_len() - k,
    {
        let entity = Entity::new(k);
        let z = data.get_z_order(entity);
        let mut pos: usize = 0;
        while pos < order.len() && paints_before_exec(data, order[pos], z, entity)
            invariant
                pos <= order@.len(),
                forall|i: int| 0 <= i < pos ==> paints_before(*data, #[trigger] order@[i], entity),
                z == data.z_order_of(k as int),
                entity.spec_index() == k,
            decreases order@.len() - pos,
        {
            pos += 1;
        }
        proof {
            assert forall|i: int| pos <= i < order@.len() implies paints_before(*data, entity, #[trigger] order@[i]) by {
                assert(!paints_before(*data, order@[pos as int], entity));
                assert(order@[pos as int].spec_index() < k);
                if i > pos {
                    assert(paints_before(*data, order@[pos as int], order@[i]));
                }
            }
        }
        let ghost before = order@;
        order.insert(pos, entity);
        proof {
            assert forall|i: int| 0 <= i < order@.len() implies (#[trigger] order@[i]).spec_index() < k + 1 by {
                if i < pos {
                    assert(order@[i] == before[i]);
                } else if i > pos {
                    assert(order@[i] == before[i - 1]);
                }
            }
            assert forall|i: int, j: int| 0 <= i < j < order@.len() implies paints_before(*data, #[trigger] order@[i], #[trigger] order@[j]) by {
                if i < pos {
                    assert(order@[i] == before[i]);
                }
                if i > pos {
                    assert(order@[i] == before[i - 1]);
                }
                if j < pos {
                    assert(order@[j] == before[j]);
                }
                if j > pos {
                    assert(order@[j] == before[j - 1]);
                }
            }
        }
        k += 1;
    }
    order
}

fn paints_before_exec(data: &Data, a: Entity, z: i32, b: Entity) -> (r: bool)
    requires
        z == data.z_order_of(b.spec_index() as int),
    ensures
        r == paints_before(*data, a, b),
{
    let za = data.get_z_order(a);
    za < z || (za == z && a.index() < b.index())
}

/// Resolves visibility and opacity for every node but the root, in
/// document order, then records the paint order: every node of the tree
/// sorted by z-order, ties kept in document order.
pub fn apply_visibility(state: &mut State, hierarchy: &Hierarchy)
    requires
        hierarchy.wf(),
        hierarchy.spec_len() < usize::MAX,
        old(state).style.wf(),
    ensures
        forall|n: int| 1 <= n < hierarchy.spec_len() ==> #[trigger] final(state).data.visibility_of(n)
            == resolved_visibility(old(state).style, *hierarchy, old(state).data.visibility_of(0), n),
        forall|n: int| 1 <= n < hierarchy.spec_len() ==> #[trigger] final(state).data.opacity_of(n)
            == resolved_opacity(old(state).style, *hierarchy, old(state).data.opacity_of(0), n),
        forall|n: int| !(1 <= n < hierarchy.spec_len()) ==> #[trigger] final(state).data.visibility_of(n) == old(state).data.visibility_of(n),
        forall|n: int| !(1 <= n < hierarchy.spec_len()) ==> #[trigger] final(state).data.opacity_of(n) == old(state).data.opacity_of(n),
        is_paint_order(final(state).data, *hierarchy, final(state).data.draw_order@),
        final(state).data.clip_widget == old(state).data.clip_widget,
        final(state).data.z_order == old(state).data.z_order,
        final(state).style == old(state).style,
        final(state).events == old(state).events,
        final(state).active == old(state).active,
        final(state).text == old(state).text,
        final(state).hovered == old(state).hovered,
        final(state).focused == old(state).focused,
        final(state).captured == old(state).captured,
{
    resolve_visibility(state, hierarchy);
    let ghost mid = state.data;
    let order = paint_order(&state.data, hierarchy);
    state.data.draw_order = order;
    proof {
        assert forall|n: int| #![trigger state.data.visibility_of(n)] state.data.visibility_of(n) == mid.visibility_of(n) by {}
        assert forall|n: int| #![trigger state.data.opacity_of(n)] state.data.opacity_of(n) == mid.opacity_of(n) by {}
    }
}

} // verus!
