use tuix::entity::Entity;
use tuix::hierarchy::Hierarchy;
use tuix::inherit::{apply_clipping, apply_visibility};
use tuix::selector::{Rule, Selector};
use tuix::state::State;
use tuix::systems::apply_styles;
use tuix::values::{Display, Property, Value, Visibility, OPACITY_FULL};

#[test]
fn hidden_parent_hides_child_without_visibility_rule() {
    let mut h = Hierarchy::new();
    let a = h.add(Entity::root());
    let b = h.add(a);
    let c = h.add(Entity::root());
    let mut state = State::new();
    state.style.attributes.set_element(Entity::root(), "window");
    state.style.attributes.set_element(a, "a");
    let root_rule = state.style.add_rule(Rule::new(vec![Selector::new().element("window")]));
    state.style.set_property(root_rule, Property::Display, Value::Display(Display::Flex));
    let a_rule = state.style.add_rule(Rule::new(vec![Selector::new().element("a")]));
    state.style.set_property(a_rule, Property::Display, Value::Display(Display::Hidden));
    apply_styles(&mut state, &h);
    apply_visibility(&mut state, &h);
    assert_eq!(state.data.get_visibility(a), Visibility::Invisible);
    assert_eq!(state.data.get_visibility(b), Visibility::Invisible);
    assert_eq!(state.data.get_visibility(c), Visibility::Visible);
    assert_eq!(state.style.get(Property::Visibility, b), None);
}

#[test]
fn own_invisibility_is_inherited() {
    let mut h = Hierarchy::new();
    let a = h.add(Entity::root());
    let b = h.add(a);
    let c = h.add(b);
    let mut state = State::new();
    state.style.attributes.add_class(a, "ghost");
    let r = state.style.add_rule(Rule::new(vec![Selector::new().class("ghost")]));
    state.style.set_property(r, Property::Visibility, Value::Visibility(Visibility::Invisible));
    apply_styles(&mut state, &h);
    apply_visibility(&mut state, &h);
    assert_eq!(state.data.get_visibility(a), Visibility::Invisible);
    assert_eq!(state.data.get_visibility(b), Visibility::Invisible);
    assert_eq!(state.data.get_visibility(c), Visibility::Invisible);
}

#[test]
fn half_opacity_under_half_opacity_is_a_quarter() {
    let mut h = Hierarchy::new();
    let parent = h.add(Entity::root());
    let child = h.add(parent);
    let mut state = State::new();
    let r = state.style.add_rule(Rule::new(vec![Selector::new()]));
    state.style.set_property(r, Property::Opacity, Value::Opacity(OPACITY_FULL / 2));
    apply_styles(&mut state, &h);
    apply_visibility(&mut state, &h);
    assert_eq!(state.data.get_opacity(parent), 500000);
    assert_eq!(state.data.get_opacity(child), 250000);
}

#[test]
fn opacity_defaults_to_full_and_is_capped() {
    let mut h = Hierarchy::new();
    let a = h.add(Entity::root());
    let b = h.add(a);
    let mut state = State::new();
    state.style.attributes.add_class(b, "loud");
    let r = state.style.add_rule(Rule::new(vec![Selector::new().class("loud")]));
    state.style.set_property(r, Property::Opacity, Value::Opacity(3 * OPACITY_FULL));
    apply_styles(&mut state, &h);
    apply_visibility(&mut state, &h);
    assert_eq!(state.data.get_opacity(a), OPACITY_FULL);
    assert_eq!(state.data.get_opacity(b), OPACITY_FULL);
}

#[test]
fn paint_order_sorts_by_z_order_keeping_document_order() {
    let mut h = Hierarchy::new();
    let a = h.add(Entity::root());
    let b = h.add(a);
    let c = h.add(Entity::root());
    let d = h.add(c);
    let mut state = State::new();
    state.data.set_z_order(a, 2);
    state.data.set_z_order(c, 1);
    state.data.set_z_order(d, 1);
    apply_visibility(&mut state, &h);
    assert_eq!(state.data.draw_order, vec![Entity::root(), b, c, d, a]);
}

#[test]
fn clip_region_is_inherited_unless_set() {
    let mut h = Hierarchy::new();
    let a = h.add(Entity::root());
    let b = h.add(a);
    let c = h.add(b);
    let d = h.add(Entity::root());
    let mut state = State::new();
    state.style.set_clip_widget(b, b);
    apply_clipping(&mut state, &h);
    assert_eq!(state.data.get_clip_widget(a), Entity::root());
    assert_eq!(state.data.get_clip_widget(b), b);
    assert_eq!(state.data.get_clip_widget(c), b);
    assert_eq!(state.data.get_clip_widget(d), Entity::root());
}

#[test]
fn clip_region_follows_root_clip() {
    let mut h = Hierarchy::new();
    let a = h.add(Entity::root());
    let b = h.add(a);
    let mut state = State::new();
    state.data.set_clip_widget(Entity::root(), a);
    apply_clipping(&mut state, &h);
    assert_eq!(state.data.get_clip_widget(a), a);
    assert_eq!(state.data.get_clip_widget(b), a);
    assert_eq!(state.data.get_clip_widget(Entity::root()), a);
}
