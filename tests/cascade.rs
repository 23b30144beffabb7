use tuix::entity::Entity;
use tuix::hierarchy::Hierarchy;
use tuix::matcher::{check_match, check_rule, match_rules};
use tuix::selector::{PseudoClasses, Relation, Rule, Selector, ACTIVE, HOVER};
use tuix::state::{Message, State, WindowEvent};
use tuix::systems::apply_styles;
use tuix::values::{Length, Property, Value};

fn window_events(state: &State) -> Vec<WindowEvent> {
    let mut out = Vec::new();
    for e in state.events.iter() {
        match &e.message {
            Message::Window(w) => out.push(*w),
            _ => {}
        }
    }
    out
}

#[test]
fn matched_rules_grow_when_rules_are_appended() {
    let mut h = Hierarchy::new();
    let a = h.add(Entity::root());
    let mut state = State::new();
    state.style.attributes.set_element(a, "button");
    state.style.attributes.add_class(a, "big");
    state.style.add_rule(Rule::new(vec![Selector::new().element("button")]));
    state.style.add_rule(Rule::new(vec![Selector::new().element("label")]));
    let before = match_rules(&h, &state, a);
    assert_eq!(before, vec![0]);
    state.style.add_rule(Rule::new(vec![Selector::new().class("big")]));
    state.style.add_rule(Rule::new(vec![Selector::new().class("small")]));
    let after = match_rules(&h, &state, a);
    assert_eq!(after, vec![0, 2]);
    assert!(after.len() >= before.len());
    assert_eq!(&after[..before.len()], &before[..]);
}

#[test]
fn element_rule_matches_buttons_only() {
    let mut h = Hierarchy::new();
    let plain = h.add(Entity::root());
    let fancy = h.add(Entity::root());
    let other = h.add(Entity::root());
    let bare = h.add(Entity::root());
    let mut state = State::new();
    state.style.attributes.set_element(plain, "button");
    state.style.attributes.set_element(fancy, "button");
    state.style.attributes.add_class(fancy, "primary");
    state.style.attributes.set_pseudo_class(fancy, HOVER, true);
    state.style.attributes.set_element(other, "buttons");
    let rule = Rule::new(vec![Selector::new().element("button")]);
    assert!(check_rule(&h, &state, plain, &rule));
    assert!(check_rule(&h, &state, fancy, &rule));
    assert!(!check_rule(&h, &state, other, &rule));
    assert!(!check_rule(&h, &state, bare, &rule));
}

fn menu_rule() -> Rule {
    Rule::new(vec![
        Selector::new().class("menu").relation(Relation::Parent),
        Selector::new().element("item"),
    ])
}

#[test]
fn parent_rule_needs_the_immediate_parent() {
    let mut h = Hierarchy::new();
    let menu = h.add(Entity::root());
    let direct = h.add(menu);
    let wrapper = h.add(menu);
    let nested = h.add(wrapper);
    let mut state = State::new();
    state.style.attributes.add_class(menu, "menu");
    state.style.attributes.set_element(direct, "item");
    state.style.attributes.set_element(nested, "item");
    let rule = menu_rule();
    assert!(check_rule(&h, &state, direct, &rule));
    assert!(!check_rule(&h, &state, nested, &rule));
    assert!(!check_rule(&h, &state, wrapper, &rule));
}

#[test]
fn parent_rule_fails_without_parent_class() {
    let mut h = Hierarchy::new();
    let holder = h.add(Entity::root());
    let item = h.add(holder);
    let mut state = State::new();
    state.style.attributes.add_class(holder, "panel");
    state.style.attributes.set_element(item, "item");
    assert!(!check_rule(&h, &state, item, &menu_rule()));
}

#[test]
fn ancestor_rule_matches_at_any_depth() {
    let mut h = Hierarchy::new();
    let panel = h.add(Entity::root());
    let row = h.add(panel);
    let cell = h.add(row);
    let deep = h.add(cell);
    let shallow = h.add(panel);
    let outside = h.add(Entity::root());
    let mut state = State::new();
    state.style.attributes.add_class(panel, "panel");
    state.style.attributes.set_element(deep, "label");
    state.style.attributes.set_element(shallow, "label");
    state.style.attributes.set_element(outside, "label");
    state.style.attributes.set_element(cell, "cell");
    let rule = Rule::new(vec![
        Selector::new().class("panel").relation(Relation::Ancestor),
        Selector::new().element("label"),
    ]);
    assert!(check_rule(&h, &state, deep, &rule));
    assert!(check_rule(&h, &state, shallow, &rule));
    assert!(!check_rule(&h, &state, outside, &rule));
    assert!(!check_rule(&h, &state, cell, &rule));
}

#[test]
fn ancestor_match_continues_from_nearest_ancestor() {
    // [window] [panel] label: the nearest panel above the label must itself
    // have a window above it.
    let mut h = Hierarchy::new();
    let window = h.add(Entity::root());
    let panel = h.add(window);
    let label = h.add(panel);
    let lone_panel = h.add(Entity::root());
    let lone_label = h.add(lone_panel);
    let mut state = State::new();
    state.style.attributes.add_class(window, "window");
    state.style.attributes.add_class(panel, "panel");
    state.style.attributes.add_class(lone_panel, "panel");
    state.style.attributes.set_element(label, "label");
    state.style.attributes.set_element(lone_label, "label");
    let rule = Rule::new(vec![
        Selector::new().class("window").relation(Relation::Ancestor),
        Selector::new().class("panel").relation(Relation::Ancestor),
        Selector::new().element("label"),
    ]);
    assert!(check_rule(&h, &state, label, &rule));
    assert!(!check_rule(&h, &state, lone_label, &rule));
}

#[test]
fn empty_rule_matches_nothing() {
    let mut h = Hierarchy::new();
    let a = h.add(Entity::root());
    let state = State::new();
    assert!(!check_rule(&h, &state, a, &Rule::new(Vec::new())));
    assert!(check_rule(&h, &state, a, &Rule::new(vec![Selector::new()])));
}

#[test]
fn later_rule_wins_the_cascade() {
    let mut h = Hierarchy::new();
    let a = h.add(Entity::root());
    let mut state = State::new();
    state.style.attributes.set_element(a, "box");
    state.style.attributes.add_class(a, "wide");
    state.style.add_rule(Rule::new(vec![Selector::new().element("label")]));
    state.style.add_rule(Rule::new(vec![Selector::new().element("other")]));
    let r2 = state.style.add_rule(Rule::new(vec![
        Selector::new().relation(Relation::Ancestor),
        Selector::new().element("box").class("wide"),
    ]));
    state.style.add_rule(Rule::new(vec![Selector::new().element("label")]));
    state.style.add_rule(Rule::new(vec![Selector::new().element("other")]));
    let r5 = state.style.add_rule(Rule::new(vec![Selector::new().class("wide")]));
    assert_eq!((r2, r5), (2, 5));
    state.style.set_property(r2, Property::Width, Value::Length(Length::Percentage(50)));
    state.style.set_property(r5, Property::Width, Value::Length(Length::Percentage(80)));
    apply_styles(&mut state, &h);
    assert_eq!(state.style.get(Property::Width, a), Some(Value::Length(Length::Percentage(80))));
    assert_eq!(state.style.stores[Property::Width.index()].get_rule(a), Some(5));
}

#[test]
fn restyle_twice_changes_nothing_the_second_time() {
    let mut h = Hierarchy::new();
    let a = h.add(Entity::root());
    let b = h.add(a);
    let mut state = State::new();
    state.style.attributes.set_element(a, "panel");
    state.style.attributes.set_element(b, "label");
    let r0 = state.style.add_rule(Rule::new(vec![Selector::new().element("panel")]));
    let r1 = state.style.add_rule(Rule::new(vec![Selector::new().element("label")]));
    state.style.set_property(r0, Property::Width, Value::Length(Length::Pixels(120)));
    state.style.set_property(r1, Property::BackgroundColor, Value::Color(0xff0000ff));
    apply_styles(&mut state, &h);
    assert_eq!(window_events(&state), vec![WindowEvent::Relayout, WindowEvent::Redraw]);
    let width = state.style.get(Property::Width, a);
    let color = state.style.get(Property::BackgroundColor, b);
    state.events.clear();
    apply_styles(&mut state, &h);
    assert!(state.events.is_empty());
    assert_eq!(state.style.get(Property::Width, a), width);
    assert_eq!(state.style.get(Property::BackgroundColor, b), color);
}

#[test]
fn paint_only_change_asks_for_redraw_only() {
    let mut h = Hierarchy::new();
    let a = h.add(Entity::root());
    let mut state = State::new();
    let r = state.style.add_rule(Rule::new(vec![Selector::new()]));
    state.style.set_property(r, Property::FontColor, Value::Color(7));
    apply_styles(&mut state, &h);
    assert_eq!(window_events(&state), vec![WindowEvent::Redraw]);
    assert_eq!(state.events[0].target, Entity::root());
    assert_eq!(state.style.get(Property::FontColor, a), Some(Value::Color(7)));
}

#[test]
fn inert_property_asks_for_nothing() {
    let mut h = Hierarchy::new();
    let a = h.add(Entity::root());
    let mut state = State::new();
    let r = state.style.add_rule(Rule::new(vec![Selector::new()]));
    state.style.set_property(r, Property::Overflow, Value::Overflow(tuix::values::Overflow::Hidden));
    apply_styles(&mut state, &h);
    assert!(state.events.is_empty());
    assert_eq!(state.style.get(Property::Overflow, a), Some(Value::Overflow(tuix::values::Overflow::Hidden)));
}

#[test]
fn signals_are_sent_once_per_pass() {
    let mut h = Hierarchy::new();
    let mut nodes = Vec::new();
    for _ in 0..5 {
        nodes.push(h.add(Entity::root()));
    }
    let mut state = State::new();
    let r = state.style.add_rule(Rule::new(vec![Selector::new()]));
    state.style.set_property(r, Property::Height, Value::Length(Length::Pixels(10)));
    state.style.set_property(r, Property::ShadowColor, Value::Color(1));
    apply_styles(&mut state, &h);
    assert_eq!(window_events(&state), vec![WindowEvent::Relayout, WindowEvent::Redraw]);
    for n in nodes {
        assert_eq!(state.style.get(Property::Height, n), Some(Value::Length(Length::Pixels(10))));
    }
}

#[test]
fn root_and_unmatched_nodes_are_left_alone() {
    let mut h = Hierarchy::new();
    let a = h.add(Entity::root());
    let b = h.add(Entity::root());
    let mut state = State::new();
    state.style.attributes.set_element(a, "button");
    let r = state.style.add_rule(Rule::new(vec![Selector::new().element("button")]));
    state.style.set_property(r, Property::Top, Value::Length(Length::Pixels(3)));
    let any = state.style.add_rule(Rule::new(vec![Selector::new().element("nothing")]));
    state.style.set_property(any, Property::Top, Value::Length(Length::Pixels(9)));
    apply_styles(&mut state, &h);
    assert_eq!(state.style.get(Property::Top, a), Some(Value::Length(Length::Pixels(3))));
    assert_eq!(state.style.get(Property::Top, b), None);
    assert_eq!(state.style.get(Property::Top, Entity::root()), None);
}

#[test]
fn rule_losing_its_match_unsets_the_value() {
    let mut h = Hierarchy::new();
    let a = h.add(Entity::root());
    let mut state = State::new();
    state.style.attributes.add_class(a, "x");
    let any = state.style.add_rule(Rule::new(vec![Selector::new()]));
    state.style.set_property(any, Property::Left, Value::Length(Length::Pixels(1)));
    let x = state.style.add_rule(Rule::new(vec![Selector::new().class("x")]));
    state.style.set_property(x, Property::Opacity, Value::Opacity(500000));
    apply_styles(&mut state, &h);
    assert_eq!(state.style.get(Property::Opacity, a), Some(Value::Opacity(500000)));
    state.events.clear();
    // Drop the class: only the catch-all rule still matches.
    state.style.attributes.classes[a.index()].clear();
    apply_styles(&mut state, &h);
    assert_eq!(state.style.get(Property::Opacity, a), None);
    assert_eq!(state.style.get(Property::Left, a), Some(Value::Length(Length::Pixels(1))));
    assert_eq!(window_events(&state), vec![WindowEvent::Relayout, WindowEvent::Redraw]);
}

#[test]
fn pressed_node_matches_active_selector() {
    let mut h = Hierarchy::new();
    let a = h.add(Entity::root());
    let b = h.add(Entity::root());
    let mut state = State::new();
    state.active = a;
    let sel = Selector::new().pseudo(ACTIVE);
    assert!(check_match(&state, a, &sel));
    assert!(!check_match(&state, b, &sel));
    let r = state.style.add_rule(Rule::new(vec![Selector::new().pseudo(ACTIVE)]));
    state.style.set_property(r, Property::BorderColor, Value::Color(42));
    apply_styles(&mut state, &h);
    assert_eq!(state.style.get(Property::BorderColor, a), Some(Value::Color(42)));
    assert_eq!(state.style.get(Property::BorderColor, b), None);
}

#[test]
fn pseudo_class_subset_matching() {
    let mut h = Hierarchy::new();
    let a = h.add(Entity::root());
    let mut state = State::new();
    state.style.attributes.set_pseudo_class(a, HOVER, true);
    assert!(check_match(&state, a, &Selector::new().pseudo(HOVER)));
    assert!(!check_match(&state, a, &Selector::new().pseudo(HOVER | ACTIVE)));
    let mut p = PseudoClasses::new();
    p.set(HOVER | ACTIVE, true);
    assert!(p.contains_all(&PseudoClasses { bits: HOVER }));
    assert!(!PseudoClasses { bits: HOVER }.contains_all(&p));
}

#[test]
fn unset_and_default_are_the_same_value() {
    let mut h = Hierarchy::new();
    let a = h.add(Entity::root());
    let mut state = State::new();
    state.style.attributes.add_class(a, "x");
    let any = state.style.add_rule(Rule::new(vec![Selector::new()]));
    state.style.set_property(any, Property::Left, Value::Length(Length::Pixels(1)));
    let x = state.style.add_rule(Rule::new(vec![Selector::new().class("x")]));
    state.style.set_property(x, Property::Display, Value::Display(tuix::values::Display::Flex));
    apply_styles(&mut state, &h);
    // Left changed; display went from unset to its default, which is no change.
    assert_eq!(window_events(&state), vec![WindowEvent::Relayout, WindowEvent::Redraw]);
    assert_eq!(state.style.get(Property::Display, a), Some(Value::Display(tuix::values::Display::Flex)));
    state.events.clear();
    // The class goes: display is unset again and still resolves to flex.
    state.style.attributes.classes[a.index()].clear();
    apply_styles(&mut state, &h);
    assert_eq!(state.style.get(Property::Display, a), None);
    assert_eq!(state.style.get_resolved(Property::Display, a), Value::Display(tuix::values::Display::Flex));
    assert!(state.events.is_empty());
}

#[test]
fn defaults_and_value_types() {
    assert_eq!(Property::Display.default_value(), Value::Display(tuix::values::Display::Flex));
    assert_eq!(Property::Width.default_value(), Value::Length(Length::Auto));
    assert_eq!(Property::Opacity.default_value(), Value::Opacity(tuix::values::OPACITY_FULL));
    assert!(Property::Width.accepts(Value::Length(Length::Pixels(3))));
    assert!(!Property::Display.accepts(Value::Length(Length::Pixels(3))));
    let mut h = Hierarchy::new();
    let a = h.add(Entity::root());
    let state = State::new();
    assert_eq!(state.style.get_resolved(Property::FontSize, a), Value::Number(16));
}

#[test]
fn tree_keeps_pre_order_numbering() {
    let mut h = Hierarchy::new();
    let a = h.add(Entity::root());
    let b = h.add(Entity::root());
    // a is no longer on the path to the last node: a child of it would
    // break the pre-order.
    assert!(!h.can_add(a));
    assert!(h.can_add(b));
    assert!(h.can_add(Entity::root()));
    assert!(!h.can_add(Entity::new(9)));
    let c = h.add(b);
    assert!(h.can_add(c) && h.can_add(b) && !h.can_add(a));
    assert_eq!(h.get_children(Entity::root()), vec![a, b]);
}
