use tuix::button::{Button, ButtonEvent};
use tuix::checkbox::{Checkbox, CheckboxEvent};
use tuix::entity::Entity;
use tuix::hierarchy::Hierarchy;
use tuix::node::Node;
use tuix::selector::{ACTIVE, CHECKED, DISABLED};
use tuix::slider::Slider2;
use tuix::state::{Code, Event, Message, MouseButton, Propagation, State, WindowEvent};

fn pseudo(state: &State, e: Entity) -> u16 {
    state.style.attributes.pseudo_classes[e.index()].bits
}

fn text(state: &State, e: Entity) -> Option<String> {
    state.text.get(e.index()).cloned().flatten()
}

fn is_button(e: &Event, want: &str) -> bool {
    match &e.message {
        Message::Button(ButtonEvent::Pressed) => want == "pressed",
        Message::Button(ButtonEvent::Released) => want == "released",
        _ => false,
    }
}

#[test]
fn button_builders() {
    let b = Button::with_label("Go").with_key(Code::Enter);
    assert_eq!(b.text.as_deref(), Some("Go"));
    assert_eq!(b.key, Code::Enter);
    assert!(b.on_press.is_none());
    let b = Button::new()
        .on_press(Event::new(Message::Window(WindowEvent::Redraw)))
        .on_release(Event::new(Message::Window(WindowEvent::Relayout)));
    assert!(b.on_press.is_some() && b.on_release.is_some());
    assert_eq!(b.key, Code::Space);
    let b = b.reset();
    assert!(b.on_press.is_none() && b.on_release.is_none());
}

#[test]
fn button_build_sets_element_and_label() {
    let mut h = Hierarchy::new();
    let e = h.add(Entity::root());
    let mut state = State::new();
    let mut b = Button::with_label("OK");
    assert_eq!(b.on_build(&mut state, &mut h, e), e);
    assert_eq!(state.style.attributes.elements[e.index()].as_deref(), Some("button"));
    assert_eq!(text(&state, e).as_deref(), Some("OK"));
}

#[test]
fn mouse_down_captures_and_sends_pressed() {
    let mut h = Hierarchy::new();
    let e = h.add(Entity::root());
    let mut state = State::new();
    let mut b = Button::new();
    let down = Event::new(Message::Window(WindowEvent::MouseDown(MouseButton::Left))).target(e);
    b.on_event(&mut state, e, &down);
    assert_eq!(state.captured, e);
    assert_eq!(state.events.len(), 1);
    assert!(is_button(&state.events[0], "pressed"));
    assert_eq!(state.events[0].target, e);
    assert_eq!(state.events[0].origin, e);
}

#[test]
fn disabled_button_ignores_mouse_down() {
    let mut h = Hierarchy::new();
    let e = h.add(Entity::root());
    let mut state = State::new();
    state.style.attributes.set_pseudo_class(e, DISABLED, true);
    let mut b = Button::new();
    let down = Event::new(Message::Window(WindowEvent::MouseDown(MouseButton::Left))).target(e);
    b.on_event(&mut state, e, &down);
    assert!(state.events.is_empty());
    assert_eq!(state.captured, Entity::null());
}

#[test]
fn pressed_sets_active_and_sends_on_press() {
    let mut h = Hierarchy::new();
    let e = h.add(Entity::root());
    let other = h.add(Entity::root());
    let mut state = State::new();
    let mut b = Button::new().on_press(Event::new(Message::Window(WindowEvent::Restyle)));
    b.on_event(&mut state, e, &Event::new(Message::Button(ButtonEvent::Pressed)).target(e));
    assert_eq!(pseudo(&state, e) & ACTIVE, ACTIVE);
    assert_eq!(state.events.len(), 1);
    assert!(matches!(state.events[0].message, Message::Window(WindowEvent::Restyle)));
    assert_eq!(state.events[0].target, e);
    assert_eq!(state.events[0].origin, e);
    // Aimed elsewhere: nothing happens.
    b.on_event(&mut state, e, &Event::new(Message::Button(ButtonEvent::Pressed)).target(other));
    assert_eq!(state.events.len(), 1);
    b.on_event(&mut state, e, &Event::new(Message::Button(ButtonEvent::Released)).target(e));
    assert_eq!(pseudo(&state, e) & ACTIVE, 0);
}

#[test]
fn mouse_up_over_pressed_button_sends_released() {
    let mut h = Hierarchy::new();
    let e = h.add(Entity::root());
    let mut state = State::new();
    let mut b = Button::new();
    state.active = e;
    state.hovered = e;
    state.captured = e;
    state.style.attributes.set_pseudo_class(e, ACTIVE, true);
    let up = Event::new(Message::Window(WindowEvent::MouseUp(MouseButton::Left))).target(e);
    b.on_event(&mut state, e, &up);
    assert_eq!(state.captured, Entity::null());
    assert_eq!(pseudo(&state, e) & ACTIVE, 0);
    assert_eq!(state.events.len(), 1);
    assert!(is_button(&state.events[0], "released"));
}

#[test]
fn keys_press_and_release_focused_button() {
    let mut h = Hierarchy::new();
    let e = h.add(Entity::root());
    let mut state = State::new();
    let mut b = Button::new();
    b.on_event(&mut state, e, &Event::new(Message::Window(WindowEvent::KeyDown(Code::Space))));
    assert!(state.events.is_empty());
    state.focused = e;
    b.on_event(&mut state, e, &Event::new(Message::Window(WindowEvent::KeyDown(Code::Enter))));
    assert!(state.events.is_empty());
    b.on_event(&mut state, e, &Event::new(Message::Window(WindowEvent::KeyDown(Code::Space))));
    b.on_event(&mut state, e, &Event::new(Message::Window(WindowEvent::KeyUp(Code::Space))));
    assert_eq!(state.events.len(), 2);
    assert!(is_button(&state.events[0], "pressed"));
    assert!(is_button(&state.events[1], "released"));
}

#[test]
fn press_request_sends_direct_pressed() {
    let mut h = Hierarchy::new();
    let e = h.add(Entity::root());
    let mut state = State::new();
    let mut b = Button::new();
    b.on_event(&mut state, e, &Event::new(Message::Button(ButtonEvent::Press)));
    b.on_event(&mut state, e, &Event::new(Message::Button(ButtonEvent::SetKey(Code::Tab))));
    b.on_event(&mut state, e, &Event::new(Message::Button(ButtonEvent::SetLabel("Hi".to_string()))));
    assert_eq!(state.events.len(), 1);
    assert!(is_button(&state.events[0], "pressed"));
    assert_eq!(state.events[0].propagation, Propagation::Direct);
    assert_eq!(state.events[0].target, e);
    assert_eq!(b.key, Code::Tab);
    assert_eq!(text(&state, e).as_deref(), Some("Hi"));
}

#[test]
fn checkbox_builders() {
    let c = Checkbox::new(false).with_icon_checked("X").with_icon_unchecked("O");
    assert!(!c.checked);
    assert_eq!(c.icon_checked.as_deref(), Some("X"));
    assert_eq!(c.icon_unchecked.as_deref(), Some("O"));
    assert!(matches!(
        c.button.on_release.as_ref().map(|e| &e.message),
        Some(Message::Checkbox(CheckboxEvent::Switch))
    ));
    let c = Checkbox::new(true)
        .on_checked(Event::new(Message::Window(WindowEvent::Redraw)))
        .on_unchecked(Event::new(Message::Window(WindowEvent::Relayout)));
    assert!(c.checked);
    assert_eq!(c.icon_checked.as_deref(), Some("\u{2713}"));
    assert_eq!(c.icon_unchecked.as_deref(), Some(""));
    assert!(c.on_checked.is_some() && c.on_unchecked.is_some());
    assert!(!c.checked(false).checked);
}

#[test]
fn checkbox_build_and_switch() {
    let mut h = Hierarchy::new();
    let e = h.add(Entity::root());
    let mut state = State::new();
    let mut c = Checkbox::new(true);
    c.on_build(&mut state, &mut h, e);
    assert_eq!(state.style.attributes.elements[e.index()].as_deref(), Some("checkbox"));
    assert_eq!(pseudo(&state, e) & CHECKED, CHECKED);
    assert_eq!(text(&state, e).as_deref(), Some("\u{2713}"));
    c.switch(&mut state, e);
    assert!(!c.checked);
    assert_eq!(pseudo(&state, e) & CHECKED, 0);
    assert_eq!(text(&state, e).as_deref(), Some(""));
}

#[test]
fn checkbox_switch_message_answers_with_checked() {
    let mut h = Hierarchy::new();
    let e = h.add(Entity::root());
    let mut state = State::new();
    let mut c = Checkbox::new(false);
    c.on_event(&mut state, e, &Event::new(Message::Checkbox(CheckboxEvent::Switch)).target(e));
    assert_eq!(state.events.len(), 1);
    assert!(matches!(state.events[0].message, Message::Checkbox(CheckboxEvent::Checked)));
    assert!(!c.checked);
}

#[test]
fn checkbox_release_flows_into_switch() {
    let mut h = Hierarchy::new();
    let e = h.add(Entity::root());
    let mut state = State::new();
    let mut c = Checkbox::new(true);
    c.on_event(&mut state, e, &Event::new(Message::Button(ButtonEvent::Released)).target(e));
    assert_eq!(state.events.len(), 1);
    assert!(matches!(state.events[0].message, Message::Checkbox(CheckboxEvent::Switch)));
    assert_eq!(state.events[0].target, e);
}

#[test]
fn checked_message_updates_and_notifies() {
    let mut h = Hierarchy::new();
    let e = h.add(Entity::root());
    let listener = h.add(Entity::root());
    let mut state = State::new();
    let mut c = Checkbox::new(false)
        .on_checked(Event::new(Message::Window(WindowEvent::Redraw)).target(listener))
        .on_unchecked(Event::new(Message::Window(WindowEvent::Relayout)));
    c.on_event(&mut state, e, &Event::new(Message::Checkbox(CheckboxEvent::Checked)).target(e));
    assert!(c.checked);
    assert_eq!(pseudo(&state, e) & CHECKED, CHECKED);
    assert_eq!(text(&state, e).as_deref(), Some("\u{2713}"));
    assert_eq!(state.events.len(), 1);
    assert_eq!(state.events[0].target, listener);
    assert_eq!(state.events[0].origin, e);
    c.on_event(&mut state, e, &Event::new(Message::Checkbox(CheckboxEvent::Unchecked)).target(e));
    assert!(!c.checked);
    assert_eq!(pseudo(&state, e) & CHECKED, 0);
    assert_eq!(state.events.len(), 2);
    assert_eq!(state.events[1].target, e);
    assert!(matches!(state.events[1].message, Message::Window(WindowEvent::Relayout)));
}

#[test]
fn check_and_uncheck_send_nothing() {
    let mut h = Hierarchy::new();
    let e = h.add(Entity::root());
    let mut state = State::new();
    let mut c = Checkbox::new(false).on_checked(Event::new(Message::Window(WindowEvent::Redraw)));
    c.on_event(&mut state, e, &Event::new(Message::Checkbox(CheckboxEvent::Check)));
    assert!(c.checked);
    assert_eq!(pseudo(&state, e) & CHECKED, CHECKED);
    c.on_event(&mut state, e, &Event::new(Message::Checkbox(CheckboxEvent::Uncheck)));
    assert!(!c.checked);
    assert!(state.events.is_empty());
}

#[test]
fn slider_build_adds_overlay_and_thumb() {
    let mut h = Hierarchy::new();
    let e = h.add(Entity::root());
    let mut state = State::new();
    let mut s = Slider2::new();
    assert!(!s.sliding);
    assert_eq!(s.thumb, Entity::null());
    s.on_build(&mut state, &mut h, e);
    assert_eq!(h.len(), 4);
    assert_eq!(h.get_parent(s.active), Some(e));
    assert_eq!(h.get_parent(s.thumb), Some(e));
    assert_eq!(h.get_children(e), vec![s.active, s.thumb]);
    assert_eq!(state.style.attributes.elements[e.index()].as_deref(), Some("slider2"));
    assert_eq!(state.style.attributes.classes[s.thumb.index()], vec!["thumb".to_string()]);
}

#[test]
fn build_adds_a_child_and_sets_it_up() {
    let mut h = Hierarchy::new();
    let panel = h.add(Entity::root());
    let mut state = State::new();
    let mut b = Button::with_label("Save");
    let e = b.build(&mut state, &mut h, panel);
    assert_eq!(e, Entity::new(2));
    assert_eq!(h.get_parent(e), Some(panel));
    assert_eq!(state.style.attributes.elements[e.index()].as_deref(), Some("button"));
    let mut s = Slider2::new();
    let track = s.build(&mut state, &mut h, panel);
    assert_eq!(h.get_children(panel), vec![e, track]);
    assert_eq!(h.get_children(track), vec![s.active, s.thumb]);
}
