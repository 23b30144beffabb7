use vstd::prelude::*;

use crate::entity::Entity;
use crate::hierarchy::Hierarchy;
use crate::node::Node;
use crate::selector::ACTIVE;
use crate::state::{Code, Event, Message, MouseButton, Propagation, State, WindowEvent};

verus! {

#[derive(Debug)]
pub enum ButtonEvent {
    /// Sent by a button when it is pressed.
    Pressed,
    /// Sent by a button when it is released.
    Released,
    /// Asks the button to send `Pressed`.
    Press,
    /// Asks the button to send `Released`.
    Release,
    SetLabel(String),
    SetKey(Code),
}

impl ButtonEvent {
    /// A copy of the message.
    pub fn duplicate(&self) -> (r: ButtonEvent)
        ensures
            r == *self,
    {
        match self {
            ButtonEvent::Pressed => ButtonEvent::Pressed,
            ButtonEvent::Released => ButtonEvent::Released,
            ButtonEvent::Press => ButtonEvent::Press,
            ButtonEvent::Release => ButtonEvent::Release,
            ButtonEvent::SetLabel(s) => ButtonEvent::SetLabel(s.clone()),
            ButtonEvent::SetKey(k) => ButtonEvent::SetKey(*k),
        }
    }
}

/// The event a widget sends on behalf of `entity` from the template `e`:
/// aimed at `entity` unless the template names a target, and coming from
/// `entity`.
pub open spec fn dispatched(e: Event, entity: Entity) -> Event {
    Event {
        message: e.message,
        target: if e.target == Entity::null_spec() { entity } else { e.target },
        origin: entity,
        propagation: e.propagation,
    }
}

/// Sends the event made from the template `e` on behalf of `entity`.
pub fn dispatch(state: &mut State, e: &Event, entity: Entity)
    ensures
        final(state).events@ == old(state).events@.push(dispatched(*e, entity)),
        final(state).style == old(state).style,
        final(state).data == old(state).data,
        final(state).text == old(state).text,
        final(state).active == old(state).active,
        final(state).hovered == old(state).hovered,
        final(state).focused == old(state).focused,
        final(state).captured == old(state).captured,
{
    let mut ev = e.duplicate();
    if ev.target == Entity::null() {
        ev.target = entity;
    }
    ev.origin = entity;
    state.insert_event(ev);
}

/// `new` is `old` with the events of `sent` queued after the old ones,
/// pointer input captured by `captured`, and nothing else changed.
pub open spec fn captures_and_sends(old: State, new: State, captured: Entity, sent: Seq<Event>) -> bool {
    &&& new.events@ =~= old.events@ + sent
    &&& new.style == old.style
    &&& new.data == old.data
    &&& new.text == old.text
    &&& new.active == old.active
    &&& new.hovered == old.hovered
    &&& new.focused == old.focused
    &&& new.captured == captured
}

/// `new` is `old` with the events of `sent` queued after the old ones, and
/// nothing else changed.
pub open spec fn only_sends(old: State, new: State, sent: Seq<Event>) -> bool {
    captures_and_sends(old, new, old.captured, sent)
}

/// `new` is `old` with the pseudo-classes `flag` of node `n` turned on or
/// off, the events of `sent` queued, and nothing else changed but what
/// `captured` says.
pub open spec fn marks_and_sends(old: State, new: State, n: int, flag: u16, on: bool, sent: Seq<Event>, captured: Entity) -> bool {
    &&& new.events@ =~= old.events@ + sent
    &&& new.style.attributes.pseudo_of(n) == if on {
        old.style.attributes.pseudo_of(n) | flag
    } else {
        old.style.attributes.pseudo_of(n) & !flag
    }
    &&& forall|m: int| m != n ==> #[trigger] new.style.attributes.pseudo_of(m) == old.style.attributes.pseudo_of(m)
    &&& new.style.attributes.elements == old.style.attributes.elements
    &&& new.style.attributes.classes == old.style.attributes.classes
    &&& new.style.rules == old.style.rules
    &&& new.style.stores == old.style.stores
    &&& new.style.clip_widget == old.style.clip_widget
    &&& new.data == old.data
    &&& new.text == old.text
    &&& new.active == old.active
    &&& new.hovered == old.hovered
    &&& new.focused == old.focused
    &&& new.captured == captured
}

pub open spec fn button_event(msg: ButtonEvent, target: Entity, origin: Entity, propagation: Propagation) -> Event {
    Event { message: Message::Button(msg), target, origin, propagation }
}

/// The event that the template `e`, if any, sends on behalf of `entity`.
pub open spec fn optional_dispatch(e: Option<Event>, entity: Entity) -> Seq<Event> {
    match e {
        Some(t) => seq![dispatched(t, entity)],
        None => Seq::empty(),
    }
}

/// A widget that can be pressed and released, and that sends an event of
/// its own choosing when it is pressed and when it is released.
pub struct Button {
    pub on_press: Option<Event>,
    pub on_release: Option<Event>,
    pub text: Option<String>,
    pub key: Code,
}

/// What `Button::on_event` does: `b0`, `s0` before and `b1`, `s1` after
/// `event` reached the button on node `entity`.
pub open spec fn button_reacts(b0: Button, b1: Button, s0: State, s1: State, entity: Entity, event: Event) -> bool {
    let n = entity.spec_index() as int;
    let pressed = button_event(ButtonEvent::Pressed, entity, entity, Propagation::DownUp);
    let released = button_event(ButtonEvent::Released, entity, entity, Propagation::DownUp);
    match event.message {
        Message::Button(ButtonEvent::SetLabel(label)) => {
            &&& b1 == b0
            &&& s1.text_of(n) == Some(label@)
            &&& forall|m: int| m != n ==> #[trigger] s1.text_of(m) == s0.text_of(m)
            &&& s1.events == s0.events
            &&& s1.style == s0.style
            &&& s1.data == s0.data
            &&& s1.captured == s0.captured
        },
        Message::Button(ButtonEvent::SetKey(key)) => b1.key == key && b1.on_press == b0.on_press && b1.on_release == b0.on_release
            && b1.text == b0.text && s1 == s0,
        Message::Button(ButtonEvent::Pressed) => b1 == b0 && if event.target == entity {
            marks_and_sends(s0, s1, n, ACTIVE, true, optional_dispatch(b0.on_press, entity), s0.captured)
        } else {
            s1 == s0
        },
        Message::Button(ButtonEvent::Released) => b1 == b0 && if event.target == entity {
            marks_and_sends(s0, s1, n, ACTIVE, false, optional_dispatch(b0.on_release, entity), s0.captured)
        } else {
            s1 == s0
        },
        Message::Button(ButtonEvent::Press) => b1 == b0 && only_sends(
            s0,
            s1,
            seq![button_event(ButtonEvent::Pressed, entity, Entity::null_spec(), Propagation::Direct)],
        ),
        Message::Button(ButtonEvent::Release) => b1 == b0 && only_sends(
            s0,
            s1,
            seq![button_event(ButtonEvent::Released, entity, Entity::null_spec(), Propagation::Direct)],
        ),
        Message::Window(WindowEvent::MouseDown(MouseButton::Left)) => b1 == b0 && if event.target == entity
            && !s0.spec_is_disabled(entity) {
            captures_and_sends(s0, s1, entity, seq![pressed])
        } else {
            s1 == s0
        },
        Message::Window(WindowEvent::MouseUp(MouseButton::Left)) => b1 == b0 && if event.target == entity
            && s0.active == entity {
            marks_and_sends(
                s0,
                s1,
                n,
                ACTIVE,
                false,
                if !s0.spec_is_disabled(entity) && s0.hovered == entity { seq![released] } else { Seq::empty() },
                if s0.captured == entity { Entity::null_spec() } else { s0.captured },
            )
        } else {
            s1 == s0
        },
        Message::Window(WindowEvent::KeyDown(code)) => b1 == b0 && if code == b0.key && s0.focused == entity
            && !s0.spec_is_disabled(entity) {
            only_sends(s0, s1, seq![pressed])
        } else {
            s1 == s0
        },
        Message::Window(WindowEvent::KeyUp(code)) => b1 == b0 && if code == b0.key {
            only_sends(s0, s1, seq![released])
        } else {
            s1 == s0
        },
        _ => b1 == b0 && s1 == s0,
    }
}

impl Button {
    /// A button without a label, pressed by the space key, that sends
    /// nothing.
    pub fn new() -> (r: Button)
        ensures
            r.on_press is None,
            r.on_release is None,
            r.text is None,
            r.key == Code::Space,
    {
        Button { on_press: None, on_release: None, text: None, key: Code::Space }
    }

    /// A button showing `text`.
    pub fn with_label(text: &str) -> (r: Button)
        ensures
            r.on_press is None,
            r.on_release is None,
            r.text matches Some(t) && t@ == text@,
            r.key == Code::Space,
    {
        Button { on_press: None, on_release: None, text: Some(text.to_owned()), key: Code::Space }
    }

    /// Sets the event sent when the button is pressed.
    pub fn on_press(self, event: Event) -> (r: Button)
        ensures
            r.on_press == Some(event),
            r.on_release == self.on_release,
            r.text == self.text,
            r.key == self.key,
    {
        let Button { on_press: _, on_release, text, key } = self;
        Button { on_press: Some(event), on_release, text, key }
    }

    /// Sets the event sent when the button is released.
    pub fn on_release(self, event: Event) -> (r: Button)
        ensures
            r.on_press == self.on_press,
            r.on_release == Some(event),
            r.text == self.text,
            r.key == self.key,
    {
        let Button { on_press, on_release: _, text, key } = self;
        Button { on_press, on_release: Some(event), text, key }
    }

    /// Sets the key that presses the button.
    pub fn with_key(self, key: Code) -> (r: Button)
        ensures
            r.on_press == self.on_press,
            r.on_release == self.on_release,
            r.text == self.text,
            r.key == key,
    {
        let Button { on_press, on_release, text, key: _ } = self;
        Button { on_press, on_release, text, key }
    }

    /// Forgets the events sent on press and on release.
    pub fn reset(self) -> (r: Button)
        ensures
            r.on_press is None,
            r.on_release is None,
            r.text == self.text,
            r.key == self.key,
    {
        let Button { on_press: _, on_release: _, text, key } = self;
        Button { on_press: None, on_release: None, text, key }
    }

    /// Reacts to `event` on behalf of the button on node `entity`; see
    /// `button_reacts`.
    pub fn on_event(&mut self, state: &mut State, entity: Entity, event: &Event)
        requires
            entity.spec_index() < usize::MAX,
        ensures
            button_reacts(*old(self), *final(self), *old(state), *final(state), entity, *event),
    {
        let ghost s0 = *state;
        match &event.message {
            Message::Button(ButtonEvent::SetLabel(label)) => {
                state.set_text(entity, label.as_str());
            },
            Message::Button(ButtonEvent::SetKey(key)) => {
                self.key = *key;
            },
            Message::Button(ButtonEvent::Pressed) => {
                if event.target == entity {
                    if let Some(e) = &self.on_press {
                        dispatch(state, e, entity);
                    }
                    state.set_active(entity, true);
                }
            },
            Message::Button(ButtonEvent::Released) => {
                if event.target == entity {
                    if let Some(e) = &self.on_release {
                        dispatch(state, e, entity);
                    }
                    state.set_active(entity, false);
                }
            },
            Message::Button(ButtonEvent::Press) => {
                state.insert_event(
                    Event::new(Message::Button(ButtonEvent::Pressed)).target(entity).propagate(Propagation::Direct),
                );
            },
            Message::Button(ButtonEvent::Release) => {
                state.insert_event(
                    Event::new(Message::Button(ButtonEvent::Released)).target(entity).propagate(Propagation::Direct),
                );
            },
            Message::Window(WindowEvent::MouseDown(MouseButton::Left)) => {
                if event.target == entity && !state.is_disabled(entity) {
                    state.capture(entity);
                    state.insert_event(Event::new(Message::Button(ButtonEvent::Pressed)).target(entity).origin(entity));
                }
            },
            Message::Window(WindowEvent::MouseUp(MouseButton::Left)) => {
                if event.target == entity && state.active == entity {
                    state.release(entity);
                    state.set_active(entity, false);
                    proof {
                        let x = s0.style.attributes.pseudo_of(entity.spec_index() as int);
                        assert((x & !2u16) & 16u16 == 16u16 <==> x & 16u16 == 16u16) by (bit_vector);
                    }
                    if !state.is_disabled(entity) && state.hovered == entity {
                        state.insert_event(Event::new(Message::Button(ButtonEvent::Released)).target(entity).origin(entity));
                    }
                }
            },
            Message::Window(WindowEvent::KeyDown(code)) => {
                if *code == self.key && state.focused == entity && !state.is_disabled(entity) {
                    state.insert_event(Event::new(Message::Button(ButtonEvent::Pressed)).target(entity).origin(entity));
                }
            },
            Message::Window(WindowEvent::KeyUp(code)) => {
                if *code == self.key {
                    state.insert_event(Event::new(Message::Button(ButtonEvent::Released)).target(entity).origin(entity));
                }
            },
            _ => {},
        }
    }
}

impl Node for Button {
    /// Building a button shows its label, if any, and gives the node the
    /// element tag `button`; the tree stays as it is.
    open spec fn builds(self, after: Self, s0: State, s1: State, h0: Hierarchy, h1: Hierarchy, entity: Entity) -> bool {
        let n = entity.spec_index() as int;
        &&& after == self
        &&& h1 == h0
        &&& s1.style.attributes.element_of(n) == Some("button"@)
        &&& (self.text matches Some(t) ==> s1.text_of(n) == Some(t@))
        &&& (self.text is None ==> s1.text == s0.text)
        &&& s1.events == s0.events
        &&& s1.style.rules == s0.style.rules
        &&& s1.style.stores == s0.style.stores
    }

    fn on_build(&mut self, state: &mut State, hierarchy: &mut Hierarchy, entity: Entity) -> (r: Entity) {
        let ghost s0 = *state;
        if let Some(text) = &self.text {
            state.set_text(entity, text.as_str());
        }
        state.style.attributes.set_element(entity, "button");
        assert(self.builds(*self, s0, *state, *hierarchy, *hierarchy, entity));
        entity
    }
}

} // verus!
