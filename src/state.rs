use vstd::prelude::*;

use crate::button::ButtonEvent;
use crate::checkbox::CheckboxEvent;
use crate::data::Data;
use crate::entity::Entity;
use crate::selector::{ACTIVE, CHECKED, DISABLED};
use crate::style::Style;

verus! {

#[derive(Clone, Copy, Debug, PartialEq, Eq, Structural)]
pub enum MouseButton {
    Left,
    Right,
    Middle,
}

/// A physical key.
#[derive(Clone, Copy, Debug, PartialEq, Eq, Structural)]
pub enum Code {
    Space,
    Enter,
    Escape,
    Tab,
    Backspace,
}

#[derive(Clone, Copy, Debug, PartialEq, Eq, Structural)]
pub enum WindowEvent {
    /// The tree needs a new layout.
    Relayout,
    /// The tree needs to be drawn again.
    Redraw,
    /// The styles need to be resolved again.
    Restyle,
    MouseDown(MouseButton),
    MouseUp(MouseButton),
    KeyDown(Code),
    KeyUp(Code),
}

/// How an event travels through the tree.
#[derive(Clone, Copy, Debug, PartialEq, Eq, Structural)]
pub enum Propagation {
    /// Only to the target.
    Direct,
    /// From the target up to the root.
    Up,
    /// From the root down to the target and back up.
    DownUp,
    /// From the target down through its subtree.
    Fall,
}

/// The payload of an event, one variant per kind of message.
#[derive(Debug)]
pub enum Message {
    Window(WindowEvent),
    Button(ButtonEvent),
    Checkbox(CheckboxEvent),
}

#[derive(Debug)]
pub struct Event {
    pub message: Message,
    pub target: Entity,
    pub origin: Entity,
    pub propagation: Propagation,
}

impl Message {
    /// A copy of the message.
    pub fn duplicate(&self) -> (r: Message)
        ensures
            r == *self,
    {
        match self {
            Message::Window(w) => Message::Window(*w),
            Message::Button(b) => Message::Button(b.duplicate()),
            Message::Checkbox(c) => Message::Checkbox(*c),
        }
    }
}

impl Event {
    /// An event with no target or origin yet, travelling down and up.
    pub fn new(message: Message) -> (r: Event)
        ensures
            r.message == message,
            r.target == Entity::null_spec(),
            r.origin == Entity::null_spec(),
            r.propagation == Propagation::DownUp,
    {
        Event { message, target: Entity::null(), origin: Entity::null(), propagation: Propagation::DownUp }
    }

    pub fn target(self, target: Entity) -> (r: Event)
        ensures
            r.message == self.message,
            r.target == target,
            r.origin == self.origin,
            r.propagation == self.propagation,
    {
        let Event { message, target: _, origin, propagation } = self;
        Event { message, target, origin, propagation }
    }

    pub fn origin(self, origin: Entity) -> (r: Event)
        ensures
            r.message == self.message,
            r.target == self.target,
            r.origin == origin,
            r.propagation == self.propagation,
    {
        let Event { message, target, origin: _, propagation } = self;
        Event { message, target, origin, propagation }
    }

    pub fn propagate(self, propagation: Propagation) -> (r: Event)
        ensures
            r.message == self.message,
            r.target == self.target,
            r.origin == self.origin,
            r.propagation == propagation,
    {
        let Event { message, target, origin, propagation: _ } = self;
        Event { message, target, origin, propagation }
    }

    /// A copy of the event.
    pub fn duplicate(&self) -> (r: Event)
        ensures
            r == *self,
    {
        Event { message: self.message.duplicate(), target: self.target, origin: self.origin, propagation: self.propagation }
    }
}

/// The signal that asks for a new layout of the whole tree.
pub open spec fn relayout_event(e: Event) -> bool {
    &&& e.message == Message::Window(WindowEvent::Relayout)
    &&& e.target.spec_index() == 0
}

/// The signal that asks to draw the whole tree again.
pub open spec fn redraw_event(e: Event) -> bool {
    &&& e.message == Message::Window(WindowEvent::Redraw)
    &&& e.target.spec_index() == 0
}

/// Everything a frame works on besides the tree: the stylesheet and node
/// attributes, the derived paint state, the nodes that pointer and keyboard
/// input currently single out, the text shown on nodes, and the queue of
/// events waiting to be delivered.
pub struct State {
    pub style: Style,
    pub data: Data,
    /// The node that is currently pressed; it matches the active
    /// pseudo-class whatever its stored pseudo-classes say.
    pub active: Entity,
    pub hovered: Entity,
    pub focused: Entity,
    pub captured: Entity,
    pub text: Vec<Option<String>>,
    pub events: Vec<Event>,
}

impl State {
    pub fn new() -> (r: State)
        ensures
            r.style.wf(),
            r.style.rules@.len() == 0,
            r.events@.len() == 0,
            r.active == Entity::null_spec(),
            r.hovered == Entity::null_spec(),
            r.focused == Entity::null_spec(),
            r.captured == Entity::null_spec(),
            r.text@.len() == 0,
    {
        State {
            style: Style::new(),
            data: Data::new(),
            active: Entity::null(),
            hovered: Entity::null(),
            focused: Entity::null(),
            captured: Entity::null(),
            text: Vec::new(),
            events: Vec::new(),
        }
    }

    pub open spec fn text_of(&self, n: int) -> Option<Seq<char>> {
        if 0 <= n < self.text@.len() {
            match self.text@[n] {
                Some(t) => Some(t@),
                None => None,
            }
        } else {
            None
        }
    }

    /// Sets the text shown on `entity`.
    pub fn set_text(&mut self, entity: Entity, text: &str)
        requires
            entity.spec_index() < usize::MAX,
        ensures
            final(self).text_of(entity.spec_index() as int) == Some(text@),
            forall|n: int| n != entity.spec_index() ==> #[trigger] final(self).text_of(n) == old(self).text_of(n),
            final(self).style == old(self).style,
            final(self).data == old(self).data,
            final(self).events == old(self).events,
            final(self).active == old(self).active,
            final(self).hovered == old(self).hovered,
            final(self).focused == old(self).focused,
            final(self).captured == old(self).captured,
    {
        let i = entity.index();
        while self.text.len() <= i
            invariant
                i < usize::MAX,
                forall|n: int| #[trigger] self.text_of(n) == old(self).text_of(n),
                self.style == old(self).style,
                self.data == old(self).data,
                self.events == old(self).events,
                self.active == old(self).active,
                self.hovered == old(self).hovered,
                self.focused == old(self).focused,
                self.captured == old(self).captured,
            decreases i + 1 - self.text@.len(),
        {
            let ghost before = *self;
            self.text.push(None);
            assert forall|n: int| #[trigger] self.text_of(n) == before.text_of(n) by {
                if 0 <= n < before.text@.len() {
                    assert(self.text@[n] == before.text@[n]);
                }
            }
        }
        let ghost mid = *self;
        self.text.set(i, Some(text.to_owned()));
        proof {
            assert forall|n: int| n != entity.spec_index() implies #[trigger] self.text_of(n) == old(self).text_of(n) by {
                assert(mid.text_of(n) == old(self).text_of(n));
                if 0 <= n < self.text@.len() {
                    assert(self.text@[n] == mid.text@[n]);
                }
            }
        }
    }

    /// Turns the pseudo-classes in `flag` on or off for `entity`.
    pub fn set_pseudo_class(&mut self, entity: Entity, flag: u16, on: bool)
        requires
            entity.spec_index() < usize::MAX,
        ensures
            final(self).style.attributes.pseudo_of(entity.spec_index() as int) == if on {
                old(self).style.attributes.pseudo_of(entity.spec_index() as int) | flag
            } else {
                old(self).style.attributes.pseudo_of(entity.spec_index() as int) & !flag
            },
            forall|n: int| n != entity.spec_index() ==> #[trigger] final(self).style.attributes.pseudo_of(n)
                == old(self).style.attributes.pseudo_of(n),
            final(self).style.attributes.elements == old(self).style.attributes.elements,
            final(self).style.attributes.classes == old(self).style.attributes.classes,
            final(self).style.rules == old(self).style.rules,
            final(self).style.stores == old(self).style.stores,
            final(self).style.clip_widget == old(self).style.clip_widget,
            final(self).data == old(self).data,
            final(self).events == old(self).events,
            final(self).text == old(self).text,
            final(self).active == old(self).active,
            final(self).hovered == old(self).hovered,
            final(self).focused == old(self).focused,
            final(self).captured == old(self).captured,
    {
        self.style.attributes.set_pseudo_class(entity, flag, on);
    }

    /// Marks `entity` as pressed or not pressed.
    pub fn set_active(&mut self, entity: Entity, on: bool)
        requires
            entity.spec_index() < usize::MAX,
        ensures
            final(self).style.attributes.pseudo_of(entity.spec_index() as int) == if on {
                old(self).style.attributes.pseudo_of(entity.spec_index() as int) | ACTIVE
            } else {
                old(self).style.attributes.pseudo_of(entity.spec_index() as int) & !ACTIVE
            },
            forall|n: int| n != entity.spec_index() ==> #[trigger] final(self).style.attributes.pseudo_of(n)
                == old(self).style.attributes.pseudo_of(n),
            final(self).style.attributes.elements == old(self).style.attributes.elements,
            final(self).style.attributes.classes == old(self).style.attributes.classes,
            final(self).style.rules == old(self).style.rules,
            final(self).style.stores == old(self).style.stores,
            final(self).style.clip_widget == old(self).style.clip_widget,
            final(self).data == old(self).data,
            final(self).events == old(self).events,
            final(self).text == old(self).text,
            final(self).active == old(self).active,
            final(self).hovered == old(self).hovered,
            final(self).focused == old(self).focused,
            final(self).captured == old(self).captured,
    {
        self.set_pseudo_class(entity, ACTIVE, on);
    }

    /// Marks `entity` as checked or unchecked.
    pub fn set_checked(&mut self, entity: Entity, on: bool)
        requires
            entity.spec_index() < usize::MAX,
        ensures
            final(self).style.attributes.pseudo_of(entity.spec_index() as int) == if on {
                old(self).style.attributes.pseudo_of(entity.spec_index() as int) | CHECKED
            } else {
                old(self).style.attributes.pseudo_of(entity.spec_index() as int) & !CHECKED
            },
            forall|n: int| n != entity.spec_index() ==> #[trigger] final(self).style.attributes.pseudo_of(n)
                == old(self).style.attributes.pseudo_of(n),
            final(self).style.attributes.elements == old(self).style.attributes.elements,
            final(self).style.attributes.classes == old(self).style.attributes.classes,
            final(self).style.rules == old(self).style.rules,
            final(self).style.stores == old(self).style.stores,
            final(self).style.clip_widget == old(self).style.clip_widget,
            final(self).data == old(self).data,
            final(self).events == old(self).events,
            final(self).text == old(self).text,
            final(self).active == old(self).active,
            final(self).hovered == old(self).hovered,
            final(self).focused == old(self).focused,
            final(self).captured == old(self).captured,
    {
        self.set_pseudo_class(entity, CHECKED, on);
    }

    pub open spec fn spec_is_disabled(&self, entity: Entity) -> bool {
        self.style.attributes.pseudo_of(entity.spec_index() as int) & DISABLED == DISABLED
    }

    pub fn is_disabled(&self, entity: Entity) -> (r: bool)
        ensures
            r == self.spec_is_disabled(entity),
    {
        let n = entity.index();
        if n < self.style.attributes.pseudo_classes.len() {
            self.style.attributes.pseudo_classes[n].get(DISABLED)
        } else {
            proof {
                assert(0u16 & 16u16 != 16u16) by (bit_vector);
            }
            false
        }
    }

    /// Sends all pointer input to `entity` until it is released.
    pub fn capture(&mut self, entity: Entity)
        ensures
            final(self).captured == entity,
            final(self).style == old(self).style,
            final(self).data == old(self).data,
            final(self).events == old(self).events,
            final(self).text == old(self).text,
            final(self).active == old(self).active,
            final(self).hovered == old(self).hovered,
            final(self).focused == old(self).focused,
    {
        self.captured = entity;
    }

    /// Ends the capture of pointer input by `entity`, if it holds it.
    pub fn release(&mut self, entity: Entity)
        ensures
            final(self).captured == if old(self).captured == entity { Entity::null_spec() } else { old(self).captured },
            final(self).style == old(self).style,
            final(self).data == old(self).data,
            final(self).events == old(self).events,
            final(self).text == old(self).text,
            final(self).active == old(self).active,
            final(self).hovered == old(self).hovered,
            final(self).focused == old(self).focused,
    {
        if self.captured == entity {
            self.captured = Entity::null();
        }
    }

    /// Queues `event` for delivery.
    pub fn insert_event(&mut self, event: Event)
        ensures
            final(self).events@ == old(self).events@.push(event),
            final(self).style == old(self).style,
            final(self).data == old(self).data,
            final(self).active == old(self).active,
            final(self).hovered == old(self).hovered,
            final(self).focused == old(self).focused,
            final(self).captured == old(self).captured,
            final(self).text == old(self).text,
    {
        self.events.push(event);
    }
}

} // verus!
