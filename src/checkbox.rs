use vstd::prelude::*;

use crate::button::{button_reacts, dispatch, optional_dispatch, Button};
use crate::entity::Entity;
use crate::hierarchy::Hierarchy;
use crate::node::Node;
use crate::selector::CHECKED;
use crate::state::{Event, Message, Propagation, State};

verus! {

#[derive(Clone, Copy, Debug, PartialEq, Eq, Structural)]
pub enum CheckboxEvent {
    /// Checks the box without telling anyone.
    Check,
    /// Unchecks the box without telling anyone.
    Uncheck,
    /// Asks the box to flip: it answers with `Checked` or `Unchecked`.
    Switch,
    /// Checks the box and sends its `on_checked` event.
    Checked,
    /// Unchecks the box and sends its `on_unchecked` event.
    Unchecked,
}

/// A box that is checked or not, flipped by pressing and releasing it.
pub struct Checkbox {
    pub button: Button,
    pub checked: bool,
    pub icon_unchecked: Option<String>,
    pub icon_checked: Option<String>,
    pub on_checked: Option<Event>,
    pub on_unchecked: Option<Event>,
}

pub open spec fn checkbox_event(msg: CheckboxEvent, entity: Entity) -> Event {
    Event { message: Message::Checkbox(msg), target: entity, origin: entity, propagation: Propagation::DownUp }
}

/// `new` is `old` with node `n` marked checked (or not), showing `icon`
/// where there is one, with the events of `sent` queued, and nothing else
/// changed.
pub open spec fn shows_checked(old: State, new: State, n: int, on: bool, icon: Option<String>, sent: Seq<Event>) -> bool {
    &&& new.events@ =~= old.events@ + sent
    &&& new.style.attributes.pseudo_of(n) == if on {
        old.style.attributes.pseudo_of(n) | CHECKED
    } else {
        old.style.attributes.pseudo_of(n) & !CHECKED
    }
    &&& forall|m: int| m != n ==> #[trigger] new.style.attributes.pseudo_of(m) == old.style.attributes.pseudo_of(m)
    &&& new.text_of(n) == match icon {
        Some(t) => Some(t@),
        None => old.text_of(n),
    }
    &&& forall|m: int| m != n ==> #[trigger] new.text_of(m) == old.text_of(m)
    &&& new.style.attributes.elements == old.style.attributes.elements
    &&& new.style.attributes.classes == old.style.attributes.classes
    &&& new.style.rules == old.style.rules
    &&& new.style.stores == old.style.stores
    &&& new.style.clip_widget == old.style.clip_widget
    &&& new.data == old.data
    &&& new.active == old.active
    &&& new.hovered == old.hovered
    &&& new.focused == old.focused
    &&& new.captured == old.captured
}

/// `c1` is `c0` with `checked` set to `on`.
pub open spec fn flipped(c0: Checkbox, c1: Checkbox, on: bool) -> bool {
    &&& c1.checked == on
    &&& c1.button == c0.button
    &&& c1.icon_checked == c0.icon_checked
    &&& c1.icon_unchecked == c0.icon_unchecked
    &&& c1.on_checked == c0.on_checked
    &&& c1.on_unchecked == c0.on_unchecked
}

/// What the checkbox part of `Checkbox::on_event` does with the checkbox
/// message `msg`, sent in `event` to the checkbox on node `entity`.
pub open spec fn checkbox_reacts(c0: Checkbox, c1: Checkbox, s0: State, s1: State, entity: Entity, event: Event, msg: CheckboxEvent) -> bool {
    let n = entity.spec_index() as int;
    match msg {
        CheckboxEvent::Switch => c1 == c0 && if event.target == entity {
            &&& s1.events@ =~= s0.events@.push(
                checkbox_event(if c0.checked { CheckboxEvent::Unchecked } else { CheckboxEvent::Checked }, entity),
            )
            &&& s1.style == s0.style
            &&& s1.data == s0.data
            &&& s1.text == s0.text
            &&& s1.active == s0.active
            &&& s1.hovered == s0.hovered
            &&& s1.focused == s0.focused
            &&& s1.captured == s0.captured
        } else {
            s1 == s0
        },
        CheckboxEvent::Check => flipped(c0, c1, true) && shows_checked(s0, s1, n, true, c0.icon_checked, Seq::empty()),
        CheckboxEvent::Uncheck => flipped(c0, c1, false) && shows_checked(s0, s1, n, false, c0.icon_unchecked, Seq::empty()),
        CheckboxEvent::Checked => flipped(c0, c1, true) && shows_checked(
            s0,
            s1,
            n,
            true,
            c0.icon_checked,
            optional_dispatch(c0.on_checked, entity),
        ),
        CheckboxEvent::Unchecked => flipped(c0, c1, false) && shows_checked(
            s0,
            s1,
            n,
            false,
            c0.icon_unchecked,
            optional_dispatch(c0.on_unchecked, entity),
        ),
    }
}

impl Checkbox {
    /// A checkbox, checked or not, that flips when released, showing a
    /// check mark when checked and nothing otherwise.
    pub fn new(checked: bool) -> (r: Checkbox)
        ensures
            r.checked == checked,
            r.button.on_press is None,
            r.button.on_release == Some(Event {
                message: Message::Checkbox(CheckboxEvent::Switch),
                target: Entity::null_spec(),
                origin: Entity::null_spec(),
                propagation: Propagation::DownUp,
            }),
            r.icon_unchecked matches Some(t) && t@.len() == 0,
            r.icon_checked matches Some(t) && t@ == "\u{2713}"@,
            r.on_checked is None,
            r.on_unchecked is None,
    {
        Checkbox {
            button: Button::new().on_release(Event::new(Message::Checkbox(CheckboxEvent::Switch))),
            checked,
            icon_unchecked: Some(String::new()),
            icon_checked: Some("\u{2713}".to_owned()),
            on_checked: None,
            on_unchecked: None,
        }
    }

    pub fn checked(self, flag: bool) -> (r: Checkbox)
        ensures
            flipped(self, r, flag),
    {
        let Checkbox { button, checked: _, icon_unchecked, icon_checked, on_checked, on_unchecked } = self;
        Checkbox { button, checked: flag, icon_unchecked, icon_checked, on_checked, on_unchecked }
    }

    /// Sets the text shown when checked.
    pub fn with_icon_checked(self, icon_checked: &str) -> (r: Checkbox)
        ensures
            r.icon_checked matches Some(t) && t@ == icon_checked@,
            r.button == self.button,
            r.checked == self.checked,
            r.icon_unchecked == self.icon_unchecked,
            r.on_checked == self.on_checked,
            r.on_unchecked == self.on_unchecked,
    {
        let Checkbox { button, checked, icon_unchecked, icon_checked: _, on_checked, on_unchecked } = self;
        Checkbox { button, checked, icon_unchecked, icon_checked: Some(icon_checked.to_owned()), on_checked, on_unchecked }
    }

    /// Sets the text shown when unchecked.
    pub fn with_icon_unchecked(self, icon_unchecked: &str) -> (r: Checkbox)
        ensures
            r.icon_unchecked matches Some(t) && t@ == icon_unchecked@,
            r.button == self.button,
            r.checked == self.checked,
            r.icon_checked == self.icon_checked,
            r.on_checked == self.on_checked,
            r.on_unchecked == self.on_unchecked,
    {
        let Checkbox { button, checked, icon_unchecked: _, icon_checked, on_checked, on_unchecked } = self;
        Checkbox { button, checked, icon_unchecked: Some(icon_unchecked.to_owned()), icon_checked, on_checked, on_unchecked }
    }

    /// Sets the event sent when the box becomes checked.
    pub fn on_checked(self, event: Event) -> (r: Checkbox)
        ensures
            r.on_checked == Some(event),
            r.button == self.button,
            r.checked == self.checked,
            r.icon_checked == self.icon_checked,
            r.icon_unchecked == self.icon_unchecked,
            r.on_unchecked == self.on_unchecked,
    {
        let Checkbox { button, checked, icon_unchecked, icon_checked, on_checked: _, on_unchecked } = self;
        Checkbox { button, checked, icon_unchecked, icon_checked, on_checked: Some(event), on_unchecked }
    }

    /// Sets the event sent when the box becomes unchecked.
    pub fn on_unchecked(self, event: Event) -> (r: Checkbox)
        ensures
            r.on_unchecked == Some(event),
            r.button == self.button,
            r.checked == self.checked,
            r.icon_checked == self.icon_checked,
            r.icon_unchecked == self.icon_unchecked,
            r.on_checked == self.on_checked,
    {
        let Checkbox { button, checked, icon_unchecked, icon_checked, on_checked, on_unchecked: _ } = self;
        Checkbox { button, checked, icon_unchecked, icon_checked, on_checked, on_unchecked: Some(event) }
    }

    /// Marks node `entity` checked or not, showing `icon` if there is one,
    /// after sending the event made from `announce`, if any.
    fn show(state: &mut State, entity: Entity, on: bool, icon: &Option<String>, announce: &Option<Event>)
        requires
            entity.spec_index() < usize::MAX,
        ensures
            shows_checked(*old(state), *final(state), entity.spec_index() as int, on, *icon, optional_dispatch(*announce, entity)),
    {
        let ghost s0 = *state;
        let ghost n = entity.spec_index() as int;
        if let Some(e) = announce {
            dispatch(state, e, entity);
        }
        assert(state.events@ =~= s0.events@ + optional_dispatch(*announce, entity));
        let ghost s1 = *state;
        if let Some(t) = icon {
            state.set_text(entity, t.as_str());
        }
        let ghost s2 = *state;
        assert(forall|m: int| m != n ==> #[trigger] s2.text_of(m) == s0.text_of(m));
        state.set_checked(entity, on);
        assert forall|m: int| #![trigger state.text_of(m)] state.text_of(m) == s2.text_of(m) by {}
    }

    /// Flips the box on node `entity`, showing the matching icon.
    pub fn switch(&mut self, state: &mut State, entity: Entity)
        requires
            entity.spec_index() < usize::MAX,
        ensures
            flipped(*old(self), *final(self), !old(self).checked),
            shows_checked(
                *old(state),
                *final(state),
                entity.spec_index() as int,
                !old(self).checked,
                if old(self).checked { old(self).icon_unchecked } else { old(self).icon_checked },
                Seq::empty(),
            ),
    {
        if self.checked {
            self.checked = false;
            Checkbox::show(state, entity, false, &self.icon_unchecked, &None);
        } else {
            self.checked = true;
            Checkbox::show(state, entity, true, &self.icon_checked, &None);
        }
    }

    /// Reacts to `event` on behalf of the checkbox on node `entity`: the
    /// button inside reacts first, then the checkbox handles its own
    /// messages; see `button_reacts` and `checkbox_reacts`.
    pub fn on_event(&mut self, state: &mut State, entity: Entity, event: &Event)
        requires
            entity.spec_index() < usize::MAX,
        ensures
            match event.message {
                Message::Checkbox(msg) => checkbox_reacts(*old(self), *final(self), *old(state), *final(state), entity, *event, msg),
                _ => {
                    &&& button_reacts(old(self).button, final(self).button, *old(state), *final(state), entity, *event)
                    &&& final(self).checked == old(self).checked
                    &&& final(self).icon_checked == old(self).icon_checked
                    &&& final(self).icon_unchecked == old(self).icon_unchecked
                    &&& final(self).on_checked == old(self).on_checked
                    &&& final(self).on_unchecked == old(self).on_unchecked
                },
            },
    {
        self.button.on_event(state, entity, event);
        match &event.message {
            Message::Checkbox(msg) => {
                match msg {
                    CheckboxEvent::Switch => {
                        if event.target == entity {
                            if self.checked {
                                state.insert_event(Event::new(Message::Checkbox(CheckboxEvent::Unchecked)).target(entity).origin(entity));
                            } else {
                                state.insert_event(Event::new(Message::Checkbox(CheckboxEvent::Checked)).target(entity).origin(entity));
                            }
                        }
                    },
                    CheckboxEvent::Check => {
                        self.checked = true;
                        Checkbox::show(state, entity, true, &self.icon_checked, &None);
                    },
                    CheckboxEvent::Uncheck => {
                        self.checked = false;
                        Checkbox::show(state, entity, false, &self.icon_unchecked, &None);
                    },
                    CheckboxEvent::Checked => {
                        self.checked = true;
                        Checkbox::show(state, entity, true, &self.icon_checked, &self.on_checked);
                    },
                    CheckboxEvent::Unchecked => {
                        self.checked = false;
                        Checkbox::show(state, entity, false, &self.icon_unchecked, &self.on_unchecked);
                    },
                }
            },
            _ => {},
        }
    }
}

impl Node for Checkbox {
    /// Building a checkbox marks the node checked or not as the box is,
    /// shows the matching icon and gives the node the element tag
    /// `checkbox`; the tree stays as it is. The icon font and the centred
    /// text are left to the stylesheet (a rule on element `checkbox`): this
    /// cascade has no per-node style overrides, so building sets none.
    open spec fn builds(self, after: Self, s0: State, s1: State, h0: Hierarchy, h1: Hierarchy, entity: Entity) -> bool {
        let n = entity.spec_index() as int;
        &&& after == self
        &&& h1 == h0
        &&& s1.style.attributes.element_of(n) == Some("checkbox"@)
        &&& s1.style.attributes.pseudo_of(n) == if self.checked {
            s0.style.attributes.pseudo_of(n) | CHECKED
        } else {
            s0.style.attributes.pseudo_of(n) & !CHECKED
        }
        &&& s1.text_of(n) == match if self.checked { self.icon_checked } else { self.icon_unchecked } {
            Some(t) => Some(t@),
            None => s0.text_of(n),
        }
        &&& s1.events@ == s0.events@
        &&& s1.style.rules == s0.style.rules
        &&& s1.style.stores == s0.style.stores
    }

    fn on_build(&mut self, state: &mut State, hierarchy: &mut Hierarchy, entity: Entity) -> (r: Entity) {
        let ghost s0 = *state;
        if self.checked {
            Checkbox::show(state, entity, true, &self.icon_checked, &None);
        } else {
            Checkbox::show(state, entity, false, &self.icon_unchecked, &None);
        }
        state.style.attributes.set_element(entity, "checkbox");
        assert(self.builds(*self, s0, *state, *hierarchy, *hierarchy, entity));
        entity
    }
}

} // verus!
