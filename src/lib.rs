//! Resolves a CSS-like stylesheet against a tree of UI nodes.
//!
//! A restyle pass (`systems::apply_styles`) walks the tree in document order,
//! matches every rule's selector chain against each node (`matcher`), and
//! links each property store to the last matching rule that declares the
//! property (`store`), noting whether anything that layout or drawing depends
//! on changed. Two passes then derive paint state top-down
//! (`inherit`): clip regions, and visibility and opacity, followed by the
//! paint order. The widgets (`button`, `checkbox`, `slider`) react to input
//! by changing node attributes and queuing events.

/// Node handles.
pub mod entity;
/// The node tree, in document order.
pub mod hierarchy;
/// Property values and the list of properties.
pub mod values;
/// Selectors, relations and rules.
pub mod selector;
/// Element tags, classes and pseudo-classes of nodes.
pub mod attributes;
/// One property's declarations and linked values.
pub mod store;
/// The stylesheet with its stores.
pub mod style;
/// Paint state derived from the cascade.
pub mod data;
/// Events and the state a frame works on.
pub mod state;
/// Node kinds that set up the node they are built on.
pub mod node;
pub mod button;
pub mod checkbox;
pub mod slider;
/// Selector and rule matching.
pub mod matcher;
/// The restyle pass.
pub mod systems;
/// Clip, visibility and opacity inheritance, and paint order.
pub mod inherit;
