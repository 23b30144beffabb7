use vstd::prelude::*;

verus! {

/// How a node takes part in layout.
#[derive(Clone, Copy, Debug, PartialEq, Eq, Structural)]
pub enum Display {
    /// The node takes no space and is not drawn (`display: none`).
    Hidden,
    Flex,
}

#[derive(Clone, Copy, Debug, PartialEq, Eq, Structural)]
pub enum Visibility {
    Visible,
    Invisible,
}

#[derive(Clone, Copy, Debug, PartialEq, Eq, Structural)]
pub enum Overflow {
    Visible,
    Hidden,
}

#[derive(Clone, Copy, Debug, PartialEq, Eq, Structural)]
pub enum Position {
    Relative,
    Absolute,
}

/// A length: automatic, whole pixels, or whole percent of the parent.
#[derive(Clone, Copy, Debug, PartialEq, Eq, Structural)]
pub enum Length {
    Auto,
    Pixels(i32),
    Percentage(i32),
}

#[derive(Clone, Copy, Debug, PartialEq, Eq, Structural)]
pub enum FlexDirection {
    Row,
    Column,
    RowReverse,
    ColumnReverse,
}

#[derive(Clone, Copy, Debug, PartialEq, Eq, Structural)]
pub enum Justify {
    FlexStart,
    FlexEnd,
    Center,
    SpaceBetween,
    SpaceAround,
    SpaceEvenly,
}

#[derive(Clone, Copy, Debug, PartialEq, Eq, Structural)]
pub enum Align {
    FlexStart,
    FlexEnd,
    Center,
    Stretch,
}

#[derive(Clone, Copy, Debug, PartialEq, Eq, Structural)]
pub enum TextAlign {
    Start,
    Center,
    End,
}

/// Opacity is counted in millionths of full coverage.
pub const OPACITY_FULL: u32 = 1000000;

/// A declared or linked property value.
#[derive(Clone, Copy, Debug, PartialEq, Eq, Structural)]
pub enum Value {
    Display(Display),
    Visibility(Visibility),
    Overflow(Overflow),
    Position(Position),
    Length(Length),
    FlexDirection(FlexDirection),
    Justify(Justify),
    Align(Align),
    TextAlign(TextAlign),
    /// Millionths of full coverage; see `OPACITY_FULL`.
    Opacity(u32),
    /// Packed RGBA.
    Color(u32),
    /// A plain number: a z-order, a flex factor or a font size.
    Number(i32),
    /// Handle of an image resource.
    Image(u32),
}

/// Every property that the stylesheet supports. Variants are grouped by
/// what a change of their value sets off: first those that need a new
/// layout (and a redraw), then those that only need a redraw, last those
/// that have no effect yet.
#[derive(Clone, Copy, Debug, PartialEq, Eq, Structural)]
pub enum Property {
    Display,
    Visibility,
    ZOrder,
    Opacity,
    Position,
    Left,
    Right,
    Top,
    Bottom,
    Width,
    Height,
    MaxWidth,
    MinWidth,
    MaxHeight,
    MinHeight,
    MarginLeft,
    MarginRight,
    MarginTop,
    MarginBottom,
    PaddingLeft,
    PaddingRight,
    PaddingTop,
    PaddingBottom,
    BorderWidth,
    FlexDirection,
    JustifyContent,
    AlignContent,
    AlignItems,
    AlignSelf,
    FlexBasis,
    FlexGrow,
    FlexShrink,
    BorderColor,
    BorderRadiusTopLeft,
    BorderRadiusTopRight,
    BorderRadiusBottomLeft,
    BorderRadiusBottomRight,
    TextAlign,
    TextJustify,
    BackgroundColor,
    BackgroundImage,
    FontColor,
    FontSize,
    ShadowHOffset,
    ShadowVOffset,
    ShadowBlur,
    ShadowColor,
    Overflow,
}

/// Properties with an index below this one need a new layout when they change.
pub const LAYOUT_END: usize = 32;

/// Properties with an index in `LAYOUT_END..PAINT_END` need only a redraw.
pub const PAINT_END: usize = 47;

/// Number of properties; those in `PAINT_END..PROPERTY_COUNT` have no effect yet.
pub const PROPERTY_COUNT: usize = 48;

/// A changed value of property `p` calls for a new layout.
pub open spec fn affects_layout(p: int) -> bool {
    0 <= p < LAYOUT_END
}

/// A changed value of property `p` calls for a redraw.
pub open spec fn affects_paint(p: int) -> bool {
    0 <= p < PAINT_END
}

/// The type default of the property with index `p`: the value a node takes
/// when no matching rule declares the property. Image handle 0 stands for
/// no image.
pub open spec fn property_default(p: int) -> Value {
    if p == 0 {
        Value::Display(Display::Flex)
    } else if p == 1 {
        Value::Visibility(Visibility::Visible)
    } else if p == 2 || p == 30 || p == 31 {
        Value::Number(0)
    } else if p == 3 {
        Value::Opacity(OPACITY_FULL)
    } else if p == 4 {
        Value::Position(Position::Relative)
    } else if p == 24 {
        Value::FlexDirection(FlexDirection::Column)
    } else if p == 25 {
        Value::Justify(Justify::FlexStart)
    } else if 26 <= p <= 28 {
        Value::Align(Align::Stretch)
    } else if p == 32 || p == 39 || p == 41 || p == 46 {
        Value::Color(0)
    } else if p == 37 || p == 38 {
        Value::TextAlign(TextAlign::Start)
    } else if p == 40 {
        Value::Image(0)
    } else if p == 42 {
        Value::Number(16)
    } else if p == 47 {
        Value::Overflow(Overflow::Visible)
    } else {
        Value::Length(Length::Auto)
    }
}

/// The type default of the property with index `p`.
pub fn default_value(p: usize) -> (r: Value)
    ensures
        r == property_default(p as int),
{
    if p == 0 {
        Value::Display(Display::Flex)
    } else if p == 1 {
        Value::Visibility(Visibility::Visible)
    } else if p == 2 || p == 30 || p == 31 {
        Value::Number(0)
    } else if p == 3 {
        Value::Opacity(OPACITY_FULL)
    } else if p == 4 {
        Value::Position(Position::Relative)
    } else if p == 24 {
        Value::FlexDirection(FlexDirection::Column)
    } else if p == 25 {
        Value::Justify(Justify::FlexStart)
    } else if 26 <= p && p <= 28 {
        Value::Align(Align::Stretch)
    } else if p == 32 || p == 39 || p == 41 || p == 46 {
        Value::Color(0)
    } else if p == 37 || p == 38 {
        Value::TextAlign(TextAlign::Start)
    } else if p == 40 {
        Value::Image(0)
    } else if p == 42 {
        Value::Number(16)
    } else if p == 47 {
        Value::Overflow(Overflow::Visible)
    } else {
        Value::Length(Length::Auto)
    }
}

/// Which variant of `Value` `v` is.
pub open spec fn value_kind(v: Value) -> u8 {
    match v {
        Value::Display(_) => 0,
        Value::Visibility(_) => 1,
        Value::Overflow(_) => 2,
        Value::Position(_) => 3,
        Value::Length(_) => 4,
        Value::FlexDirection(_) => 5,
        Value::Justify(_) => 6,
        Value::Align(_) => 7,
        Value::TextAlign(_) => 8,
        Value::Opacity(_) => 9,
        Value::Color(_) => 10,
        Value::Number(_) => 11,
        Value::Image(_) => 12,
    }
}

/// `v` has the type of the property with index `p`.
pub open spec fn fits(p: int, v: Value) -> bool {
    value_kind(v) == value_kind(property_default(p))
}

impl Value {
    pub fn kind(&self) -> (r: u8)
        ensures
            r == value_kind(*self),
    {
        match self {
            Value::Display(_) => 0,
            Value::Visibility(_) => 1,
            Value::Overflow(_) => 2,
            Value::Position(_) => 3,
            Value::Length(_) => 4,
            Value::FlexDirection(_) => 5,
            Value::Justify(_) => 6,
            Value::Align(_) => 7,
            Value::TextAlign(_) => 8,
            Value::Opacity(_) => 9,
            Value::Color(_) => 10,
            Value::Number(_) => 11,
            Value::Image(_) => 12,
        }
    }
}

impl Property {
    pub open spec fn spec_index(self) -> nat {
        match self {
            Property::Display => 0,
            Property::Visibility => 1,
            Property::ZOrder => 2,
            Property::Opacity => 3,
            Property::Position => 4,
            Property::Left => 5,
            Property::Right => 6,
            Property::Top => 7,
            Property::Bottom => 8,
            Property::Width => 9,
            Property::Height => 10,
            Property::MaxWidth => 11,
            Property::MinWidth => 12,
            Property::MaxHeight => 13,
            Property::MinHeight => 14,
            Property::MarginLeft => 15,
            Property::MarginRight => 16,
            Property::MarginTop => 17,
            Property::MarginBottom => 18,
            Property::PaddingLeft => 19,
            Property::PaddingRight => 20,
            Property::PaddingTop => 21,
            Property::PaddingBottom => 22,
            Property::BorderWidth => 23,
            Property::FlexDirection => 24,
            Property::JustifyContent => 25,
            Property::AlignContent => 26,
            Property::AlignItems => 27,
            Property::AlignSelf => 28,
            Property::FlexBasis => 29,
            Property::FlexGrow => 30,
            Property::FlexShrink => 31,
            Property::BorderColor => 32,
            Property::BorderRadiusTopLeft => 33,
            Property::BorderRadiusTopRight => 34,
            Property::BorderRadiusBottomLeft => 35,
            Property::BorderRadiusBottomRight => 36,
            Property::TextAlign => 37,
            Property::TextJustify => 38,
            Property::BackgroundColor => 39,
            Property::BackgroundImage => 40,
            Property::FontColor => 41,
            Property::FontSize => 42,
            Property::ShadowHOffset => 43,
            Property::ShadowVOffset => 44,
            Property::ShadowBlur => 45,
            Property::ShadowColor => 46,
            Property::Overflow => 47,
        }
    }

    /// The property's place among the stores of a stylesheet.
    pub fn index(self) -> (r: usize)
        ensures
            r == self.spec_index(),
            r < PROPERTY_COUNT,
    {
        match self {
            Property::Display => 0,
            Property::Visibility => 1,
            Property::ZOrder => 2,
            Property::Opacity => 3,
            Property::Position => 4,
            Property::Left => 5,
            Property::Right => 6,
            Property::Top => 7,
            Property::Bottom => 8,
            Property::Width => 9,
            Property::Height => 10,
            Property::MaxWidth => 11,
            Property::MinWidth => 12,
            Property::MaxHeight => 13,
            Property::MinHeight => 14,
            Property::MarginLeft => 15,
            Property::MarginRight => 16,
            Property::MarginTop => 17,
            Property::MarginBottom => 18,
            Property::PaddingLeft => 19,
            Property::PaddingRight => 20,
            Property::PaddingTop => 21,
            Property::PaddingBottom => 22,
            Property::BorderWidth => 23,
            Property::FlexDirection => 24,
            Property::JustifyContent => 25,
            Property::AlignContent => 26,
            Property::AlignItems => 27,
            Property::AlignSelf => 28,
            Property::FlexBasis => 29,
            Property::FlexGrow => 30,
            Property::FlexShrink => 31,
            Property::BorderColor => 32,
            Property::BorderRadiusTopLeft => 33,
            Property::BorderRadiusTopRight => 34,
            Property::BorderRadiusBottomLeft => 35,
            Property::BorderRadiusBottomRight => 36,
            Property::TextAlign => 37,
            Property::TextJustify => 38,
            Property::BackgroundColor => 39,
            Property::BackgroundImage => 40,
            Property::FontColor => 41,
            Property::FontSize => 42,
            Property::ShadowHOffset => 43,
            Property::ShadowVOffset => 44,
            Property::ShadowBlur => 45,
            Property::ShadowColor => 46,
            Property::Overflow => 47,
        }
    }

    /// The property's type default.
    pub fn default_value(self) -> (r: Value)
        ensures
            r == property_default(self.spec_index() as int),
    {
        default_value(self.index())
    }

    /// `value` has the type of this property.
    pub fn accepts(self, value: Value) -> (r: bool)
        ensures
            r == fits(self.spec_index() as int, value),
    {
        value.kind() == self.default_value().kind()
    }
}

} // verus!
