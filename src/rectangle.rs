//! A plain, non-interactive rectangle, drawn filled or as an outline.
use vstd::prelude::*;
use crate::color::Color;
use crate::geometry::Dimensions;

verus! {

/// How an outline is drawn; a field left `None` takes the theme's value.
#[derive(Clone, Copy, Debug, PartialEq, Eq, Structural)]
pub struct LineStyle {
    /// Color of the line.
    pub color: Option<Color>,
    /// Thickness of the line, in pixels.
    pub thickness: Option<u32>,
}

impl LineStyle {
    /// A line style with every field unset.
    pub fn new() -> (r: LineStyle)
        ensures
            r == (LineStyle { color: None, thickness: None }),
    {
        LineStyle { color: None, thickness: None }
    }
}

/// Styling of a shape: filled with a color, or outlined.
#[derive(Clone, Copy, Debug, PartialEq, Eq, Structural)]
pub enum Style {
    /// Filled with the color, or with the theme's shape color when `None`.
    Fill(Option<Color>),
    /// Outlined with the line style.
    Outline(LineStyle),
}

impl Style {
    /// A fill in the theme's color.
    pub fn fill() -> (r: Style)
        ensures
            r == Style::Fill(None),
    {
        Style::Fill(None)
    }

    /// A fill in `color`.
    pub fn fill_with(color: Color) -> (r: Style)
        ensures
            r == Style::Fill(Some(color)),
    {
        Style::Fill(Some(color))
    }

    /// An outline in the default line style.
    pub fn outline() -> (r: Style)
        ensures
            r == Style::Outline(LineStyle { color: None, thickness: None }),
    {
        Style::Outline(LineStyle::new())
    }

    /// An outline in `line_style`.
    pub fn outline_styled(line_style: LineStyle) -> (r: Style)
        ensures
            r == Style::Outline(line_style),
    {
        Style::Outline(line_style)
    }

    /// Sets the color of the fill or of the outline.
    pub fn set_color(&mut self, color: Color)
        ensures
            *final(self) == match *old(self) {
                Style::Fill(_) => Style::Fill(Some(color)),
                Style::Outline(l) => Style::Outline(LineStyle { color: Some(color), ..l }),
            },
    {
        match self {
            Style::Fill(c) => {
                *c = Some(color);
            },
            Style::Outline(l) => {
                l.color = Some(color);
            },
        }
    }
}

/// Whether the rectangle is drawn as an outline or filled.
#[derive(Clone, Copy, Debug, PartialEq, Eq, Structural)]
pub enum Kind {
    /// Only the outline is drawn.
    Outline,
    /// The area is filled.
    Fill,
}

/// What a rectangle keeps from one frame to the next.
#[derive(Clone, Copy, Debug, PartialEq, Eq, Structural)]
pub struct State {
    pub kind: Kind,
}

/// The kind of drawing a style asks for.
pub open spec fn kind_of(style: Style) -> Kind {
    match style {
        Style::Fill(_) => Kind::Fill,
        Style::Outline(_) => Kind::Outline,
    }
}

/// A rectangle as declared for one frame.
#[derive(Clone, Copy, Debug, PartialEq, Eq, Structural)]
pub struct Rectangle {
    /// Its width and height.
    pub dim: Dimensions,
    /// Its styling.
    pub style: Style,
}

impl Rectangle {
    /// A rectangle of dimensions `dim` in `style`.
    pub fn styled(dim: Dimensions, style: Style) -> (r: Rectangle)
        ensures
            r == (Rectangle { dim, style }),
    {
        Rectangle { dim, style }
    }

    /// A rectangle filled in the theme's color.
    pub fn fill(dim: Dimensions) -> (r: Rectangle)
        ensures
            r == (Rectangle { dim, style: Style::Fill(None) }),
    {
        Rectangle::styled(dim, Style::fill())
    }

    /// A rectangle filled in `color`.
    pub fn fill_with(dim: Dimensions, color: Color) -> (r: Rectangle)
        ensures
            r == (Rectangle { dim, style: Style::Fill(Some(color)) }),
    {
        Rectangle::styled(dim, Style::fill_with(color))
    }

    /// An outlined rectangle in the default line style.
    pub fn outline(dim: Dimensions) -> (r: Rectangle)
        ensures
            r == (Rectangle {
                dim,
                style: Style::Outline(LineStyle { color: None, thickness: None }),
            }),
    {
        Rectangle::styled(dim, Style::outline())
    }

    /// An outlined rectangle in `line_style`.
    pub fn outline_styled(dim: Dimensions, line_style: LineStyle) -> (r: Rectangle)
        ensures
            r == (Rectangle { dim, style: Style::Outline(line_style) }),
    {
        Rectangle::styled(dim, Style::outline_styled(line_style))
    }

    /// The same rectangle drawn in `color`.
    pub fn color(self, color: Color) -> (r: Rectangle)
        ensures
            r.dim == self.dim,
            r.style == match self.style {
                Style::Fill(_) => Style::Fill(Some(color)),
                Style::Outline(l) => Style::Outline(LineStyle { color: Some(color), ..l }),
            },
    {
        let mut r = self;
        r.style.set_color(color);
        r
    }

    /// The state of a rectangle that has not been updated yet.
    pub fn init_state(&self) -> (r: State)
        ensures
            r == (State { kind: Kind::Fill }),
    {
        State { kind: Kind::Fill }
    }

    /// The rectangle's style.
    pub fn style(&self) -> (r: Style)
        ensures
            r == self.style,
    {
        self.style
    }

    /// One frame of the rectangle: its state follows the kind its style asks
    /// for, and is written only when that kind changed.
    pub fn update(&self, state: &mut State) -> (changed: bool)
        ensures
            *final(state) == (State { kind: kind_of(self.style) }),
            changed == (old(state).kind != kind_of(self.style)),
    {
        let kind = match self.style {
            Style::Fill(_) => Kind::Fill,
            Style::Outline(_) => Kind::Outline,
        };
        if state.kind != kind {
            state.kind = kind;
            true
        } else {
            false
        }
    }
}

} // verus!
