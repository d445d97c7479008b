//! The badge builder: optional parameters, set in any order, resolved into
//! a badge.

use crate::badge::{
    built_in_palette, text_of, text_of_str, Badge, BadgeView, ColorPalette, SCALE_ONE,
};
use vstd::prelude::*;
use vstd::string::*;

verus! {

/// What a builder holds, as contracts see it.
pub struct BadgeBuilderView {
    pub color_palette: Seq<char>,
    pub status: Option<Seq<char>>,
    pub label: Option<Seq<char>>,
    pub color: Option<Seq<char>>,
    pub label_color: Option<Seq<char>>,
    pub icon: Option<Seq<char>>,
    pub icon_width: Option<u32>,
    pub scale: u32,
}

impl BadgeBuilderView {
    /// A builder in which nothing was set: the built-in palette, scale one.
    pub open spec fn fresh() -> BadgeBuilderView {
        BadgeBuilderView {
            color_palette: built_in_palette(),
            status: None,
            label: None,
            color: None,
            label_color: None,
            icon: None,
            icon_width: None,
            scale: SCALE_ONE,
        }
    }

    /// The builder after the palette was set.
    pub open spec fn with_color_palette(self, palette: Seq<char>) -> BadgeBuilderView {
        BadgeBuilderView { color_palette: palette, ..self }
    }

    /// The builder after the status was set.
    pub open spec fn with_status(self, status: Seq<char>) -> BadgeBuilderView {
        BadgeBuilderView { status: Some(status), ..self }
    }

    /// The builder after the label was set.
    pub open spec fn with_label(self, label: Seq<char>) -> BadgeBuilderView {
        BadgeBuilderView { label: Some(label), ..self }
    }

    /// The builder after the colour was set, or cleared with `None`.
    pub open spec fn with_color_option(self, color: Option<Seq<char>>) -> BadgeBuilderView {
        BadgeBuilderView { color, ..self }
    }

    /// The builder after the colour was set.
    pub open spec fn with_color(self, color: Seq<char>) -> BadgeBuilderView {
        self.with_color_option(Some(color))
    }

    /// The builder after the label's colour was set.
    pub open spec fn with_label_color(self, label_color: Seq<char>) -> BadgeBuilderView {
        BadgeBuilderView { label_color: Some(label_color), ..self }
    }

    /// The builder after the icon was set.
    pub open spec fn with_icon(self, icon: Seq<char>) -> BadgeBuilderView {
        BadgeBuilderView { icon: Some(icon), ..self }
    }

    /// The builder after the icon's width was set.
    pub open spec fn with_icon_width(self, icon_width: u32) -> BadgeBuilderView {
        BadgeBuilderView { icon_width: Some(icon_width), ..self }
    }

    /// The builder after the scale was set.
    pub open spec fn with_scale(self, scale: u32) -> BadgeBuilderView {
        BadgeBuilderView { scale, ..self }
    }

    /// The badge that the builder gives: a status that was never set is the
    /// empty text, everything else is taken as it stands.
    pub open spec fn built(self) -> BadgeView {
        BadgeView {
            color_palette: self.color_palette,
            status: match self.status {
                Some(status) => status,
                None => Seq::empty(),
            },
            label: self.label,
            color: self.color,
            label_color: self.label_color,
            icon: self.icon,
            icon_width: self.icon_width,
            scale: self.scale,
        }
    }
}

/// A builder for a [`Badge`]. Its scale is kept as the bit pattern of a
/// single-precision number.
pub struct BadgeBuilder {
    color_palette: ColorPalette,
    status: Option<String>,
    label: Option<String>,
    color: Option<String>,
    label_color: Option<String>,
    icon: Option<String>,
    icon_width: Option<u32>,
    scale: u32,
}

impl View for BadgeBuilder {
    type V = BadgeBuilderView;

    closed spec fn view(&self) -> BadgeBuilderView {
        BadgeBuilderView {
            color_palette: self.color_palette@,
            status: text_of(self.status),
            label: text_of(self.label),
            color: text_of(self.color),
            label_color: text_of(self.label_color),
            icon: text_of(self.icon),
            icon_width: self.icon_width,
            scale: self.scale,
        }
    }
}

impl BadgeBuilder {
    /// Construct a new [BadgeBuilder] with default values.
    pub fn new() -> (r: Self)
        ensures
            r@ == BadgeBuilderView::fresh(),
    {
        BadgeBuilder {
            color_palette: ColorPalette::built_in(),
            status: None,
            label: None,
            color: None,
            label_color: None,
            icon: None,
            icon_width: None,
            scale: SCALE_ONE,
        }
    }

    /// Set the [ColorPalette].
    pub fn color_palette(self, color_palette: ColorPalette) -> (r: Self)
        ensures
            r@ == self@.with_color_palette(color_palette@),
    {
        let mut b = self;
        b.color_palette = color_palette;
        b
    }

    /// Set the status text.
    pub fn status(self, status: &str) -> (r: Self)
        ensures
            r@ == self@.with_status(status@),
    {
        let mut b = self;
        b.status = Some(status.to_owned());
        b
    }

    /// Set the label text.
    pub fn label(self, label: &str) -> (r: Self)
        ensures
            r@ == self@.with_label(label@),
    {
        let mut b = self;
        b.label = Some(label.to_owned());
        b
    }

    /// Set the color.
    pub fn color(self, color: &str) -> (r: Self)
        ensures
            r@ == self@.with_color(color@),
    {
        let mut b = self;
        b.color = Some(color.to_owned());
        b
    }

    /// Set an optional color: `None` clears a colour that was set before.
    pub fn color_option(self, color: Option<&str>) -> (r: Self)
        ensures
            r@ == self@.with_color_option(text_of_str(color)),
    {
        let mut b = self;
        b.color = match color {
            Some(c) => Some(c.to_owned()),
            None => None,
        };
        b
    }

    /// Set the label color.
    pub fn label_color(self, label_color: &str) -> (r: Self)
        ensures
            r@ == self@.with_label_color(label_color@),
    {
        let mut b = self;
        b.label_color = Some(label_color.to_owned());
        b
    }

    /// Set the icon by its name. Whether a catalog holds the name is not
    /// looked at.
    pub fn icon(self, icon: &str) -> (r: Self)
        ensures
            r@ == self@.with_icon(icon@),
    {
        let mut b = self;
        b.icon = Some(icon.to_owned());
        b
    }

    /// Set the icon's width.
    pub fn icon_width(self, icon_width: u32) -> (r: Self)
        ensures
            r@ == self@.with_icon_width(icon_width),
    {
        let mut b = self;
        b.icon_width = Some(icon_width);
        b
    }

    /// Set the badge scale, given as the bit pattern of a single-precision
    /// number.
    pub fn scale(self, scale: u32) -> (r: Self)
        ensures
            r@ == self@.with_scale(scale),
    {
        let mut b = self;
        b.scale = scale;
        b
    }

    /// Build the [Badge].
    pub fn build(self) -> (r: Badge)
        ensures
            r@ == self@.built(),
    {
        let status = match self.status {
            Some(status) => status,
            None => String::new(),
        };
        Badge::from_parts(
            self.color_palette,
            status,
            self.label,
            self.color,
            self.label_color,
            self.icon,
            self.icon_width,
            self.scale,
        )
    }
}

/// A builder in which nothing was set gives a badge with the empty status,
/// scale one, the built-in palette and no optional field set.
pub proof fn lemma_defaults()
    ensures
        BadgeBuilderView::fresh().built() == (BadgeView {
            color_palette: built_in_palette(),
            status: Seq::empty(),
            label: None,
            color: None,
            label_color: None,
            icon: None,
            icon_width: None,
            scale: SCALE_ONE,
        }),
{
}

/// Of two calls of one setter the later one decides.
pub proof fn lemma_last_call_wins(b: BadgeBuilderView, x: Seq<char>, y: Seq<char>, m: u32, n: u32)
    ensures
        b.with_color_palette(x).with_color_palette(y) == b.with_color_palette(y),
        b.with_status(x).with_status(y) == b.with_status(y),
        b.with_label(x).with_label(y) == b.with_label(y),
        b.with_color(x).with_color(y) == b.with_color(y),
        b.with_label_color(x).with_label_color(y) == b.with_label_color(y),
        b.with_icon(x).with_icon(y) == b.with_icon(y),
        b.with_icon_width(m).with_icon_width(n) == b.with_icon_width(n),
        b.with_scale(m).with_scale(n) == b.with_scale(n),
        b.with_label(x).with_label(y).built().label == Some(y),
{
}

/// An optional colour of `None` clears the colour, whatever it was set to
/// before; one that holds a colour sets it.
pub proof fn lemma_color_option(b: BadgeBuilderView, x: Seq<char>, y: Seq<char>)
    ensures
        b.with_color(x).with_color_option(None).built().color == None::<Seq<char>>,
        b.with_color(x).with_color_option(Some(y)).built().color == Some(y),
        b.with_color_option(Some(y)) == b.with_color(y),
{
}

/// Setters of different fields can be called in either order.
pub proof fn lemma_order_is_free(b: BadgeBuilderView, x: Seq<char>, y: Seq<char>, n: u32)
    ensures
        b.with_status(x).with_label(y) == b.with_label(y).with_status(x),
        b.with_status(x).with_color(y) == b.with_color(y).with_status(x),
        b.with_status(x).with_label_color(y) == b.with_label_color(y).with_status(x),
        b.with_status(x).with_icon(y) == b.with_icon(y).with_status(x),
        b.with_status(x).with_color_palette(y) == b.with_color_palette(y).with_status(x),
        b.with_label(x).with_color(y) == b.with_color(y).with_label(x),
        b.with_label(x).with_label_color(y) == b.with_label_color(y).with_label(x),
        b.with_label(x).with_icon(y) == b.with_icon(y).with_label(x),
        b.with_label(x).with_color_palette(y) == b.with_color_palette(y).with_label(x),
        b.with_color(x).with_label_color(y) == b.with_label_color(y).with_color(x),
        b.with_color(x).with_icon(y) == b.with_icon(y).with_color(x),
        b.with_color(x).with_color_palette(y) == b.with_color_palette(y).with_color(x),
        b.with_label_color(x).with_icon(y) == b.with_icon(y).with_label_color(x),
        b.with_label_color(x).with_color_palette(y) == b.with_color_palette(y).with_label_color(x),
        b.with_icon(x).with_color_palette(y) == b.with_color_palette(y).with_icon(x),
        b.with_status(x).with_icon_width(n) == b.with_icon_width(n).with_status(x),
        b.with_label(x).with_icon_width(n) == b.with_icon_width(n).with_label(x),
        b.with_color(x).with_icon_width(n) == b.with_icon_width(n).with_color(x),
        b.with_label_color(x).with_icon_width(n) == b.with_icon_width(n).with_label_color(x),
        b.with_icon(x).with_icon_width(n) == b.with_icon_width(n).with_icon(x),
        b.with_color_palette(x).with_icon_width(n) == b.with_icon_width(n).with_color_palette(x),
        b.with_status(x).with_scale(n) == b.with_scale(n).with_status(x),
        b.with_label(x).with_scale(n) == b.with_scale(n).with_label(x),
        b.with_color(x).with_scale(n) == b.with_scale(n).with_color(x),
        b.with_label_color(x).with_scale(n) == b.with_scale(n).with_label_color(x),
        b.with_icon(x).with_scale(n) == b.with_scale(n).with_icon(x),
        b.with_color_palette(x).with_scale(n) == b.with_scale(n).with_color_palette(x),
        b.with_icon_width(n).with_scale(n) == b.with_scale(n).with_icon_width(n),
{
}

} // verus!
