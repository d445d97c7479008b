//! The badge: an immutable set of rendering parameters.

use vstd::prelude::*;
use vstd::string::*;

verus! {

/// The bit pattern of the single-precision number one, the scale of a badge
/// that was given none.
pub const SCALE_ONE: u32 = 0x3F80_0000;

/// The name of the palette that a badge uses when it was given none.
pub open spec fn built_in_palette() -> Seq<char> {
    "badgen"@
}

/// The text that an optional string holds, if it holds one.
pub open spec fn text_of(o: Option<String>) -> Option<Seq<char>> {
    match o {
        Some(s) => Some(s@),
        None => None,
    }
}

/// The text that an optional string slice holds, if it holds one.
pub open spec fn text_of_str(o: Option<&str>) -> Option<Seq<char>> {
    match o {
        Some(s) => Some(s@),
        None => None,
    }
}

/// Lends the text of an optional string.
pub fn borrow_text(o: &Option<String>) -> (r: Option<&str>)
    ensures
        text_of_str(r) == text_of(*o),
{
    match o {
        Some(s) => Some(s.as_str()),
        None => None,
    }
}

/// A reference to a colour palette by its name. What colours the palette
/// holds is the renderer's business.
pub struct ColorPalette {
    name: String,
}

impl View for ColorPalette {
    type V = Seq<char>;

    closed spec fn view(&self) -> Seq<char> {
        self.name@
    }
}

impl ColorPalette {
    /// The palette of the given name.
    pub fn named(name: &str) -> (r: Self)
        ensures
            r@ == name@,
    {
        ColorPalette { name: name.to_owned() }
    }

    /// The palette that is used where none is chosen.
    pub fn built_in() -> (r: Self)
        ensures
            r@ == built_in_palette(),
    {
        ColorPalette { name: "badgen".to_owned() }
    }

    /// The palette's name.
    pub fn name(&self) -> (r: &str)
        ensures
            r@ == self@,
    {
        self.name.as_str()
    }
}

/// What a badge is, as contracts see it. An optional field that is `None`
/// was never set; one that holds the empty text was set to it.
pub struct BadgeView {
    pub color_palette: Seq<char>,
    pub status: Seq<char>,
    pub label: Option<Seq<char>>,
    pub color: Option<Seq<char>>,
    pub label_color: Option<Seq<char>>,
    pub icon: Option<Seq<char>>,
    pub icon_width: Option<u32>,
    pub scale: u32,
}

/// The rendering parameters of one badge. A badge comes out of a builder
/// and does not change afterwards. Its scale is kept as the bit pattern of
/// a single-precision number.
pub struct Badge {
    color_palette: ColorPalette,
    status: String,
    label: Option<String>,
    color: Option<String>,
    label_color: Option<String>,
    icon: Option<String>,
    icon_width: Option<u32>,
    scale: u32,
}

impl View for Badge {
    type V = BadgeView;

    closed spec fn view(&self) -> BadgeView {
        BadgeView {
            color_palette: self.color_palette@,
            status: self.status@,
            label: text_of(self.label),
            color: text_of(self.color),
            label_color: text_of(self.label_color),
            icon: text_of(self.icon),
            icon_width: self.icon_width,
            scale: self.scale,
        }
    }
}

impl Badge {
    /// A badge of the given parameters.
    pub fn from_parts(
        color_palette: ColorPalette,
        status: String,
        label: Option<String>,
        color: Option<String>,
        label_color: Option<String>,
        icon: Option<String>,
        icon_width: Option<u32>,
        scale: u32,
    ) -> (r: Self)
        ensures
            r@ == (BadgeView {
                color_palette: color_palette@,
                status: status@,
                label: text_of(label),
                color: text_of(color),
                label_color: text_of(label_color),
                icon: text_of(icon),
                icon_width,
                scale,
            }),
    {
        Badge { color_palette, status, label, color, label_color, icon, icon_width, scale }
    }

    /// The palette that the badge's colours come from.
    pub fn color_palette(&self) -> (r: &ColorPalette)
        ensures
            r@ == self@.color_palette,
    {
        &self.color_palette
    }

    /// The status text.
    pub fn status(&self) -> (r: &str)
        ensures
            r@ == self@.status,
    {
        self.status.as_str()
    }

    /// The label text, if one was set.
    pub fn label(&self) -> (r: Option<&str>)
        ensures
            text_of_str(r) == self@.label,
    {
        borrow_text(&self.label)
    }

    /// The colour, if one was set.
    pub fn color(&self) -> (r: Option<&str>)
        ensures
            text_of_str(r) == self@.color,
    {
        borrow_text(&self.color)
    }

    /// The label's colour, if one was set.
    pub fn label_color(&self) -> (r: Option<&str>)
        ensures
            text_of_str(r) == self@.label_color,
    {
        borrow_text(&self.label_color)
    }

    /// The icon's name, if one was set.
    pub fn icon(&self) -> (r: Option<&str>)
        ensures
            text_of_str(r) == self@.icon,
    {
        borrow_text(&self.icon)
    }

    /// The icon's width, if one was set.
    pub fn icon_width(&self) -> (r: Option<u32>)
        ensures
            r == self@.icon_width,
    {
        self.icon_width
    }

    /// The scale, as the bit pattern of a single-precision number.
    pub fn scale(&self) -> (r: u32)
        ensures
            r == self@.scale,
    {
        self.scale
    }
}

} // verus!
