//! Fonts that text can be drawn in.
use crate::text::str_eq;
use vstd::prelude::*;

verus! {

/// The font of a text, as the settings name it.
#[derive(Clone, Copy, PartialEq, Eq, Structural, Debug)]
pub enum TextFont {
    /// Whatever font is in use.
    Fontless,
    Font,
    Ui,
    Big,
}

impl Default for TextFont {
    fn default() -> (r: TextFont)
        ensures
            r == TextFont::Fontless,
    {
        TextFont::Fontless
    }
}

/// The name of a font.
pub open spec fn font_name(font: TextFont) -> Seq<char> {
    match font {
        TextFont::Fontless => "fontless"@,
        TextFont::Font => "font"@,
        TextFont::Ui => "ui"@,
        TextFont::Big => "big"@,
    }
}

impl TextFont {
    /// The name of this font.
    pub fn as_str(&self) -> (r: &'static str)
        ensures
            r@ == font_name(*self),
    {
        match self {
            TextFont::Fontless => "fontless",
            TextFont::Font => "font",
            TextFont::Ui => "ui",
            TextFont::Big => "big",
        }
    }
}

/// The font to switch to for a name, where the name is that of a font and not of none.
pub open spec fn font_to_push(name: Seq<char>) -> Option<TextFont> {
    if name == font_name(TextFont::Big) {
        Some(TextFont::Big)
    } else if name == font_name(TextFont::Ui) {
        Some(TextFont::Ui)
    } else if name == font_name(TextFont::Font) {
        Some(TextFont::Font)
    } else {
        None
    }
}

/// Finds the font to switch to for a name.
pub fn select_font(name: &str) -> (r: Option<TextFont>)
    ensures
        r == font_to_push(name@),
{
    if str_eq(name, "big") {
        Some(TextFont::Big)
    } else if str_eq(name, "ui") {
        Some(TextFont::Ui)
    } else if str_eq(name, "font") {
        Some(TextFont::Font)
    } else {
        None
    }
}

/// A font is found again by its name; no font is found for the name of none.
pub proof fn law_fonts_found_by_name(font: TextFont)
    ensures
        font_to_push(font_name(font)) == if font == TextFont::Fontless {
            None
        } else {
            Some(font)
        },
{
    reveal_strlit("fontless");
    reveal_strlit("font");
    reveal_strlit("ui");
    reveal_strlit("big");
    assert("fontless"@.len() == 8);
    assert("font"@.len() == 4);
    assert("ui"@.len() == 2);
    assert("big"@.len() == 3);
}

} // verus!
