//! The colour table: the eight terminal colours in their normal and bright
//! forms, as RGB triples.

use vstd::prelude::*;

verus! {

/// An RGB colour with an alpha channel.
#[derive(Clone, Copy, Debug, PartialEq, Eq, Structural)]
pub struct Color {
    pub red: u8,
    pub green: u8,
    pub blue: u8,
    pub transparent: u8,
}

/// An opaque colour.
pub open spec fn rgb(red: u8, green: u8, blue: u8) -> Color {
    Color { red, green, blue, transparent: 255 }
}

/// The terminal palette: `index` is the colour's position in the order
/// black, red, green, yellow, blue, magenta, cyan, white.
pub open spec fn palette(index: nat, bright: bool) -> Color
    recommends
        index < 8,
{
    if !bright {
        if index == 0 {
            rgb(0, 0, 0)
        } else if index == 1 {
            rgb(255, 60, 60)
        } else if index == 2 {
            rgb(60, 255, 60)
        } else if index == 3 {
            rgb(255, 255, 60)
        } else if index == 4 {
            rgb(0, 130, 255)
        } else if index == 5 {
            rgb(255, 45, 255)
        } else if index == 6 {
            rgb(50, 255, 255)
        } else {
            rgb(235, 235, 235)
        }
    } else {
        if index == 0 {
            rgb(128, 128, 128)
        } else if index == 1 {
            rgb(255, 95, 95)
        } else if index == 2 {
            rgb(120, 255, 120)
        } else if index == 3 {
            rgb(255, 255, 120)
        } else if index == 4 {
            rgb(80, 175, 255)
        } else if index == 5 {
            rgb(255, 100, 255)
        } else if index == 6 {
            rgb(130, 255, 255)
        } else {
            rgb(255, 255, 255)
        }
    }
}

/// The colour of text that no control code has coloured: the normal white.
pub open spec fn default_text_color_spec() -> Color {
    palette(7, false)
}

/// Looks up a palette entry.
pub fn palette_color(index: u8, bright: bool) -> (c: Color)
    requires
        index < 8,
    ensures
        c == palette(index as nat, bright),
{
    let (red, green, blue): (u8, u8, u8) = if !bright {
        match index {
            0 => (0, 0, 0),
            1 => (255, 60, 60),
            2 => (60, 255, 60),
            3 => (255, 255, 60),
            4 => (0, 130, 255),
            5 => (255, 45, 255),
            6 => (50, 255, 255),
            _ => (235, 235, 235),
        }
    } else {
        match index {
            0 => (128, 128, 128),
            1 => (255, 95, 95),
            2 => (120, 255, 120),
            3 => (255, 255, 120),
            4 => (80, 175, 255),
            5 => (255, 100, 255),
            6 => (130, 255, 255),
            _ => (255, 255, 255),
        }
    };
    Color { red, green, blue, transparent: 255 }
}

/// The colour of text that no control code has coloured.
pub fn default_text_color() -> (c: Color)
    ensures
        c == default_text_color_spec(),
{
    palette_color(7, false)
}

} // verus!
