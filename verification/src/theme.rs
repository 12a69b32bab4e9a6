//! The colours of the window.
use vstd::prelude::*;

verus! {

/// A colour by its shares of red, green and blue.
#[derive(Clone, Copy, PartialEq, Eq, Structural, Debug)]
pub struct Rgb {
    pub r: u8,
    pub g: u8,
    pub b: u8,
}

/// What a theme paints in a colour of its own. `None` leaves the standard colour.
#[derive(Clone, Copy, PartialEq, Eq, Structural, Debug)]
pub struct Palette {
    pub panel: Rgb,
    pub window: Rgb,
    pub noninteractive: Option<Rgb>,
    pub inactive: Option<Rgb>,
    pub hovered: Option<Rgb>,
    pub active: Option<Rgb>,
}

/// The colour with the given shares.
pub open spec fn rgb_of(r: u8, g: u8, b: u8) -> Rgb {
    Rgb { r, g, b }
}

fn rgb(r: u8, g: u8, b: u8) -> (c: Rgb)
    ensures
        c == rgb_of(r, g, b),
{
    Rgb { r, g, b }
}

/// The colours of the dark or the light theme.
pub open spec fn palette_of(dark: bool) -> Palette {
    if dark {
        Palette {
            panel: rgb_of(20, 28, 40),
            window: rgb_of(25, 35, 50),
            noninteractive: Some(rgb_of(30, 42, 58)),
            inactive: Some(rgb_of(35, 50, 70)),
            hovered: Some(rgb_of(45, 65, 90)),
            active: Some(rgb_of(55, 80, 110)),
        }
    } else {
        Palette {
            panel: rgb_of(240, 245, 252),
            window: rgb_of(245, 248, 255),
            noninteractive: None,
            inactive: None,
            hovered: None,
            active: None,
        }
    }
}

/// The colours of the dark or the light theme.
pub fn apply_shielded_theme(dark: bool) -> (r: Palette)
    ensures
        r == palette_of(dark),
{
    if dark {
        Palette {
            panel: rgb(20, 28, 40),
            window: rgb(25, 35, 50),
            noninteractive: Some(rgb(30, 42, 58)),
            inactive: Some(rgb(35, 50, 70)),
            hovered: Some(rgb(45, 65, 90)),
            active: Some(rgb(55, 80, 110)),
        }
    } else {
        Palette {
            panel: rgb(240, 245, 252),
            window: rgb(245, 248, 255),
            noninteractive: None,
            inactive: None,
            hovered: None,
            active: None,
        }
    }
}

} // verus!
