//! One palette for the whole TUI, so a screen never mixes theme colours with hard-coded ones.
//! Themes only set foregrounds and row surfaces; the terminal keeps painting its own
//! background, so pick the theme that matches the terminal's.
use crate::text::{ascii_lower, chars_of, lower_ascii, same_text, trim, trimmed};
use vstd::prelude::*;
use vstd::wrapping::usize_specs::{wrapping_add, wrapping_mul};

verus! {

/// A colour a theme paints with: one of the terminal's own, an entry of its 256-colour
/// palette, or an exact colour.
#[derive(Clone, Copy, Debug, PartialEq, Eq, Structural)]
pub enum Color {
    Black,
    Cyan,
    Blue,
    Yellow,
    Magenta,
    Green,
    LightRed,
    Indexed(u8),
    Rgb(u8, u8, u8),
}

/// A palette: what each part of the screen is painted with.
#[derive(Clone, Copy, Debug, PartialEq)]
pub struct Theme {
    pub name: &'static str,
    /// The terminal background this palette was designed for; text drawn on a coloured fill
    /// uses it.
    pub base: Color,
    /// Selected row in the focused pane.
    pub surface: Color,
    /// Selected row in a pane without focus.
    pub surface_soft: Color,
    pub border: Color,
    /// Tertiary text: section headers, muted channels, receded panes.
    pub faded: Color,
    /// Secondary text: times, hints, counts.
    pub muted: Color,
    /// Titles, cursor bar, badges, your own reactions.
    pub accent: Color,
    pub link: Color,
    pub code: Color,
    pub mention: Color,
    pub success: Color,
    pub warn: Color,
    /// Author names, picked by a hash of the name.
    pub users: [Color; 6],
}

/// The `default` palette.
pub open spec fn default_palette() -> Theme {
    Theme {
        name: "default",
        base: Color::Black,
        surface: Color::Indexed(235),
        surface_soft: Color::Indexed(234),
        border: Color::Indexed(238),
        faded: Color::Indexed(240),
        muted: Color::Indexed(245),
        accent: Color::Cyan,
        link: Color::Blue,
        code: Color::Yellow,
        mention: Color::Magenta,
        success: Color::Green,
        warn: Color::Yellow,
        users: [
            Color::Cyan,
            Color::Green,
            Color::Yellow,
            Color::Magenta,
            Color::Blue,
            Color::LightRed,
        ],
    }
}

/// The `default` palette, to paint with.
fn default_theme() -> (t: Theme)
    ensures
        t == default_palette(),
{
    Theme {
        name: "default",
        base: Color::Black,
        surface: Color::Indexed(235),
        surface_soft: Color::Indexed(234),
        border: Color::Indexed(238),
        faded: Color::Indexed(240),
        muted: Color::Indexed(245),
        accent: Color::Cyan,
        link: Color::Blue,
        code: Color::Yellow,
        mention: Color::Magenta,
        success: Color::Green,
        warn: Color::Yellow,
        users: [
            Color::Cyan,
            Color::Green,
            Color::Yellow,
            Color::Magenta,
            Color::Blue,
            Color::LightRed,
        ],
    }
}

/// The `dracula` palette.
pub open spec fn dracula_palette() -> Theme {
    Theme {
        name: "dracula",
        base: Color::Rgb(0x28, 0x2a, 0x36),
        surface: Color::Rgb(0x34, 0x37, 0x46),
        surface_soft: Color::Rgb(0x2e, 0x30, 0x40),
        border: Color::Rgb(0x44, 0x47, 0x5a),
        faded: Color::Rgb(0x62, 0x72, 0xa4),
        muted: Color::Rgb(0x90, 0x98, 0xbd),
        accent: Color::Rgb(0x8b, 0xe9, 0xfd),
        link: Color::Rgb(0xbd, 0x93, 0xf9),
        code: Color::Rgb(0xf1, 0xfa, 0x8c),
        mention: Color::Rgb(0xff, 0x79, 0xc6),
        success: Color::Rgb(0x50, 0xfa, 0x7b),
        warn: Color::Rgb(0xff, 0xb8, 0x6c),
        users: [
            Color::Rgb(0x8b, 0xe9, 0xfd),
            Color::Rgb(0x50, 0xfa, 0x7b),
            Color::Rgb(0xf1, 0xfa, 0x8c),
            Color::Rgb(0xff, 0x79, 0xc6),
            Color::Rgb(0xbd, 0x93, 0xf9),
            Color::Rgb(0xff, 0xb8, 0x6c),
        ],
    }
}

/// The `dracula` palette, to paint with.
fn dracula_theme() -> (t: Theme)
    ensures
        t == dracula_palette(),
{
    Theme {
        name: "dracula",
        base: Color::Rgb(0x28, 0x2a, 0x36),
        surface: Color::Rgb(0x34, 0x37, 0x46),
        surface_soft: Color::Rgb(0x2e, 0x30, 0x40),
        border: Color::Rgb(0x44, 0x47, 0x5a),
        faded: Color::Rgb(0x62, 0x72, 0xa4),
        muted: Color::Rgb(0x90, 0x98, 0xbd),
        accent: Color::Rgb(0x8b, 0xe9, 0xfd),
        link: Color::Rgb(0xbd, 0x93, 0xf9),
        code: Color::Rgb(0xf1, 0xfa, 0x8c),
        mention: Color::Rgb(0xff, 0x79, 0xc6),
        success: Color::Rgb(0x50, 0xfa, 0x7b),
        warn: Color::Rgb(0xff, 0xb8, 0x6c),
        users: [
            Color::Rgb(0x8b, 0xe9, 0xfd),
            Color::Rgb(0x50, 0xfa, 0x7b),
            Color::Rgb(0xf1, 0xfa, 0x8c),
            Color::Rgb(0xff, 0x79, 0xc6),
            Color::Rgb(0xbd, 0x93, 0xf9),
            Color::Rgb(0xff, 0xb8, 0x6c),
        ],
    }
}

/// The `catppuccin` palette.
pub open spec fn catppuccin_palette() -> Theme {
    Theme {
        name: "catppuccin",
        base: Color::Rgb(0x1e, 0x1e, 0x2e),
        surface: Color::Rgb(0x31, 0x32, 0x44),
        surface_soft: Color::Rgb(0x28, 0x28, 0x3c),
        border: Color::Rgb(0x45, 0x47, 0x5a),
        faded: Color::Rgb(0x6c, 0x70, 0x86),
        muted: Color::Rgb(0xa6, 0xad, 0xc8),
        accent: Color::Rgb(0x89, 0xdc, 0xeb),
        link: Color::Rgb(0x89, 0xb4, 0xfa),
        code: Color::Rgb(0xf9, 0xe2, 0xaf),
        mention: Color::Rgb(0xcb, 0xa6, 0xf7),
        success: Color::Rgb(0xa6, 0xe3, 0xa1),
        warn: Color::Rgb(0xfa, 0xb3, 0x87),
        users: [
            Color::Rgb(0x89, 0xdc, 0xeb),
            Color::Rgb(0xa6, 0xe3, 0xa1),
            Color::Rgb(0xf9, 0xe2, 0xaf),
            Color::Rgb(0xf5, 0xc2, 0xe7),
            Color::Rgb(0x89, 0xb4, 0xfa),
            Color::Rgb(0xf3, 0x8b, 0xa8),
        ],
    }
}

/// The `catppuccin` palette, to paint with.
fn catppuccin_theme() -> (t: Theme)
    ensures
        t == catppuccin_palette(),
{
    Theme {
        name: "catppuccin",
        base: Color::Rgb(0x1e, 0x1e, 0x2e),
        surface: Color::Rgb(0x31, 0x32, 0x44),
        surface_soft: Color::Rgb(0x28, 0x28, 0x3c),
        border: Color::Rgb(0x45, 0x47, 0x5a),
        faded: Color::Rgb(0x6c, 0x70, 0x86),
        muted: Color::Rgb(0xa6, 0xad, 0xc8),
        accent: Color::Rgb(0x89, 0xdc, 0xeb),
        link: Color::Rgb(0x89, 0xb4, 0xfa),
        code: Color::Rgb(0xf9, 0xe2, 0xaf),
        mention: Color::Rgb(0xcb, 0xa6, 0xf7),
        success: Color::Rgb(0xa6, 0xe3, 0xa1),
        warn: Color::Rgb(0xfa, 0xb3, 0x87),
        users: [
            Color::Rgb(0x89, 0xdc, 0xeb),
            Color::Rgb(0xa6, 0xe3, 0xa1),
            Color::Rgb(0xf9, 0xe2, 0xaf),
            Color::Rgb(0xf5, 0xc2, 0xe7),
            Color::Rgb(0x89, 0xb4, 0xfa),
            Color::Rgb(0xf3, 0x8b, 0xa8),
        ],
    }
}

/// The `catppuccin-latte` palette.
pub open spec fn catppuccin_latte_palette() -> Theme {
    Theme {
        name: "catppuccin-latte",
        base: Color::Rgb(0xef, 0xf1, 0xf5),
        surface: Color::Rgb(0xdc, 0xe0, 0xe8),
        surface_soft: Color::Rgb(0xe6, 0xe9, 0xef),
        border: Color::Rgb(0xbc, 0xc0, 0xcc),
        faded: Color::Rgb(0x9c, 0xa0, 0xb0),
        muted: Color::Rgb(0x6c, 0x6f, 0x85),
        accent: Color::Rgb(0x04, 0xa5, 0xe5),
        link: Color::Rgb(0x1e, 0x66, 0xf5),
        code: Color::Rgb(0xdf, 0x8e, 0x1d),
        mention: Color::Rgb(0x88, 0x39, 0xef),
        success: Color::Rgb(0x40, 0xa0, 0x2b),
        warn: Color::Rgb(0xfe, 0x64, 0x0b),
        users: [
            Color::Rgb(0x04, 0xa5, 0xe5),
            Color::Rgb(0x40, 0xa0, 0x2b),
            Color::Rgb(0xdf, 0x8e, 0x1d),
            Color::Rgb(0xea, 0x76, 0xcb),
            Color::Rgb(0x1e, 0x66, 0xf5),
            Color::Rgb(0xd2, 0x0f, 0x39),
        ],
    }
}

/// The `catppuccin-latte` palette, to paint with.
fn catppuccin_latte_theme() -> (t: Theme)
    ensures
        t == catppuccin_latte_palette(),
{
    Theme {
        name: "catppuccin-latte",
        base: Color::Rgb(0xef, 0xf1, 0xf5),
        surface: Color::Rgb(0xdc, 0xe0, 0xe8),
        surface_soft: Color::Rgb(0xe6, 0xe9, 0xef),
        border: Color::Rgb(0xbc, 0xc0, 0xcc),
        faded: Color::Rgb(0x9c, 0xa0, 0xb0),
        muted: Color::Rgb(0x6c, 0x6f, 0x85),
        accent: Color::Rgb(0x04, 0xa5, 0xe5),
        link: Color::Rgb(0x1e, 0x66, 0xf5),
        code: Color::Rgb(0xdf, 0x8e, 0x1d),
        mention: Color::Rgb(0x88, 0x39, 0xef),
        success: Color::Rgb(0x40, 0xa0, 0x2b),
        warn: Color::Rgb(0xfe, 0x64, 0x0b),
        users: [
            Color::Rgb(0x04, 0xa5, 0xe5),
            Color::Rgb(0x40, 0xa0, 0x2b),
            Color::Rgb(0xdf, 0x8e, 0x1d),
            Color::Rgb(0xea, 0x76, 0xcb),
            Color::Rgb(0x1e, 0x66, 0xf5),
            Color::Rgb(0xd2, 0x0f, 0x39),
        ],
    }
}

/// The `rosepine` palette.
pub open spec fn rosepine_palette() -> Theme {
    Theme {
        name: "rosepine",
        base: Color::Rgb(0x19, 0x17, 0x24),
        surface: Color::Rgb(0x26, 0x23, 0x3a),
        surface_soft: Color::Rgb(0x1f, 0x1d, 0x2e),
        border: Color::Rgb(0x40, 0x3d, 0x52),
        faded: Color::Rgb(0x6e, 0x6a, 0x86),
        muted: Color::Rgb(0x90, 0x8c, 0xaa),
        accent: Color::Rgb(0x9c, 0xcf, 0xd8),
        link: Color::Rgb(0xc4, 0xa7, 0xe7),
        code: Color::Rgb(0xf6, 0xc1, 0x77),
        mention: Color::Rgb(0xeb, 0xbc, 0xba),
        success: Color::Rgb(0x31, 0x74, 0x8f),
        warn: Color::Rgb(0xf6, 0xc1, 0x77),
        users: [
            Color::Rgb(0x9c, 0xcf, 0xd8),
            Color::Rgb(0x31, 0x74, 0x8f),
            Color::Rgb(0xf6, 0xc1, 0x77),
            Color::Rgb(0xeb, 0x6f, 0x92),
            Color::Rgb(0xc4, 0xa7, 0xe7),
            Color::Rgb(0xeb, 0xbc, 0xba),
        ],
    }
}

/// The `rosepine` palette, to paint with.
fn rosepine_theme() -> (t: Theme)
    ensures
        t == rosepine_palette(),
{
    Theme {
        name: "rosepine",
        base: Color::Rgb(0x19, 0x17, 0x24),
        surface: Color::Rgb(0x26, 0x23, 0x3a),
        surface_soft: Color::Rgb(0x1f, 0x1d, 0x2e),
        border: Color::Rgb(0x40, 0x3d, 0x52),
        faded: Color::Rgb(0x6e, 0x6a, 0x86),
        muted: Color::Rgb(0x90, 0x8c, 0xaa),
        accent: Color::Rgb(0x9c, 0xcf, 0xd8),
        link: Color::Rgb(0xc4, 0xa7, 0xe7),
        code: Color::Rgb(0xf6, 0xc1, 0x77),
        mention: Color::Rgb(0xeb, 0xbc, 0xba),
        success: Color::Rgb(0x31, 0x74, 0x8f),
        warn: Color::Rgb(0xf6, 0xc1, 0x77),
        users: [
            Color::Rgb(0x9c, 0xcf, 0xd8),
            Color::Rgb(0x31, 0x74, 0x8f),
            Color::Rgb(0xf6, 0xc1, 0x77),
            Color::Rgb(0xeb, 0x6f, 0x92),
            Color::Rgb(0xc4, 0xa7, 0xe7),
            Color::Rgb(0xeb, 0xbc, 0xba),
        ],
    }
}

/// The `rosepine-dawn` palette.
pub open spec fn rosepine_dawn_palette() -> Theme {
    Theme {
        name: "rosepine-dawn",
        base: Color::Rgb(0xfa, 0xf4, 0xed),
        surface: Color::Rgb(0xf2, 0xe9, 0xe1),
        surface_soft: Color::Rgb(0xff, 0xfa, 0xf3),
        border: Color::Rgb(0xdf, 0xda, 0xd9),
        faded: Color::Rgb(0x98, 0x93, 0xa5),
        muted: Color::Rgb(0x79, 0x75, 0x93),
        accent: Color::Rgb(0x56, 0x94, 0x9f),
        link: Color::Rgb(0x90, 0x7a, 0xa9),
        code: Color::Rgb(0xea, 0x9d, 0x34),
        mention: Color::Rgb(0xd7, 0x82, 0x7e),
        success: Color::Rgb(0x28, 0x69, 0x83),
        warn: Color::Rgb(0xea, 0x9d, 0x34),
        users: [
            Color::Rgb(0x56, 0x94, 0x9f),
            Color::Rgb(0x28, 0x69, 0x83),
            Color::Rgb(0xea, 0x9d, 0x34),
            Color::Rgb(0xb4, 0x63, 0x7a),
            Color::Rgb(0x90, 0x7a, 0xa9),
            Color::Rgb(0xd7, 0x82, 0x7e),
        ],
    }
}

/// The `rosepine-dawn` palette, to paint with.
fn rosepine_dawn_theme() -> (t: Theme)
    ensures
        t == rosepine_dawn_palette(),
{
    Theme {
        name: "rosepine-dawn",
        base: Color::Rgb(0xfa, 0xf4, 0xed),
        surface: Color::Rgb(0xf2, 0xe9, 0xe1),
        surface_soft: Color::Rgb(0xff, 0xfa, 0xf3),
        border: Color::Rgb(0xdf, 0xda, 0xd9),
        faded: Color::Rgb(0x98, 0x93, 0xa5),
        muted: Color::Rgb(0x79, 0x75, 0x93),
        accent: Color::Rgb(0x56, 0x94, 0x9f),
        link: Color::Rgb(0x90, 0x7a, 0xa9),
        code: Color::Rgb(0xea, 0x9d, 0x34),
        mention: Color::Rgb(0xd7, 0x82, 0x7e),
        success: Color::Rgb(0x28, 0x69, 0x83),
        warn: Color::Rgb(0xea, 0x9d, 0x34),
        users: [
            Color::Rgb(0x56, 0x94, 0x9f),
            Color::Rgb(0x28, 0x69, 0x83),
            Color::Rgb(0xea, 0x9d, 0x34),
            Color::Rgb(0xb4, 0x63, 0x7a),
            Color::Rgb(0x90, 0x7a, 0xa9),
            Color::Rgb(0xd7, 0x82, 0x7e),
        ],
    }
}

/// The `nord` palette.
pub open spec fn nord_palette() -> Theme {
    Theme {
        name: "nord",
        base: Color::Rgb(0x2e, 0x34, 0x40),
        surface: Color::Rgb(0x3b, 0x42, 0x52),
        surface_soft: Color::Rgb(0x35, 0x3b, 0x49),
        border: Color::Rgb(0x43, 0x4c, 0x5e),
        faded: Color::Rgb(0x4c, 0x56, 0x6a),
        muted: Color::Rgb(0x7b, 0x88, 0xa1),
        accent: Color::Rgb(0x88, 0xc0, 0xd0),
        link: Color::Rgb(0x81, 0xa1, 0xc1),
        code: Color::Rgb(0xeb, 0xcb, 0x8b),
        mention: Color::Rgb(0xb4, 0x8e, 0xad),
        success: Color::Rgb(0xa3, 0xbe, 0x8c),
        warn: Color::Rgb(0xd0, 0x87, 0x70),
        users: [
            Color::Rgb(0x88, 0xc0, 0xd0),
            Color::Rgb(0xa3, 0xbe, 0x8c),
            Color::Rgb(0xeb, 0xcb, 0x8b),
            Color::Rgb(0xb4, 0x8e, 0xad),
            Color::Rgb(0x81, 0xa1, 0xc1),
            Color::Rgb(0xbf, 0x61, 0x6a),
        ],
    }
}

/// The `nord` palette, to paint with.
fn nord_theme() -> (t: Theme)
    ensures
        t == nord_palette(),
{
    Theme {
        name: "nord",
        base: Color::Rgb(0x2e, 0x34, 0x40),
        surface: Color::Rgb(0x3b, 0x42, 0x52),
        surface_soft: Color::Rgb(0x35, 0x3b, 0x49),
        border: Color::Rgb(0x43, 0x4c, 0x5e),
        faded: Color::Rgb(0x4c, 0x56, 0x6a),
        muted: Color::Rgb(0x7b, 0x88, 0xa1),
        accent: Color::Rgb(0x88, 0xc0, 0xd0),
        link: Color::Rgb(0x81, 0xa1, 0xc1),
        code: Color::Rgb(0xeb, 0xcb, 0x8b),
        mention: Color::Rgb(0xb4, 0x8e, 0xad),
        success: Color::Rgb(0xa3, 0xbe, 0x8c),
        warn: Color::Rgb(0xd0, 0x87, 0x70),
        users: [
            Color::Rgb(0x88, 0xc0, 0xd0),
            Color::Rgb(0xa3, 0xbe, 0x8c),
            Color::Rgb(0xeb, 0xcb, 0x8b),
            Color::Rgb(0xb4, 0x8e, 0xad),
            Color::Rgb(0x81, 0xa1, 0xc1),
            Color::Rgb(0xbf, 0x61, 0x6a),
        ],
    }
}

/// The `tokyonight` palette.
pub open spec fn tokyonight_palette() -> Theme {
    Theme {
        name: "tokyonight",
        base: Color::Rgb(0x1a, 0x1b, 0x26),
        surface: Color::Rgb(0x29, 0x2e, 0x42),
        surface_soft: Color::Rgb(0x1f, 0x23, 0x35),
        border: Color::Rgb(0x3b, 0x42, 0x61),
        faded: Color::Rgb(0x56, 0x5f, 0x89),
        muted: Color::Rgb(0x73, 0x7a, 0xa2),
        accent: Color::Rgb(0x7d, 0xcf, 0xff),
        link: Color::Rgb(0x7a, 0xa2, 0xf7),
        code: Color::Rgb(0xe0, 0xaf, 0x68),
        mention: Color::Rgb(0xbb, 0x9a, 0xf7),
        success: Color::Rgb(0x9e, 0xce, 0x6a),
        warn: Color::Rgb(0xff, 0x9e, 0x64),
        users: [
            Color::Rgb(0x7d, 0xcf, 0xff),
            Color::Rgb(0x9e, 0xce, 0x6a),
            Color::Rgb(0xe0, 0xaf, 0x68),
            Color::Rgb(0xbb, 0x9a, 0xf7),
            Color::Rgb(0x7a, 0xa2, 0xf7),
            Color::Rgb(0xf7, 0x76, 0x8e),
        ],
    }
}

/// The `tokyonight` palette, to paint with.
fn tokyonight_theme() -> (t: Theme)
    ensures
        t == tokyonight_palette(),
{
    Theme {
        name: "tokyonight",
        base: Color::Rgb(0x1a, 0x1b, 0x26),
        surface: Color::Rgb(0x29, 0x2e, 0x42),
        surface_soft: Color::Rgb(0x1f, 0x23, 0x35),
        border: Color::Rgb(0x3b, 0x42, 0x61),
        faded: Color::Rgb(0x56, 0x5f, 0x89),
        muted: Color::Rgb(0x73, 0x7a, 0xa2),
        accent: Color::Rgb(0x7d, 0xcf, 0xff),
        link: Color::Rgb(0x7a, 0xa2, 0xf7),
        code: Color::Rgb(0xe0, 0xaf, 0x68),
        mention: Color::Rgb(0xbb, 0x9a, 0xf7),
        success: Color::Rgb(0x9e, 0xce, 0x6a),
        warn: Color::Rgb(0xff, 0x9e, 0x64),
        users: [
            Color::Rgb(0x7d, 0xcf, 0xff),
            Color::Rgb(0x9e, 0xce, 0x6a),
            Color::Rgb(0xe0, 0xaf, 0x68),
            Color::Rgb(0xbb, 0x9a, 0xf7),
            Color::Rgb(0x7a, 0xa2, 0xf7),
            Color::Rgb(0xf7, 0x76, 0x8e),
        ],
    }
}

/// The `monokai` palette.
pub open spec fn monokai_palette() -> Theme {
    Theme {
        name: "monokai",
        base: Color::Rgb(0x27, 0x28, 0x22),
        surface: Color::Rgb(0x3e, 0x3d, 0x32),
        surface_soft: Color::Rgb(0x33, 0x33, 0x2b),
        border: Color::Rgb(0x49, 0x48, 0x3e),
        faded: Color::Rgb(0x75, 0x71, 0x5e),
        muted: Color::Rgb(0xa5, 0x9f, 0x85),
        accent: Color::Rgb(0x66, 0xd9, 0xef),
        link: Color::Rgb(0xae, 0x81, 0xff),
        code: Color::Rgb(0xe6, 0xdb, 0x74),
        mention: Color::Rgb(0xf9, 0x26, 0x72),
        success: Color::Rgb(0xa6, 0xe2, 0x2e),
        warn: Color::Rgb(0xfd, 0x97, 0x1f),
        users: [
            Color::Rgb(0x66, 0xd9, 0xef),
            Color::Rgb(0xa6, 0xe2, 0x2e),
            Color::Rgb(0xe6, 0xdb, 0x74),
            Color::Rgb(0xf9, 0x26, 0x72),
            Color::Rgb(0xae, 0x81, 0xff),
            Color::Rgb(0xfd, 0x97, 0x1f),
        ],
    }
}

/// The `monokai` palette, to paint with.
fn monokai_theme() -> (t: Theme)
    ensures
        t == monokai_palette(),
{
    Theme {
        name: "monokai",
        base: Color::Rgb(0x27, 0x28, 0x22),
        surface: Color::Rgb(0x3e, 0x3d, 0x32),
        surface_soft: Color::Rgb(0x33, 0x33, 0x2b),
        border: Color::Rgb(0x49, 0x48, 0x3e),
        faded: Color::Rgb(0x75, 0x71, 0x5e),
        muted: Color::Rgb(0xa5, 0x9f, 0x85),
        accent: Color::Rgb(0x66, 0xd9, 0xef),
        link: Color::Rgb(0xae, 0x81, 0xff),
        code: Color::Rgb(0xe6, 0xdb, 0x74),
        mention: Color::Rgb(0xf9, 0x26, 0x72),
        success: Color::Rgb(0xa6, 0xe2, 0x2e),
        warn: Color::Rgb(0xfd, 0x97, 0x1f),
        users: [
            Color::Rgb(0x66, 0xd9, 0xef),
            Color::Rgb(0xa6, 0xe2, 0x2e),
            Color::Rgb(0xe6, 0xdb, 0x74),
            Color::Rgb(0xf9, 0x26, 0x72),
            Color::Rgb(0xae, 0x81, 0xff),
            Color::Rgb(0xfd, 0x97, 0x1f),
        ],
    }
}

/// The palette a name key stands for.
pub open spec fn theme_for(key: Seq<char>) -> Option<Theme> {
    if key == "default"@ || key == "slack"@ {
        Some(default_palette())
    } else if key == "dracula"@ {
        Some(dracula_palette())
    } else if key == "catppuccin"@ || key == "catppuccinmocha"@ || key == "mocha"@ {
        Some(catppuccin_palette())
    } else if key == "catppuccinlatte"@ || key == "latte"@ {
        Some(catppuccin_latte_palette())
    } else if key == "rosepine"@ {
        Some(rosepine_palette())
    } else if key == "rosepinedawn"@ || key == "dawn"@ {
        Some(rosepine_dawn_palette())
    } else if key == "nord"@ {
        Some(nord_palette())
    } else if key == "tokyonight"@ {
        Some(tokyonight_palette())
    } else if key == "monokai"@ {
        Some(monokai_palette())
    } else {
        None
    }
}

/// The palette a name key stands for.
fn theme_for_key(key: &[char]) -> (r: Option<Theme>)
    ensures
        r == theme_for(key@),
{
    if same_text(key, "default") || same_text(key, "slack") {
        Some(default_theme())
    } else if same_text(key, "dracula") {
        Some(dracula_theme())
    } else if same_text(key, "catppuccin") || same_text(key, "catppuccinmocha") || same_text(key, "mocha") {
        Some(catppuccin_theme())
    } else if same_text(key, "catppuccinlatte") || same_text(key, "latte") {
        Some(catppuccin_latte_theme())
    } else if same_text(key, "rosepine") {
        Some(rosepine_theme())
    } else if same_text(key, "rosepinedawn") || same_text(key, "dawn") {
        Some(rosepine_dawn_theme())
    } else if same_text(key, "nord") {
        Some(nord_theme())
    } else if same_text(key, "tokyonight") {
        Some(tokyonight_theme())
    } else if same_text(key, "monokai") {
        Some(monokai_theme())
    } else {
        None
    }
}

/// Whether `c` counts in a theme name: an ASCII letter or digit.
pub open spec fn is_key_char(c: char) -> bool {
    ('a' <= c && c <= 'z') || ('A' <= c && c <= 'Z') || ('0' <= c && c <= '9')
}

/// The key a theme name is looked up by: its ASCII letters and digits, in lower case; case,
/// spaces and dashes do not matter.
pub open spec fn theme_key(name: Seq<char>) -> Seq<char>
    decreases name.len(),
{
    if name.len() == 0 {
        name
    } else if is_key_char(name.last()) {
        theme_key(name.drop_last()).push(ascii_lower(name.last()))
    } else {
        theme_key(name.drop_last())
    }
}

/// The name key of `name`.
fn key_of(name: &str) -> (r: Vec<char>)
    ensures
        r@ == theme_key(name@),
{
    let v = chars_of(name);
    let mut r: Vec<char> = Vec::new();
    let mut i: usize = 0;
    while i < v.len()
        invariant
            i <= v@.len(),
            v@ == name@,
            r@ == theme_key(v@.take(i as int)),
        decreases v.len() - i,
    {
        proof {
            let t = v@.take(i + 1);
            assert(t.drop_last() == v@.take(i as int));
            assert(t.last() == v@[i as int]);
        }
        let c = v[i];
        if ('a' <= c && c <= 'z') || ('A' <= c && c <= 'Z') || ('0' <= c && c <= '9') {
            r.push(lower_ascii(c));
        }
        i += 1;
    }
    assert(v@.take(v@.len() as int) == v@);
    r
}

/// The hash that picks an author's colour, over the bytes of their name.
pub open spec fn name_hash(bytes: Seq<u8>) -> usize
    decreases bytes.len(),
{
    if bytes.len() == 0 {
        7
    } else {
        wrapping_add(wrapping_mul(name_hash(bytes.drop_last()), 33), bytes.last() as usize)
    }
}

/// The colour of author `name` in `theme`: picked by a hash of the name without its
/// surrounding blanks, so the same person always reads in the same colour.
pub open spec fn user_color(theme: Theme, name: Seq<char>) -> Color {
    theme.users[(name_hash(vstd::utf8::encode_utf8(trim(name))) % 6) as int]
}

impl Theme {
    /// The theme names a user can pick.
    pub fn names() -> (r: [&'static str; 9])
        ensures
            r@.map_values(|n: &'static str| n@) == seq![
                "default"@,
                "dracula"@,
                "catppuccin"@,
                "catppuccin-latte"@,
                "rosepine"@,
                "rosepine-dawn"@,
                "nord"@,
                "tokyonight"@,
                "monokai"@,
            ],
    {
        let r = [
            "default",
            "dracula",
            "catppuccin",
            "catppuccin-latte",
            "rosepine",
            "rosepine-dawn",
            "nord",
            "tokyonight",
            "monokai",
        ];
        assert(r@.map_values(|n: &'static str| n@) =~= seq![
            "default"@,
            "dracula"@,
            "catppuccin"@,
            "catppuccin-latte"@,
            "rosepine"@,
            "rosepine-dawn"@,
            "nord"@,
            "tokyonight"@,
            "monokai"@,
        ]);
        r
    }

    /// The theme a name picks. Case, spaces and dashes do not matter: `Tokyo Night`,
    /// `tokyo-night` and `tokyonight` are one theme.
    pub fn named(name: &str) -> (r: Option<Theme>)
        ensures
            r == theme_for(theme_key(name@)),
    {
        let key = key_of(name);
        theme_for_key(key.as_slice())
    }

    /// The colour an author's name is drawn in.
    pub fn user(&self, name: &str) -> (r: Color)
        ensures
            r == user_color(*self, name@),
    {
        let t = crate::text::string_of(trimmed(chars_of(name).as_slice()).as_slice());
        let bytes = t.as_str().as_bytes();
        let mut h: usize = 7;
        let mut i: usize = 0;
        while i < bytes.len()
            invariant
                i <= bytes@.len(),
                h == name_hash(bytes@.take(i as int)),
            decreases bytes.len() - i,
        {
            proof {
                let s = bytes@.take(i + 1);
                assert(s.drop_last() == bytes@.take(i as int));
                assert(s.last() == bytes@[i as int]);
            }
            h = h.wrapping_mul(33).wrapping_add(bytes[i] as usize);
            i += 1;
        }
        assert(bytes@.take(bytes@.len() as int) == bytes@);
        self.users[h % 6]
    }
}

/// The theme a `:set theme=` value picks, or why none does.
pub fn theme_setting(value: &str) -> (r: Result<Theme, String>)
    ensures
        match r {
            Ok(t) => theme_for(theme_key(value@)) == Some(t),
            Err(e) => theme_for(theme_key(value@)) is None && e@ == "unknown theme `"@ + value@
                + "` (try default, dracula, catppuccin, catppuccin-latte, rosepine, rosepine-dawn, nord, tokyonight, monokai)"@,
        },
{
    match Theme::named(value) {
        Some(t) => Ok(t),
        None => {
            let mut e = "unknown theme `".to_owned();
            e.append(value);
            e.append("` (try default, dracula, catppuccin, catppuccin-latte, rosepine, rosepine-dawn, nord, tokyonight, monokai)");
            Err(e)
        },
    }
}

impl Default for Theme {
    /// The terminal's own ANSI palette, so it follows whatever the terminal already looks like.
    fn default() -> (t: Self)
        ensures
            t == default_palette(),
    {
        default_theme()
    }
}

} // verus!
