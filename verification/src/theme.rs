//! The colors of the two themes.

use vstd::prelude::*;
use crate::settings::ThemeSetting;

verus! {

/// A color with its opacity, eight bits each, not premultiplied.
#[derive(Debug, Clone, Copy, PartialEq, Eq, Structural)]
pub struct Rgba {
    pub r: u8,
    pub g: u8,
    pub b: u8,
    pub a: u8,
}

/// A color in thousandths of full brightness.
#[derive(Debug, Clone, Copy, PartialEq, Eq, Structural)]
pub struct Thousandths {
    pub r: u16,
    pub g: u16,
    pub b: u16,
}

/// The colors of a theme.
#[derive(Debug, Clone, Copy, PartialEq, Eq, Structural)]
pub struct Palette {
    pub panel_bg: Rgba,
    pub text_primary: Rgba,
    pub text_secondary: Rgba,
    pub text_tertiary: Rgba,
    pub text_dim: Rgba,
    pub accent: Rgba,
    pub accent_hover: Rgba,
    pub selection_text: Rgba,
    pub hover_fill: Rgba,
    pub button_fill: Rgba,
    pub card_stroke: Rgba,
    pub selected_card_fill: Rgba,
    pub selected_card_stroke: Rgba,
    pub thumb_placeholder: Rgba,
    pub key_hint: Rgba,
    pub help_desc: Rgba,
    /// What the window is cleared with.
    pub canvas_clear: Thousandths,
    /// What surrounds the image.
    pub d2d_clear: Thousandths,
}

/// An opaque color.
pub open spec fn solid(r: u8, g: u8, b: u8) -> Rgba {
    Rgba { r, g, b, a: 255 }
}

/// A color with an opacity.
pub open spec fn shade(r: u8, g: u8, b: u8, a: u8) -> Rgba {
    Rgba { r, g, b, a }
}

fn rgb(r: u8, g: u8, b: u8) -> (c: Rgba)
    ensures
        c == solid(r, g, b),
{
    Rgba { r, g, b, a: 255 }
}

fn rgba(r: u8, g: u8, b: u8, a: u8) -> (c: Rgba)
    ensures
        c == shade(r, g, b, a),
{
    Rgba { r, g, b, a }
}

/// The dark theme.
pub open spec fn dark() -> Palette {
    Palette {
        panel_bg: solid(15, 16, 17),
        text_primary: solid(247, 248, 248),
        text_secondary: solid(200, 205, 214),
        text_tertiary: solid(138, 143, 152),
        text_dim: solid(98, 102, 109),
        accent: solid(0x5e, 0x6a, 0xd2),
        accent_hover: solid(0x71, 0x70, 0xff),
        selection_text: solid(140, 148, 255),
        hover_fill: shade(255, 255, 255, 14),
        button_fill: shade(255, 255, 255, 14),
        card_stroke: shade(255, 255, 255, 10),
        selected_card_fill: shade(87, 93, 188, 38),
        selected_card_stroke: solid(95, 106, 210),
        thumb_placeholder: solid(28, 30, 36),
        key_hint: solid(100, 180, 255),
        help_desc: solid(200, 200, 210),
        canvas_clear: Thousandths { r: 59, g: 63, b: 67 },
        d2d_clear: Thousandths { r: 59, g: 63, b: 67 },
    }
}

/// The light theme.
pub open spec fn light() -> Palette {
    Palette {
        panel_bg: solid(243, 244, 245),
        text_primary: solid(26, 27, 30),
        text_secondary: solid(60, 63, 68),
        text_tertiary: solid(107, 112, 120),
        text_dim: solid(140, 145, 152),
        accent: solid(0x5e, 0x6a, 0xd2),
        accent_hover: solid(0x71, 0x70, 0xff),
        selection_text: solid(0x5e, 0x6a, 0xd2),
        hover_fill: shade(0, 0, 0, 10),
        button_fill: shade(0, 0, 0, 13),
        card_stroke: shade(0, 0, 0, 18),
        selected_card_fill: shade(94, 106, 210, 30),
        selected_card_stroke: solid(94, 106, 210),
        thumb_placeholder: solid(226, 228, 231),
        key_hint: solid(0x5e, 0x6a, 0xd2),
        help_desc: solid(60, 63, 68),
        canvas_clear: Thousandths { r: 953, g: 957, b: 961 },
        d2d_clear: Thousandths { r: 953, g: 957, b: 961 },
    }
}

/// Gives the dark theme's colors.
pub fn dark_palette() -> (p: Palette)
    ensures
        p == dark(),
{
    Palette {
        panel_bg: rgb(15, 16, 17),
        text_primary: rgb(247, 248, 248),
        text_secondary: rgb(200, 205, 214),
        text_tertiary: rgb(138, 143, 152),
        text_dim: rgb(98, 102, 109),
        accent: rgb(0x5e, 0x6a, 0xd2),
        accent_hover: rgb(0x71, 0x70, 0xff),
        selection_text: rgb(140, 148, 255),
        hover_fill: rgba(255, 255, 255, 14),
        button_fill: rgba(255, 255, 255, 14),
        card_stroke: rgba(255, 255, 255, 10),
        selected_card_fill: rgba(87, 93, 188, 38),
        selected_card_stroke: rgb(95, 106, 210),
        thumb_placeholder: rgb(28, 30, 36),
        key_hint: rgb(100, 180, 255),
        help_desc: rgb(200, 200, 210),
        canvas_clear: Thousandths { r: 59, g: 63, b: 67 },
        d2d_clear: Thousandths { r: 59, g: 63, b: 67 },
    }
}

/// Gives the light theme's colors.
pub fn light_palette() -> (p: Palette)
    ensures
        p == light(),
{
    Palette {
        panel_bg: rgb(243, 244, 245),
        text_primary: rgb(26, 27, 30),
        text_secondary: rgb(60, 63, 68),
        text_tertiary: rgb(107, 112, 120),
        text_dim: rgb(140, 145, 152),
        accent: rgb(0x5e, 0x6a, 0xd2),
        accent_hover: rgb(0x71, 0x70, 0xff),
        selection_text: rgb(0x5e, 0x6a, 0xd2),
        hover_fill: rgba(0, 0, 0, 10),
        button_fill: rgba(0, 0, 0, 13),
        card_stroke: rgba(0, 0, 0, 18),
        selected_card_fill: rgba(94, 106, 210, 30),
        selected_card_stroke: rgb(94, 106, 210),
        thumb_placeholder: rgb(226, 228, 231),
        key_hint: rgb(0x5e, 0x6a, 0xd2),
        help_desc: rgb(60, 63, 68),
        canvas_clear: Thousandths { r: 953, g: 957, b: 961 },
        d2d_clear: Thousandths { r: 953, g: 957, b: 961 },
    }
}

/// The colors of a theme.
pub open spec fn palette_of(theme: ThemeSetting) -> Palette {
    match theme {
        ThemeSetting::Dark => dark(),
        ThemeSetting::Light => light(),
    }
}

/// How bright a color is, all three lights together.
pub open spec fn brightness(c: Rgba) -> int {
    c.r + c.g + c.b
}

/// A light in thousandths is the nearest to one in eight bits.
pub open spec fn is_nearest(thousandths: u16, light: u8) -> bool {
    -255 <= 2 * (255 * thousandths - 1000 * light) <= 255
}

/// A clear color is the same as one with eight bits for each light.
pub open spec fn is_same_color(t: Thousandths, c: Rgba) -> bool {
    is_nearest(t.r, c.r) && is_nearest(t.g, c.g) && is_nearest(t.b, c.b)
}

/// The dark theme writes light on dark and the light theme dark on light, fainter from
/// the first text to the last. All text is opaque.
pub proof fn text_stands_out(theme: ThemeSetting)
    ensures
        ({
            let p = palette_of(theme);
            &&& theme == ThemeSetting::Dark ==> brightness(p.panel_bg) < brightness(p.text_dim)
                < brightness(p.text_tertiary) < brightness(p.text_secondary) < brightness(
                p.text_primary,
            )
            &&& theme == ThemeSetting::Light ==> brightness(p.panel_bg) > brightness(p.text_dim)
                > brightness(p.text_tertiary) > brightness(p.text_secondary) > brightness(
                p.text_primary,
            )
            &&& p.text_primary.a == 255 && p.text_secondary.a == 255 && p.text_tertiary.a == 255
                && p.text_dim.a == 255 && p.panel_bg.a == 255
        }),
{
}

/// The window and what surrounds the image are cleared with the color of the panels, in
/// both themes; both have the same accents, and shades that are nearly clear, white on
/// dark and black on light.
pub proof fn surfaces_match(theme: ThemeSetting)
    ensures
        ({
            let p = palette_of(theme);
            &&& is_same_color(p.canvas_clear, p.panel_bg)
            &&& is_same_color(p.d2d_clear, p.panel_bg)
            &&& p.accent == palette_of(theme.other()).accent
            &&& p.accent_hover == palette_of(theme.other()).accent_hover
            &&& 0 < p.hover_fill.a < 32 && 0 < p.button_fill.a < 32 && 0 < p.card_stroke.a < 32
            &&& 0 < p.selected_card_fill.a < 64 && p.selected_card_stroke.a == 255
            &&& theme == ThemeSetting::Dark ==> brightness(p.hover_fill) == 765 && brightness(
                p.button_fill,
            ) == 765 && brightness(p.card_stroke) == 765
            &&& theme == ThemeSetting::Light ==> brightness(p.hover_fill) == 0 && brightness(
                p.button_fill,
            ) == 0 && brightness(p.card_stroke) == 0
        }),
{
}

/// Gives the colors of a theme.
pub fn palette_for(theme: ThemeSetting) -> (p: Palette)
    ensures
        p == palette_of(theme),
{
    match theme {
        ThemeSetting::Dark => dark_palette(),
        ThemeSetting::Light => light_palette(),
    }
}

/// Whether the system is in its light mode, by the value that it keeps for that;
/// dark where there is none.
pub fn system_theme_is_light(apps_use_light_theme: Option<u32>) -> (r: bool)
    ensures
        r == (apps_use_light_theme == Some(1u32)),
{
    match apps_use_light_theme {
        Some(v) => v == 1,
        None => false,
    }
}

} // verus!
