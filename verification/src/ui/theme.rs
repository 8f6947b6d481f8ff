//! The colour themes the interface can use.
use vstd::prelude::*;

verus! {

#[derive(Copy, Clone, Debug, PartialEq, Eq, Structural)]
pub enum ThemeVariant {
    Light,
    Dark,
}

impl Default for ThemeVariant {
    fn default() -> (t: Self)
        ensures
            t == ThemeVariant::Dark,
    {
        ThemeVariant::Dark
    }
}

/// A colour as red, green and blue.
pub type Rgb = (u8, u8, u8);

/// The colours a theme picks; `None` leaves the terminal's own colour.
pub trait Theme {
    /// The background of the selected row and of the matching line in the
    /// context viewer.
    fn highlight_color(&self) -> Rgb;

    /// The name of the syntax highlighting theme of the context viewer.
    fn context_viewer_theme(&self) -> &'static str;

    fn bottom_bar_color(&self) -> Option<Rgb>;

    fn bottom_bar_font_color(&self) -> Option<Rgb>;
}

/// Light colours on a dark terminal.
pub struct Dark;

/// Dark colours on a light terminal.
pub struct Light;

impl Theme for Dark {
    fn highlight_color(&self) -> (c: Rgb)
        ensures
            c == (58u8, 58u8, 58u8),
    {
        (58, 58, 58)
    }

    fn context_viewer_theme(&self) -> (s: &'static str)
        ensures
            s@ == "base16-ocean.dark"@,
    {
        "base16-ocean.dark"
    }

    fn bottom_bar_color(&self) -> (c: Option<Rgb>)
        ensures
            c == Some((58u8, 58u8, 58u8)),
    {
        Some((58, 58, 58))
    }

    fn bottom_bar_font_color(&self) -> (c: Option<Rgb>)
        ensures
            c == Some((147u8, 147u8, 147u8)),
    {
        Some((147, 147, 147))
    }
}

impl Theme for Light {
    fn highlight_color(&self) -> (c: Rgb)
        ensures
            c == (220u8, 220u8, 220u8),
    {
        (220, 220, 220)
    }

    fn context_viewer_theme(&self) -> (s: &'static str)
        ensures
            s@ == "base16-ocean.light"@,
    {
        "base16-ocean.light"
    }

    fn bottom_bar_color(&self) -> (c: Option<Rgb>)
        ensures
            c is None,
    {
        None
    }

    fn bottom_bar_font_color(&self) -> (c: Option<Rgb>)
        ensures
            c is None,
    {
        None
    }
}

} // verus!
