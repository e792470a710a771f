//! Widget color themes: a foreground and a background RGB triple, built
//! through self-consuming setter calls ending in [`Theme::build`].
//!
//! Two default palettes coexist. The builder chain -- [`Theme::builder`],
//! [`Theme::new`] and the widgets' [`default_theme`] -- starts from white
//! text on a black background. The standalone defaults -- [`Theme::default`]
//! and this module's [`default`] -- are the inverse, black on white.

use vstd::prelude::*;

verus! {

/// The colors a widget is drawn with: `fg` and `bg` are RGB triples.
pub struct Theme {
    pub fg: (u8, u8, u8),
    pub bg: (u8, u8, u8),
}

impl Theme {
    /// Returns the completed [`Theme`] after all builder methods are called.
    pub fn build(self) -> (r: Theme)
        ensures
            r.fg == self.fg,
            r.bg == self.bg,
    {
        Theme { fg: self.fg, bg: self.bg }
    }

    /// Returns a fresh [`Theme`] with the default colors (white on black),
    /// ready for the builder methods.
    pub fn builder() -> (r: Theme)
        ensures
            r.fg == (255u8, 255u8, 255u8),
            r.bg == (0u8, 0u8, 0u8),
    {
        Theme { fg: (255, 255, 255), bg: (0, 0, 0) }
    }

    /// Returns a new [`Theme`] with the default configuration; shorthand for
    /// `Theme::builder().build()`.
    pub fn new() -> (r: Theme)
        ensures
            r.fg == (255u8, 255u8, 255u8),
            r.bg == (0u8, 0u8, 0u8),
    {
        Theme::builder().build()
    }

    /// Returns a new [`Theme`] with the standalone default palette: black
    /// text on a white background, the inverse of the builder chain's
    /// white-on-black start.
    pub fn default() -> (r: Theme)
        ensures
            r.fg == (0u8, 0u8, 0u8),
            r.bg == (255u8, 255u8, 255u8),
    {
        Theme { fg: (0, 0, 0), bg: (255, 255, 255) }
    }

    /// Set the background color to the RGB value `bg`.
    pub fn bg_rgb(self, bg: (u8, u8, u8)) -> (r: Theme)
        ensures
            r.bg == bg,
            r.fg == self.fg,
    {
        Theme { fg: self.fg, bg }
    }

    /// Set the foreground color to the RGB value `fg`.
    pub fn fg_rgb(self, fg: (u8, u8, u8)) -> (r: Theme)
        ensures
            r.fg == fg,
            r.bg == self.bg,
    {
        Theme { fg, bg: self.bg }
    }
}

/// Returns the widgets' default theme: white text on a black background.
pub fn default_theme() -> (r: Theme)
    ensures
        r.fg == (255u8, 255u8, 255u8),
        r.bg == (0u8, 0u8, 0u8),
{
    Theme::new()
}

/// Returns the standalone default theme, black on white; an alias for
/// [`Theme::default`] kept for callers that address the module rather than
/// the type.
pub fn default() -> (r: Theme)
    ensures
        r.fg == (0u8, 0u8, 0u8),
        r.bg == (255u8, 255u8, 255u8),
{
    Theme::default()
}

} // verus!
