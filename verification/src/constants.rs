//! Crate constants: the box-drawing characters used by widget renderers.

use vstd::prelude::*;

verus! {

/// The character set used when drawing widget borders and fills.
#[allow(non_camel_case_types)]
pub struct chars {}

impl chars {
    pub const TOP_LEFT: &'static str = "\u{250c}";

    pub const TOP_RIGHT: &'static str = "\u{2510}";

    pub const BOTTOM_LEFT: &'static str = "\u{2514}";

    pub const BOTTOM_RIGHT: &'static str = "\u{2518}";

    pub const VERTICAL: &'static str = "\u{2502}";

    pub const HORIZONTAL: &'static str = "\u{2500}";

    pub const EMPTY: &'static str = " ";
}

} // verus!
