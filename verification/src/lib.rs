//! A terminal-UI layout library: a grid of rows and columns, each holding a
//! percentage share of the screen, with queries that convert those shares into
//! character-cell positions and extents.
//!
//! The layout core is pure arithmetic and fully verified; terminal rendering
//! and the event loop live outside this crate.

pub mod axis;
pub mod structure;
pub mod constants;
pub mod theme;
