//! Verified core of the SnowLV log viewer's UI layer: histogram axis
//! bookkeeping, text helpers, chart channel selection, playback decisions,
//! formula editor state, export label layout and raster drawing.

pub mod axis;
pub mod histogram;
pub mod raster;
pub mod text;
pub mod session;
pub mod layout;
pub mod formula;
pub mod analysis;
pub mod glyph;
pub mod toast;
