//! Font loading and text layout as verified vector-path generation.
//!
//! The crate parses TrueType/OpenType font binaries, decodes glyph outlines
//! from the `glyf` table, and lays Unicode text out as a sequence of path
//! operations in fixed-point coordinates, ready for a path-filling rasterizer.

use vstd::prelude::*;

pub mod bidi;
pub mod cmap;
pub mod direction;
pub mod face;
pub mod glyf;
pub mod layout;
pub mod metrics;
pub mod ops;
pub mod outline;
pub mod reader;
pub mod shaped;
pub mod tables;

pub use reader::{read_u8_at, read_u16_be, read_i16_be, read_u32_be, read_i32_be};
pub use reader::{be_u16, be_i16, be_u32, be_i32};
pub use tables::{is_font, platform_id, microsoft_eid, find_table, get_font_offset_for_index};
pub use tables::{PlatformId, MicrosoftEid};
pub use face::{FontInfo, FontError};
pub use metrics::{HMetrics, VMetrics};
pub use outline::{Vertex, VertexType};
pub use glyf::OutlineError;
pub use direction::{direction, Direction};
pub use bidi::visual_order;
pub use ops::{PathOp, emit_glyph_ops};
pub use layout::{Font, StyledFont, TextAlign, LayoutError, TextPathIterator, StyleState, NONE, BOLD, ITALIC};
pub use shaped::{ShapedGlyph, line_split, crop_shaped, render_shaped};

verus! {

/// License notices owed for typefaces bundled with the crate.  No typeface
/// is bundled: fonts are supplied by the caller, so the text is empty.
pub fn licenses() -> (r: String)
    ensures
        r@.len() == 0,
{
    String::new()
}

} // verus!
