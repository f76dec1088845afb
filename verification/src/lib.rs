//! Geometry core of a music-notation engraving renderer.
//!
//! The crate turns a fully positioned score model (rows, time columns and
//! note events, all coordinates already assigned upstream) into a flat,
//! ordered list of vector-graphics primitives.  Order is paint order: later
//! entries are drawn on top.  All geometry is integer arithmetic in render
//! units; glyph outline tables and fonts are read-only inputs, and a
//! backend serializer for the primitive list lives outside the crate.

pub mod beams;
pub mod compose;
pub mod fonts;
pub mod geom;
pub mod model;
pub mod paths;
pub mod prim;
pub mod resolve;
pub mod style;
pub mod svgpath;
pub mod ties;
