//! A planar arrangement of line segments for interactively built polygonal
//! outlines.
//!
//! The arrangement accepts segments one at a time, merges collinear overlaps,
//! splits crossings, and reports a vertex-average centroid for closed
//! outlines.  Coordinates are exact rationals, so every geometric decision
//! (collinearity, crossing, duplicate detection) is exact.

pub mod arrange;
pub mod geom;
pub mod laws;
pub mod rat;

pub use arrange::ShapeBuilder;
pub use geom::get_intersection;
pub use geom::Point;
pub use geom::SegRelation;
pub use geom::Segment;
pub use rat::Rat;
