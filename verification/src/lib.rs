//! Logic behind a tilemap debug overlay.
//!
//! An isometric map is rendered by a game engine; the overlay prints each
//! tile's coordinates next to it and re-colours the label of the tile the
//! cursor hovers over.  The engine owns the entities, the floating-point
//! transforms and the event loop; this crate owns the decisions: what text a
//! label carries, which stored tile a snapped cursor coordinate selects,
//! which position update wins within a frame, and which labels change colour
//! when the hovered tile changes.

pub mod cursor;
pub mod grid;
pub mod highlight;
pub mod label;
