//! Interactive selection of a sub-range along a drawn path.
//!
//! A pointer drag over a rendered path is turned into a contiguous selected
//! interval of that path: pointer positions are projected (by the host) onto
//! the path's arc-length parameterization, the resulting interval is snapped
//! to path ends and segment boundaries, and a minimum-width, in-bounds
//! interval is emitted on every update.
//!
//! All arc-length offsets in this crate are integers counted in tenths of a
//! length unit, so the `0.1` end margin is `1`, the `1.5` minimum selection
//! width is `15`, and so on.

pub mod arena;
pub mod path;
pub mod selectable;
pub mod selection;
