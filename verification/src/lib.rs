//! Numeric decisions of a semi-dense visual-odometry front end: the pinhole
//! camera model and the epipolar-line intensity matcher.
//!
//! Every scalar crosses the boundary of this crate as the bit pattern of an
//! IEEE-754 binary64 number, held in a `u64`. The crate never rounds: it
//! orders, selects and arranges such values, and proves what it selects.

pub mod camera;
pub mod error;
pub mod scalar;
pub mod semi_dense;
