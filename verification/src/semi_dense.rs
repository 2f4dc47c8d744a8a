//! Semi-dense depth estimation: matching along an epipolar line.

pub mod intensities;
