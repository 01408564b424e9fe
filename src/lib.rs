//! Index logic of a spectral convolution pipeline: rectangular fields stored
//! row-major, their quadrant shifts, the first-difference stencil and the
//! mirrored placement of a point-spread mask. The arithmetic on cell values
//! is supplied by the caller.

pub mod grid;
pub mod shift;
pub mod kernel;
pub mod psf;
