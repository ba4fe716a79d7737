//! The part of an analytic ray tracer whose behaviour can be stated exactly,
//! with its proofs.
//!
//! A ray tracer computes in floating point, and this library holds no
//! floating-point number. It holds what stands around the arithmetic: how
//! matrices are laid out and which entries meet in a product or an inverse
//! (`matrix`), what those layouts mean where the arithmetic is exact
//! (`exact`), the order of the crossings of a ray and the choice of the
//! visible one (`intersection`), the loop over the pixels (`camera`), the
//! grid of pixels and its plain-text image (`canvas`, `wrapping`). The
//! arithmetic on the entries, and the colour of a pixel, are handed in by the
//! caller.

pub mod camera;
pub mod canvas;
pub mod exact;
pub mod intersection;
pub mod matrix;
pub mod wrapping;
