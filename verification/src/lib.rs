//! A recorded outdoor track, denoised: a tolerant parser for a
//! GPS-exchange dialect, a geodetic-to-local projection, and a fixed-model
//! Kalman smoother over the projected trajectory.
//!
//! The three stages run strictly in order on plain values. Numbers are
//! carried in fixed point: angles in nano-degrees, local offsets in
//! millimeters, filter state in micro steps — so every stage's behaviour
//! is stated exactly and proved, down to the clipping and the truncating
//! divisions. The document scanner, the timestamp parse and the
//! tangent-plane transform are the trusted boundary; everything around
//! them is verified.

pub mod fixmat;
pub mod gpx_reader;
pub mod gpx_to_4d;
pub mod kalman_filter;
pub mod numtext;
