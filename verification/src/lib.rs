//! A two-channel distortion effect in fixed-point arithmetic.
//!
//! Every sample and every parameter is an `i64` counted in billionths of full
//! scale: `scale::ONE` stands for 1.0. A sample first passes through a
//! symmetric clipper normalised by the threshold (`shaper`); in the filtered
//! form of the effect it then passes through two cascaded one-pole smoothing
//! stages whose twice-smoothed signal is subtracted from the clipped one
//! (`filter`). `effect` holds one instance with its parameters (`params`),
//! `model` says what an instance stands for in contracts and what holds of
//! it, `text` renders parameter values as decimal numbers for display, and
//! `host` is the instance's description for a plugin host.

pub mod scale;
pub mod shaper;
pub mod filter;
pub mod text;
pub mod params;
pub mod model;
pub mod host;
pub mod effect;
