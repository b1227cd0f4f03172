//! Synthetic weather observations rendered as CSV text.
//!
//! Every random choice is made through a [`source::DrawSource`], so a run
//! driven by a scripted source is reproducible and its output is stated
//! exactly by the contracts of [`generate`].

pub mod station;
pub mod text;
pub mod record;
pub mod source;
pub mod generate;
pub mod shape;
