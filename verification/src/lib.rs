//! Recognition of directional "motion inputs" (fighting-game gestures) from a
//! bounded history of per-frame direction samples in numpad notation.
//!
//! The crate holds the recognition core: the bounded history of recent
//! directional samples, the dictionary of canonical move patterns, the
//! backward subsequence matcher with its temporal-gap constraint, and the
//! resolver that picks the first recognized move each frame. Reading raw
//! controller events and drawing the terminal visualization live outside the
//! core, in the surrounding application.

pub mod input_explainer;
pub mod input_reader;
pub mod static_types;
