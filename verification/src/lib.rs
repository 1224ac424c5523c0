//! Filters a chain may name, colours typed into a field, and the phrases
//! and readouts the editor shows.

pub mod filters;
pub mod text;
pub mod colour;
pub mod phrase;
pub mod timecode;
pub mod wave;
