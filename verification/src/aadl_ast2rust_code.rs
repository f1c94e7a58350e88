//! The second generation of the AADL-to-Rust converter: the converter's
//! state and shared conversions, model-wide collectors and the
//! per-component conversion steps.

pub mod converter;
pub mod collector;
pub mod package;
pub mod implementations;
pub mod types;
