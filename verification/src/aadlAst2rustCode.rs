//! The first generation of the AADL-to-Rust converter: the Behavior Annex
//! state-machine generator, the build-script generator, a list helper, and
//! the conversions of devices and systems.

pub mod converter_annex;
pub mod tool;
pub mod generate_build;
pub mod types;
pub mod implementations;
