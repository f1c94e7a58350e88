//! Conversion steps for system and data implementations.

pub mod conv_system_impl;
pub mod conv_data_impl;
