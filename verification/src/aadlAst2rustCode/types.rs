//! Conversion steps for device and system component types.

pub mod conv_device_type;
pub mod conv_system_type;
