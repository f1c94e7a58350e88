//! Conversion steps for component types.

pub mod conv_subprogram_type;
pub mod conv_data_type;
pub mod conv_thread_type;
pub mod conv_process_type;
