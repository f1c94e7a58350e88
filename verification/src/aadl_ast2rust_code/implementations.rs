//! Conversion steps for component implementations.

pub mod conv_process_impl;
pub mod conv_thread_impl;
pub mod conv_thread_run;
pub mod conv_data_impl;
pub mod conv_processor_impl;
