//! The unpackers of the data section: templates 7.0, 7.3 and 7.200.
//!
//! Each takes a reader at the first octet of the body and returns the samples
//! in order, as signed 32-bit numbers. A sample without a value is
//! `i32::MIN`.

pub mod complex;
pub mod run_length;
pub mod simple;

pub use complex::read_data_7_3;
pub use run_length::read_data_7_200;
pub use simple::read_data_7_0;
