//! The primitive wire codec: a cursor over bytes, variable-length integers,
//! fixed-width big-endian integers, and length-prefixed UTF-8 strings.

pub mod fixed;
pub mod reader;
pub mod strings;
pub mod var_int;
