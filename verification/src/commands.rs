//! The decisions of the two commands, free of input and output.

pub mod decode;
pub mod encode;
