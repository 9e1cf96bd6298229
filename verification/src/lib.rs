//! Encoding text into QR code images and reading QR codes back out of
//! grayscale images.
//!
//! The symbol generator and the grid detector are run by the caller, with
//! the `qrcode` and `rqrr` crates or any others, and what they made is
//! handed in. What is built around the two is verified here: the validation
//! of the error correction token, the rendering of a symbol's modules into
//! pixels and into text for a terminal, the choice of the output format, the
//! reading of a payload as text or as hexadecimal, and the gathering of the
//! results.
//!
//! Nothing in this crate reads or writes files, fetches from the network or
//! prints: callers hand in text, symbols and grids and get text and pixels
//! back.

pub mod commands;
pub mod qr;
pub mod utils;

pub use utils::error::RqrError;
