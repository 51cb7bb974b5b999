//! The logic of the Prvw image viewer, verified.
//!
//! Everything here computes on plain values. Windows, files, displays and floating-point pixel
//! work live in the application around this library.

pub mod browser;
pub mod bytes;
pub mod chrome;
pub mod clipboard;
pub mod color;
pub mod commands;
pub mod parity;
pub mod paths;
pub mod text;
