//! Browse mode on Windows: a folder tree, a thumbnail grid, a splitter, and a status bar.
//!
//! Everything that's decided is decided here, on plain values. The Win32 layer creates the
//! controls, forwards their messages and performs what comes back.

pub mod keys;
pub mod layout;
pub mod roots;
pub mod selection_meta;
pub mod status;
pub mod thumbnail;
pub mod ui;
