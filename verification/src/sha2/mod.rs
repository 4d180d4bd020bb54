//! SHA-512: its mathematical model, its constants and the compression
//! function.
pub mod consts;
pub mod lemmas;
pub mod model;
pub mod sha512_utils;
pub mod sha512;
