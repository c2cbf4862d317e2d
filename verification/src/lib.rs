//! Verified authoring core for freemkv optical-drive firmware.
//!
//! The crate reads an OEM controller image, proves where its hook points are,
//! and produces the patched image together with the facts it was built from.

pub mod abi;
pub mod api;
pub mod engine;
pub mod error;
pub mod family;
pub mod machine;
pub mod program;
pub mod raw;
pub mod sig;
pub mod survey;
pub mod text;
pub mod thumb;
