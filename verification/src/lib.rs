//! Core pipeline of a JPEG batch splitter: thumbnail preparation, base64
//! encoding, JFIF density patching, split geometry, and the chunked batch
//! plan that preserves output ordering. The presentation layer and all
//! file-system work live outside this crate and exchange plain values with it.
pub mod ascii;
pub mod base64;
pub mod errors;
pub mod imaging;
pub mod jfif;
pub mod naming;
pub mod pipeline;
pub mod scheduler;
