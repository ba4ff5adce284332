//! OpenDroneID (ASTM F3411 Remote ID) payload extraction and message decoding.

pub mod decode;
pub mod filter;
