//! Decoder for Anvil world-storage region files: region-container
//! framing, tagged-tree access, the variable-bit-width packed-integer
//! codec, and per-column surface extraction.

pub mod blocks;
pub mod chunks;
pub mod dimensions;
pub mod errors;
pub mod heightmaps;
pub mod regions;
pub mod sections;
pub mod tags;
pub mod utils;

