//! Decoding of WAD files: the header and directory of the container, and the
//! palette, shading-table, patch-name and texture lumps that it holds.
//!
//! Every decoder works on bytes that are already in memory and is built on one
//! bounds-checked cursor, [`lump_parser::LumpParser`]. What each decoder
//! returns is stated over sequences of bytes and proved for every input, so
//! no input, however malformed, makes a decoder panic or read out of bounds.

pub mod container;
pub mod encoding;
pub mod error;
pub mod le_bytes;
pub mod lump_parser;
pub mod lumps;
pub mod wad_string;

pub use crate::container::{Wad, WadDirectoryEntry, WadHeader, WadType};
pub use crate::error::WadError;
pub use crate::wad_string::WadString;
