//! Decoding of chunk-data payloads into queryable chunk columns.
pub mod coords;
pub mod reader;
pub mod section;
pub mod decode;
pub mod heightmap;
pub mod packing;
pub mod chunk;
