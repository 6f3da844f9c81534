//! A hexdump core: offset resolution, bounded and unbounded chunked
//! reading, and the deterministic rendering of bytes into a framed table
//! of hexadecimal and printable-character cells.

pub mod hex;
pub mod offset;
pub mod reader;
pub mod render;
