//! The calls this library makes into outside crates and into the parts of std that
//! vstd does not specify. Each item states what the library relies on; nothing here
//! is proved.

pub mod flate;
pub mod digest;
pub mod fmt;
pub mod handshake;
pub mod json;
pub mod time;
pub mod frame_header;
pub mod utf8;
pub mod ascii;
