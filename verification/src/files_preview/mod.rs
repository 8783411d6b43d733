//! Preview decoders: hex dumps, image and audio headers, and colours.
pub mod hex;
pub mod image;
pub mod audio;
pub mod syntax;
