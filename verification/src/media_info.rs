//! What the probe tool tells about media files.

pub mod tools;
