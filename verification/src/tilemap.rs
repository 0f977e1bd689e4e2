//! What a tilemap and its tiles look like before they are rendered.

pub mod map;
pub mod tile;
