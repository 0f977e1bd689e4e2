//! From tiles to draw commands: chunks, their meshes, bind groups, drawing.

pub mod binding;
pub mod chunk;
pub mod draw;
pub mod extract;
pub mod layout;
pub mod mesh;
pub mod prepare;
pub mod queue;
pub mod storage;
