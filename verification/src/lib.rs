//! Version handling and the decision logic of the Mineplace3D launcher.

pub mod text;
pub mod version;
pub mod order;
pub mod json;
pub mod launcher;
pub mod platform;
pub mod download;
