pub mod pattern;
pub mod color;
pub mod geom;
pub mod render;
pub mod roundtrip;
