pub mod camera;
pub mod context;
pub mod hit;
pub mod material;
pub mod math;
pub mod pointlight;
pub mod scalar;
pub mod scene_laws;
pub mod sphere;
pub mod tile;
pub mod tracer;
pub mod triangle;
pub mod vector;
