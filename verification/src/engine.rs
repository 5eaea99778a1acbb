//! Rendering: textures, the camera and the raycaster.

pub mod billboard;
pub mod camera;
pub mod frame;
pub mod ray;
pub mod raycaster;
pub mod texture;

pub use camera::Camera;
pub use raycaster::Raycaster;
pub use texture::Texture;
