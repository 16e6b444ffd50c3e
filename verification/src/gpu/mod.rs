//! What is packed for the GPU and when it is drawn.
pub mod blob;
pub mod blob_laws;
pub mod draw;
pub mod frame_laws;
pub mod geometry_laws;
pub mod grass;
pub mod indices;
pub mod light_laws;
pub mod lights;
pub mod load;
pub mod material_laws;
pub mod materials;
pub mod meshes;
pub mod paths;
pub mod sh_volume;
pub mod terrain;
pub mod terrain_laws;
pub mod uniforms;
