//! Textures on the CPU side: mip chains, block compression, the shared cache, and the choice of
//! what is handed to the GPU.
pub mod bc4;
pub mod cache;
pub mod chain;
pub mod laws;
pub mod prepare;
