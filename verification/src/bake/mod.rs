//! The baker of irradiance volumes: its settings, its probe grid, and the files it writes. Tracing
//! rays and adding up light is the business of the program around this library.
pub mod args;
pub mod file_laws;
pub mod grid;
pub mod half;
pub mod laws;
pub mod lights;
pub mod materials;
pub mod volume;
