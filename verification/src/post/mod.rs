//! The passes behind the main one: when each runs, and the data that it is given.
pub mod blocks;
pub mod grade;
pub mod laws;
pub mod passes;
pub mod taa;
