//! Points of interest: what is marked on a map, with which card, and when it shows.
pub mod assemble;
pub mod card;
pub mod card_laws;
pub mod catalog;
pub mod laws;
pub mod layer;
pub mod marker;
pub mod point_laws;
pub mod quests;
pub mod records;
pub mod typed;
pub mod wall_laws;
