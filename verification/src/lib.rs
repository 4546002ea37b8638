//! A tower-defence arena: an occupancy grid over square cells, shortest routes
//! across it, tower placement that never seals the route between the two
//! fixed endpoints, and the bookkeeping of the units that walk it.

pub mod arena;
pub mod collision;
pub mod graph;
pub mod mob;
pub mod player;
pub mod state;
pub mod towers;
pub mod ui;
pub mod weapon;
pub mod weapons;
