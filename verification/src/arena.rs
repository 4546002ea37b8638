//! The arena: its grid of cells and the routes across it.

pub mod grid;
pub mod occupancy;
pub mod path_finding;
pub mod routes;
