//! What the interface keeps of the game's progress.

pub mod level;
