//! The states that the application passes through.

use vstd::prelude::*;

verus! {

#[derive(Debug, Copy, Clone, Hash, Eq, PartialEq, Default, Structural)]
pub enum AppState {
    #[default]
    StartMenu,
    GameCreate,
    GameRunning,
    GamePaused,
    GameOver,
}

} // verus!
