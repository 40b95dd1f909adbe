//! Engine for a two-player territory-capture board game.
//!
//! Pieces either clone themselves to an adjacent cell or jump two cells
//! away; landing next to opposing pieces converts them to the mover's
//! colour. The grid, the move rules, the capture step and the running
//! score live in [`game`]; the cursor-driven turn controller, the command
//! surface and the application state live in [`control`].

pub mod control;
pub mod game;

pub use control::ApplicationState;
pub use control::Command;
pub use control::CommandManaged;
