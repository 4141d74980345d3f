//! A lane-based tower-defense simulation: attackers walk towards the defended end of
//! each lane, defenders fire projectiles the other way, and one call advances the
//! whole battlefield by one tick.
pub mod entity;
pub mod grid;
pub mod lane;
pub mod laws;
pub mod state;

pub use entity::{Entity, Field, Tick};
pub use grid::Grid;
pub use lane::Lane;
pub use state::{SpawnRates, State};
