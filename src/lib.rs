//! A fission puzzle simulation: neutrons collide with atoms, atoms split into
//! fans of secondary neutrons, and the released energy makes up the score.
//!
//! All lengths are integers in thousandths of a world unit, velocities in
//! thousandths of a world unit per second, and energy in picojoules, so that
//! every rule of the simulation is exact.

pub mod geometry;
pub mod split;
pub mod world;
pub mod level;
pub mod placement;

pub use geometry::{Collider, Vector2, is_colliding, is_cords_in_collider, clamp, clamp_vec2_by_length};
pub use split::{SplitError, calculate_split_trajectories};
pub use world::{World, Atom, Neutron, AtomEntry, NeutronEntry, CollisionEvent, ENERGY_RELEASED};
pub use level::{GameStats, LevelStats, Level, generate_atom_sphere, get_level, calculate_grade, setup_level};
pub use placement::{PlacementState, player_place_neutrons, player_remove_neutron, player_end_setup};
