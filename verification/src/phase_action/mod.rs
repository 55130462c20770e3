//! Actions that unfold over several ticks: tackles, dribbles, passes, shots
//! and set pieces, each as a sequence of phases.
pub mod action_types;
pub mod ball_physics;
pub mod dribble;
pub mod dribble_phase;
pub mod duration;
pub mod pass;
pub mod set_piece;
pub mod shot;
pub mod tackle;
