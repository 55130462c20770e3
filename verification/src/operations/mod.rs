//! Queries on the match state for one player's tick: the ball, the other
//! players, the team, and a coarse grid of where players stand.
pub mod ball_ops;
pub mod distance_matrix;
pub mod players_ops;
pub mod space_analysis;
pub mod team_ops;
