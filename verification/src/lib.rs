//! Decision logic of a football match engine: positioning grids, space
//! analysis, team and player queries, and the phase machines of actions.
pub mod attributes;
pub mod geometry;
pub mod offball;
pub mod offball_resolver;
pub mod offball_scheduler;
pub mod operations;
pub mod opponent_analysis;
pub mod pep_grid;
pub mod phase_action;
pub mod plan_window;
pub mod player_decision;
pub mod text;
