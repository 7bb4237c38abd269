//! A simulated-annealing planner for discrete-time orbital trajectories.
//!
//! A craft moves on an integer grid under a central gravity field and must
//! stay inside a safe annular region for as many turns as possible while
//! respecting a heat budget that limits how often it may thrust.  The
//! library searches for a bounded-length sequence of discrete thrust
//! commands: the trajectory problem scores a candidate sequence by forward
//! simulation, and the annealing engine improves it by single-step edits
//! under a cooling temperature schedule.

pub mod anneal;
pub mod physics;
pub mod problem;
pub mod rng;

pub use anneal::{optimize, optimize_from, ScheduleConfig};
pub use physics::{clamp, get_gravity, is_safe, GravityField, Point, SafetyBoundary};
pub use problem::{CraftParams, PhysicsSnapshot, PlanMove, TrajectoryProblem};
pub use rng::RandomSource;
