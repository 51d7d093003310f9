//! Integer and text logic of the nanoplan motion-planning application:
//! compute budgets, the planner catalog, lattice node indexing, the racetrack
//! catalog and its packed download cache.

pub mod candidate_counts;
pub mod compute_budget;
pub mod engine;
pub mod lattice;
pub mod planners;
pub mod search_tree;
pub mod text;
pub mod track_cache;
pub mod tracks;
pub mod warm_start;

