//! A town-simulation engine: mobile agents navigate a fixed-size grid by
//! descending per-desire distance fields ("heatmaps") that are rebuilt or
//! repaired as the world changes.

pub mod constants;
pub mod dijkstra_map;
pub mod distance;
pub mod flee;
pub mod flood;
pub mod game;
pub mod grid;
pub mod laws;
pub mod mobiles;
pub mod progress;
pub mod repair;
pub mod statics;
pub mod templates;
pub mod types;
pub mod ui;
pub mod utils;
pub mod wavefront;
