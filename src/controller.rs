//! Request shapes and helpers of the read endpoints.
pub mod data_controller;
pub mod map_visualization_controller;
pub mod state_controller;
