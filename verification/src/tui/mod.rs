//! The interactive terminal interface: its state and the decisions it
//! makes on each key press. Drawing and running the scans are the caller's.
pub mod app;
pub mod events;
pub mod results;
pub mod tree_items;
pub mod tree_state;
