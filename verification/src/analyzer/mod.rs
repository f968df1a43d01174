//! Analyses over the dependency graph: duplicates, licenses, sizes.
pub mod duplicates;
pub mod license;
pub mod size;
