//! Project configuration (`.lockpickrc.json` / `.lockpickrc.yaml`), and
//! how it combines with the command line.
pub mod merge;
pub mod types;
