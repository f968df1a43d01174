//! Lockfile parsers: each turns a lockfile's text into a dependency graph.
pub mod yarn;
pub mod bun;
pub mod npm;
pub mod pnpm;
