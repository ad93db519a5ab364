//! Aksum: planning and text logic of an opinionated Axum project scaffolder.

pub mod cli;
pub mod engine;
pub mod generator;
pub mod naming;
pub mod paths;
pub mod text;

