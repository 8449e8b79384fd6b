//! A small task tracker: a store of tasks keyed by id, the dispatch of
//! pending tasks to a worker channel, and the command layer over both.

pub mod cli;
mod clock;
pub mod config;
pub mod database;
pub mod laws;
pub mod models;
pub mod processor;
pub mod text;
pub mod utils;
