//! An in-memory to-do list ordered by priority, and the rules of a small
//! configuration manager.

pub mod config;
pub mod display;
pub mod listing;
pub mod manager;
pub mod order;
pub mod sample;
pub mod store;
pub mod task;

pub use sample::try_main;
pub use store::App;
pub use task::Task;
