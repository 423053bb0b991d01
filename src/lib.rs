//! A local, eventually-consistent mirror of an issue tracker: the supervised
//! live event feed, the snapshot store, and the dependency graph built from it.

pub mod json;
pub mod text;
pub mod types;
pub mod store;
pub mod clock;
pub mod cache;
pub mod dag;
pub mod error;
pub mod activity;
pub mod daemon;
pub mod workspace;
pub mod health;
pub mod events;
pub mod client;
pub mod decimal;
pub mod snapshot;
