//! What each route of the simulator answers, short of the HTTP plumbing.

pub mod chat;
pub mod health;
pub mod models;
