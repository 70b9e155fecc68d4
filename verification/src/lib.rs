//! The verified core of a matchmaking server: players queue for a pool, groups of waiting players
//! become matches, and a match starts once its players are ready.
pub mod handlers;
pub mod laws;
pub mod match_making;
pub mod model;
pub mod services;
pub mod types;
