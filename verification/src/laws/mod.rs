//! What holds of the server as a whole.
pub mod commands;
pub mod connection;
pub mod messages;
pub mod queues;
pub mod readiness;
pub mod rounds;
pub mod services;
pub mod sessions;
pub mod system;
pub mod views;
