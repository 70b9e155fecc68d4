//! What the server says to one client, and what it makes of what the client says.
pub mod message;
pub mod queue;
