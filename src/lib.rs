//! Composer, history, gesture timing and message viewport of a terminal chat client.
pub mod buffer;
pub mod history;
pub mod gesture;
pub mod viewport;
pub mod message;
pub mod session;
pub mod network;
