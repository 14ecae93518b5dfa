//! The data that the LOVE manager publishes about a script queue.
pub mod love_payload;
