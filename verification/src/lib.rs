//! Verified core of a terminal dashboard for an observatory script queue.
pub mod app;
pub mod laws;
pub mod layout;
pub mod queue_data;
pub mod text;
