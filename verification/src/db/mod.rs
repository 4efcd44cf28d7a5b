//! The rows of the durable store.

pub mod models;
