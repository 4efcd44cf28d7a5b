//! The operations behind the application's commands: what each decides,
//! between one piece of outside work and the next.

pub mod chat;
pub mod config;
pub mod document;
pub mod file;
