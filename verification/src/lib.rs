//! Retrieval-augmented question answering over a private document collection:
//! chunking, ranking, ingestion scheduling and context assembly, with every
//! rule stated as a contract and proved.

pub mod app_state;
pub mod commands;
pub mod db;
pub mod rag;
pub mod text;
pub mod trusted;
