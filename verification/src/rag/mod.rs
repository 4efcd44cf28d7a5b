//! The retrieval pipeline's building blocks, its configuration and its
//! errors.

pub mod embedding;
pub mod llm;
pub mod ranking;
pub mod text_splitter;
pub mod vector_store;

use crate::rag::text_splitter::TextSplitter;
use vstd::prelude::*;
use vstd::string::*;

verus! {

/// Why a chunking configuration is refused.
#[derive(Debug, Clone, Copy, PartialEq, Eq, Structural)]
pub enum ConfigError {
    /// The overlap is not smaller than the chunk size, so a window would
    /// never advance.
    OverlapNotBelowChunkSize,
}

/// What can go wrong in a pipeline.
#[derive(Debug, PartialEq, Eq)]
pub enum RagError {
    /// No embedding or generation backend has been set up.
    NotConfigured,
    /// The request never got an answer; the reason as the transport gave it.
    Transport(String),
    /// The remote service answered with a status outside 200..=299.
    Api { status: u16, body: String },
    /// The answer does not have the expected shape.
    Format,
    /// A vector that was asked for is missing or has no component.
    EmptyResult,
    /// The answer holds no text in either accepted shape.
    EmptyAnswer,
    /// The durable store failed; the reason as it gave it.
    Storage(String),
    /// The chunking configuration is invalid.
    Config(ConfigError),
}

/// What an error is.
pub enum ErrorModel {
    NotConfigured,
    Transport(Seq<char>),
    Api { status: u16, body: Seq<char> },
    Format,
    EmptyResult,
    EmptyAnswer,
    Storage(Seq<char>),
    Config(ConfigError),
}

impl View for RagError {
    type V = ErrorModel;

    open spec fn view(&self) -> ErrorModel {
        match self {
            RagError::NotConfigured => ErrorModel::NotConfigured,
            RagError::Transport(reason) => ErrorModel::Transport(reason@),
            RagError::Api { status, body } => ErrorModel::Api { status: *status, body: body@ },
            RagError::Format => ErrorModel::Format,
            RagError::EmptyResult => ErrorModel::EmptyResult,
            RagError::EmptyAnswer => ErrorModel::EmptyAnswer,
            RagError::Storage(reason) => ErrorModel::Storage(reason@),
            RagError::Config(error) => ErrorModel::Config(*error),
        }
    }
}

impl Clone for RagError {
    fn clone(&self) -> (copy: RagError)
        ensures
            copy@ == self@,
    {
        match self {
            RagError::NotConfigured => RagError::NotConfigured,
            RagError::Transport(reason) => RagError::Transport(reason.clone()),
            RagError::Api { status, body } => RagError::Api { status: *status, body: body.clone() },
            RagError::Format => RagError::Format,
            RagError::EmptyResult => RagError::EmptyResult,
            RagError::EmptyAnswer => RagError::EmptyAnswer,
            RagError::Storage(reason) => RagError::Storage(reason.clone()),
            RagError::Config(error) => RagError::Config(*error),
        }
    }
}

/// Whether a status code reports success: 200 to 299.
pub open spec fn is_success(status: u16) -> bool {
    200 <= status < 300
}

/// What the pipelines are run with.
#[derive(Debug, PartialEq, Eq)]
pub struct RAGConfig {
    pub qwen_api_key: String,
    pub embedding_model: String,
    pub llm_model: String,
    pub chunk_size: usize,
    pub chunk_overlap: usize,
    pub top_k: usize,
}

impl Default for RAGConfig {
    /// No key, the stock models, chunks of 800 characters that overlap by
    /// 80, and three hits per question.
    fn default() -> (config: RAGConfig)
        ensures
            config.qwen_api_key@ == Seq::<char>::empty(),
            config.embedding_model@ == "text-embedding-v2"@,
            config.llm_model@ == "qwen-turbo"@,
            config.chunk_size == 800,
            config.chunk_overlap == 80,
            config.top_k == 3,
    {
        RAGConfig {
            qwen_api_key: String::new(),
            embedding_model: "text-embedding-v2".to_owned(),
            llm_model: "qwen-turbo".to_owned(),
            chunk_size: 800,
            chunk_overlap: 80,
            top_k: 3,
        }
    }
}

impl Clone for RAGConfig {
    fn clone(&self) -> (copy: RAGConfig)
        ensures
            copy.qwen_api_key@ == self.qwen_api_key@,
            copy.embedding_model@ == self.embedding_model@,
            copy.llm_model@ == self.llm_model@,
            copy.chunk_size == self.chunk_size,
            copy.chunk_overlap == self.chunk_overlap,
            copy.top_k == self.top_k,
    {
        RAGConfig {
            qwen_api_key: self.qwen_api_key.clone(),
            embedding_model: self.embedding_model.clone(),
            llm_model: self.llm_model.clone(),
            chunk_size: self.chunk_size,
            chunk_overlap: self.chunk_overlap,
            top_k: self.top_k,
        }
    }
}

impl RAGConfig {
    /// The splitter this configuration asks for; refused unless the overlap
    /// is below the chunk size.
    pub fn splitter(&self) -> (made: Result<TextSplitter, ConfigError>)
        ensures
            made is Ok <==> self.chunk_overlap < self.chunk_size,
            made matches Ok(splitter) ==> splitter.chunk_size() == self.chunk_size
                && splitter.chunk_overlap() == self.chunk_overlap,
            made matches Err(e) ==> e == ConfigError::OverlapNotBelowChunkSize,
    {
        TextSplitter::new(self.chunk_size, self.chunk_overlap)
    }
}

} // verus!
