//! What the pipelines share: the index, the two backends once a key is
//! set, and the configuration.

use crate::rag::embedding::EmbeddingService;
use crate::rag::llm::LLMService;
use crate::rag::vector_store::{DocumentModel, VectorStore};
use crate::rag::RAGConfig;
use vstd::prelude::*;
use vstd::string::*;

verus! {

/// The shared state. A backend that is `None` has not been configured.
#[derive(Debug, PartialEq, Eq)]
pub struct AppState {
    pub vector_store: VectorStore,
    pub embedding_service: Option<EmbeddingService>,
    pub llm_service: Option<LLMService>,
    pub rag_config: RAGConfig,
}

impl AppState {
    /// An empty index, no backend, the default configuration.
    pub fn new() -> (state: AppState)
        ensures
            state.vector_store@ == Seq::<DocumentModel>::empty(),
            state.embedding_service is None,
            state.llm_service is None,
            state.rag_config.qwen_api_key@ == Seq::<char>::empty(),
            state.rag_config.chunk_size == 800,
            state.rag_config.chunk_overlap == 80,
            state.rag_config.top_k == 3,
            state.rag_config.embedding_model@ == "text-embedding-v2"@,
            state.rag_config.llm_model@ == "qwen-turbo"@,
    {
        AppState {
            vector_store: VectorStore::new(),
            embedding_service: None,
            llm_service: None,
            rag_config: RAGConfig::default(),
        }
    }

    /// Sets up both backends with `api_key` and the configured models.
    pub fn init_rag_services(&mut self, api_key: String)
        ensures
            final(self).embedding_service matches Some(service) && service.key() == api_key@
                && service.model_name() == old(self).rag_config.embedding_model@,
            final(self).llm_service matches Some(service) && service.key() == api_key@
                && service.model_name() == old(self).rag_config.llm_model@,
            final(self).vector_store == old(self).vector_store,
            final(self).rag_config == old(self).rag_config,
    {
        let embedding_service = EmbeddingService::new(
            api_key.clone(),
            self.rag_config.embedding_model.clone(),
        );
        let llm_service = LLMService::new(api_key, self.rag_config.llm_model.clone());
        self.embedding_service = Some(embedding_service);
        self.llm_service = Some(llm_service);
    }

    /// Whether both backends are set up.
    pub fn is_rag_initialized(&self) -> (ready: bool)
        ensures
            ready == (self.embedding_service is Some && self.llm_service is Some),
    {
        self.embedding_service.is_some() && self.llm_service.is_some()
    }
}

} // verus!
