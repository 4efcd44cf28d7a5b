use rag_core::app_state::AppState;
use rag_core::commands::chat::{
    build_context, collect_sources, conversation_title, exchange_with, sources_json, AskAction,
    AskEvent, AskQuestionRequest, AskQuestionResponse, AskSession, Exchange,
};
use rag_core::db::models::{Conversation, Message};
use rag_core::rag::embedding::{EmbeddingOutput, EmbeddingReply};
use rag_core::rag::llm::{rag_messages, GenerationOutput, GenerationReply};
use rag_core::rag::vector_store::{Metadata, SearchResult, VectorDocument, VectorStore};
use rag_core::rag::RagError;

fn hit(content: &str, name: Option<&str>) -> SearchResult {
    SearchResult { document: record(content, name), similarity: 0 }
}

fn record(content: &str, name: Option<&str>) -> VectorDocument {
    let metadata = match name {
        Some(name) => Metadata::new().with_text("document_id", "d").with_text("document_name", name),
        None => Metadata::new().with_text("document_id", "d"),
    };
    VectorDocument {
        id: format!("id-{}", content),
        content: content.to_string(),
        embedding: vec![1],
        metadata,
    }
}

fn configured() -> AppState {
    let mut state = AppState::new();
    state.init_rag_services("sk-test".to_string());
    state.vector_store.add_documents(vec![
        record("alpha", Some("a.txt")),
        record("beta", None),
        record("gamma", Some("c.txt")),
        record("delta", Some("a.txt")),
    ]);
    state
}

fn ask(question: &str, conversation_id: Option<&str>) -> AskQuestionRequest {
    AskQuestionRequest {
        question: question.to_string(),
        conversation_id: conversation_id.map(|id| id.to_string()),
    }
}

fn vector_reply(vector: Vec<u32>) -> EmbeddingReply {
    EmbeddingReply::Answered {
        status: 200,
        body: String::new(),
        decoded: Some(EmbeddingOutput { embeddings: Some(vec![Some(vector)]) }),
    }
}

fn text_reply(text: &str) -> GenerationReply {
    GenerationReply::Answered {
        status: 200,
        body: String::new(),
        decoded: Some(GenerationOutput { text: Some(text.to_string()), choices: None }),
    }
}

#[test]
fn title_keeps_twenty_characters() {
    assert_eq!(conversation_title("short question"), "short question");
    assert_eq!(conversation_title("12345678901234567890"), "12345678901234567890");
    assert_eq!(conversation_title("123456789012345678901"), "12345678901234567890...");
    assert_eq!(
        conversation_title("这是一个非常非常非常非常非常非常非常非常长的问题"),
        "这是一个非常非常非常非常非常非常非常非常..."
    );
    assert_eq!(conversation_title(""), "");
}

#[test]
fn context_joins_contents_with_blank_lines() {
    assert_eq!(build_context(&vec![]), "");
    assert_eq!(build_context(&vec![hit("one", None)]), "one");
    assert_eq!(
        build_context(&vec![hit("one", None), hit("two", Some("n")), hit("", None), hit("four", None)]),
        "one\n\ntwo\n\n\n\nfour"
    );
}

#[test]
fn sources_keep_hit_order_and_skip_hits_without_a_name() {
    assert_eq!(collect_sources(&vec![]), Vec::<String>::new());
    assert_eq!(
        collect_sources(&vec![
            hit("1", Some("b.txt")),
            hit("2", None),
            hit("3", Some("a.txt")),
            hit("4", Some("b.txt")),
        ]),
        vec!["b.txt", "a.txt", "b.txt"]
    );
    let number_named = SearchResult {
        document: VectorDocument {
            id: "x".to_string(),
            content: "c".to_string(),
            embedding: vec![],
            metadata: Metadata::new().with_number("document_name", 3),
        },
        similarity: 1,
    };
    assert_eq!(collect_sources(&vec![number_named]), Vec::<String>::new());
}

#[test]
fn sources_are_written_as_a_json_list() {
    assert_eq!(sources_json(&vec![]), Some("[]".to_string()));
    assert_eq!(
        sources_json(&vec!["a.txt".to_string(), "说明 \"二\".md".to_string()]),
        Some("[\"a.txt\",\"说明 \\\"二\\\".md\"]".to_string())
    );
}

#[test]
fn exchange_holds_both_messages_at_one_time() {
    let exchange = exchange_with(
        "What is the longest river in the world?",
        "The Nile.",
        Some("[\"rivers.txt\"]".to_string()),
        "conv".to_string(),
        "m1".to_string(),
        "m2".to_string(),
        99,
    );
    assert_eq!(
        exchange,
        Exchange {
            conversation: Conversation {
                id: "conv".to_string(),
                title: "What is the longest ...".to_string(),
                created_at: 99,
                updated_at: 99,
            },
            user_message: Message {
                id: "m1".to_string(),
                conversation_id: "conv".to_string(),
                role: "user".to_string(),
                content: "What is the longest river in the world?".to_string(),
                sources: None,
                created_at: 99,
            },
            assistant_message: Message {
                id: "m2".to_string(),
                conversation_id: "conv".to_string(),
                role: "assistant".to_string(),
                content: "The Nile.".to_string(),
                sources: Some("[\"rivers.txt\"]".to_string()),
                created_at: 99,
            },
        }
    );
}

#[test]
fn asking_is_refused_before_a_key_is_set() {
    let state = AppState::new();
    assert_eq!(AskSession::begin(&state, ask("q", None)).err(), Some(RagError::NotConfigured));
    let mut half = AppState::new();
    half.init_rag_services("k".to_string());
    half.embedding_service = None;
    assert_eq!(AskSession::begin(&half, ask("q", None)).err(), Some(RagError::NotConfigured));
}

#[test]
fn a_question_runs_through_to_its_answer() {
    let mut state = configured();
    state.rag_config.top_k = 3;
    let (session, action) = AskSession::begin(&state, ask("which?", Some("conv-7"))).unwrap();
    match action {
        AskAction::Embed(request) => {
            assert_eq!(request.model, "text-embedding-v2");
            assert_eq!(request.texts, vec!["which?".to_string()]);
        }
        other => panic!("unexpected action: {:?}", other),
    }

    let (session, action) =
        session.step(&state.vector_store, AskEvent::Embedded(vector_reply(vec![7, 8, 9])));
    assert_eq!(action, AskAction::Score { query: vec![7, 8, 9] });

    let (session, action) =
        session.step(&state.vector_store, AskEvent::Scored(vec![10, 40, 30, 40]));
    match action {
        AskAction::Generate(request) => {
            assert_eq!(request.model, "qwen-turbo");
            assert_eq!(request.messages, rag_messages("which?", "beta\n\ndelta\n\ngamma"));
        }
        other => panic!("unexpected action: {:?}", other),
    }

    let (session, action) =
        session.step(&state.vector_store, AskEvent::Generated(text_reply("this one")));
    let exchange = match action {
        AskAction::Persist(exchange) => exchange,
        other => panic!("unexpected action: {:?}", other),
    };
    let now = exchange.conversation.created_at;
    assert!(now > 1_600_000_000);
    assert_eq!(exchange.user_message.id.len(), 36);
    assert_eq!(exchange.assistant_message.id.len(), 36);
    assert_ne!(exchange.user_message.id, exchange.assistant_message.id);
    assert_eq!(
        exchange,
        Exchange {
            conversation: Conversation {
                id: "conv-7".to_string(),
                title: "which?".to_string(),
                created_at: now,
                updated_at: now,
            },
            user_message: Message {
                id: exchange.user_message.id.clone(),
                conversation_id: "conv-7".to_string(),
                role: "user".to_string(),
                content: "which?".to_string(),
                sources: None,
                created_at: now,
            },
            assistant_message: Message {
                id: exchange.assistant_message.id.clone(),
                conversation_id: "conv-7".to_string(),
                role: "assistant".to_string(),
                content: "this one".to_string(),
                sources: Some("[\"a.txt\",\"c.txt\"]".to_string()),
                created_at: now,
            },
        }
    );

    let (session, action) = session.step(&state.vector_store, AskEvent::Stored(Ok(())));
    let response = AskQuestionResponse {
        success: true,
        answer: "this one".to_string(),
        sources: vec!["a.txt".to_string(), "c.txt".to_string()],
        conversation_id: "conv-7".to_string(),
    };
    assert_eq!(action, AskAction::Done(response));
    let (_, action) = session.step(&state.vector_store, AskEvent::Stored(Ok(())));
    assert!(matches!(action, AskAction::Done(_)));
    assert_eq!(state.vector_store.len(), 4);
}

#[test]
fn a_question_without_a_conversation_opens_one() {
    let state = configured();
    let (session, _) = AskSession::begin(&state, ask("new?", None)).unwrap();
    let (session, _) = session.step(&state.vector_store, AskEvent::Embedded(vector_reply(vec![1])));
    let (session, _) = session.step(&state.vector_store, AskEvent::Scored(vec![]));
    let (_, action) = session.step(&state.vector_store, AskEvent::Generated(text_reply("a")));
    match action {
        AskAction::Persist(exchange) => {
            assert_eq!(exchange.conversation.id.len(), 36);
            assert_eq!(exchange.user_message.conversation_id, exchange.conversation.id);
            assert_eq!(exchange.assistant_message.conversation_id, exchange.conversation.id);
            assert_ne!(exchange.conversation.id, exchange.user_message.id);
        }
        other => panic!("unexpected action: {:?}", other),
    }
}

#[test]
fn an_empty_index_gives_an_empty_context() {
    let mut state = AppState::new();
    state.init_rag_services("k".to_string());
    let (session, _) = AskSession::begin(&state, ask("q", None)).unwrap();
    let (session, _) = session.step(&state.vector_store, AskEvent::Embedded(vector_reply(vec![1])));
    let (session, action) = session.step(&state.vector_store, AskEvent::Scored(vec![]));
    match action {
        AskAction::Generate(request) => {
            assert_eq!(request.messages, rag_messages("q", ""));
        }
        other => panic!("unexpected action: {:?}", other),
    }
    let (session, _) = session.step(&state.vector_store, AskEvent::Generated(text_reply("a")));
    let (_, action) = session.step(&state.vector_store, AskEvent::Stored(Ok(())));
    match action {
        AskAction::Done(response) => {
            assert!(response.success);
            assert!(response.sources.is_empty());
        }
        other => panic!("unexpected action: {:?}", other),
    }
}

#[test]
fn a_failed_embedding_ends_the_session() {
    let state = configured();
    let (session, _) = AskSession::begin(&state, ask("q", None)).unwrap();
    let reply = EmbeddingReply::Answered {
        status: 200,
        body: String::new(),
        decoded: Some(EmbeddingOutput { embeddings: Some(vec![]) }),
    };
    let (session, action) = session.step(&state.vector_store, AskEvent::Embedded(reply));
    assert_eq!(action, AskAction::Fail(RagError::EmptyResult));
    let (_, action) = session.step(&state.vector_store, AskEvent::Scored(vec![1, 2, 3, 4]));
    assert_eq!(action, AskAction::Fail(RagError::EmptyResult));
}

#[test]
fn a_failed_generation_ends_the_session() {
    let state = configured();
    let (session, _) = AskSession::begin(&state, ask("q", None)).unwrap();
    let (session, _) = session.step(&state.vector_store, AskEvent::Embedded(vector_reply(vec![1])));
    let (session, _) = session.step(&state.vector_store, AskEvent::Scored(vec![1, 2, 3, 4]));
    let reply = GenerationReply::Answered {
        status: 200,
        body: String::new(),
        decoded: Some(GenerationOutput { text: None, choices: None }),
    };
    let (_, action) = session.step(&state.vector_store, AskEvent::Generated(reply));
    assert_eq!(action, AskAction::Fail(RagError::EmptyAnswer));
}

#[test]
fn a_failed_write_ends_the_session() {
    let state = configured();
    let (session, _) = AskSession::begin(&state, ask("q", None)).unwrap();
    let (session, _) = session.step(&state.vector_store, AskEvent::Embedded(vector_reply(vec![1])));
    let (session, _) = session.step(&state.vector_store, AskEvent::Scored(vec![1, 2, 3, 4]));
    let (session, _) = session.step(&state.vector_store, AskEvent::Generated(text_reply("a")));
    let (_, action) =
        session.step(&state.vector_store, AskEvent::Stored(Err("locked".to_string())));
    assert_eq!(action, AskAction::Fail(RagError::Storage("locked".to_string())));
}

#[test]
fn an_event_out_of_turn_changes_nothing() {
    let state = configured();
    let (session, _) = AskSession::begin(&state, ask("q", None)).unwrap();
    let (session, action) = session.step(&state.vector_store, AskEvent::Scored(vec![1]));
    assert!(matches!(action, AskAction::Embed(_)));
    let (session, action) = session.step(&state.vector_store, AskEvent::Stored(Ok(())));
    assert!(matches!(action, AskAction::Embed(_)));
    let (_, action) = session.step(&state.vector_store, AskEvent::Generated(text_reply("a")));
    assert!(matches!(action, AskAction::Embed(_)));
}
