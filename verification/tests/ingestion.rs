use rag_core::app_state::AppState;
use rag_core::commands::document::{
    IngestAction, IngestEvent, IngestFailure, Ingestion, UploadDocumentRequest,
    UploadDocumentResponse, BATCH_SIZE, MAX_IN_FLIGHT,
};
use rag_core::db::models::{Chunk, Document};
use rag_core::rag::embedding::{EmbeddingOutput, EmbeddingReply, EmbeddingRequest};
use rag_core::rag::vector_store::{Metadata, VectorDocument, VectorStore};
use rag_core::rag::{ConfigError, RagError};

fn configured(chunk_size: usize, chunk_overlap: usize) -> AppState {
    let mut state = AppState::new();
    state.rag_config.chunk_size = chunk_size;
    state.rag_config.chunk_overlap = chunk_overlap;
    state.init_rag_services("sk-test".to_string());
    state
}

fn upload(name: &str, content: &str) -> UploadDocumentRequest {
    UploadDocumentRequest {
        name: name.to_string(),
        content: content.to_string(),
        file_type: Some("txt".to_string()),
    }
}

fn vector_for(text: &str) -> Vec<u32> {
    vec![text.chars().count() as u32, text.len() as u32 + 1]
}

fn good_reply(request: &EmbeddingRequest) -> EmbeddingReply {
    EmbeddingReply::Answered {
        status: 200,
        body: String::new(),
        decoded: Some(EmbeddingOutput {
            embeddings: Some(request.texts.iter().map(|t| Some(vector_for(t))).collect()),
        }),
    }
}

struct Run {
    last: IngestAction,
    trace: Vec<String>,
    requests: Vec<EmbeddingRequest>,
    persisted: Option<(Document, Vec<Chunk>)>,
    most_in_flight: usize,
}

fn drive(
    begun: (Ingestion, IngestAction),
    store: &mut VectorStore,
    reply: &dyn Fn(usize, &EmbeddingRequest) -> EmbeddingReply,
    written: Result<(), String>,
) -> Run {
    let (mut ingestion, mut action) = begun;
    let mut run = Run {
        last: IngestAction::Await { batch: usize::MAX },
        trace: Vec::new(),
        requests: Vec::new(),
        persisted: None,
        most_in_flight: 0,
    };
    let mut completed = 0;
    for _ in 0..10_000 {
        let event = match action {
            IngestAction::Submit { batch, request } => {
                assert_eq!(batch, run.requests.len());
                run.trace.push(format!("S{}", batch));
                run.requests.push(request);
                run.most_in_flight = run.most_in_flight.max(run.requests.len() - completed);
                IngestEvent::Submitted
            }
            IngestAction::Await { batch } => {
                assert_eq!(batch, completed);
                assert!(batch < run.requests.len());
                run.trace.push(format!("A{}", batch));
                completed += 1;
                IngestEvent::Replied(reply(batch, &run.requests[batch]))
            }
            IngestAction::Persist { document, chunks } => {
                run.trace.push("P".to_string());
                run.persisted = Some((document, chunks));
                IngestEvent::Written(written.clone())
            }
            done_or_failed => {
                run.last = done_or_failed;
                return run;
            }
        };
        let next = ingestion.step(store, event);
        ingestion = next.0;
        action = next.1;
    }
    panic!("the ingestion did not end");
}

#[test]
fn ingestion_is_refused_before_a_key_is_set() {
    let state = AppState::new();
    assert_eq!(
        Ingestion::begin(&state, upload("a.txt", "text")).err(),
        Some(RagError::NotConfigured)
    );
    let response = UploadDocumentResponse::not_configured();
    assert!(!response.success);
    assert_eq!(response.message, "请先配置 API Key");
    assert_eq!(response.document_id, None);
}

#[test]
fn ingestion_is_refused_with_an_invalid_chunking() {
    let state = configured(10, 10);
    assert_eq!(
        Ingestion::begin(&state, upload("a.txt", "text")).err(),
        Some(RagError::Config(ConfigError::OverlapNotBelowChunkSize))
    );
}

#[test]
fn three_paragraphs_become_three_rows_and_records() {
    let state = configured(800, 80);
    let mut store = VectorStore::new();
    let begun =
        Ingestion::begin_with(&state, upload("三段.txt", "第一段。\n\n第二段。\n\n第三段。"), "doc-1".to_string(), 42)
            .unwrap();
    let run = drive(begun, &mut store, &|_, request| good_reply(request), Ok(()));

    assert_eq!(run.trace, vec!["S0", "A0", "P"]);
    assert_eq!(run.requests.len(), 1);
    assert_eq!(run.requests[0].model, "text-embedding-v2");
    assert_eq!(run.requests[0].texts, vec!["第一段。", "第二段。", "第三段。"]);

    let (document, chunks) = run.persisted.unwrap();
    assert_eq!(
        document,
        Document {
            id: "doc-1".to_string(),
            name: "三段.txt".to_string(),
            content: "第一段。\n\n第二段。\n\n第三段。".to_string(),
            file_type: Some("txt".to_string()),
            file_size: Some("第一段。\n\n第二段。\n\n第三段。".len() as i64),
            created_at: 42,
            updated_at: 42,
        }
    );
    assert_eq!(chunks.len(), 3);
    assert_eq!(store.len(), 3);
    let texts = ["第一段。", "第二段。", "第三段。"];
    for (i, chunk) in chunks.iter().enumerate() {
        assert_eq!(chunk.id.len(), 36);
        assert_eq!(
            chunk,
            &Chunk {
                id: chunk.id.clone(),
                document_id: "doc-1".to_string(),
                content: texts[i].to_string(),
                chunk_index: i as i64,
                created_at: 42,
            }
        );
        assert_eq!(
            store.documents()[i],
            VectorDocument {
                id: chunk.id.clone(),
                content: texts[i].to_string(),
                embedding: vector_for(texts[i]),
                metadata: Metadata::new()
                    .with_text("document_id", "doc-1")
                    .with_number("chunk_index", i as u64)
                    .with_text("document_name", "三段.txt"),
            }
        );
    }
    assert_ne!(chunks[0].id, chunks[1].id);
    assert_ne!(chunks[1].id, chunks[2].id);

    match run.last {
        IngestAction::Done(receipt) => {
            assert_eq!(receipt.document_id, "doc-1");
            assert_eq!(receipt.chunk_count, 3);
            let response = UploadDocumentResponse::uploaded(receipt);
            assert!(response.success);
            assert_eq!(response.message, "文档上传成功，共分为 3 个块");
            assert_eq!(response.document_id, Some("doc-1".to_string()));
        }
        other => panic!("unexpected end: {:?}", other),
    }
}

#[test]
fn a_failing_embedding_backend_leaves_the_index_empty() {
    let state = configured(800, 80);
    let mut store = VectorStore::new();
    let begun = Ingestion::begin(&state, upload("a.txt", "one\n\ntwo\n\nthree")).unwrap();
    let run = drive(
        begun,
        &mut store,
        &|_, _| EmbeddingReply::Unreachable("no route to host".to_string()),
        Ok(()),
    );
    assert_eq!(store.len(), 0);
    assert_eq!(run.persisted, None);
    assert_eq!(
        run.last,
        IngestAction::Fail(IngestFailure {
            batch: Some(0),
            error: RagError::Transport("no route to host".to_string()),
        })
    );
}

#[test]
fn a_failing_batch_leaves_an_index_with_records_as_it_was() {
    let state = configured(4, 1);
    let mut store = VectorStore::new();
    store.add_document(VectorDocument {
        id: "old".to_string(),
        content: "kept".to_string(),
        embedding: vec![1, 2],
        metadata: Metadata::new(),
    });
    let text: String = "abcdefghij".repeat(30);
    let begun = Ingestion::begin(&state, upload("a.txt", &text)).unwrap();
    let run = drive(
        begun,
        &mut store,
        &|batch, request| {
            if batch == 2 {
                EmbeddingReply::Answered { status: 503, body: "busy".to_string(), decoded: None }
            } else {
                good_reply(request)
            }
        },
        Ok(()),
    );
    assert_eq!(
        run.last,
        IngestAction::Fail(IngestFailure {
            batch: Some(2),
            error: RagError::Api { status: 503, body: "busy".to_string() },
        })
    );
    assert_eq!(run.persisted, None);
    assert_eq!(store.len(), 1);
    assert_eq!(store.documents()[0].id, "old");
}

#[test]
fn a_reply_with_too_few_vectors_fails_the_ingestion() {
    let state = configured(800, 80);
    let mut store = VectorStore::new();
    let begun = Ingestion::begin(&state, upload("a.txt", "one\n\ntwo\n\nthree")).unwrap();
    let run = drive(
        begun,
        &mut store,
        &|_, _| EmbeddingReply::Answered {
            status: 200,
            body: String::new(),
            decoded: Some(EmbeddingOutput { embeddings: Some(vec![Some(vec![1]), Some(vec![2])]) }),
        },
        Ok(()),
    );
    assert_eq!(
        run.last,
        IngestAction::Fail(IngestFailure { batch: Some(0), error: RagError::EmptyResult })
    );
    assert!(store.is_empty());
}

#[test]
fn a_failed_write_leaves_the_index_as_it_was() {
    let state = configured(800, 80);
    let mut store = VectorStore::new();
    let begun = Ingestion::begin(&state, upload("a.txt", "one\n\ntwo")).unwrap();
    let run = drive(
        begun,
        &mut store,
        &|_, request| good_reply(request),
        Err("disk full".to_string()),
    );
    assert!(run.persisted.is_some());
    assert_eq!(
        run.last,
        IngestAction::Fail(IngestFailure {
            batch: None,
            error: RagError::Storage("disk full".to_string()),
        })
    );
    assert!(store.is_empty());
}

#[test]
fn batches_hold_twenty_five_texts_and_ten_are_in_flight_at_most() {
    assert_eq!(BATCH_SIZE, 25);
    assert_eq!(MAX_IN_FLIGHT, 10);
    let state = configured(2, 0);
    let mut store = VectorStore::new();
    let text: String = ('a'..='z').cycle().take(2 * (12 * 25 - 7)).collect();
    let begun = Ingestion::begin(&state, upload("long.txt", &text)).unwrap();
    let run = drive(begun, &mut store, &|_, request| good_reply(request), Ok(()));

    let expected: Vec<&str> = vec![
        "S0", "S1", "S2", "S3", "S4", "S5", "S6", "S7", "S8", "S9", "A0", "S10", "A1", "S11",
        "A2", "A3", "A4", "A5", "A6", "A7", "A8", "A9", "A10", "A11", "P",
    ];
    assert_eq!(run.trace, expected);
    assert_eq!(run.most_in_flight, 10);
    assert_eq!(run.requests.len(), 12);
    for (batch, request) in run.requests.iter().enumerate() {
        let size = if batch < 11 { 25 } else { 18 };
        assert_eq!(request.texts.len(), size);
    }
    let chars: Vec<char> = text.chars().collect();
    let all: Vec<String> = run.requests.iter().flat_map(|r| r.texts.clone()).collect();
    assert_eq!(all.len(), 293);
    for (i, chunk) in all.iter().enumerate() {
        let want: String = chars[2 * i..2 * i + 2].iter().collect();
        assert_eq!(chunk, &want);
    }
    assert_eq!(store.len(), 293);
    for (i, record) in store.documents().iter().enumerate() {
        assert_eq!(record.content, all[i]);
        assert_eq!(record.embedding, vector_for(&all[i]));
    }
    let (_, chunks) = run.persisted.unwrap();
    assert_eq!(chunks.len(), 293);
    assert_eq!(chunks[292].chunk_index, 292);
    match run.last {
        IngestAction::Done(receipt) => {
            assert_eq!(receipt.chunk_count, 293);
            assert_eq!(
                UploadDocumentResponse::uploaded(receipt).message,
                "文档上传成功，共分为 293 个块"
            );
        }
        other => panic!("unexpected end: {:?}", other),
    }
}

#[test]
fn exactly_one_full_batch_is_one_call() {
    let state = configured(1, 0);
    let mut store = VectorStore::new();
    let text = "x".repeat(25);
    let begun = Ingestion::begin(&state, upload("a.txt", &text)).unwrap();
    let run = drive(begun, &mut store, &|_, request| good_reply(request), Ok(()));
    assert_eq!(run.trace, vec!["S0", "A0", "P"]);
    assert_eq!(run.requests[0].texts.len(), 25);
    assert_eq!(store.len(), 25);
}

#[test]
fn a_document_without_text_has_no_chunks() {
    let state = configured(800, 80);
    let mut store = VectorStore::new();
    let begun = Ingestion::begin(&state, upload("empty.txt", " \n\n ")).unwrap();
    let run = drive(begun, &mut store, &|_, request| good_reply(request), Ok(()));
    assert_eq!(run.trace, vec!["P"]);
    let (document, chunks) = run.persisted.unwrap();
    assert_eq!(document.name, "empty.txt");
    assert_eq!(document.id.len(), 36);
    assert!(document.created_at > 1_600_000_000);
    assert_eq!(document.created_at, document.updated_at);
    assert!(chunks.is_empty());
    assert!(store.is_empty());
    match run.last {
        IngestAction::Done(receipt) => {
            assert_eq!(receipt.chunk_count, 0);
            assert_eq!(
                UploadDocumentResponse::uploaded(receipt).message,
                "文档上传成功，共分为 0 个块"
            );
        }
        other => panic!("unexpected end: {:?}", other),
    }
}

#[test]
fn an_event_that_is_not_waited_for_changes_nothing() {
    let state = configured(800, 80);
    let mut store = VectorStore::new();
    let (ingestion, action) = Ingestion::begin(&state, upload("a.txt", "one\n\ntwo")).unwrap();
    assert!(matches!(action, IngestAction::Submit { batch: 0, .. }));
    let (ingestion, action) = ingestion.step(&mut store, IngestEvent::Written(Ok(())));
    assert!(matches!(action, IngestAction::Submit { batch: 0, .. }));
    let reply = EmbeddingReply::Unreachable("early".to_string());
    let (ingestion, action) = ingestion.step(&mut store, IngestEvent::Replied(reply));
    assert!(matches!(action, IngestAction::Submit { batch: 0, .. }));
    let (ingestion, action) = ingestion.step(&mut store, IngestEvent::Submitted);
    assert_eq!(action, IngestAction::Await { batch: 0 });
    let (ingestion, action) = ingestion.step(&mut store, IngestEvent::Submitted);
    assert_eq!(action, IngestAction::Await { batch: 0 });
    let failed = EmbeddingReply::Unreachable("down".to_string());
    let (ingestion, action) = ingestion.step(&mut store, IngestEvent::Replied(failed));
    let failure = IngestFailure { batch: Some(0), error: RagError::Transport("down".to_string()) };
    assert_eq!(action, IngestAction::Fail(failure.clone()));
    let (_, action) = ingestion.step(&mut store, IngestEvent::Written(Ok(())));
    assert_eq!(action, IngestAction::Fail(failure));
    assert!(store.is_empty());
}
