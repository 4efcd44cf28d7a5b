use rag_core::rag::embedding::{
    embeddings_from_reply, EmbeddingOutput, EmbeddingReply, EmbeddingService,
};
use rag_core::rag::RagError;

fn answered(status: u16, body: &str, items: Option<Vec<Option<Vec<u32>>>>) -> EmbeddingReply {
    EmbeddingReply::Answered {
        status,
        body: body.to_string(),
        decoded: Some(EmbeddingOutput { embeddings: items }),
    }
}

fn bits(values: &[f32]) -> Vec<u32> {
    values.iter().map(|v| v.to_bits()).collect()
}

#[test]
fn embedding_service_keeps_key_and_model() {
    let service = EmbeddingService::new("sk-1".to_string(), "text-embedding-v2".to_string());
    assert_eq!(service.api_key(), "sk-1");
    assert_eq!(service.model(), "text-embedding-v2");
}

#[test]
fn embed_request_is_a_batch_of_one() {
    let service = EmbeddingService::new("k".to_string(), "m".to_string());
    let request = service.embed_request("你好世界");
    assert_eq!(request.model, "m");
    assert_eq!(request.texts, vec!["你好世界".to_string()]);
}

#[test]
fn embed_batch_request_carries_the_texts_in_order() {
    let service = EmbeddingService::new("k".to_string(), "m".to_string());
    let texts = vec!["a".to_string(), "b".to_string(), "c".to_string()];
    let request = service.embed_batch_request(&texts).unwrap();
    assert_eq!(request.model, "m");
    assert_eq!(request.texts, texts);
}

#[test]
fn embed_batch_request_of_nothing_asks_nothing() {
    let service = EmbeddingService::new("k".to_string(), "m".to_string());
    assert_eq!(service.embed_batch_request(&Vec::new()), None);
    let empty = answered(200, "", Some(vec![]));
    assert_eq!(embeddings_from_reply(empty, 0), Ok(Vec::new()));
}

#[test]
fn reply_yields_one_vector_per_text_in_order() {
    let reply = answered(
        200,
        "{}",
        Some(vec![Some(bits(&[0.5, 1.0])), Some(bits(&[2.0])), Some(bits(&[3.0, 4.0, 5.0]))]),
    );
    assert_eq!(
        embeddings_from_reply(reply, 3),
        Ok(vec![bits(&[0.5, 1.0]), bits(&[2.0]), bits(&[3.0, 4.0, 5.0])])
    );
}

#[test]
fn reply_with_more_vectors_than_texts_yields_the_first_ones() {
    let reply = answered(299, "", Some(vec![Some(vec![1]), Some(vec![2]), None, Some(vec![])]));
    assert_eq!(embeddings_from_reply(reply, 2), Ok(vec![vec![1], vec![2]]));
}

#[test]
fn transport_failure_is_reported_with_its_reason() {
    let reply = EmbeddingReply::Unreachable("connection refused".to_string());
    assert_eq!(
        embeddings_from_reply(reply, 1),
        Err(RagError::Transport("connection refused".to_string()))
    );
}

#[test]
fn status_outside_2xx_is_an_api_error() {
    for status in [199u16, 300, 401, 404, 500] {
        let reply = answered(status, "denied", Some(vec![Some(vec![1])]));
        assert_eq!(
            embeddings_from_reply(reply, 1),
            Err(RagError::Api { status, body: "denied".to_string() })
        );
    }
    let reply = answered(200, "", Some(vec![Some(vec![1])]));
    assert!(embeddings_from_reply(reply, 1).is_ok());
}

#[test]
fn unreadable_body_is_a_format_error() {
    let reply = EmbeddingReply::Answered { status: 200, body: "<html>".to_string(), decoded: None };
    assert_eq!(embeddings_from_reply(reply, 1), Err(RagError::Format));
    assert_eq!(embeddings_from_reply(answered(200, "{}", None), 1), Err(RagError::Format));
    let reply = answered(200, "", Some(vec![Some(vec![1]), None]));
    assert_eq!(embeddings_from_reply(reply, 2), Err(RagError::Format));
}

#[test]
fn missing_or_empty_vector_is_an_empty_result() {
    assert_eq!(
        embeddings_from_reply(answered(200, "", Some(vec![])), 1),
        Err(RagError::EmptyResult)
    );
    assert_eq!(
        embeddings_from_reply(answered(200, "", Some(vec![Some(vec![1])])), 2),
        Err(RagError::EmptyResult)
    );
    assert_eq!(
        embeddings_from_reply(answered(200, "", Some(vec![Some(vec![1]), Some(vec![])])), 2),
        Err(RagError::EmptyResult)
    );
}

#[test]
fn the_first_fault_decides() {
    let reply = answered(200, "", Some(vec![Some(vec![]), None]));
    assert_eq!(embeddings_from_reply(reply, 2), Err(RagError::EmptyResult));
    let reply = answered(200, "", Some(vec![None, Some(vec![])]));
    assert_eq!(embeddings_from_reply(reply, 2), Err(RagError::Format));
    let reply = answered(500, "x", None);
    assert_eq!(
        embeddings_from_reply(reply, 2),
        Err(RagError::Api { status: 500, body: "x".to_string() })
    );
}
