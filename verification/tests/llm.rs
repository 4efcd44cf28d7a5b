use rag_core::rag::llm::{
    answer_from_reply, rag_messages, ChatMessage, GenerationOutput, GenerationReply, LLMService,
};
use rag_core::rag::RagError;

const PREAMBLE: &str =
    "你是一个专业的知识库助手。请基于提供的文档内容回答用户问题。如果文档中没有相关信息，请诚实告知。";

fn answered(status: u16, text: Option<&str>, choices: Option<Vec<&str>>) -> GenerationReply {
    GenerationReply::Answered {
        status,
        body: "body".to_string(),
        decoded: Some(GenerationOutput {
            text: text.map(|t| t.to_string()),
            choices: choices.map(|list| {
                list.into_iter()
                    .map(|c| ChatMessage { role: "assistant".to_string(), content: c.to_string() })
                    .collect()
            }),
        }),
    }
}

#[test]
fn generation_service_keeps_key_and_model() {
    let service = LLMService::new("sk-2".to_string(), "qwen-turbo".to_string());
    assert_eq!(service.api_key(), "sk-2");
    assert_eq!(service.model(), "qwen-turbo");
}

#[test]
fn messages_are_preamble_then_documents_and_question() {
    let messages = rag_messages("吃苹果有什么好处？", "苹果富含维生素C。");
    assert_eq!(
        messages,
        vec![
            ChatMessage { role: "system".to_string(), content: PREAMBLE.to_string() },
            ChatMessage {
                role: "user".to_string(),
                content: "reference documents:\n\n苹果富含维生素C。\n\nquestion:\n\n吃苹果有什么好处？"
                    .to_string(),
            },
        ]
    );
}

#[test]
fn requests_name_the_model() {
    let service = LLMService::new("k".to_string(), "qwen-turbo".to_string());
    let messages = vec![ChatMessage { role: "user".to_string(), content: "你好".to_string() }];
    let request = service.generate_request(messages.clone());
    assert_eq!(request.model, "qwen-turbo");
    assert_eq!(request.messages, messages);
    let request = service.answer_request("q", "c");
    assert_eq!(request.model, "qwen-turbo");
    assert_eq!(request.messages, rag_messages("q", "c"));
    assert_eq!(request.messages[1].content, "reference documents:\n\nc\n\nquestion:\n\nq");
}

#[test]
fn flat_text_is_the_answer() {
    assert_eq!(answer_from_reply(answered(200, Some("flat"), None)), Ok("flat".to_string()));
    assert_eq!(
        answer_from_reply(answered(200, Some("flat"), Some(vec!["choice"]))),
        Ok("flat".to_string())
    );
}

#[test]
fn first_choice_is_the_answer_without_flat_text() {
    assert_eq!(
        answer_from_reply(answered(200, None, Some(vec!["first", "second"]))),
        Ok("first".to_string())
    );
}

#[test]
fn no_text_in_either_shape_is_an_empty_answer() {
    assert_eq!(answer_from_reply(answered(200, None, None)), Err(RagError::EmptyAnswer));
    assert_eq!(answer_from_reply(answered(200, None, Some(vec![]))), Err(RagError::EmptyAnswer));
}

#[test]
fn failures_of_the_call_come_first() {
    assert_eq!(
        answer_from_reply(GenerationReply::Unreachable("timed out".to_string())),
        Err(RagError::Transport("timed out".to_string()))
    );
    assert_eq!(
        answer_from_reply(answered(429, Some("flat"), None)),
        Err(RagError::Api { status: 429, body: "body".to_string() })
    );
    let unreadable =
        GenerationReply::Answered { status: 200, body: "?".to_string(), decoded: None };
    assert_eq!(answer_from_reply(unreadable), Err(RagError::Format));
}
