//! The generation client's two ends: the messages to send, and what to
//! make of the model's answer.

use crate::rag::{is_success, ErrorModel, RagError};
use vstd::prelude::*;
use vstd::string::*;

verus! {

/// One turn of a chat: who speaks and what is said.
#[derive(Debug, PartialEq, Eq)]
pub struct ChatMessage {
    pub role: String,
    pub content: String,
}

impl Clone for ChatMessage {
    fn clone(&self) -> (copy: ChatMessage)
        ensures
            copy.role@ == self.role@,
            copy.content@ == self.content@,
    {
        ChatMessage { role: self.role.clone(), content: self.content.clone() }
    }
}

/// The generation backend: the key to call it with and the model to ask
/// for.
#[derive(Debug, PartialEq, Eq)]
pub struct LLMService {
    api_key: String,
    model: String,
}

/// A request for the model's answer to a chat.
#[derive(Debug, PartialEq, Eq)]
pub struct ChatRequest {
    pub model: String,
    pub messages: Vec<ChatMessage>,
}

/// What the body of an answer holds under `output`: a text, a list of
/// choices each with a message, either, both or neither.
#[derive(Debug, PartialEq, Eq)]
pub struct GenerationOutput {
    pub text: Option<String>,
    pub choices: Option<Vec<ChatMessage>>,
}

/// What came back from one call of the generation service.
#[derive(Debug, PartialEq, Eq)]
pub enum GenerationReply {
    /// No answer arrived; the reason as the transport gave it.
    Unreachable(String),
    /// An answer arrived: its status, its body as text, and what the body
    /// holds if it has the expected shape.
    Answered { status: u16, body: String, decoded: Option<GenerationOutput> },
}

/// The instruction that opens every chat: answer from the documents
/// supplied, and say so when they hold no answer.
pub open spec fn system_preamble() -> Seq<char> {
    "你是一个专业的知识库助手。请基于提供的文档内容回答用户问题。如果文档中没有相关信息，请诚实告知。"@
}

/// The user's turn: the retrieved passages, then the question.
pub open spec fn user_turn(context: Seq<char>, question: Seq<char>) -> Seq<char> {
    "reference documents:\n\n"@ + context + "\n\nquestion:\n\n"@ + question
}

/// The text that an answer body offers: its `text` if it has one, else the
/// content of its first choice.
pub open spec fn offered_text(output: GenerationOutput) -> Option<Seq<char>> {
    match output.text {
        Some(text) => Some(text@),
        None => match output.choices {
            Some(choices) => if choices@.len() > 0 {
                Some(choices@[0].content@)
            } else {
                None
            },
            None => None,
        },
    }
}

/// What a reply amounts to: the answer's text, or the error that stands in
/// its way.
pub open spec fn reply_outcome(reply: GenerationReply) -> Result<Seq<char>, ErrorModel> {
    match reply {
        GenerationReply::Unreachable(reason) => Err(ErrorModel::Transport(reason@)),
        GenerationReply::Answered { status, body, decoded } => {
            if !is_success(status) {
                Err(ErrorModel::Api { status, body: body@ })
            } else {
                match decoded {
                    None => Err(ErrorModel::Format),
                    Some(output) => match offered_text(output) {
                        Some(text) => Ok(text),
                        None => Err(ErrorModel::EmptyAnswer),
                    },
                }
            }
        },
    }
}

/// The two messages that put a question to the model: the preamble as
/// `system`, then passages and question as `user`.
pub fn rag_messages(question: &str, context: &str) -> (messages: Vec<ChatMessage>)
    ensures
        messages@.len() == 2,
        messages@[0].role@ == "system"@,
        messages@[0].content@ == system_preamble(),
        messages@[1].role@ == "user"@,
        messages@[1].content@ == user_turn(context@, question@),
{
    let system_message = ChatMessage {
        role: "system".to_owned(),
        content: "你是一个专业的知识库助手。请基于提供的文档内容回答用户问题。如果文档中没有相关信息，请诚实告知。".to_owned(),
    };
    let mut content = "reference documents:\n\n".to_owned();
    content.append(context);
    content.append("\n\nquestion:\n\n");
    content.append(question);
    let user_message = ChatMessage { role: "user".to_owned(), content };
    let mut messages: Vec<ChatMessage> = Vec::new();
    messages.push(system_message);
    messages.push(user_message);
    messages
}

/// The answer out of the service's reply: the body's `text`, or failing
/// that the content of its first choice. Otherwise the error of the first
/// thing that is wrong: no answer, a status outside 200..=299, a body of
/// another shape, no text in either place.
pub fn answer_from_reply(reply: GenerationReply) -> (result: Result<String, RagError>)
    ensures
        result matches Ok(answer) ==> reply_outcome(reply) == Ok::<Seq<char>, ErrorModel>(answer@),
        result matches Err(error) ==> reply_outcome(reply) == Err::<Seq<char>, ErrorModel>(error@),
{
    match reply {
        GenerationReply::Unreachable(reason) => Err(RagError::Transport(reason)),
        GenerationReply::Answered { status, body, decoded } => {
            if status < 200 || status >= 300 {
                return Err(RagError::Api { status, body });
            }
            let output = match decoded {
                Some(output) => output,
                None => {
                    return Err(RagError::Format);
                },
            };
            if let Some(text) = output.text {
                return Ok(text);
            }
            if let Some(choices) = output.choices {
                if choices.len() > 0 {
                    return Ok(choices[0].content.clone());
                }
            }
            Err(RagError::EmptyAnswer)
        },
    }
}

impl LLMService {
    /// A backend that is called with `api_key` and asked for `model`.
    pub fn new(api_key: String, model: String) -> (service: LLMService)
        ensures
            service.key() == api_key@,
            service.model_name() == model@,
    {
        LLMService { api_key, model }
    }

    /// The key.
    pub closed spec fn key(&self) -> Seq<char> {
        self.api_key@
    }

    /// The model's name.
    pub closed spec fn model_name(&self) -> Seq<char> {
        self.model@
    }

    /// The key to call the service with.
    pub fn api_key(&self) -> (key: &String)
        ensures
            key@ == self.key(),
    {
        &self.api_key
    }

    /// The model to ask for.
    pub fn model(&self) -> (model: &String)
        ensures
            model@ == self.model_name(),
    {
        &self.model
    }

    /// The request that puts `messages` to this backend's model.
    pub fn generate_request(&self, messages: Vec<ChatMessage>) -> (request: ChatRequest)
        ensures
            request.model@ == self.model_name(),
            request.messages == messages,
    {
        ChatRequest { model: self.model.clone(), messages }
    }

    /// The request that asks `question` of the passages in `context`.
    pub fn answer_request(&self, question: &str, context: &str) -> (request: ChatRequest)
        ensures
            request.model@ == self.model_name(),
            request.messages@.len() == 2,
            request.messages@[0].role@ == "system"@,
            request.messages@[0].content@ == system_preamble(),
            request.messages@[1].role@ == "user"@,
            request.messages@[1].content@ == user_turn(context@, question@),
    {
        self.generate_request(rag_messages(question, context))
    }
}

} // verus!
