//! Answering a question: embedding it, ranking the index, assembling the
//! context, asking the model, and recording the exchange.

use crate::app_state::AppState;
use crate::db::models::{
    optional_text, Conversation, ConversationRow, Message, MessageRow,
};
use crate::rag::embedding::{
    embeddings_from_reply, reply_fault, reply_vectors, EmbeddingReply, EmbeddingRequest,
};
use crate::rag::llm::{
    answer_from_reply, rag_messages, reply_outcome, system_preamble, user_turn, ChatRequest,
    GenerationReply,
};
use crate::rag::ranking::is_ranking;
use crate::rag::text_splitter::join_with_breaks;
use crate::rag::vector_store::{
    document_name_key, hits_follow, text_at, DocumentModel, SearchResult, VectorStore,
};
use crate::rag::{ErrorModel, RagError};
use crate::text::{collect_chars, lemma_texts_push, string_from_range, texts};
use crate::trusted::{fresh_id, json_list, to_json, unix_now};
use vstd::prelude::*;
use vstd::string::*;

verus! {

/// A question, and the conversation it continues if it continues one.
#[derive(Debug, PartialEq, Eq)]
pub struct AskQuestionRequest {
    pub question: String,
    pub conversation_id: Option<String>,
}

/// The answer to a question, the names of the documents it rests on, and
/// the conversation it was recorded in.
#[derive(Debug, PartialEq, Eq)]
pub struct AskQuestionResponse {
    pub success: bool,
    pub answer: String,
    pub sources: Vec<String>,
    pub conversation_id: String,
}

/// How many characters of a question a conversation's title keeps.
pub const TITLE_LENGTH: usize = 20;

/// The title of a conversation that `question` opens: the question, cut
/// after `TITLE_LENGTH` characters with three dots where it is longer.
pub open spec fn title_of(question: Seq<char>) -> Seq<char> {
    if question.len() > TITLE_LENGTH {
        question.take(TITLE_LENGTH as int) + seq!['.', '.', '.']
    } else {
        question
    }
}

/// The title of a conversation that `question` opens.
pub fn conversation_title(question: &str) -> (title: String)
    ensures
        title@ == title_of(question@),
{
    let chars = collect_chars(question);
    if chars.len() > TITLE_LENGTH {
        let mut title = string_from_range(&chars, 0, TITLE_LENGTH);
        proof {
            reveal_strlit("...");
            assert("..."@ =~= seq!['.', '.', '.']);
        }
        title.append("...");
        title
    } else {
        question.to_owned()
    }
}

/// The documents of a list of hits, in order.
pub open spec fn hit_documents(hits: Seq<SearchResult>) -> Seq<DocumentModel> {
    hits.map_values(|hit: SearchResult| hit.document@)
}

/// The contents of a list of documents, in order.
pub open spec fn contents(documents: Seq<DocumentModel>) -> Seq<Seq<char>> {
    documents.map_values(|document: DocumentModel| document.content)
}

/// The context that a list of documents makes: their contents with a
/// blank line between each two.
pub open spec fn context_of(documents: Seq<DocumentModel>) -> Seq<char> {
    join_with_breaks(contents(documents))
}

/// One more part at the end of a list joins on after a blank line.
pub proof fn lemma_join_push(parts: Seq<Seq<char>>, last: Seq<char>)
    ensures
        join_with_breaks(parts.push(last)) == if parts.len() == 0 {
            last
        } else {
            join_with_breaks(parts) + seq!['\n', '\n'] + last
        },
    decreases parts.len(),
{
    let all = parts.push(last);
    if parts.len() == 0 {
        assert(all.len() == 1);
        assert(all[0] == last);
    } else {
        assert(all.drop_first() =~= parts.drop_first().push(last));
        lemma_join_push(parts.drop_first(), last);
        assert(all[0] == parts[0]);
        if parts.len() == 1 {
            assert(parts.drop_first().len() == 0);
            assert(join_with_breaks(parts) == parts[0]);
            assert(join_with_breaks(all) =~= parts[0] + seq!['\n', '\n'] + last);
        } else {
            assert(join_with_breaks(all) =~= join_with_breaks(parts) + seq!['\n', '\n'] + last);
        }
    }
}

/// The context that `hits` make.
pub fn build_context(hits: &Vec<SearchResult>) -> (context: String)
    ensures
        context@ == context_of(hit_documents(hits@)),
{
    let ghost parts = contents(hit_documents(hits@));
    let mut context = String::new();
    let mut i: usize = 0;
    proof {
        reveal_strlit("\n\n");
        assert("\n\n"@ =~= seq!['\n', '\n']);
        assert(parts.take(0) =~= Seq::<Seq<char>>::empty());
    }
    while i < hits.len()
        invariant
            i <= hits@.len(),
            parts == contents(hit_documents(hits@)),
            "\n\n"@ == seq!['\n', '\n'],
            context@ == join_with_breaks(parts.take(i as int)),
        decreases hits@.len() - i,
    {
        proof {
            lemma_join_push(parts.take(i as int), parts[i as int]);
            assert(parts.take(i + 1) =~= parts.take(i as int).push(parts[i as int]));
            assert(parts[i as int] == hits@[i as int].document.content@);
        }
        if i > 0 {
            context.append("\n\n");
        }
        context.append(hits[i].document.content.as_str());
        proof {
            if i == 0 {
                assert(context@ =~= parts[0]);
            }
        }
        i = i + 1;
    }
    assert(parts.take(i as int) =~= parts);
    context
}

/// The display names that a list of documents carries, in order; a
/// document without one is passed over.
pub open spec fn sources_of(documents: Seq<DocumentModel>) -> Seq<Seq<char>>
    decreases documents.len(),
{
    if documents.len() == 0 {
        Seq::empty()
    } else {
        let before = sources_of(documents.drop_last());
        match text_at(documents.last().metadata, document_name_key()) {
            Some(name) => before.push(name),
            None => before,
        }
    }
}

/// The display names of the documents behind `hits`.
pub fn collect_sources(hits: &Vec<SearchResult>) -> (sources: Vec<String>)
    ensures
        texts(sources@) == sources_of(hit_documents(hits@)),
{
    let ghost documents = hit_documents(hits@);
    let mut sources: Vec<String> = Vec::new();
    let mut i: usize = 0;
    assert(texts(sources@) =~= sources_of(documents.take(0)));
    while i < hits.len()
        invariant
            i <= hits@.len(),
            documents == hit_documents(hits@),
            texts(sources@) == sources_of(documents.take(i as int)),
        decreases hits@.len() - i,
    {
        proof {
            assert(documents.take(i + 1).drop_last() =~= documents.take(i as int));
            assert(documents.take(i + 1).last() == hits@[i as int].document@);
        }
        match hits[i].document.document_name() {
            Some(name) => {
                let copy = name.clone();
                proof {
                    lemma_texts_push(sources@, copy);
                }
                sources.push(copy);
            },
            None => {},
        }
        i = i + 1;
    }
    assert(documents.take(i as int) =~= documents);
    sources
}

/// What is recorded of one question and its answer: the conversation, to
/// be created unless it exists, and the two messages to append.
#[derive(Debug, PartialEq, Eq)]
pub struct Exchange {
    pub conversation: Conversation,
    pub user_message: Message,
    pub assistant_message: Message,
}

/// What an exchange is.
pub struct ExchangeModel {
    pub conversation: ConversationRow,
    pub user_message: MessageRow,
    pub assistant_message: MessageRow,
}

impl View for Exchange {
    type V = ExchangeModel;

    open spec fn view(&self) -> ExchangeModel {
        ExchangeModel {
            conversation: self.conversation@,
            user_message: self.user_message@,
            assistant_message: self.assistant_message@,
        }
    }
}

impl Clone for Exchange {
    fn clone(&self) -> (copy: Exchange)
        ensures
            copy@ == self@,
    {
        Exchange {
            conversation: self.conversation.clone(),
            user_message: self.user_message.clone(),
            assistant_message: self.assistant_message.clone(),
        }
    }
}

/// The exchange of `question` and `answer` in the conversation
/// `conversation_id` at the time `now`: the user's message without
/// sources, the assistant's with `sources_json`, both with the same time.
pub fn exchange_with(
    question: &str,
    answer: &str,
    sources_json: Option<String>,
    conversation_id: String,
    user_message_id: String,
    assistant_message_id: String,
    now: i64,
) -> (exchange: Exchange)
    ensures
        exchange@ == (ExchangeModel {
            conversation: ConversationRow {
                id: conversation_id@,
                title: title_of(question@),
                created_at: now,
                updated_at: now,
            },
            user_message: MessageRow {
                id: user_message_id@,
                conversation_id: conversation_id@,
                role: "user"@,
                content: question@,
                sources: None,
                created_at: now,
            },
            assistant_message: MessageRow {
                id: assistant_message_id@,
                conversation_id: conversation_id@,
                role: "assistant"@,
                content: answer@,
                sources: optional_text(sources_json),
                created_at: now,
            },
        }),
{
    let user_message = Message {
        id: user_message_id,
        conversation_id: conversation_id.clone(),
        role: "user".to_owned(),
        content: question.to_owned(),
        sources: None,
        created_at: now,
    };
    let assistant_message = Message {
        id: assistant_message_id,
        conversation_id: conversation_id.clone(),
        role: "assistant".to_owned(),
        content: answer.to_owned(),
        sources: sources_json,
        created_at: now,
    };
    let conversation = Conversation {
        id: conversation_id,
        title: conversation_title(question),
        created_at: now,
        updated_at: now,
    };
    Exchange { conversation, user_message, assistant_message }
}

/// The JSON list of `sources`, or `None` where it cannot be written:
/// what `json_list` says of them.
pub fn sources_json(sources: &Vec<String>) -> (json: Option<String>)
    ensures
        optional_text(json) == json_list(texts(sources@)),
{
    match to_json(sources) {
        Ok(text) => Some(text),
        Err(_) => None,
    }
}


/// Where the answering of a question stands.
#[derive(Debug, Clone, Copy, PartialEq, Eq, Structural)]
pub enum AskStage {
    /// The question's vector is being fetched.
    Embedding,
    /// The index's records are being scored against the question's vector.
    Scoring,
    /// The model is being asked.
    Generating,
    /// The exchange waits to be recorded.
    Persisting,
    /// The exchange is recorded.
    Done,
    /// A step failed; nothing is recorded.
    Failed,
}

/// What happened since the last action.
#[derive(Debug, PartialEq, Eq)]
pub enum AskEvent {
    /// The reply to the last `Embed`.
    Embedded(EmbeddingReply),
    /// The scores asked for by the last `Score`: one per record of the
    /// index, in the index's order.
    Scored(Vec<i32>),
    /// The reply to the last `Generate`.
    Generated(GenerationReply),
    /// How the durable write of the last `Persist` ended.
    Stored(Result<(), String>),
}

/// What to do next.
#[derive(Debug, PartialEq, Eq)]
pub enum AskAction {
    /// Fetch the question's vector.
    Embed(EmbeddingRequest),
    /// Score every record of the index against `query`.
    Score { query: Vec<u32> },
    /// Ask the model.
    Generate(ChatRequest),
    /// Record the exchange.
    Persist(Exchange),
    /// Hand the answer to the caller.
    Done(AskQuestionResponse),
    /// Hand the error to the caller.
    Fail(RagError),
}

/// One question on its way to an answer.
#[derive(Debug, PartialEq, Eq)]
pub struct AskSession {
    question: String,
    requested: Option<String>,
    embedding_model: String,
    generation_model: String,
    top_k: usize,
    query: Vec<u32>,
    context: String,
    sources: Vec<String>,
    answer: String,
    exchange: Option<Exchange>,
    stage: AskStage,
    failure: Option<RagError>,
}

/// Whether `exchange` records `question` and `answer` with `sources`: in
/// the conversation asked for if one was, under the question's title,
/// the user's message without sources, the assistant's with what
/// `json_list` makes of `sources`, all at one time.
pub open spec fn records_exchange(
    exchange: ExchangeModel,
    question: Seq<char>,
    requested: Option<Seq<char>>,
    answer: Seq<char>,
    sources: Seq<Seq<char>>,
) -> bool {
    let id = exchange.conversation.id;
    let now = exchange.conversation.created_at;
    &&& requested is Some ==> id == requested->0
    &&& exchange.conversation == (ConversationRow {
        id,
        title: title_of(question),
        created_at: now,
        updated_at: now,
    })
    &&& exchange.user_message == (MessageRow {
        id: exchange.user_message.id,
        conversation_id: id,
        role: "user"@,
        content: question,
        sources: None,
        created_at: now,
    })
    &&& exchange.assistant_message == (MessageRow {
        id: exchange.assistant_message.id,
        conversation_id: id,
        role: "assistant"@,
        content: answer,
        sources: json_list(sources),
        created_at: now,
    })
}

/// The records at the places `order`.
pub open spec fn picked(documents: Seq<DocumentModel>, order: Seq<usize>) -> Seq<DocumentModel> {
    Seq::new(order.len(), |p: int| documents[order[p] as int])
}

impl AskSession {
    #[verifier::type_invariant]
    spec fn consistent(self) -> bool {
        &&& self.stage is Scoring ==> self.query@.len() > 0
        &&& (self.stage is Persisting || self.stage is Done) ==> self.exchange is Some
            && records_exchange(
            self.exchange->0@,
            self.question@,
            optional_text(self.requested),
            self.answer@,
            texts(self.sources@),
        )
        &&& self.stage is Failed <==> self.failure is Some
    }

    /// The question.
    pub closed spec fn question(self) -> Seq<char> {
        self.question@
    }

    /// The conversation that the caller asked to continue.
    pub closed spec fn requested(self) -> Option<Seq<char>> {
        optional_text(self.requested)
    }

    /// The embedding model's name.
    pub closed spec fn embedding_model(self) -> Seq<char> {
        self.embedding_model@
    }

    /// The generation model's name.
    pub closed spec fn generation_model(self) -> Seq<char> {
        self.generation_model@
    }

    /// How many hits the search is to return.
    pub closed spec fn top_k(self) -> nat {
        self.top_k as nat
    }

    /// The question's vector.
    pub closed spec fn query(self) -> Seq<u32> {
        self.query@
    }

    /// The context assembled from the hits.
    pub closed spec fn context(self) -> Seq<char> {
        self.context@
    }

    /// The display names of the documents behind the hits.
    pub closed spec fn sources(self) -> Seq<Seq<char>> {
        texts(self.sources@)
    }

    /// The model's answer.
    pub closed spec fn answer(self) -> Seq<char> {
        self.answer@
    }

    /// What is to be recorded.
    pub closed spec fn exchange(self) -> Option<ExchangeModel> {
        match self.exchange {
            Some(exchange) => Some(exchange@),
            None => None,
        }
    }

    /// Where the session stands.
    pub closed spec fn stage(self) -> AskStage {
        self.stage
    }

    /// Why it failed, if it did.
    pub closed spec fn failure(self) -> Option<ErrorModel> {
        match self.failure {
            Some(error) => Some(error@),
            None => None,
        }
    }
}

/// Whether `context` and `sources` are those of the records that rank
/// best by `scores`, listed in `order`.
pub open spec fn retrieves(
    documents: Seq<DocumentModel>,
    scores: Seq<i32>,
    top_k: nat,
    order: Seq<usize>,
    context: Seq<char>,
    sources: Seq<Seq<char>>,
) -> bool {
    &&& is_ranking(scores, documents.len(), top_k, order)
    &&& context == context_of(picked(documents, order))
    &&& sources == sources_of(picked(documents, order))
}

/// Whether `after` is `before` with nothing changed but `stage`,
/// `failure` and what the listed flags release.
pub open spec fn keeps(
    before: AskSession,
    after: AskSession,
    query: bool,
    retrieved: bool,
    answer: bool,
    exchange: bool,
) -> bool {
    &&& after.question() == before.question()
    &&& after.requested() == before.requested()
    &&& after.embedding_model() == before.embedding_model()
    &&& after.generation_model() == before.generation_model()
    &&& after.top_k() == before.top_k()
    &&& query ==> after.query() == before.query()
    &&& retrieved ==> after.context() == before.context() && after.sources() == before.sources()
    &&& answer ==> after.answer() == before.answer()
    &&& exchange ==> after.exchange() == before.exchange()
}

/// Whether `after` is `before` with nothing changed.
pub open spec fn same_session(before: AskSession, after: AskSession) -> bool {
    &&& keeps(before, after, true, true, true, true)
    &&& after.stage() == before.stage()
    &&& after.failure() == before.failure()
}

/// Whether `after` is `before` failed with `error`.
pub open spec fn fails_with(before: AskSession, after: AskSession, error: ErrorModel) -> bool {
    &&& keeps(before, after, true, true, true, true)
    &&& after.stage() is Failed
    &&& after.failure() == Some(error)
}

/// Whether `after` is `before` with the search done: context and sources
/// are those of the best `top_k` records by `scores`, and the model is to
/// be asked next.
pub open spec fn searches(
    before: AskSession,
    documents: Seq<DocumentModel>,
    scores: Seq<i32>,
    after: AskSession,
) -> bool {
    &&& keeps(before, after, true, false, true, true)
    &&& after.stage() is Generating
    &&& after.failure() is None
    &&& exists|order: Seq<usize>|
        #[trigger] retrieves(
            documents,
            scores,
            before.top_k(),
            order,
            after.context(),
            after.sources(),
        )
}

/// Whether `after` is what `before` becomes upon `event`, with the index
/// holding `documents`. An event that the stage does not wait for changes
/// nothing.
pub open spec fn answers(
    before: AskSession,
    documents: Seq<DocumentModel>,
    event: AskEvent,
    after: AskSession,
) -> bool {
    match (before.stage(), event) {
        (AskStage::Embedding, AskEvent::Embedded(reply)) => match reply_fault(reply, 1) {
            Some(error) => fails_with(before, after, error),
            None => {
                &&& keeps(before, after, false, true, true, true)
                &&& after.stage() is Scoring
                &&& after.failure() is None
                &&& after.query() == reply_vectors(reply, 1)[0]
            },
        },
        (AskStage::Scoring, AskEvent::Scored(scores)) => searches(
            before,
            documents,
            scores@,
            after,
        ),
        (AskStage::Generating, AskEvent::Generated(reply)) => match reply_outcome(reply) {
            Err(error) => fails_with(before, after, error),
            Ok(answer) => {
                &&& keeps(before, after, true, true, false, false)
                &&& after.stage() is Persisting
                &&& after.failure() is None
                &&& after.answer() == answer
                &&& after.exchange() is Some
                &&& records_exchange(
                    after.exchange()->0,
                    after.question(),
                    after.requested(),
                    answer,
                    after.sources(),
                )
            },
        },
        (AskStage::Persisting, AskEvent::Stored(Ok(_))) => {
            &&& keeps(before, after, true, true, true, true)
            &&& after.stage() is Done
            &&& after.failure() is None
        },
        (AskStage::Persisting, AskEvent::Stored(Err(reason))) => fails_with(
            before,
            after,
            ErrorModel::Storage(reason@),
        ),
        _ => same_session(before, after),
    }
}

/// A session that has failed or is done stays as it is, whatever happens.
pub proof fn lemma_ended_session_stays(
    before: AskSession,
    documents: Seq<DocumentModel>,
    event: AskEvent,
    after: AskSession,
)
    requires
        answers(before, documents, event, after),
        before.stage() is Failed || before.stage() is Done,
    ensures
        same_session(before, after),
{
}

/// Whether `action` is what `session` calls for.
pub open spec fn asks_for(session: AskSession, action: AskAction) -> bool {
    match session.stage() {
        AskStage::Embedding => {
            &&& action matches AskAction::Embed(request)
            &&& request.model@ == session.embedding_model()
            &&& texts(request.texts@) == seq![session.question()]
        },
        AskStage::Scoring => {
            &&& action matches AskAction::Score { query }
            &&& query@ == session.query()
        },
        AskStage::Generating => {
            &&& action matches AskAction::Generate(request)
            &&& request.model@ == session.generation_model()
            &&& request.messages@.len() == 2
            &&& request.messages@[0].role@ == "system"@
            &&& request.messages@[0].content@ == system_preamble()
            &&& request.messages@[1].role@ == "user"@
            &&& request.messages@[1].content@ == user_turn(session.context(), session.question())
        },
        AskStage::Persisting => {
            &&& action matches AskAction::Persist(exchange)
            &&& Some(exchange@) == session.exchange()
        },
        AskStage::Done => {
            &&& action matches AskAction::Done(response)
            &&& response.success
            &&& response.answer@ == session.answer()
            &&& texts(response.sources@) == session.sources()
            &&& session.exchange() is Some
            &&& response.conversation_id@ == session.exchange()->0.conversation.id
        },
        AskStage::Failed => {
            &&& action matches AskAction::Fail(error)
            &&& Some(error@) == session.failure()
        },
    }
}

/// Whether `begun` is what beginning to answer `request` comes to:
/// `NotConfigured` where a backend is missing, and otherwise the fresh
/// session with its first action.
pub open spec fn begins_asking(
    state: AppState,
    request: AskQuestionRequest,
    begun: Result<(AskSession, AskAction), RagError>,
) -> bool {
    if !(state.embedding_service is Some && state.llm_service is Some) {
        begun matches Err(error) && error@ == ErrorModel::NotConfigured
    } else {
        &&& begun matches Ok(pair)
        &&& pair.0.stage() is Embedding
        &&& pair.0.failure() is None
        &&& pair.0.question() == request.question@
        &&& pair.0.requested() == optional_text(request.conversation_id)
        &&& pair.0.embedding_model() == state.embedding_service->0.model_name()
        &&& pair.0.generation_model() == state.llm_service->0.model_name()
        &&& pair.0.top_k() == state.rag_config.top_k
        &&& asks_for(pair.0, pair.1)
    }
}

/// Copies of a list of strings.
fn copy_strings(strings: &Vec<String>) -> (copies: Vec<String>)
    ensures
        texts(copies@) == texts(strings@),
{
    let mut copies: Vec<String> = Vec::new();
    let mut i: usize = 0;
    assert(texts(copies@) =~= texts(strings@).take(0));
    while i < strings.len()
        invariant
            i <= strings@.len(),
            texts(copies@) == texts(strings@).take(i as int),
        decreases strings@.len() - i,
    {
        let copy = strings[i].clone();
        proof {
            lemma_texts_push(copies@, copy);
            assert(texts(strings@).take(i + 1) =~= texts(strings@).take(i as int).push(copy@));
        }
        copies.push(copy);
        i = i + 1;
    }
    assert(texts(strings@).take(i as int) =~= texts(strings@));
    copies
}

impl AskSession {
    /// Begins to answer `request`. Refused before any work where a backend
    /// is missing.
    pub fn begin(state: &AppState, request: AskQuestionRequest) -> (begun: Result<
        (AskSession, AskAction),
        RagError,
    >)
        ensures
            begins_asking(*state, request, begun),
    {
        let embedding_model = match &state.embedding_service {
            Some(service) => service.model().clone(),
            None => {
                return Err(RagError::NotConfigured);
            },
        };
        let generation_model = match &state.llm_service {
            Some(service) => service.model().clone(),
            None => {
                return Err(RagError::NotConfigured);
            },
        };
        let session = AskSession {
            question: request.question,
            requested: request.conversation_id,
            embedding_model,
            generation_model,
            top_k: state.rag_config.top_k,
            query: Vec::new(),
            context: String::new(),
            sources: Vec::new(),
            answer: String::new(),
            exchange: None,
            stage: AskStage::Embedding,
            failure: None,
        };
        let action = session.pending();
        Ok((session, action))
    }

    /// What the session calls for.
    pub fn pending(&self) -> (action: AskAction)
        ensures
            asks_for(*self, action),
    {
        proof {
            use_type_invariant(self);
        }
        match self.stage {
            AskStage::Embedding => {
                let mut list: Vec<String> = Vec::new();
                list.push(self.question.clone());
                assert(texts(list@) =~= seq![self.question@]);
                AskAction::Embed(
                    EmbeddingRequest { model: self.embedding_model.clone(), texts: list },
                )
            },
            AskStage::Scoring => AskAction::Score { query: self.query.clone() },
            AskStage::Generating => AskAction::Generate(
                ChatRequest {
                    model: self.generation_model.clone(),
                    messages: rag_messages(self.question.as_str(), self.context.as_str()),
                },
            ),
            AskStage::Persisting => match &self.exchange {
                Some(exchange) => AskAction::Persist(exchange.clone()),
                None => AskAction::Fail(RagError::Format),
            },
            AskStage::Done => match &self.exchange {
                Some(exchange) => AskAction::Done(
                    AskQuestionResponse {
                        success: true,
                        answer: self.answer.clone(),
                        sources: copy_strings(&self.sources),
                        conversation_id: exchange.conversation.id.clone(),
                    },
                ),
                None => AskAction::Fail(RagError::Format),
            },
            AskStage::Failed => match &self.failure {
                Some(error) => AskAction::Fail(error.clone()),
                None => AskAction::Fail(RagError::Format),
            },
        }
    }

    /// The session failed with `error`.
    fn fail(self, error: RagError) -> (next: AskSession)
        ensures
            fails_with(self, next, error@),
    {
        AskSession {
            question: self.question,
            requested: self.requested,
            embedding_model: self.embedding_model,
            generation_model: self.generation_model,
            top_k: self.top_k,
            query: self.query,
            context: self.context,
            sources: self.sources,
            answer: self.answer,
            exchange: self.exchange,
            stage: AskStage::Failed,
            failure: Some(error),
        }
    }

    /// Takes `reply` as the answer to the request for the question's
    /// vector.
    fn embedded(self, reply: EmbeddingReply) -> (next: AskSession)
        requires
            self.stage() is Embedding,
        ensures
            answers(self, Seq::empty(), AskEvent::Embedded(reply), next),
    {
        match embeddings_from_reply(reply, 1) {
            Err(error) => self.fail(error),
            Ok(list) => {
                let mut list = list;
                let query = list.remove(0);
                AskSession {
                    question: self.question,
                    requested: self.requested,
                    embedding_model: self.embedding_model,
                    generation_model: self.generation_model,
                    top_k: self.top_k,
                    query,
                    context: self.context,
                    sources: self.sources,
                    answer: self.answer,
                    exchange: self.exchange,
                    stage: AskStage::Scoring,
                    failure: None,
                }
            },
        }
    }

    /// Searches the index by `scores` and assembles the context.
    fn retrieved(self, store: &VectorStore, scores: Vec<i32>) -> (next: AskSession)
        requires
            self.stage() is Scoring,
        ensures
            answers(self, store@, AskEvent::Scored(scores), next),
    {
        let hits = store.search(&scores, self.top_k);
        let context = build_context(&hits);
        let sources = collect_sources(&hits);
        let ghost order = choose|order: Seq<usize>|
            is_ranking(scores@, store@.len(), self.top_k as nat, order) && hits_follow(
                hits@,
                store@,
                scores@,
                order,
            );
        let next = AskSession {
            question: self.question,
            requested: self.requested,
            embedding_model: self.embedding_model,
            generation_model: self.generation_model,
            top_k: self.top_k,
            query: self.query,
            context,
            sources,
            answer: self.answer,
            exchange: self.exchange,
            stage: AskStage::Generating,
            failure: None,
        };
        proof {
            assert(hit_documents(hits@) =~= picked(store@, order));
            assert(retrieves(
                store@,
                scores@,
                self.top_k(),
                order,
                next.context(),
                next.sources(),
            ));
            assert(searches(self, store@, scores@, next));
        }
        next
    }

    /// Takes `reply` as the model's answer and readies the exchange.
    fn generated(self, reply: GenerationReply) -> (next: AskSession)
        requires
            self.stage() is Generating,
        ensures
            answers(self, Seq::empty(), AskEvent::Generated(reply), next),
    {
        match answer_from_reply(reply) {
            Err(error) => self.fail(error),
            Ok(answer) => {
                let conversation_id = match &self.requested {
                    Some(id) => id.clone(),
                    None => fresh_id(),
                };
                let exchange = exchange_with(
                    self.question.as_str(),
                    answer.as_str(),
                    sources_json(&self.sources),
                    conversation_id,
                    fresh_id(),
                    fresh_id(),
                    unix_now(),
                );
                AskSession {
                    question: self.question,
                    requested: self.requested,
                    embedding_model: self.embedding_model,
                    generation_model: self.generation_model,
                    top_k: self.top_k,
                    query: self.query,
                    context: self.context,
                    sources: self.sources,
                    answer,
                    exchange: Some(exchange),
                    stage: AskStage::Persisting,
                    failure: None,
                }
            },
        }
    }

    /// Ends the session upon the outcome of the durable write.
    fn stored(self, outcome: Result<(), String>) -> (next: AskSession)
        requires
            self.stage() is Persisting,
        ensures
            answers(self, Seq::empty(), AskEvent::Stored(outcome), next),
    {
        proof {
            use_type_invariant(&self);
        }
        match outcome {
            Err(reason) => self.fail(RagError::Storage(reason)),
            Ok(_) => AskSession {
                question: self.question,
                requested: self.requested,
                embedding_model: self.embedding_model,
                generation_model: self.generation_model,
                top_k: self.top_k,
                query: self.query,
                context: self.context,
                sources: self.sources,
                answer: self.answer,
                exchange: self.exchange,
                stage: AskStage::Done,
                failure: None,
            },
        }
    }

    /// Takes `event` and says what to do next. The index is read, never
    /// changed.
    pub fn step(self, store: &VectorStore, event: AskEvent) -> (out: (AskSession, AskAction))
        ensures
            answers(self, store@, event, out.0),
            asks_for(out.0, out.1),
    {
        proof {
            use_type_invariant(&self);
        }
        let next = match self.stage {
            AskStage::Embedding => match event {
                AskEvent::Embedded(reply) => self.embedded(reply),
                _ => self,
            },
            AskStage::Scoring => match event {
                AskEvent::Scored(scores) => self.retrieved(store, scores),
                _ => self,
            },
            AskStage::Generating => match event {
                AskEvent::Generated(reply) => self.generated(reply),
                _ => self,
            },
            AskStage::Persisting => match event {
                AskEvent::Stored(outcome) => self.stored(outcome),
                _ => self,
            },
            AskStage::Done => self,
            AskStage::Failed => self,
        };
        let action = next.pending();
        (next, action)
    }
}

} // verus!
