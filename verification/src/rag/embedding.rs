//! The embedding client's two ends: what to ask the remote service, and
//! what to make of its answer.

use crate::rag::{is_success, ErrorModel, RagError};
use crate::text::{lemma_texts_push, texts};
use vstd::prelude::*;
use vstd::string::*;

verus! {

/// The embedding backend: the key to call it with and the model to ask for.
#[derive(Debug, PartialEq, Eq)]
pub struct EmbeddingService {
    api_key: String,
    model: String,
}

/// A request for one vector per text.
#[derive(Debug, PartialEq, Eq)]
pub struct EmbeddingRequest {
    pub model: String,
    pub texts: Vec<String>,
}

/// What the body of an answer holds, as far as it could be read: the list
/// under `output.embeddings` if there is one, and for each of its items the
/// numbers under `embedding` if that is a list. A number is held as the bit
/// pattern of its single-precision value.
#[derive(Debug, PartialEq, Eq)]
pub struct EmbeddingOutput {
    pub embeddings: Option<Vec<Option<Vec<u32>>>>,
}

/// What came back from one call of the embedding service.
#[derive(Debug, PartialEq, Eq)]
pub enum EmbeddingReply {
    /// No answer arrived; the reason as the transport gave it.
    Unreachable(String),
    /// An answer arrived: its status, its body as text, and what the body
    /// holds if it is a JSON document.
    Answered { status: u16, body: String, decoded: Option<EmbeddingOutput> },
}

/// What is wrong with item `i` of a list of vectors, if anything: it is
/// missing, it is no list, or it has no component.
pub open spec fn item_fault(items: Seq<Option<Vec<u32>>>, i: int) -> Option<ErrorModel> {
    if i >= items.len() {
        Some(ErrorModel::EmptyResult)
    } else if items[i] is None {
        Some(ErrorModel::Format)
    } else if items[i]->0@.len() == 0 {
        Some(ErrorModel::EmptyResult)
    } else {
        None
    }
}

/// The fault of the first faulty item among `from..expected`.
pub open spec fn first_fault(items: Seq<Option<Vec<u32>>>, from: int, expected: int) -> Option<
    ErrorModel,
>
    decreases expected - from,
{
    if from >= expected {
        None
    } else if item_fault(items, from) is Some {
        item_fault(items, from)
    } else {
        first_fault(items, from + 1, expected)
    }
}

/// No fault among the first `expected` items means that each is there and
/// holds at least one component, and the other way round.
pub proof fn lemma_first_fault_none(items: Seq<Option<Vec<u32>>>, from: int, expected: int)
    requires
        0 <= from,
    ensures
        first_fault(items, from, expected) is None <==> forall|i: int|
            from <= i < expected ==> i < items.len() && (#[trigger] items[i]) is Some
                && items[i]->0@.len() > 0,
    decreases expected - from,
{
    if from < expected {
        lemma_first_fault_none(items, from + 1, expected);
        if item_fault(items, from) is None {
            assert forall|i: int| from <= i < expected && first_fault(items, from + 1, expected)
                is None implies i < items.len() && (#[trigger] items[i]) is Some
                && items[i]->0@.len() > 0 by {
                if i > from {
                } else {
                    assert(i == from);
                }
            }
        } else {
            if from < items.len() {
                assert(!(items[from] is Some && items[from]->0@.len() > 0));
            }
        }
    }
}

/// Why a reply does not yield `expected` vectors, or `None` if it does.
pub open spec fn reply_fault(reply: EmbeddingReply, expected: nat) -> Option<ErrorModel> {
    match reply {
        EmbeddingReply::Unreachable(reason) => Some(ErrorModel::Transport(reason@)),
        EmbeddingReply::Answered { status, body, decoded } => {
            if !is_success(status) {
                Some(ErrorModel::Api { status, body: body@ })
            } else {
                match decoded {
                    None => Some(ErrorModel::Format),
                    Some(output) => match output.embeddings {
                        None => Some(ErrorModel::Format),
                        Some(items) => first_fault(items@, 0, expected as int),
                    },
                }
            }
        },
    }
}

/// The vectors of a list of them, in order.
pub open spec fn vectors(list: Seq<Vec<u32>>) -> Seq<Seq<u32>> {
    list.map_values(|vector: Vec<u32>| vector@)
}

/// The first `expected` vectors that a reply without fault carries.
pub open spec fn reply_vectors(reply: EmbeddingReply, expected: nat) -> Seq<Seq<u32>> {
    Seq::new(
        expected,
        |i: int| reply->decoded->0.embeddings->0@[i]->0@,
    )
}

impl EmbeddingService {
    /// A backend that is called with `api_key` and asked for `model`.
    pub fn new(api_key: String, model: String) -> (service: EmbeddingService)
        ensures
            service.key() == api_key@,
            service.model_name() == model@,
    {
        EmbeddingService { api_key, model }
    }

    /// The key.
    pub closed spec fn key(&self) -> Seq<char> {
        self.api_key@
    }

    /// The model's name.
    pub closed spec fn model_name(&self) -> Seq<char> {
        self.model@
    }

    /// The key to call the service with.
    pub fn api_key(&self) -> (key: &String)
        ensures
            key@ == self.key(),
    {
        &self.api_key
    }

    /// The model to ask for.
    pub fn model(&self) -> (model: &String)
        ensures
            model@ == self.model_name(),
    {
        &self.model
    }

    /// The request for the vector of one text.
    pub fn embed_request(&self, text: &str) -> (request: EmbeddingRequest)
        ensures
            request.model@ == self.model_name(),
            texts(request.texts@) == seq![text@],
    {
        let mut list: Vec<String> = Vec::new();
        list.push(text.to_owned());
        assert(texts(list@) =~= seq![text@]);
        EmbeddingRequest { model: self.model.clone(), texts: list }
    }

    /// The request for the vectors of `batch`, or `None` for an empty
    /// batch, whose result is known without asking.
    pub fn embed_batch_request(&self, batch: &Vec<String>) -> (request: Option<EmbeddingRequest>)
        ensures
            request is Some <==> batch@.len() > 0,
            request matches Some(r) ==> r.model@ == self.model_name() && texts(r.texts@) == texts(
                batch@,
            ),
    {
        if batch.len() == 0 {
            return None;
        }
        let mut list: Vec<String> = Vec::new();
        let mut i: usize = 0;
        while i < batch.len()
            invariant
                i <= batch@.len(),
                texts(list@) == texts(batch@).take(i as int),
            decreases batch@.len() - i,
        {
            let text = batch[i].clone();
            proof {
                lemma_texts_push(list@, text);
                assert(texts(batch@).take(i + 1) =~= texts(batch@).take(i as int).push(text@));
            }
            list.push(text);
            i = i + 1;
        }
        assert(texts(batch@).take(i as int) =~= texts(batch@));
        Some(EmbeddingRequest { model: self.model.clone(), texts: list })
    }
}

/// The vectors for `expected` texts out of the service's reply: the first
/// `expected` ones, in order, if each is there and not empty. Otherwise the
/// error of the first thing that is wrong: no answer, a status outside
/// 200..=299, a body of another shape, a vector missing or empty.
pub fn embeddings_from_reply(reply: EmbeddingReply, expected: usize) -> (result: Result<
    Vec<Vec<u32>>,
    RagError,
>)
    ensures
        result is Ok <==> reply_fault(reply, expected as nat) is None,
        result matches Ok(list) ==> vectors(list@) == reply_vectors(reply, expected as nat),
        result matches Ok(list) ==> list@.len() == expected && forall|i: int|
            0 <= i < expected ==> (#[trigger] list@[i])@.len() > 0,
        result matches Err(error) ==> Some(error@) == reply_fault(reply, expected as nat),
{
    match reply {
        EmbeddingReply::Unreachable(reason) => Err(RagError::Transport(reason)),
        EmbeddingReply::Answered { status, body, decoded } => {
            if status < 200 || status >= 300 {
                return Err(RagError::Api { status, body });
            }
            let output = match decoded {
                Some(output) => output,
                None => {
                    return Err(RagError::Format);
                },
            };
            let items = match output.embeddings {
                Some(items) => items,
                None => {
                    return Err(RagError::Format);
                },
            };
            let ghost all = items@;
            let mut list: Vec<Vec<u32>> = Vec::new();
            let mut i: usize = 0;
            while i < expected
                invariant
                    i <= expected,
                    items@ == all,
                    reply_fault(reply, expected as nat) == first_fault(
                        all,
                        i as int,
                        expected as int,
                    ),
                    reply is Answered,
                    reply->decoded is Some,
                    reply->decoded->0.embeddings is Some,
                    reply->decoded->0.embeddings->0@ == all,
                    list@.len() == i,
                    forall|k: int|
                        0 <= k < i ==> k < all.len() && (#[trigger] all[k]) is Some && all[k]->0@
                            == list@[k]@,
                    forall|k: int| 0 <= k < i ==> (#[trigger] list@[k])@.len() > 0,
                decreases expected - i,
            {
                if i >= items.len() {
                    return Err(RagError::EmptyResult);
                }
                match &items[i] {
                    None => {
                        return Err(RagError::Format);
                    },
                    Some(vector) => {
                        if vector.len() == 0 {
                            return Err(RagError::EmptyResult);
                        }
                        list.push(vector.clone());
                    },
                }
                i = i + 1;
            }
            assert(vectors(list@) =~= reply_vectors(reply, expected as nat));
            Ok(list)
        },
    }
}

} // verus!
