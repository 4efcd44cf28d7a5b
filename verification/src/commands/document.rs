//! Ingesting a document: chunking, embedding the chunks batch by batch
//! with a bounded number of calls in flight, and committing rows and
//! records together or not at all.

use crate::app_state::AppState;
use crate::db::models::{chunk_rows, Chunk, ChunkRow, Document, DocumentRow};
use crate::rag::embedding::{
    embeddings_from_reply, reply_fault, reply_vectors, vectors, EmbeddingReply, EmbeddingRequest,
};
use crate::rag::text_splitter::smart_chunks;
use crate::rag::vector_store::{
    chunk_index_key, document_id_key, document_models, document_name_key, DocumentModel,
    EntryModel, Metadata, ValueModel, VectorDocument, VectorStore,
};
use crate::rag::{ConfigError, ErrorModel, RagError};
use crate::text::{decimal, lemma_texts_push, push_decimal, texts};
use crate::trusted::{fresh_id, unix_now};
use vstd::prelude::*;
use vstd::string::*;

verus! {

/// A document to ingest: its display name, its text and its type tag.
#[derive(Debug, PartialEq, Eq)]
pub struct UploadDocumentRequest {
    pub name: String,
    pub content: String,
    pub file_type: Option<String>,
}

/// The answer to an upload.
#[derive(Debug, PartialEq, Eq)]
pub struct UploadDocumentResponse {
    pub success: bool,
    pub message: String,
    pub document_id: Option<String>,
}

/// How many texts one embedding call may carry.
pub const BATCH_SIZE: usize = 25;

/// How many embedding calls may be outstanding at once: a further batch
/// is handed out only while fewer are.
pub const MAX_IN_FLIGHT: usize = 10;

/// The number of batches that `chunks` chunks make.
pub open spec fn batch_count(chunks: nat) -> int {
    (chunks + BATCH_SIZE - 1) / (BATCH_SIZE as int)
}

/// The index of the first chunk of batch `batch`.
pub open spec fn batch_start(batch: int) -> int {
    batch * BATCH_SIZE
}

/// The index after the last chunk of batch `batch`.
pub open spec fn batch_end(chunks: nat, batch: int) -> int {
    if batch_start(batch) + BATCH_SIZE <= chunks {
        batch_start(batch) + BATCH_SIZE
    } else {
        chunks as int
    }
}

/// The texts of batch `batch`.
pub open spec fn batch_of(chunks: Seq<Seq<char>>, batch: int) -> Seq<Seq<char>> {
    chunks.subrange(batch_start(batch), batch_end(chunks.len(), batch))
}

/// A count as a signed 64-bit number, the greatest one standing for every
/// count above it.
pub open spec fn saturated(count: nat) -> i64 {
    if count <= i64::MAX {
        count as i64
    } else {
        i64::MAX
    }
}

/// `saturated` of a count.
pub fn saturate(count: usize) -> (number: i64)
    ensures
        number == saturated(count as nat),
{
    let wide: u64 = count as u64;
    if wide <= 0x7fff_ffff_ffff_ffff {
        wide as i64
    } else {
        i64::MAX
    }
}

/// The metadata of chunk `index` of the document `document_id`, whose
/// display name is `name`.
pub open spec fn chunk_metadata(document_id: Seq<char>, index: nat, name: Seq<char>) -> Seq<
    EntryModel,
> {
    seq![
        EntryModel { key: document_id_key(), value: ValueModel::Text(document_id) },
        EntryModel { key: chunk_index_key(), value: ValueModel::Number(index as u64) },
        EntryModel { key: document_name_key(), value: ValueModel::Text(name) },
    ]
}

/// Where an ingestion stands.
#[derive(Debug, Clone, Copy, PartialEq, Eq, Structural)]
pub enum IngestStage {
    /// Batches are being embedded.
    Embedding,
    /// Every batch is embedded; rows and records wait for the durable
    /// write.
    Persisting,
    /// Rows are written and the records are in the index.
    Done,
    /// A batch or the durable write failed.
    Failed,
}

/// Why an ingestion failed, and at which batch if it was a batch.
#[derive(Debug, PartialEq, Eq)]
pub struct IngestFailure {
    pub batch: Option<usize>,
    pub error: RagError,
}

/// What a failure is.
pub struct FailureModel {
    pub batch: Option<usize>,
    pub error: ErrorModel,
}

impl View for IngestFailure {
    type V = FailureModel;

    open spec fn view(&self) -> FailureModel {
        FailureModel { batch: self.batch, error: self.error@ }
    }
}

impl Clone for IngestFailure {
    fn clone(&self) -> (copy: IngestFailure)
        ensures
            copy@ == self@,
    {
        IngestFailure { batch: self.batch, error: self.error.clone() }
    }
}

/// What a finished ingestion reports.
#[derive(Debug, PartialEq, Eq)]
pub struct IngestReceipt {
    pub document_id: String,
    pub chunk_count: usize,
}

/// What happened since the last action.
#[derive(Debug, PartialEq, Eq)]
pub enum IngestEvent {
    /// The batch of the last `Submit` is on its way.
    Submitted,
    /// The reply to the batch of the last `Await`.
    Replied(EmbeddingReply),
    /// How the durable write of the last `Persist` ended.
    Written(Result<(), String>),
}

/// What to do next.
#[derive(Debug, PartialEq, Eq)]
pub enum IngestAction {
    /// Send `request`, the call for batch `batch`, without waiting for its
    /// reply.
    Submit { batch: usize, request: EmbeddingRequest },
    /// Wait for the reply to batch `batch`, the oldest one outstanding.
    Await { batch: usize },
    /// Write the document and all its chunks in one transaction.
    Persist { document: Document, chunks: Vec<Chunk> },
    /// Report success.
    Done(IngestReceipt),
    /// Report the failure.
    Fail(IngestFailure),
}

/// One document on its way into the index.
#[derive(Debug, PartialEq, Eq)]
pub struct Ingestion {
    document: Document,
    model: String,
    chunks: Vec<String>,
    submitted: usize,
    completed: usize,
    embeddings: Vec<Vec<u32>>,
    rows: Vec<Chunk>,
    records: Vec<VectorDocument>,
    stage: IngestStage,
    failure: Option<IngestFailure>,
}

/// Whether `rows` and `records` are those of `chunks` and `embeddings`:
/// one row and one record per chunk, in order, both under the same
/// identifier.
pub open spec fn rows_fit(
    document: DocumentRow,
    chunks: Seq<Seq<char>>,
    embeddings: Seq<Seq<u32>>,
    rows: Seq<ChunkRow>,
    records: Seq<DocumentModel>,
) -> bool {
    &&& rows.len() == chunks.len()
    &&& records.len() == chunks.len()
    &&& embeddings.len() == chunks.len()
    &&& forall|i: int|
        0 <= i < chunks.len() ==> (#[trigger] rows[i]) == (ChunkRow {
            id: records[i].id,
            document_id: document.id,
            content: chunks[i],
            chunk_index: saturated(i as nat),
            created_at: document.created_at,
        })
    &&& forall|i: int|
        0 <= i < chunks.len() ==> (#[trigger] records[i]) == (DocumentModel {
            id: records[i].id,
            content: chunks[i],
            embedding: embeddings[i],
            metadata: chunk_metadata(document.id, i as nat, document.name),
        })
}

impl Ingestion {
    #[verifier::type_invariant]
    spec fn consistent(self) -> bool {
        &&& self.completed <= self.submitted <= batch_count(self.chunks@.len())
        &&& self.submitted - self.completed <= MAX_IN_FLIGHT
        &&& self.embeddings@.len() == collected_count(self.chunks@.len(), self.completed as int)
        &&& forall|i: int|
            0 <= i < self.embeddings@.len() ==> (#[trigger] self.embeddings@[i])@.len() > 0
        &&& self.stage is Embedding ==> self.completed < batch_count(self.chunks@.len())
        &&& self.stage is Persisting ==> self.completed == batch_count(self.chunks@.len())
            && rows_fit(
            self.document@,
            texts(self.chunks@),
            vectors(self.embeddings@),
            chunk_rows(self.rows@),
            document_models(self.records@),
        )
        &&& self.stage is Done ==> self.completed == batch_count(self.chunks@.len())
        &&& self.stage is Failed <==> self.failure is Some
    }

    /// The chunks of the document.
    pub closed spec fn chunks(self) -> Seq<Seq<char>> {
        texts(self.chunks@)
    }

    /// The document's row.
    pub closed spec fn document(self) -> DocumentRow {
        self.document@
    }

    /// The embedding model's name.
    pub closed spec fn model_name(self) -> Seq<char> {
        self.model@
    }

    /// How many batches have been handed out.
    pub closed spec fn submitted(self) -> int {
        self.submitted as int
    }

    /// How many batches have been answered and collected.
    pub closed spec fn completed(self) -> int {
        self.completed as int
    }

    /// The vectors collected so far, in the order of the chunks.
    pub closed spec fn embeddings(self) -> Seq<Seq<u32>> {
        vectors(self.embeddings@)
    }

    /// The chunk rows to write.
    pub closed spec fn rows(self) -> Seq<ChunkRow> {
        chunk_rows(self.rows@)
    }

    /// The records to put into the index.
    pub closed spec fn records(self) -> Seq<DocumentModel> {
        document_models(self.records@)
    }

    /// Where the ingestion stands.
    pub closed spec fn stage(self) -> IngestStage {
        self.stage
    }

    /// Why it failed, if it did.
    pub closed spec fn failure(self) -> Option<FailureModel> {
        match self.failure {
            Some(failure) => Some(failure@),
            None => None,
        }
    }

    /// Whether the counts are in order: no batch is collected before it is
    /// handed out, no more batches are handed out than there are, at most
    /// `MAX_IN_FLIGHT` are outstanding, and the vectors collected are those
    /// of the chunks of the batches collected.
    pub open spec fn bounded(self) -> bool {
        &&& 0 <= self.completed() <= self.submitted() <= batch_count(self.chunks().len())
        &&& self.submitted() - self.completed() <= MAX_IN_FLIGHT
        &&& self.embeddings().len() == collected_count(self.chunks().len(), self.completed())
        &&& forall|i: int|
            0 <= i < self.embeddings().len() ==> (#[trigger] self.embeddings()[i]).len() > 0
    }

    /// Whether one more batch may be handed out: there is one left, and
    /// fewer than `MAX_IN_FLIGHT` are outstanding.
    pub open spec fn can_submit(self) -> bool {
        self.submitted() < batch_count(self.chunks().len()) && self.submitted() - self.completed()
            < MAX_IN_FLIGHT
    }
}

/// How many chunks the first `batches` batches hold.
pub open spec fn collected_count(chunks: nat, batches: int) -> int {
    if batch_start(batches) <= chunks {
        batch_start(batches)
    } else {
        chunks as int
    }
}


/// The number of bytes that `text` takes in UTF-8, as the machine counts
/// them.
pub open spec fn byte_length(text: Seq<char>) -> usize {
    vstd::utf8::encode_utf8(text).len() as usize
}

/// Whether `ingestion` is the fresh ingestion of `request` under the
/// identifier `document_id`, begun at `now` with the settings of `state`.
pub open spec fn opens(
    ingestion: Ingestion,
    state: AppState,
    request: UploadDocumentRequest,
    document_id: Seq<char>,
    now: i64,
) -> bool {
    &&& ingestion.chunks() == smart_chunks(
        request.content@,
        state.rag_config.chunk_size as nat,
        state.rag_config.chunk_overlap as nat,
    )
    &&& ingestion.document() == (DocumentRow {
        id: document_id,
        name: request.name@,
        content: request.content@,
        file_type: crate::db::models::optional_text(request.file_type),
        file_size: Some(saturated(byte_length(request.content@) as nat)),
        created_at: now,
        updated_at: now,
    })
    &&& state.embedding_service matches Some(service) && ingestion.model_name()
        == service.model_name()
    &&& ingestion.submitted() == 0
    &&& ingestion.completed() == 0
    &&& ingestion.embeddings() == Seq::<Seq<u32>>::empty()
    &&& ingestion.rows() == Seq::<ChunkRow>::empty()
    &&& ingestion.records() == Seq::<DocumentModel>::empty()
    &&& ingestion.failure() is None
    &&& ingestion.stage() == if ingestion.chunks().len() == 0 {
        IngestStage::Persisting
    } else {
        IngestStage::Embedding
    }
}

/// Whether `begun` is what beginning the ingestion of `request` comes to:
/// `NotConfigured` where a backend is missing, the configuration's error
/// where the overlap is not below the chunk size, and otherwise the fresh
/// ingestion with its first action.
pub open spec fn begins(
    state: AppState,
    request: UploadDocumentRequest,
    begun: Result<(Ingestion, IngestAction), RagError>,
    document_id: Seq<char>,
    now: i64,
) -> bool {
    if !(state.embedding_service is Some && state.llm_service is Some) {
        begun matches Err(error) && error@ == ErrorModel::NotConfigured
    } else if state.rag_config.chunk_overlap >= state.rag_config.chunk_size {
        begun matches Err(error) && error@ == ErrorModel::Config(
            ConfigError::OverlapNotBelowChunkSize,
        )
    } else {
        begun matches Ok(pair) && opens(pair.0, state, request, document_id, now) && calls_for(
            pair.0,
            pair.1,
        ) && pair.0.bounded()
    }
}

/// Whether `after` is `before` with nothing changed.
pub open spec fn same_ingestion(before: Ingestion, after: Ingestion) -> bool {
    &&& after.chunks() == before.chunks()
    &&& after.document() == before.document()
    &&& after.model_name() == before.model_name()
    &&& after.submitted() == before.submitted()
    &&& after.completed() == before.completed()
    &&& after.embeddings() == before.embeddings()
    &&& after.rows() == before.rows()
    &&& after.records() == before.records()
    &&& after.stage() == before.stage()
    &&& after.failure() == before.failure()
}

/// How many texts the oldest outstanding batch holds.
pub open spec fn awaited_size(ingestion: Ingestion) -> int {
    batch_end(ingestion.chunks().len(), ingestion.completed()) - batch_start(
        ingestion.completed(),
    )
}

/// Whether `after` is what `before` becomes when `reply` answers the
/// oldest outstanding batch: with a faulty reply the ingestion has failed
/// at that batch; otherwise the batch's vectors follow those collected
/// before, and once the last batch is in, rows and records stand ready.
pub open spec fn collects(before: Ingestion, reply: EmbeddingReply, after: Ingestion) -> bool {
    let expected = awaited_size(before) as nat;
    &&& after.chunks() == before.chunks()
    &&& after.document() == before.document()
    &&& after.model_name() == before.model_name()
    &&& after.submitted() == before.submitted()
    &&& match reply_fault(reply, expected) {
        Some(error) => {
            &&& after.stage() is Failed
            &&& after.failure() == Some(
                FailureModel { batch: Some(before.completed() as usize), error },
            )
            &&& after.completed() == before.completed()
            &&& after.embeddings() == before.embeddings()
            &&& after.rows() == before.rows()
            &&& after.records() == before.records()
        },
        None => {
            &&& after.failure() is None
            &&& after.completed() == before.completed() + 1
            &&& after.embeddings() == before.embeddings() + reply_vectors(reply, expected)
            &&& if after.completed() == batch_count(after.chunks().len()) {
                &&& after.stage() is Persisting
                &&& rows_fit(
                    after.document(),
                    after.chunks(),
                    after.embeddings(),
                    after.rows(),
                    after.records(),
                )
            } else {
                &&& after.stage() is Embedding
                &&& after.rows() == before.rows()
                &&& after.records() == before.records()
            }
        },
    }
}

/// Whether `after` is what `before` becomes upon `event`. An event that
/// the stage does not wait for changes nothing.
pub open spec fn follows(before: Ingestion, event: IngestEvent, after: Ingestion) -> bool {
    match (before.stage(), event) {
        (IngestStage::Embedding, IngestEvent::Submitted) => if before.can_submit() {
            &&& after.submitted() == before.submitted() + 1
            &&& after.chunks() == before.chunks()
            &&& after.document() == before.document()
            &&& after.model_name() == before.model_name()
            &&& after.completed() == before.completed()
            &&& after.embeddings() == before.embeddings()
            &&& after.rows() == before.rows()
            &&& after.records() == before.records()
            &&& after.stage() == before.stage()
            &&& after.failure() == before.failure()
        } else {
            same_ingestion(before, after)
        },
        (IngestStage::Embedding, IngestEvent::Replied(reply)) => if before.completed()
            < before.submitted() {
            collects(before, reply, after)
        } else {
            same_ingestion(before, after)
        },
        (IngestStage::Persisting, IngestEvent::Written(Ok(_))) => {
            &&& after.stage() is Done
            &&& after.failure() is None
            &&& after.chunks() == before.chunks()
            &&& after.document() == before.document()
            &&& after.model_name() == before.model_name()
            &&& after.submitted() == before.submitted()
            &&& after.completed() == before.completed()
            &&& after.embeddings() == before.embeddings()
        },
        (IngestStage::Persisting, IngestEvent::Written(Err(reason))) => {
            &&& after.stage() is Failed
            &&& after.failure() == Some(
                FailureModel { batch: None, error: ErrorModel::Storage(reason@) },
            )
            &&& after.chunks() == before.chunks()
            &&& after.document() == before.document()
            &&& after.model_name() == before.model_name()
            &&& after.submitted() == before.submitted()
            &&& after.completed() == before.completed()
            &&& after.embeddings() == before.embeddings()
        },
        _ => same_ingestion(before, after),
    }
}

/// An ingestion that has failed or is done stays as it is, whatever
/// happens.
pub proof fn lemma_ended_ingestion_stays(before: Ingestion, event: IngestEvent, after: Ingestion)
    requires
        follows(before, event, after),
        before.stage() is Failed || before.stage() is Done,
    ensures
        same_ingestion(before, after),
{
}

/// Vectors are collected in the order of the batches and never taken
/// back: what was collected before an event is the beginning of what is
/// collected after it.
pub proof fn lemma_collected_vectors_stay(before: Ingestion, event: IngestEvent, after: Ingestion)
    requires
        follows(before, event, after),
    ensures
        after.chunks() == before.chunks(),
        before.embeddings().len() <= after.embeddings().len(),
        after.embeddings().take(before.embeddings().len() as int) == before.embeddings(),
        before.completed() <= after.completed() <= before.completed() + 1,
        before.submitted() <= after.submitted() <= before.submitted() + 1,
{
    assert(after.embeddings().take(before.embeddings().len() as int) =~= before.embeddings());
}

/// Whether `action` is what `ingestion` calls for.
pub open spec fn calls_for(ingestion: Ingestion, action: IngestAction) -> bool {
    match ingestion.stage() {
        IngestStage::Embedding => if ingestion.can_submit() {
            &&& action matches IngestAction::Submit { batch, request }
            &&& batch == ingestion.submitted()
            &&& request.model@ == ingestion.model_name()
            &&& texts(request.texts@) == batch_of(ingestion.chunks(), ingestion.submitted())
        } else {
            &&& action matches IngestAction::Await { batch }
            &&& batch == ingestion.completed()
            &&& ingestion.completed() < ingestion.submitted()
        },
        IngestStage::Persisting => {
            &&& action matches IngestAction::Persist { document, chunks }
            &&& document@ == ingestion.document()
            &&& chunk_rows(chunks@) == ingestion.rows()
        },
        IngestStage::Done => {
            &&& action matches IngestAction::Done(receipt)
            &&& receipt.document_id@ == ingestion.document().id
            &&& receipt.chunk_count == ingestion.chunks().len()
        },
        IngestStage::Failed => {
            &&& action matches IngestAction::Fail(failure)
            &&& Some(failure@) == ingestion.failure()
        },
    }
}

/// The number of batches that `chunks` chunks make.
fn count_batches(chunks: usize) -> (batches: usize)
    ensures
        batches == batch_count(chunks as nat),
{
    if chunks % BATCH_SIZE == 0 {
        chunks / BATCH_SIZE
    } else {
        chunks / BATCH_SIZE + 1
    }
}

/// Copies of the texts `chunks[from..to]`.
fn copy_texts(chunks: &Vec<String>, from: usize, to: usize) -> (copies: Vec<String>)
    requires
        from <= to <= chunks@.len(),
    ensures
        texts(copies@) == texts(chunks@).subrange(from as int, to as int),
{
    let mut copies: Vec<String> = Vec::new();
    let mut i: usize = from;
    assert(texts(copies@) =~= texts(chunks@).subrange(from as int, from as int));
    while i < to
        invariant
            from <= i <= to <= chunks@.len(),
            texts(copies@) == texts(chunks@).subrange(from as int, i as int),
        decreases to - i,
    {
        let text = chunks[i].clone();
        proof {
            lemma_texts_push(copies@, text);
            assert(texts(chunks@).subrange(from as int, i + 1) =~= texts(chunks@).subrange(
                from as int,
                i as int,
            ).push(text@));
        }
        copies.push(text);
        i = i + 1;
    }
    copies
}

/// Copies of chunk rows.
fn copy_rows(rows: &Vec<Chunk>) -> (copies: Vec<Chunk>)
    ensures
        chunk_rows(copies@) == chunk_rows(rows@),
{
    let mut copies: Vec<Chunk> = Vec::new();
    let mut i: usize = 0;
    while i < rows.len()
        invariant
            i <= rows@.len(),
            chunk_rows(copies@) == chunk_rows(rows@).take(i as int),
        decreases rows@.len() - i,
    {
        let row = rows[i].clone();
        let ghost before = copies@;
        copies.push(row);
        i = i + 1;
        assert(chunk_rows(before.push(row)) =~= chunk_rows(before).push(row@));
        assert(chunk_rows(rows@).take(i as int) =~= chunk_rows(rows@).take(i - 1).push(row@));
    }
    assert(chunk_rows(rows@).take(i as int) =~= chunk_rows(rows@));
    copies
}

/// The row and the record of every chunk, each pair under a fresh
/// identifier.
fn build_rows(document: &Document, chunks: &Vec<String>, embeddings: &Vec<Vec<u32>>) -> (built: (
    Vec<Chunk>,
    Vec<VectorDocument>,
))
    requires
        chunks@.len() == embeddings@.len(),
    ensures
        rows_fit(
            document@,
            texts(chunks@),
            vectors(embeddings@),
            chunk_rows(built.0@),
            document_models(built.1@),
        ),
{
    let mut rows: Vec<Chunk> = Vec::new();
    let mut records: Vec<VectorDocument> = Vec::new();
    let mut i: usize = 0;
    while i < chunks.len()
        invariant
            i <= chunks@.len(),
            chunks@.len() == embeddings@.len(),
            rows@.len() == i,
            records@.len() == i,
            forall|k: int|
                0 <= k < i ==> (#[trigger] rows@[k])@ == (ChunkRow {
                    id: records@[k]@.id,
                    document_id: document@.id,
                    content: chunks@[k]@,
                    chunk_index: saturated(k as nat),
                    created_at: document@.created_at,
                }),
            forall|k: int|
                0 <= k < i ==> (#[trigger] records@[k])@ == (DocumentModel {
                    id: records@[k]@.id,
                    content: chunks@[k]@,
                    embedding: embeddings@[k]@,
                    metadata: chunk_metadata(document@.id, k as nat, document@.name),
                }),
        decreases chunks@.len() - i,
    {
        let id = fresh_id();
        let row = Chunk {
            id: id.clone(),
            document_id: document.id.clone(),
            content: chunks[i].clone(),
            chunk_index: saturate(i),
            created_at: document.created_at,
        };
        let metadata = Metadata::new().with_text("document_id", document.id.as_str()).with_number(
            "chunk_index",
            i as u64,
        ).with_text("document_name", document.name.as_str());
        assert(metadata@ =~= chunk_metadata(document@.id, i as nat, document@.name));
        let record = VectorDocument {
            id,
            content: chunks[i].clone(),
            embedding: embeddings[i].clone(),
            metadata,
        };
        rows.push(row);
        records.push(record);
        i = i + 1;
    }
    (rows, records)
}

impl Ingestion {
    /// What the ingestion calls for.
    pub fn pending(&self) -> (action: IngestAction)
        ensures
            calls_for(*self, action),
            self.bounded(),
    {
        proof {
            use_type_invariant(self);
            assert forall|i: int| 0 <= i < self.embeddings().len() implies (
            #[trigger] self.embeddings()[i]).len() > 0 by {
                assert(self.embeddings()[i] == self.embeddings@[i]@);
            }
        }
        match self.stage {
            IngestStage::Embedding => {
                let total = count_batches(self.chunks.len());
                if self.submitted < total && self.submitted - self.completed < MAX_IN_FLIGHT {
                    let from = self.submitted * BATCH_SIZE;
                    let to = if self.chunks.len() - from >= BATCH_SIZE {
                        from + BATCH_SIZE
                    } else {
                        self.chunks.len()
                    };
                    let list = copy_texts(&self.chunks, from, to);
                    IngestAction::Submit {
                        batch: self.submitted,
                        request: EmbeddingRequest { model: self.model.clone(), texts: list },
                    }
                } else {
                    IngestAction::Await { batch: self.completed }
                }
            },
            IngestStage::Persisting => IngestAction::Persist {
                document: self.document.clone(),
                chunks: copy_rows(&self.rows),
            },
            IngestStage::Done => IngestAction::Done(
                IngestReceipt {
                    document_id: self.document.id.clone(),
                    chunk_count: self.chunks.len(),
                },
            ),
            IngestStage::Failed => match &self.failure {
                Some(failure) => IngestAction::Fail(failure.clone()),
                None => IngestAction::Fail(
                    IngestFailure { batch: None, error: RagError::NotConfigured },
                ),
            },
        }
    }
}


impl Ingestion {
    /// Begins the ingestion of `request` under the identifier
    /// `document_id` at the time `now`. Refused before any work where a
    /// backend is missing, and where the chunking configuration is invalid.
    pub fn begin_with(
        state: &AppState,
        request: UploadDocumentRequest,
        document_id: String,
        now: i64,
    ) -> (begun: Result<(Ingestion, IngestAction), RagError>)
        ensures
            begins(*state, request, begun, document_id@, now),
    {
        if !state.is_rag_initialized() {
            return Err(RagError::NotConfigured);
        }
        let model = match &state.embedding_service {
            Some(service) => service.model().clone(),
            None => {
                return Err(RagError::NotConfigured);
            },
        };
        let splitter = match state.rag_config.splitter() {
            Ok(splitter) => splitter,
            Err(error) => {
                return Err(RagError::Config(error));
            },
        };
        let chunks = splitter.split_smart(request.content.as_str());
        let size = saturate(request.content.as_str().len());
        let stage = if chunks.len() == 0 {
            IngestStage::Persisting
        } else {
            IngestStage::Embedding
        };
        let document = Document {
            id: document_id,
            name: request.name,
            content: request.content,
            file_type: request.file_type,
            file_size: Some(size),
            created_at: now,
            updated_at: now,
        };
        let ingestion = Ingestion {
            document,
            model,
            chunks,
            submitted: 0,
            completed: 0,
            embeddings: Vec::new(),
            rows: Vec::new(),
            records: Vec::new(),
            stage,
            failure: None,
        };
        proof {
            assert(ingestion.embeddings() =~= Seq::<Seq<u32>>::empty());
            assert(ingestion.rows() =~= Seq::<ChunkRow>::empty());
            assert(ingestion.records() =~= Seq::<DocumentModel>::empty());
        }
        let action = ingestion.pending();
        Ok((ingestion, action))
    }

    /// Begins the ingestion of `request` now, under a fresh identifier.
    pub fn begin(state: &AppState, request: UploadDocumentRequest) -> (begun: Result<
        (Ingestion, IngestAction),
        RagError,
    >)
        ensures
            match begun {
                Ok(pair) => begins(
                    *state,
                    request,
                    begun,
                    pair.0.document().id,
                    pair.0.document().created_at,
                ),
                Err(_) => begins(*state, request, begun, Seq::empty(), 0),
            },
    {
        let document_id = fresh_id();
        let now = unix_now();
        Ingestion::begin_with(state, request, document_id, now)
    }

    /// Hands out one more batch if one may be handed out.
    fn submit(self) -> (next: Ingestion)
        requires
            self.stage() is Embedding,
        ensures
            follows(self, IngestEvent::Submitted, next),
    {
        proof {
            use_type_invariant(&self);
        }
        let total = count_batches(self.chunks.len());
        if self.submitted < total && self.submitted - self.completed < MAX_IN_FLIGHT {
            Ingestion {
                document: self.document,
                model: self.model,
                chunks: self.chunks,
                submitted: self.submitted + 1,
                completed: self.completed,
                embeddings: self.embeddings,
                rows: self.rows,
                records: self.records,
                stage: self.stage,
                failure: self.failure,
            }
        } else {
            self
        }
    }

    /// Takes `reply` as the answer to the oldest outstanding batch.
    fn collect(self, reply: EmbeddingReply) -> (next: Ingestion)
        requires
            self.stage() is Embedding,
        ensures
            follows(self, IngestEvent::Replied(reply), next),
    {
        proof {
            use_type_invariant(&self);
        }
        if self.completed >= self.submitted {
            return self;
        }
        let count = self.chunks.len();
        let total = count_batches(count);
        let from = self.completed * BATCH_SIZE;
        let to = if count - from >= BATCH_SIZE {
            from + BATCH_SIZE
        } else {
            count
        };
        let expected = to - from;
        let ghost before = self;
        let Ingestion {
            document,
            model,
            chunks,
            submitted,
            completed,
            embeddings,
            rows,
            records,
            stage,
            failure,
        } = self;
        match embeddings_from_reply(reply, expected) {
            Err(error) => Ingestion {
                document,
                model,
                chunks,
                submitted,
                completed,
                embeddings,
                rows,
                records,
                stage: IngestStage::Failed,
                failure: Some(IngestFailure { batch: Some(completed), error }),
            },
            Ok(batch) => {
                let mut embeddings = embeddings;
                let mut batch = batch;
                let ghost earlier = embeddings@;
                let ghost added = batch@;
                embeddings.append(&mut batch);
                proof {
                    assert(vectors(embeddings@) =~= vectors(earlier) + vectors(added));
                    assert forall|i: int| 0 <= i < embeddings@.len() implies (
                    #[trigger] embeddings@[i])@.len() > 0 by {
                        if i >= earlier.len() {
                            assert(embeddings@[i] == added[i - earlier.len()]);
                        }
                    }
                }
                if completed + 1 == total {
                    let built = build_rows(&document, &chunks, &embeddings);
                    Ingestion {
                        document,
                        model,
                        chunks,
                        submitted,
                        completed: completed + 1,
                        embeddings,
                        rows: built.0,
                        records: built.1,
                        stage: IngestStage::Persisting,
                        failure: None,
                    }
                } else {
                    Ingestion {
                        document,
                        model,
                        chunks,
                        submitted,
                        completed: completed + 1,
                        embeddings,
                        rows,
                        records,
                        stage: IngestStage::Embedding,
                        failure: None,
                    }
                }
            },
        }
    }

    /// Ends the ingestion upon the outcome of the durable write: the
    /// records enter the index if the write succeeded, and only then.
    fn commit(self, store: &mut VectorStore, outcome: Result<(), String>) -> (next: Ingestion)
        requires
            self.stage() is Persisting,
        ensures
            follows(self, IngestEvent::Written(outcome), next),
            final(store)@ == if outcome is Ok {
                old(store)@ + self.records()
            } else {
                old(store)@
            },
    {
        proof {
            use_type_invariant(&self);
        }
        let Ingestion {
            document,
            model,
            chunks,
            submitted,
            completed,
            embeddings,
            rows,
            records,
            stage,
            failure,
        } = self;
        match outcome {
            Ok(_) => {
                store.add_documents(records);
                Ingestion {
                    document,
                    model,
                    chunks,
                    submitted,
                    completed,
                    embeddings,
                    rows,
                    records: Vec::new(),
                    stage: IngestStage::Done,
                    failure: None,
                }
            },
            Err(reason) => Ingestion {
                document,
                model,
                chunks,
                submitted,
                completed,
                embeddings,
                rows,
                records,
                stage: IngestStage::Failed,
                failure: Some(IngestFailure { batch: None, error: RagError::Storage(reason) }),
            },
        }
    }

    /// Takes `event` and says what to do next. The index changes in one
    /// case only: the durable write of a fully embedded document has
    /// succeeded, and all its records enter together.
    pub fn step(self, store: &mut VectorStore, event: IngestEvent) -> (out: (
        Ingestion,
        IngestAction,
    ))
        ensures
            follows(self, event, out.0),
            calls_for(out.0, out.1),
            out.0.bounded(),
            final(store)@ == if self.stage() is Persisting && event matches IngestEvent::Written(
                Ok(_),
            ) {
                old(store)@ + self.records()
            } else {
                old(store)@
            },
            out.0.stage() is Failed ==> final(store)@ == old(store)@,
            self.stage() is Failed ==> out.0.stage() is Failed,
    {
        proof {
            use_type_invariant(&self);
        }
        let next = match self.stage {
            IngestStage::Embedding => match event {
                IngestEvent::Submitted => self.submit(),
                IngestEvent::Replied(reply) => self.collect(reply),
                IngestEvent::Written(_) => self,
            },
            IngestStage::Persisting => match event {
                IngestEvent::Written(outcome) => self.commit(store, outcome),
                IngestEvent::Submitted => self,
                IngestEvent::Replied(_) => self,
            },
            IngestStage::Done => self,
            IngestStage::Failed => self,
        };
        let action = next.pending();
        (next, action)
    }
}


/// The message of a successful upload that made `chunks` chunks.
pub open spec fn upload_message(chunks: nat) -> Seq<char> {
    "文档上传成功，共分为 "@ + decimal(chunks) + " 个块"@
}

impl UploadDocumentResponse {
    /// The answer to an upload before a key is set.
    pub fn not_configured() -> (response: UploadDocumentResponse)
        ensures
            !response.success,
            response.message@ == "请先配置 API Key"@,
            response.document_id is None,
    {
        UploadDocumentResponse {
            success: false,
            message: "请先配置 API Key".to_owned(),
            document_id: None,
        }
    }

    /// The answer to an upload that went through.
    pub fn uploaded(receipt: IngestReceipt) -> (response: UploadDocumentResponse)
        ensures
            response.success,
            response.message@ == upload_message(receipt.chunk_count as nat),
            response.document_id is Some,
            response.document_id->0@ == receipt.document_id@,
    {
        let mut message = "文档上传成功，共分为 ".to_owned();
        push_decimal(&mut message, receipt.chunk_count);
        message.append(" 个块");
        UploadDocumentResponse { success: true, message, document_id: Some(receipt.document_id) }
    }
}

} // verus!
