//! The in-memory vector index: records, their metadata, and the store
//! that holds them in insertion order.

use crate::rag::ranking::{is_ranking, lemma_ranking_sorted, rank, score_at};
use vstd::prelude::*;
use vstd::string::*;

verus! {

/// The metadata key under which a record names the document it came from.
pub open spec fn document_id_key() -> Seq<char> {
    "document_id"@
}

/// The metadata key under which a record carries its document's display
/// name.
pub open spec fn document_name_key() -> Seq<char> {
    "document_name"@
}

/// The metadata key under which a record carries its position among the
/// chunks of its document.
pub open spec fn chunk_index_key() -> Seq<char> {
    "chunk_index"@
}

/// A metadata value: a text or a count.
#[derive(Debug, PartialEq, Eq)]
pub enum MetadataValue {
    Text(String),
    Number(u64),
}

/// What a metadata value is.
pub enum ValueModel {
    Text(Seq<char>),
    Number(u64),
}

impl View for MetadataValue {
    type V = ValueModel;

    open spec fn view(&self) -> ValueModel {
        match self {
            MetadataValue::Text(text) => ValueModel::Text(text@),
            MetadataValue::Number(number) => ValueModel::Number(*number),
        }
    }
}

impl Clone for MetadataValue {
    fn clone(&self) -> (copy: MetadataValue)
        ensures
            copy@ == self@,
    {
        match self {
            MetadataValue::Text(text) => MetadataValue::Text(text.clone()),
            MetadataValue::Number(number) => MetadataValue::Number(*number),
        }
    }
}

/// One named metadata value.
#[derive(Debug, PartialEq, Eq)]
pub struct MetadataEntry {
    pub key: String,
    pub value: MetadataValue,
}

/// What a metadata entry is.
pub struct EntryModel {
    pub key: Seq<char>,
    pub value: ValueModel,
}

impl View for MetadataEntry {
    type V = EntryModel;

    open spec fn view(&self) -> EntryModel {
        EntryModel { key: self.key@, value: self.value@ }
    }
}

impl Clone for MetadataEntry {
    fn clone(&self) -> (copy: MetadataEntry)
        ensures
            copy@ == self@,
    {
        MetadataEntry { key: self.key.clone(), value: self.value.clone() }
    }
}

/// The models of a list of entries, in order.
pub open spec fn entry_models(entries: Seq<MetadataEntry>) -> Seq<EntryModel> {
    entries.map_values(|entry: MetadataEntry| entry@)
}

/// The value that a list of entries gives to `key`: that of the first entry
/// with this key.
pub open spec fn value_at(entries: Seq<EntryModel>, key: Seq<char>) -> Option<ValueModel>
    decreases entries.len(),
{
    if entries.len() == 0 {
        None
    } else if entries[0].key == key {
        Some(entries[0].value)
    } else {
        value_at(entries.drop_first(), key)
    }
}

/// The text that a list of entries gives to `key`, if it gives one.
pub open spec fn text_at(entries: Seq<EntryModel>, key: Seq<char>) -> Option<Seq<char>> {
    match value_at(entries, key) {
        Some(ValueModel::Text(text)) => Some(text),
        _ => None,
    }
}

/// A record's metadata: named values, looked up by name.
#[derive(Debug, PartialEq, Eq)]
pub struct Metadata {
    pub entries: Vec<MetadataEntry>,
}

impl View for Metadata {
    type V = Seq<EntryModel>;

    open spec fn view(&self) -> Seq<EntryModel> {
        entry_models(self.entries@)
    }
}

impl Clone for Metadata {
    fn clone(&self) -> (copy: Metadata)
        ensures
            copy@ == self@,
    {
        let mut entries: Vec<MetadataEntry> = Vec::new();
        let mut i: usize = 0;
        while i < self.entries.len()
            invariant
                i <= self.entries@.len(),
                entry_models(entries@) == self@.take(i as int),
            decreases self.entries@.len() - i,
        {
            let entry = self.entries[i].clone();
            assert(entry@ == self@[i as int]);
            let ghost copied = entries@;
            entries.push(entry);
            i = i + 1;
            assert(entry_models(copied.push(entry)) =~= entry_models(copied).push(entry@));
            assert(self@.take(i as int) =~= self@.take(i - 1).push(self@[i - 1]));
        }
        assert(self@.take(i as int) =~= self@);
        Metadata { entries }
    }
}

impl Metadata {
    /// Metadata without any entry.
    pub fn new() -> (empty: Metadata)
        ensures
            empty@ == Seq::<EntryModel>::empty(),
    {
        let empty = Metadata { entries: Vec::new() };
        assert(empty@ =~= Seq::<EntryModel>::empty());
        empty
    }

    /// Adds a text under `key`, after the entries already there.
    pub fn with_text(self, key: &str, text: &str) -> (extended: Metadata)
        ensures
            extended@ == self@.push(EntryModel { key: key@, value: ValueModel::Text(text@) }),
    {
        let mut entries = self.entries;
        entries.push(MetadataEntry { key: key.to_owned(), value: MetadataValue::Text(text.to_owned()) });
        let extended = Metadata { entries };
        assert(extended@ =~= self@.push(EntryModel { key: key@, value: ValueModel::Text(text@) }));
        extended
    }

    /// Adds a count under `key`, after the entries already there.
    pub fn with_number(self, key: &str, number: u64) -> (extended: Metadata)
        ensures
            extended@ == self@.push(EntryModel { key: key@, value: ValueModel::Number(number) }),
    {
        let mut entries = self.entries;
        entries.push(MetadataEntry { key: key.to_owned(), value: MetadataValue::Number(number) });
        let extended = Metadata { entries };
        assert(extended@ =~= self@.push(EntryModel { key: key@, value: ValueModel::Number(number) }));
        extended
    }

    /// The text stored under `key`: `None` where the key is absent or its
    /// value is no text.
    pub fn text(&self, key: &str) -> (found: Option<&String>)
        ensures
            match found {
                Some(text) => text_at(self@, key@) == Some(text@),
                None => text_at(self@, key@) is None,
            },
    {
        let wanted = key.to_owned();
        let mut i: usize = 0;
        assert(self@.skip(0) =~= self@);
        while i < self.entries.len()
            invariant
                i <= self.entries@.len(),
                wanted@ == key@,
                value_at(self@, key@) == value_at(self@.skip(i as int), key@),
            decreases self.entries@.len() - i,
        {
            let entry = &self.entries[i];
            assert(self@.skip(i as int)[0] == entry@);
            assert(self@.skip(i as int).drop_first() =~= self@.skip(i + 1));
            if entry.key == wanted {
                return match &entry.value {
                    MetadataValue::Text(text) => Some(text),
                    MetadataValue::Number(_) => None,
                };
            }
            i = i + 1;
        }
        None
    }
}


/// One indexed passage: its text, its embedding and where it came from.
/// Each component of `embedding` is the bit pattern of a single-precision
/// number.
#[derive(Debug, PartialEq, Eq)]
pub struct VectorDocument {
    pub id: String,
    pub content: String,
    pub embedding: Vec<u32>,
    pub metadata: Metadata,
}

/// What a record is.
pub struct DocumentModel {
    pub id: Seq<char>,
    pub content: Seq<char>,
    pub embedding: Seq<u32>,
    pub metadata: Seq<EntryModel>,
}

impl View for VectorDocument {
    type V = DocumentModel;

    open spec fn view(&self) -> DocumentModel {
        DocumentModel {
            id: self.id@,
            content: self.content@,
            embedding: self.embedding@,
            metadata: self.metadata@,
        }
    }
}

impl Clone for VectorDocument {
    fn clone(&self) -> (copy: VectorDocument)
        ensures
            copy@ == self@,
    {
        VectorDocument {
            id: self.id.clone(),
            content: self.content.clone(),
            embedding: self.embedding.clone(),
            metadata: self.metadata.clone(),
        }
    }
}

/// Whether a record came from the document `document_id`: its metadata
/// names that document as a text.
pub open spec fn belongs_to(document: DocumentModel, document_id: Seq<char>) -> bool {
    text_at(document.metadata, document_id_key()) == Some(document_id)
}

impl VectorDocument {
    /// Whether this record came from the document `document_id`.
    pub fn belongs_to(&self, document_id: &String) -> (belongs: bool)
        ensures
            belongs == belongs_to(self@, document_id@),
    {
        match self.metadata.text("document_id") {
            Some(owner) => *owner == *document_id,
            None => false,
        }
    }

    /// The display name of the document this record came from, where its
    /// metadata carries one.
    pub fn document_name(&self) -> (name: Option<&String>)
        ensures
            match name {
                Some(text) => text_at(self@.metadata, document_name_key()) == Some(text@),
                None => text_at(self@.metadata, document_name_key()) is None,
            },
    {
        self.metadata.text("document_name")
    }
}

/// The models of a list of records, in order.
pub open spec fn document_models(documents: Seq<VectorDocument>) -> Seq<DocumentModel> {
    documents.map_values(|document: VectorDocument| document@)
}

/// The records that did not come from the document `document_id`.
pub open spec fn without_document(documents: Seq<DocumentModel>, document_id: Seq<char>) -> Seq<
    DocumentModel,
> {
    documents.filter(|document: DocumentModel| !belongs_to(document, document_id))
}

/// A record found by a search, with the score it was ranked by: a greater
/// score is a closer match.
#[derive(Debug, PartialEq, Eq)]
pub struct SearchResult {
    pub document: VectorDocument,
    pub similarity: i32,
}

/// Whether `hits` are the records at the places `order`, each with its
/// score.
pub open spec fn hits_follow(
    hits: Seq<SearchResult>,
    documents: Seq<DocumentModel>,
    scores: Seq<i32>,
    order: Seq<usize>,
) -> bool {
    &&& hits.len() == order.len()
    &&& forall|p: int|
        0 <= p < hits.len() ==> (#[trigger] hits[p]).document@ == documents[order[p] as int]
            && hits[p].similarity == score_at(scores, order[p] as int)
}

/// The records of the index, in the order in which they were inserted.
#[derive(Debug, PartialEq, Eq)]
pub struct VectorStore {
    documents: Vec<VectorDocument>,
}

impl View for VectorStore {
    type V = Seq<DocumentModel>;

    closed spec fn view(&self) -> Seq<DocumentModel> {
        document_models(self.documents@)
    }
}

impl VectorStore {
    /// An index without records.
    pub fn new() -> (store: VectorStore)
        ensures
            store@ == Seq::<DocumentModel>::empty(),
    {
        let store = VectorStore { documents: Vec::new() };
        assert(store@ =~= Seq::<DocumentModel>::empty());
        store
    }

    /// Appends one record.
    pub fn add_document(&mut self, doc: VectorDocument)
        ensures
            final(self)@ == old(self)@.push(doc@),
    {
        self.documents.push(doc);
        assert(self@ =~= old(self)@.push(doc@));
    }

    /// Appends records, keeping their order.
    pub fn add_documents(&mut self, new_docs: Vec<VectorDocument>)
        ensures
            final(self)@ == old(self)@ + document_models(new_docs@),
    {
        let mut incoming = new_docs;
        let ghost added = incoming@;
        self.documents.append(&mut incoming);
        assert(self@ =~= old(self)@ + document_models(added));
    }

    /// The best `top_k` records by score, best first and earlier records
    /// first among equals. `scores[i]` is the score of record `i`; a record
    /// that `scores` does not reach is ranked with score 0.
    pub fn search(&self, scores: &Vec<i32>, top_k: usize) -> (hits: Vec<SearchResult>)
        ensures
            hits@.len() == if top_k <= self@.len() {
                top_k as nat
            } else {
                self@.len()
            },
            exists|order: Seq<usize>|
                is_ranking(scores@, self@.len(), top_k as nat, order) && hits_follow(
                    hits@,
                    self@,
                    scores@,
                    order,
                ),
            forall|p: int, q: int|
                0 <= p < q < hits@.len() ==> (#[trigger] hits@[p]).similarity
                    >= (#[trigger] hits@[q]).similarity,
    {
        let order = rank(scores, self.documents.len(), top_k);
        let mut hits: Vec<SearchResult> = Vec::new();
        let mut p: usize = 0;
        while p < order.len()
            invariant
                p <= order@.len(),
                is_ranking(scores@, self@.len(), top_k as nat, order@),
                self@.len() == self.documents@.len(),
                hits_follow(hits@, self@, scores@, order@.take(p as int)),
            decreases order@.len() - p,
        {
            let place = order[p];
            let similarity = if place < scores.len() {
                scores[place]
            } else {
                0
            };
            let document = self.documents[place].clone();
            hits.push(SearchResult { document, similarity });
            p = p + 1;
        }
        proof {
            assert(order@.take(p as int) =~= order@);
            lemma_ranking_sorted(scores@, self@.len(), top_k as nat, order@);
        }
        hits
    }

    /// Removes every record that came from the document `document_id` and
    /// leaves the others as they are, in their order.
    pub fn remove_by_document_id(&mut self, document_id: &str)
        ensures
            final(self)@ == without_document(old(self)@, document_id@),
            forall|i: int|
                0 <= i < final(self)@.len() ==> !belongs_to(#[trigger] final(self)@[i], document_id@),
    {
        let wanted = document_id.to_owned();
        let mut all: Vec<VectorDocument> = Vec::new();
        core::mem::swap(&mut self.documents, &mut all);
        let mut kept: Vec<VectorDocument> = Vec::new();
        let ghost before = document_models(all@);
        let ghost keep = |document: DocumentModel| !belongs_to(document, document_id@);
        proof {
            reveal(Seq::filter);
            assert(document_models(kept@) =~= before.take(0).filter(keep));
        }
        for document in it: all
            invariant
                wanted@ == document_id@,
                before == document_models(it.seq()),
                keep == |document: DocumentModel| !belongs_to(document, document_id@),
                document_models(kept@) == before.take(it.index()).filter(keep),
        {
            proof {
                assert(before.take(it.index() + 1) =~= before.take(it.index()).push(document@));
                before.take(it.index()).lemma_filter_push(document@, keep);
            }
            if !document.belongs_to(&wanted) {
                let ghost kept_before = kept@;
                kept.push(document);
                assert(document_models(kept@) =~= document_models(kept_before).push(document@));
            }
        }
        self.documents = kept;
        proof {
            assert(before.take(before.len() as int) =~= before);
            assert forall|i: int| 0 <= i < self@.len() implies !belongs_to(
                #[trigger] self@[i],
                document_id@,
            ) by {
                before.lemma_filter_pred(keep, i);
            }
        }
    }

    /// Removes every record.
    pub fn clear(&mut self)
        ensures
            final(self)@ == Seq::<DocumentModel>::empty(),
    {
        self.documents.clear();
        assert(self@ =~= Seq::<DocumentModel>::empty());
    }

    /// The number of records.
    pub fn len(&self) -> (count: usize)
        ensures
            count == self@.len(),
    {
        self.documents.len()
    }

    /// Whether the index holds no record.
    pub fn is_empty(&self) -> (empty: bool)
        ensures
            empty == (self@.len() == 0),
    {
        self.documents.len() == 0
    }

    /// The records, in insertion order.
    pub fn documents(&self) -> (documents: &Vec<VectorDocument>)
        ensures
            document_models(documents@) == self@,
    {
        &self.documents
    }

    /// Replaces whatever the index holds by `documents`.
    pub fn restore(&mut self, documents: Vec<VectorDocument>)
        ensures
            final(self)@ == document_models(documents@),
    {
        self.documents = documents;
    }
}

impl Default for VectorStore {
    fn default() -> (store: VectorStore)
        ensures
            store@ == Seq::<DocumentModel>::empty(),
    {
        VectorStore::new()
    }
}

} // verus!
