//! What the durable store keeps: documents, their chunks, conversations,
//! their messages, and settings. Times are seconds since the Unix epoch.

use vstd::prelude::*;
use vstd::string::*;

verus! {

/// The text of an optional string.
pub open spec fn optional_text(text: Option<String>) -> Option<Seq<char>> {
    match text {
        Some(text) => Some(text@),
        None => None,
    }
}

/// A copy of an optional string.
pub fn clone_optional(text: &Option<String>) -> (copy: Option<String>)
    ensures
        optional_text(copy) == optional_text(*text),
{
    match text {
        Some(text) => Some(text.clone()),
        None => None,
    }
}

/// An uploaded document.
#[derive(Debug, PartialEq, Eq)]
pub struct Document {
    pub id: String,
    pub name: String,
    pub content: String,
    pub file_type: Option<String>,
    pub file_size: Option<i64>,
    pub created_at: i64,
    pub updated_at: i64,
}

/// What a document row holds.
pub struct DocumentRow {
    pub id: Seq<char>,
    pub name: Seq<char>,
    pub content: Seq<char>,
    pub file_type: Option<Seq<char>>,
    pub file_size: Option<i64>,
    pub created_at: i64,
    pub updated_at: i64,
}

impl View for Document {
    type V = DocumentRow;

    open spec fn view(&self) -> DocumentRow {
        DocumentRow {
            id: self.id@,
            name: self.name@,
            content: self.content@,
            file_type: optional_text(self.file_type),
            file_size: self.file_size,
            created_at: self.created_at,
            updated_at: self.updated_at,
        }
    }
}

impl Clone for Document {
    fn clone(&self) -> (copy: Document)
        ensures
            copy@ == self@,
    {
        Document {
            id: self.id.clone(),
            name: self.name.clone(),
            content: self.content.clone(),
            file_type: clone_optional(&self.file_type),
            file_size: self.file_size,
            created_at: self.created_at,
            updated_at: self.updated_at,
        }
    }
}

/// One passage of a document.
#[derive(Debug, PartialEq, Eq)]
pub struct Chunk {
    pub id: String,
    pub document_id: String,
    pub content: String,
    pub chunk_index: i64,
    pub created_at: i64,
}

/// What a chunk row holds.
pub struct ChunkRow {
    pub id: Seq<char>,
    pub document_id: Seq<char>,
    pub content: Seq<char>,
    pub chunk_index: i64,
    pub created_at: i64,
}

impl View for Chunk {
    type V = ChunkRow;

    open spec fn view(&self) -> ChunkRow {
        ChunkRow {
            id: self.id@,
            document_id: self.document_id@,
            content: self.content@,
            chunk_index: self.chunk_index,
            created_at: self.created_at,
        }
    }
}

impl Clone for Chunk {
    fn clone(&self) -> (copy: Chunk)
        ensures
            copy@ == self@,
    {
        Chunk {
            id: self.id.clone(),
            document_id: self.document_id.clone(),
            content: self.content.clone(),
            chunk_index: self.chunk_index,
            created_at: self.created_at,
        }
    }
}

/// The rows of a list of chunks, in order.
pub open spec fn chunk_rows(chunks: Seq<Chunk>) -> Seq<ChunkRow> {
    chunks.map_values(|chunk: Chunk| chunk@)
}

/// A conversation: a titled sequence of messages.
#[derive(Debug, PartialEq, Eq)]
pub struct Conversation {
    pub id: String,
    pub title: String,
    pub created_at: i64,
    pub updated_at: i64,
}

/// What a conversation row holds.
pub struct ConversationRow {
    pub id: Seq<char>,
    pub title: Seq<char>,
    pub created_at: i64,
    pub updated_at: i64,
}

impl View for Conversation {
    type V = ConversationRow;

    open spec fn view(&self) -> ConversationRow {
        ConversationRow {
            id: self.id@,
            title: self.title@,
            created_at: self.created_at,
            updated_at: self.updated_at,
        }
    }
}

impl Clone for Conversation {
    fn clone(&self) -> (copy: Conversation)
        ensures
            copy@ == self@,
    {
        Conversation {
            id: self.id.clone(),
            title: self.title.clone(),
            created_at: self.created_at,
            updated_at: self.updated_at,
        }
    }
}

/// One message of a conversation. `role` is `user` or `assistant`;
/// `sources` is a JSON list of document names.
#[derive(Debug, PartialEq, Eq)]
pub struct Message {
    pub id: String,
    pub conversation_id: String,
    pub role: String,
    pub content: String,
    pub sources: Option<String>,
    pub created_at: i64,
}

/// What a message row holds.
pub struct MessageRow {
    pub id: Seq<char>,
    pub conversation_id: Seq<char>,
    pub role: Seq<char>,
    pub content: Seq<char>,
    pub sources: Option<Seq<char>>,
    pub created_at: i64,
}

impl View for Message {
    type V = MessageRow;

    open spec fn view(&self) -> MessageRow {
        MessageRow {
            id: self.id@,
            conversation_id: self.conversation_id@,
            role: self.role@,
            content: self.content@,
            sources: optional_text(self.sources),
            created_at: self.created_at,
        }
    }
}

impl Clone for Message {
    fn clone(&self) -> (copy: Message)
        ensures
            copy@ == self@,
    {
        Message {
            id: self.id.clone(),
            conversation_id: self.conversation_id.clone(),
            role: self.role.clone(),
            content: self.content.clone(),
            sources: clone_optional(&self.sources),
            created_at: self.created_at,
        }
    }
}

/// One stored setting.
#[derive(Debug, PartialEq, Eq)]
pub struct Setting {
    pub key: String,
    pub value: String,
    pub updated_at: i64,
}

/// What a setting row holds.
pub struct SettingRow {
    pub key: Seq<char>,
    pub value: Seq<char>,
    pub updated_at: i64,
}

impl View for Setting {
    type V = SettingRow;

    open spec fn view(&self) -> SettingRow {
        SettingRow { key: self.key@, value: self.value@, updated_at: self.updated_at }
    }
}

impl Clone for Setting {
    fn clone(&self) -> (copy: Setting)
        ensures
            copy@ == self@,
    {
        Setting { key: self.key.clone(), value: self.value.clone(), updated_at: self.updated_at }
    }
}

} // verus!
