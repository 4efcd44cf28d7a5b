//! Telling file formats apart and naming uploads that come from a path.

use crate::commands::document::UploadDocumentRequest;
use crate::db::models::optional_text;
use crate::trusted::{lower_case, to_lower_case};
use vstd::prelude::*;
use vstd::string::*;

verus! {

/// How a file's text is to be had.
#[derive(Debug, Clone, Copy, PartialEq, Eq, Structural)]
pub enum FileKind {
    /// The text is extracted from a PDF document.
    Pdf,
    /// The file is read as text.
    Text,
}

/// The kind of a file whose extension, in lower case, is `lowered`.
pub open spec fn kind_of(lowered: Seq<char>) -> FileKind {
    if lowered == "pdf"@ {
        FileKind::Pdf
    } else {
        FileKind::Text
    }
}

/// The kind of a file with the extension `extension`: a PDF document if
/// the extension is `pdf` in whatever case, and text otherwise.
pub fn file_kind(extension: &str) -> (kind: FileKind)
    ensures
        kind == kind_of(lower_case(extension@)),
{
    let lowered = to_lower_case(extension);
    let pdf = "pdf".to_owned();
    if lowered == pdf {
        FileKind::Pdf
    } else {
        FileKind::Text
    }
}

/// The name under which a file without a readable name is uploaded.
pub open spec fn unnamed_file() -> Seq<char> {
    "未知文件"@
}

/// The type tag of a file without a readable extension.
pub open spec fn unknown_type() -> Seq<char> {
    "unknown"@
}

/// The upload of a file read from a path: under its file name and with
/// its extension as type tag, each replaced by a stock text where the
/// path has none.
pub fn request_from_path(file_name: Option<String>, extension: Option<String>, content: String) -> (request:
    UploadDocumentRequest)
    ensures
        request.name@ == match file_name {
            Some(name) => name@,
            None => unnamed_file(),
        },
        optional_text(request.file_type) == Some(
            match extension {
                Some(tag) => tag@,
                None => unknown_type(),
            },
        ),
        request.content@ == content@,
{
    let name = match file_name {
        Some(name) => name,
        None => "未知文件".to_owned(),
    };
    let file_type = match extension {
        Some(tag) => tag,
        None => "unknown".to_owned(),
    };
    UploadDocumentRequest { name, content, file_type: Some(file_type) }
}

} // verus!
