//! Putting a history entry back on the clipboard: what is to be written is
//! decided here, the writing itself is the host's.
use crate::db::{get_record_value, is_literal, value_outcome, Database, StoreError};
use crate::encoding::{base64_bytes, from_base64};
use crate::text::{escaped, push_escaped};
use vstd::prelude::*;
use vstd::string::*;

verus! {

/// The history entry that the user chose.
#[derive(Debug, Clone, PartialEq, Eq)]
pub struct RecordInput {
    pub id: i64,
    pub record_type: String,
    pub value: String,
}

/// What the host is to put on the clipboard.
#[derive(Debug, Clone, PartialEq, Eq)]
pub enum ClipboardWrite {
    /// This text.
    Text(String),
    /// The image with these bytes.
    Image(Vec<u8>),
    /// The file at this path.
    File(String),
}

/// The mathematical content of a [`ClipboardWrite`].
pub enum ClipboardWriteView {
    Text(Seq<char>),
    Image(Seq<u8>),
    File(Seq<char>),
}

impl View for ClipboardWrite {
    type V = ClipboardWriteView;

    open spec fn view(&self) -> ClipboardWriteView {
        match self {
            ClipboardWrite::Text(t) => ClipboardWriteView::Text(t@),
            ClipboardWrite::Image(b) => ClipboardWriteView::Image(b@),
            ClipboardWrite::File(p) => ClipboardWriteView::File(p@),
        }
    }
}

/// Why nothing can be written for the chosen entry.
#[derive(Debug, Clone, PartialEq, Eq)]
pub enum ChooseError {
    /// The image's full value could not be had from the store.
    Store(StoreError),
    /// The stored value of the image is no valid base64.
    InvalidImage,
    /// The entry's type is none of `text`, `image`, `file`.
    Unsupported(String),
}

/// The mathematical content of a [`ChooseError`].
pub enum ChooseErrorView {
    Store(StoreError),
    InvalidImage,
    Unsupported(Seq<char>),
}

impl View for ChooseError {
    type V = ChooseErrorView;

    open spec fn view(&self) -> ChooseErrorView {
        match self {
            ChooseError::Store(e) => ChooseErrorView::Store(*e),
            ChooseError::InvalidImage => ChooseErrorView::InvalidImage,
            ChooseError::Unsupported(t) => ChooseErrorView::Unsupported(t@),
        }
    }
}

/// The full value of row `id` in the store that the slot holds, if any.
pub open spec fn full_value(slot: Option<Database>, id: i64) -> Result<Seq<char>, StoreError> {
    match slot {
        Some(db) => value_outcome(db@.rows, id),
        None => Err(StoreError::NotInitialized),
    }
}

/// What is written for an entry: text and file paths as they are; for an
/// image the bytes that its full stored value encodes.
pub open spec fn chosen(slot: Option<Database>, record: RecordInput) -> Result<
    ClipboardWriteView,
    ChooseErrorView,
> {
    if record.record_type@ == "text"@ {
        Ok(ClipboardWriteView::Text(record.value@))
    } else if record.record_type@ == "image"@ {
        match full_value(slot, record.id) {
            Ok(full) => match base64_bytes(full) {
                Some(bytes) => Ok(ClipboardWriteView::Image(bytes)),
                None => Err(ChooseErrorView::InvalidImage),
            },
            Err(e) => Err(ChooseErrorView::Store(e)),
        }
    } else if record.record_type@ == "file"@ {
        Ok(ClipboardWriteView::File(record.value@))
    } else {
        Err(ChooseErrorView::Unsupported(record.record_type@))
    }
}

/// Decides what to put on the clipboard for the chosen entry; see
/// [`chosen`].  An image entry needs the store, where its full value lives.
pub fn choose_record(slot: &Option<Database>, record: RecordInput) -> (result: Result<
    ClipboardWrite,
    ChooseError,
>)
    ensures
        match result {
            Ok(w) => chosen(*slot, record) == Ok::<ClipboardWriteView, ChooseErrorView>(w@),
            Err(e) => chosen(*slot, record) == Err::<ClipboardWriteView, ChooseErrorView>(e@),
        },
{
    if is_literal(&record.record_type, "text") {
        Ok(ClipboardWrite::Text(record.value))
    } else if is_literal(&record.record_type, "image") {
        match get_record_value(slot, record.id) {
            Ok(full) => match from_base64(full.as_str()) {
                Some(bytes) => Ok(ClipboardWrite::Image(bytes)),
                None => Err(ChooseError::InvalidImage),
            },
            Err(e) => Err(ChooseError::Store(e)),
        }
    } else if is_literal(&record.record_type, "file") {
        Ok(ClipboardWrite::File(record.value))
    } else {
        Err(ChooseError::Unsupported(record.record_type))
    }
}

/// The AppleScript line that puts the file at `path` on the clipboard: the
/// path stands between double quotes, each double quote in it escaped by a
/// backslash.
pub open spec fn script_text(path: Seq<char>) -> Seq<char> {
    "set the clipboard to (POSIX file \""@ + escaped(path, '"', '\\') + "\")"@
}

/// The script for the file at the absolute path `path`; see [`script_text`].
pub fn file_script(path: &str) -> (script: String)
    ensures
        script@ == script_text(path@),
{
    let mut script = "set the clipboard to (POSIX file \"".to_owned();
    push_escaped(&mut script, path, '"', '\\');
    script.append("\")");
    script
}

impl ChooseError {
    /// The error as a message for the user.
    pub fn message(&self) -> (text: String)
        ensures
            text@ == match self@ {
                ChooseErrorView::Store(e) => e.message_text(),
                ChooseErrorView::InvalidImage => "Failed to decode base64"@,
                ChooseErrorView::Unsupported(t) => "Unsupported record type: "@ + t,
            },
    {
        match self {
            ChooseError::Store(e) => e.message(),
            ChooseError::InvalidImage => "Failed to decode base64".to_owned(),
            ChooseError::Unsupported(t) => {
                let mut text = "Unsupported record type: ".to_owned();
                text.append(t.as_str());
                text
            },
        }
    }
}

} // verus!
