//! A report on the state of the credential file, for finding out why a
//! write did not arrive.

use crate::json::{json_members, lemma_json_object_view, JsonNumber, JsonTree, JsonValue, NumberModel};
use crate::text::{trim, trimmed};
use vstd::prelude::*;
use vstd::utf8::encode_utf8;

verus! {

/// What was found at the path of a file.
#[derive(Debug, PartialEq)]
pub enum FileState {
    /// No file is there.
    Missing,
    /// The file and its content.
    Content(String),
    /// The file is there but could not be read; the system's message.
    Unreadable(String),
}

/// The report on the file at `path`: always the path and whether the file
/// exists; for a readable file its length in bytes, whether it is blank,
/// and its content; for an unreadable one the message.
pub open spec fn file_report(path: Seq<char>, state: FileState) -> JsonTree {
    match state {
        FileState::Missing => JsonTree::Object(
            seq![("path"@, JsonTree::String(path)), ("exists"@, JsonTree::Bool(false))],
        ),
        FileState::Content(content) => JsonTree::Object(
            seq![
                ("path"@, JsonTree::String(path)),
                ("exists"@, JsonTree::Bool(true)),
                (
                    "len"@,
                    JsonTree::Number(
                        NumberModel::PosInt((encode_utf8(content@).len() as usize) as u64),
                    ),
                ),
                ("trimmed_empty"@, JsonTree::Bool(trimmed(content@).len() == 0)),
                ("content"@, JsonTree::String(content@)),
            ],
        ),
        FileState::Unreadable(message) => JsonTree::Object(
            seq![
                ("path"@, JsonTree::String(path)),
                ("exists"@, JsonTree::Bool(true)),
                ("read_error"@, JsonTree::String(message@)),
            ],
        ),
    }
}

/// Builds the report on the credential file at `path`.
pub fn debug_credentials_info(path: &str, state: &FileState) -> (r: JsonValue)
    ensures
        r@ == file_report(path@, *state),
{
    let mut members: Vec<(String, JsonValue)> = Vec::new();
    members.push(("path".to_owned(), JsonValue::String(path.to_owned())));
    match state {
        FileState::Missing => {
            members.push(("exists".to_owned(), JsonValue::Bool(false)));
        },
        FileState::Content(content) => {
            let len = content.as_str().len();
            let blank = trim(content.as_str()).is_empty();
            members.push(("exists".to_owned(), JsonValue::Bool(true)));
            members.push(("len".to_owned(), JsonValue::Number(JsonNumber::PosInt(len as u64))));
            members.push(("trimmed_empty".to_owned(), JsonValue::Bool(blank)));
            members.push(("content".to_owned(), JsonValue::String(content.clone())));
        },
        FileState::Unreadable(message) => {
            members.push(("exists".to_owned(), JsonValue::Bool(true)));
            members.push(("read_error".to_owned(), JsonValue::String(message.clone())));
        },
    }
    proof {
        lemma_json_object_view(members);
        assert(json_members(members@) =~= file_report(path@, *state)->Object_0);
    }
    JsonValue::Object(members)
}

} // verus!
