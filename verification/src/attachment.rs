use vstd::prelude::*;
use crate::error::{is_validation, Error};
use crate::paths::{is_plain_name, joined_path, steps_elsewhere};

verus! {

/// A file stored with a node.
#[derive(Debug, Clone, PartialEq, Eq)]
pub struct Attachment {
    pub id: String,
    pub node_id: String,
    pub filename: String,
    pub mime_type: String,
    pub size_bytes: i64,
    pub file_path: String,
    pub created_at: String,
}

/// Why a file cannot be stored for `node_id` under `filename`, if it cannot:
/// each becomes one directory level under the attachment root, so each must
/// be one plain name.
pub open spec fn attachment_name_error(node_id: Seq<char>, filename: Seq<char>) -> Option<Seq<char>> {
    if !is_plain_name(node_id) {
        Some("Attachment node id must be a plain name"@)
    } else if !is_plain_name(filename) {
        Some("Attachment filename must be a plain file name"@)
    } else {
        None
    }
}

/// Where the file for `node_id` named `filename` is stored under the
/// attachment root `base`: `base/node_id/filename`.
pub open spec fn attachment_path_spec(base: Seq<char>, node_id: Seq<char>, filename: Seq<char>) -> Seq<
    char,
> {
    joined_path(joined_path(base, node_id), filename)
}

/// The directory and the file path for a new attachment, refused unless the
/// node id and the file name are plain names, so that no file lands outside
/// the node's own directory.
pub fn attachment_location(base: &str, node_id: &str, filename: &str) -> (r: Result<
    (String, String),
    Error,
>)
    ensures
        match attachment_name_error(node_id@, filename@) {
            Some(msg) => r matches Err(e) && is_validation(e, msg),
            None => r matches Ok((dir, path)) && dir@ == joined_path(base@, node_id@) && path@
                == attachment_path_spec(base@, node_id@, filename@),
        },
        steps_elsewhere(node_id@) || steps_elsewhere(filename@) ==> r is Err,
{
    if !crate::paths::plain_name(node_id) {
        return Err(crate::error::validation_error("Attachment node id must be a plain name"));
    }
    if !crate::paths::plain_name(filename) {
        return Err(crate::error::validation_error("Attachment filename must be a plain file name"));
    }
    let dir = crate::paths::join(base, node_id);
    let path = crate::paths::join(dir.as_str(), filename);
    Ok((dir, path))
}

/// The record of a file of `size` bytes stored at `file_path`.
pub fn new_attachment(
    id: String,
    node_id: &str,
    filename: &str,
    mime_type: &str,
    size: usize,
    file_path: String,
    created_at: String,
) -> (r: Attachment)
    requires
        size <= i64::MAX,
    ensures
        r.id == id,
        r.node_id@ == node_id@,
        r.filename@ == filename@,
        r.mime_type@ == mime_type@,
        r.size_bytes == size,
        r.file_path == file_path,
        r.created_at == created_at,
{
    Attachment {
        id,
        node_id: node_id.to_owned(),
        filename: filename.to_owned(),
        mime_type: mime_type.to_owned(),
        size_bytes: size as i64,
        file_path,
        created_at,
    }
}

} // verus!
