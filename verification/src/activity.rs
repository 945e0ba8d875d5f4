use vstd::prelude::*;
use crate::json::{Json, JsonView};
use crate::json_text::{json_or_null, parsed_json};

verus! {

/// The changes an activity entry records, read from their stored text; text
/// that is not JSON reads as `null`.
pub fn activity_changes(raw: &str) -> (r: Json)
    ensures
        r@ == match parsed_json(raw@) {
            Some(v) => v,
            None => JsonView::Null,
        },
{
    json_or_null(raw)
}

} // verus!
