use vstd::prelude::*;
use crate::error::{is_validation, Error};
use crate::json::Json;
use crate::node::model::Position;
use crate::text::trim_seq;
use crate::time::Timestamp;

verus! {

/// A named search kept for later.
#[derive(Debug)]
pub struct SavedFilter {
    pub id: String,
    pub name: String,
    pub definition: Json,
    pub position: Position,
    pub created_at: Timestamp,
    pub updated_at: Timestamp,
}

/// The fields an update changes; `None` keeps a field.
#[derive(Debug)]
pub struct UpdateSavedFilterInput {
    pub name: Option<String>,
    pub definition: Option<Json>,
    pub position: Option<Position>,
}

/// A filter name as stored: trimmed, and refused when nothing is left.
pub fn clean_name(value: &str) -> (r: Result<String, Error>)
    ensures
        trim_seq(value@).len() == 0 ==> (r matches Err(e) && is_validation(
            e,
            "Saved filter name is required"@,
        )),
        trim_seq(value@).len() > 0 ==> (r matches Ok(t) && t@ == trim_seq(value@)),
{
    let clean = crate::text::trim(value);
    if clean.unicode_len() == 0 {
        return Err(crate::error::validation_error("Saved filter name is required"));
    }
    Ok(clean.to_owned())
}

/// `j` is a JSON object.
pub open spec fn is_object_json(j: Json) -> bool {
    j is Object
}

/// Refuses a definition that is not a JSON object.
pub fn validate_definition(value: &Json) -> (r: Result<(), Error>)
    ensures
        is_object_json(*value) ==> r is Ok,
        !is_object_json(*value) ==> (r matches Err(e) && is_validation(
            e,
            "Saved filter definition must be an object"@,
        )),
{
    if !value.is_object() {
        return Err(crate::error::validation_error("Saved filter definition must be an object"));
    }
    Ok(())
}

/// Why a new filter cannot be saved, if it cannot: its name first, then its
/// definition.
pub open spec fn create_filter_error(name: Seq<char>, definition: Json) -> Option<Seq<char>> {
    if trim_seq(name).len() == 0 {
        Some("Saved filter name is required"@)
    } else if !is_object_json(definition) {
        Some("Saved filter definition must be an object"@)
    } else {
        None
    }
}

/// Saves a new filter under `id` at `now` with the sort `position` it is
/// given: its name is trimmed and must not be empty, and its definition must
/// be an object.
pub fn plan_create_filter(
    name: &str,
    definition: Json,
    id: String,
    position: Position,
    now: Timestamp,
) -> (r: Result<SavedFilter, Error>)
    ensures
        match create_filter_error(name@, definition) {
            Some(msg) => r matches Err(e) && is_validation(e, msg),
            None => r matches Ok(f) && f.name@ == trim_seq(name@) && f.id == id && f.definition
                == definition && f.position == position && f.created_at == now && f.updated_at
                == now,
        },
{
    let clean = clean_name(name)?;
    validate_definition(&definition)?;
    Ok(SavedFilter { id, name: clean, definition, position, created_at: now, updated_at: now })
}

/// Applies an update at `now`: a new name is trimmed and must not be empty,
/// and the definition the filter ends with must be an object.
pub fn plan_update_filter(current: SavedFilter, input: UpdateSavedFilterInput, now: Timestamp) -> (r:
    Result<SavedFilter, Error>)
    ensures
        ({
            let def = match input.definition {
                Some(d) => d,
                None => current.definition,
            };
            let name_err = match input.name {
                Some(n) => trim_seq(n@).len() == 0,
                None => false,
            };
            &&& name_err ==> (r matches Err(e) && is_validation(
                e,
                "Saved filter name is required"@,
            ))
            &&& !name_err && !is_object_json(def) ==> (r matches Err(e) && is_validation(
                e,
                "Saved filter definition must be an object"@,
            ))
            &&& !name_err && is_object_json(def) ==> (r matches Ok(f) && f.id == current.id
                && f.name@ == match input.name {
                Some(n) => trim_seq(n@),
                None => current.name@,
            } && f.definition == def && f.position == match input.position {
                Some(p) => p,
                None => current.position,
            } && f.created_at == current.created_at && f.updated_at == now)
        }),
{
    let name = match input.name {
        Some(value) => clean_name(value.as_str())?,
        None => current.name,
    };
    let definition = match input.definition {
        Some(d) => d,
        None => current.definition,
    };
    validate_definition(&definition)?;
    let position = match input.position {
        Some(p) => p,
        None => current.position,
    };
    Ok(
        SavedFilter {
            id: current.id,
            name,
            definition,
            position,
            created_at: current.created_at,
            updated_at: now,
        },
    )
}

} // verus!
