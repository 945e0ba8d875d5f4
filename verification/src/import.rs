use vstd::prelude::*;
use crate::error::{is_validation, Error};
use crate::json::{
    json_view, keys_unique, members_map, view_get, wf_if_object, Json, JsonMember, JsonNumber,
    JsonView,
};

verus! {

/// The `format` a transfer document names itself with.
pub const EXPORT_FORMAT: &'static str = "io.github.hex1mal.doyo.transfer";

/// The only transfer version this build reads and writes.
pub const SUPPORTED_VERSION: u64 = 1;

/// The text under `field`, when `v` is an object holding a string there.
pub open spec fn field_str(v: JsonView, field: Seq<char>) -> Option<Seq<char>> {
    match view_get(v, field) {
        Some(JsonView::Str(s)) => Some(s),
        _ => None,
    }
}

/// The view of an optional string.
pub open spec fn opt_string_view(o: Option<String>) -> Option<Seq<char>> {
    match o {
        Some(s) => Some(s@),
        None => None,
    }
}

/// The text stored under `field`, if `value` holds a string there.
pub fn optional_string(value: &Json, field: &str) -> (r: Option<String>)
    requires
        wf_if_object(*value),
    ensures
        opt_string_view(r) == field_str(value@, field@),
{
    match value.get(field) {
        Some(v) => v.as_string(),
        None => None,
    }
}

/// The message for a missing required field.
pub open spec fn missing_field_message(field: Seq<char>) -> Seq<char> {
    "Missing required field: "@ + field
}

/// The text stored under `field`, which must be there.
pub fn required_string(value: &Json, field: &str) -> (r: Result<String, Error>)
    requires
        wf_if_object(*value),
    ensures
        match field_str(value@, field@) {
            Some(s) => r matches Ok(t) && t@ == s,
            None => r matches Err(e) && is_validation(e, missing_field_message(field@)),
        },
{
    match optional_string(value, field) {
        Some(s) => Ok(s),
        None => {
            let msg = crate::backup::concat2("Missing required field: ", field);
            proof {
                reveal_strlit("Missing required field: ");
            }
            Err(Error::Validation(msg))
        },
    }
}

/// The text stored under `field`, or `fallback`.
pub fn text_field(value: &Json, field: &str, fallback: &str) -> (r: String)
    requires
        wf_if_object(*value),
    ensures
        r@ == match field_str(value@, field@) {
            Some(s) => s,
            None => fallback@,
        },
{
    match optional_string(value, field) {
        Some(s) => s,
        None => fallback.to_owned(),
    }
}

/// The text under the first of `fields` that holds one.
pub open spec fn first_field_str(v: JsonView, fields: Seq<&str>) -> Option<Seq<char>>
    decreases fields.len(),
{
    if fields.len() == 0 {
        None
    } else {
        match field_str(v, fields[0]@) {
            Some(s) => Some(s),
            None => first_field_str(v, fields.drop_first()),
        }
    }
}

/// The text under the first of `fields` that holds one, or `fallback`.
pub fn text_field_any(value: &Json, fields: &[&str], fallback: &str) -> (r: String)
    requires
        wf_if_object(*value),
    ensures
        r@ == match first_field_str(value@, fields@) {
            Some(s) => s,
            None => fallback@,
        },
{
    let mut i: usize = 0;
    assert(fields@.skip(0) =~= fields@);
    while i < fields.len()
        invariant
            wf_if_object(*value),
            i <= fields@.len(),
            first_field_str(value@, fields@) == first_field_str(value@, fields@.skip(i as int)),
        decreases fields.len() - i,
    {
        proof {
            assert(fields@.skip(i as int)[0] == fields@[i as int]);
            assert(fields@.skip(i as int).drop_first() =~= fields@.skip(i + 1));
        }
        if let Some(s) = optional_string(value, fields[i]) {
            return s;
        }
        i = i + 1;
    }
    fallback.to_owned()
}

/// `serde_json::Value::as_i64` of a number.
pub open spec fn number_as_i64(n: JsonNumber) -> Option<i64> {
    match n {
        JsonNumber::PosInt(u) => if u <= i64::MAX {
            Some(u as i64)
        } else {
            None
        },
        JsonNumber::NegInt(i) => Some(i),
        JsonNumber::Float(_) => None,
    }
}

/// The whole number stored under `field`, when it fits an `i64`.
pub open spec fn field_i64(v: JsonView, field: Seq<char>) -> Option<i64> {
    match view_get(v, field) {
        Some(JsonView::Number(n)) => number_as_i64(n),
        _ => None,
    }
}

/// `serde_json::Value::as_i64` of a number.
pub fn as_i64(n: &JsonNumber) -> (r: Option<i64>)
    ensures
        r == number_as_i64(*n),
{
    match n {
        JsonNumber::PosInt(u) => if *u <= i64::MAX as u64 {
            Some(*u as i64)
        } else {
            None
        },
        JsonNumber::NegInt(i) => Some(*i),
        JsonNumber::Float(_) => None,
    }
}

/// The whole number stored under `field`, or `fallback`.
pub fn integer_field(value: &Json, field: &str, fallback: i64) -> (r: i64)
    requires
        wf_if_object(*value),
    ensures
        r == match field_i64(value@, field@) {
            Some(n) => n,
            None => fallback,
        },
{
    match value.get(field) {
        Some(Json::Number(n)) => match as_i64(n) {
            Some(i) => i,
            None => fallback,
        },
        _ => fallback,
    }
}

/// A flag read from a value: a boolean as it is, a number as whether it is a
/// non-zero whole number.
pub open spec fn flag_of(v: JsonView) -> Option<bool> {
    match v {
        JsonView::Bool(b) => Some(b),
        JsonView::Number(n) => Some(
            match number_as_i64(n) {
                Some(i) => i != 0,
                None => false,
            },
        ),
        _ => None,
    }
}

/// The flag stored under `snake`, or else under `camel`; false when neither
/// key is there or the value is no flag.
pub open spec fn bool_field_spec(v: JsonView, snake: Seq<char>, camel: Seq<char>) -> bool {
    let found = match view_get(v, snake) {
        Some(x) => Some(x),
        None => view_get(v, camel),
    };
    match found {
        Some(x) => match flag_of(x) {
            Some(b) => b,
            None => false,
        },
        None => false,
    }
}

/// The flag stored under `snake`, or else under `camel`.
pub fn bool_field(value: &Json, snake: &str, camel: &str) -> (r: bool)
    requires
        wf_if_object(*value),
    ensures
        r == bool_field_spec(value@, snake@, camel@),
{
    let found = match value.get(snake) {
        Some(x) => Some(x),
        None => value.get(camel),
    };
    match found {
        Some(Json::Bool(b)) => *b,
        Some(Json::Number(n)) => match as_i64(n) {
            Some(i) => i != 0,
            None => false,
        },
        _ => false,
    }
}

/// The items of an optional array; nothing for a missing one, and an error
/// for anything that is no array.
pub fn array_or_empty(value: Option<&Json>) -> (r: Result<Option<&Vec<Json>>, Error>)
    ensures
        match value {
            None => r == Ok::<Option<&Vec<Json>>, Error>(None),
            Some(Json::Array(items)) => r == Ok::<Option<&Vec<Json>>, Error>(Some(&items)),
            Some(_) => r matches Err(e) && is_validation(e, "Expected an array in JSON export data"@),
        },
{
    match value {
        None => Ok(None),
        Some(Json::Array(items)) => Ok(Some(items)),
        Some(_) => Err(crate::error::validation_error("Expected an array in JSON export data")),
    }
}

/// The `format` a document names, or nothing.
pub open spec fn document_format(v: JsonView) -> Seq<char> {
    match field_str(v, "format"@) {
        Some(s) => s,
        None => Seq::empty(),
    }
}

/// The `version` a document names, as a whole number (zero where it names
/// none).
pub open spec fn document_version(v: JsonView) -> u64 {
    match view_get(v, "version"@) {
        Some(JsonView::Number(JsonNumber::PosInt(n))) => n,
        _ => 0,
    }
}

/// The transfer data that a plain list of nodes (the older export) stands
/// for: those nodes, and nothing else.
pub open spec fn nodes_only_data(nodes: JsonView) -> JsonView {
    JsonView::Object(
        Map::empty().insert("nodes"@, nodes).insert("tags"@, JsonView::Array(Seq::empty())).insert(
            "nodeTags"@,
            JsonView::Array(Seq::empty()),
        ).insert("timeBlocks"@, JsonView::Array(Seq::empty())).insert(
            "habits"@,
            JsonView::Array(Seq::empty()),
        ).insert("habitLogs"@, JsonView::Array(Seq::empty())).insert(
            "countdowns"@,
            JsonView::Array(Seq::empty()),
        ).insert("focusSessions"@, JsonView::Array(Seq::empty())),
    )
}

/// The message for a document of another format.
pub open spec fn wrong_format_message() -> Seq<char> {
    "Unsupported JSON export format: expected io.github.hex1mal.doyo.transfer"@
}

/// The message for a document of another version.
pub open spec fn wrong_version_message(version: u64) -> Seq<char> {
    "Unsupported JSON export version: "@ + crate::text::decimal_seq(version as nat)
}

/// An empty JSON array.
fn empty_array() -> (r: Json)
    ensures
        r@ == JsonView::Array(Seq::empty()),
{
    let items: Vec<Json> = Vec::new();
    proof {
        assert(crate::json::items_view(items@) =~= Seq::<JsonView>::empty());
    }
    Json::Array(items)
}

/// Appends the member `key: value` to an object's members.
fn push_member(members: &mut Vec<JsonMember>, key: &str, value: Json)
    ensures
        members_map(final(members)@) == members_map(old(members)@).insert(key@, value@),
{
    let ghost before = members@;
    let m = JsonMember { key: key.to_owned(), value };
    proof {
        crate::json::lemma_members_map_push(before, m);
    }
    members.push(m);
}

/// The transfer data of a document: a plain list of nodes stands for those
/// nodes alone; otherwise the document must name this format and version and
/// hold its `data`.
pub fn normalize_transfer_data(document: Json) -> (r: Result<Json, Error>)
    requires
        wf_if_object(document),
    ensures
        document@ is Array ==> (r matches Ok(d) && d@ == nodes_only_data(document@)),
        !(document@ is Array) ==> if document_format(document@) != EXPORT_FORMAT@ {
            r matches Err(e) && is_validation(e, wrong_format_message())
        } else if document_version(document@) != SUPPORTED_VERSION {
            r matches Err(e) && is_validation(e, wrong_version_message(document_version(document@)))
        } else {
            match view_get(document@, "data"@) {
                Some(d) => r matches Ok(x) && x@ == d,
                None => r matches Err(e) && is_validation(e, "JSON export is missing data"@),
            }
        },
{
    if let Json::Array(items) = document {
        let ghost whole = JsonView::Array(crate::json::items_view(items@));
        let mut members: Vec<JsonMember> = Vec::new();
        push_member(&mut members, "nodes", Json::Array(items));
        push_member(&mut members, "tags", empty_array());
        push_member(&mut members, "nodeTags", empty_array());
        push_member(&mut members, "timeBlocks", empty_array());
        push_member(&mut members, "habits", empty_array());
        push_member(&mut members, "habitLogs", empty_array());
        push_member(&mut members, "countdowns", empty_array());
        push_member(&mut members, "focusSessions", empty_array());
        let out = Json::Object(members);
        proof {
            assert(members_map(Seq::<JsonMember>::empty()) =~= Map::empty());
        }
        return Ok(out);
    }
    let format_ok = match document.get("format") {
        Some(Json::Str(s)) => crate::text::str_eq(s.as_str(), EXPORT_FORMAT),
        _ => false,
    };
    proof {
        reveal_strlit("io.github.hex1mal.doyo.transfer");
        assert(EXPORT_FORMAT@.len() > 0);
    }
    if !format_ok {
        return Err(
            crate::error::validation_error(
                "Unsupported JSON export format: expected io.github.hex1mal.doyo.transfer",
            ),
        );
    }
    let version: u64 = match document.get("version") {
        Some(Json::Number(JsonNumber::PosInt(n))) => *n,
        _ => 0,
    };
    if version != SUPPORTED_VERSION {
        let digits = crate::text::u64_to_decimal(version);
        let msg = crate::backup::concat2("Unsupported JSON export version: ", digits.as_str());
        proof {
            reveal_strlit("Unsupported JSON export version: ");
        }
        return Err(Error::Validation(msg));
    }
    match document {
        Json::Object(mut members) => {
            let found = crate::json::find_member(&members, "data");
            proof {
                crate::json::lemma_members_map_domain(members@, "data"@);
            }
            match found {
                Some(i) => {
                    proof {
                        crate::json::lemma_members_map_value(members@, i as int);
                    }
                    let m = members.remove(i);
                    Ok(m.value)
                },
                None => Err(crate::error::validation_error("JSON export is missing data")),
            }
        },
        _ => Err(crate::error::validation_error("JSON export is missing data")),
    }
}

/// What reading transfer data from the document `doc` gives: the data, or
/// the message of the validation error.
pub open spec fn transfer_outcome(doc: JsonView) -> Result<JsonView, Seq<char>> {
    if doc is Array {
        Ok(nodes_only_data(doc))
    } else if document_format(doc) != EXPORT_FORMAT@ {
        Err(wrong_format_message())
    } else if document_version(doc) != SUPPORTED_VERSION {
        Err(wrong_version_message(document_version(doc)))
    } else {
        match view_get(doc, "data"@) {
            Some(d) => Ok(d),
            None => Err("JSON export is missing data"@),
        }
    }
}

/// Reads the transfer data from the text of an exported document: text that
/// is no JSON fails with `Error::Json`; otherwise the document is read as
/// `normalize_transfer_data` reads it.
pub fn read_transfer_data(text: &str) -> (r: Result<Json, Error>)
    ensures
        crate::json_text::parsed_json(text@) is None ==> r matches Err(Error::Json(_)),
        crate::json_text::parsed_json(text@) matches Some(doc) ==> match transfer_outcome(doc) {
            Ok(d) => r matches Ok(x) && x@ == d,
            Err(m) => r matches Err(e) && is_validation(e, m),
        },
{
    match crate::json_text::parse_json(text) {
        Err(m) => Err(Error::Json(m)),
        Ok(document) => normalize_transfer_data(document),
    }
}

/// Whether every entry of `nodes` can be read as an object.
pub fn entries_are_wf(nodes: &Vec<Json>) -> (r: bool)
    ensures
        r == entries_wf(nodes@),
{
    let mut i: usize = 0;
    while i < nodes.len()
        invariant
            i <= nodes@.len(),
            forall|k: int| 0 <= k < i ==> wf_if_object(#[trigger] nodes@[k]),
        decreases nodes.len() - i,
    {
        if !crate::json::is_wf(&nodes[i]) {
            return false;
        }
        i = i + 1;
    }
    true
}

} // verus!

verus! {

/// A node an import places: the index of its entry in the imported list, its
/// id there, the id it is stored under, and the stored id of its parent.
#[derive(Debug, Clone)]
pub struct PlacedNode {
    pub source: usize,
    pub old_id: String,
    pub new_id: String,
    pub parent_id: Option<String>,
}

/// What a placed node stands for.
pub struct PlacedSpec {
    pub source: int,
    pub old: Seq<char>,
    pub new: Seq<char>,
    pub parent: Option<Seq<char>>,
}

/// The meaning of a placed node.
pub open spec fn placed_spec(p: PlacedNode) -> PlacedSpec {
    PlacedSpec {
        source: p.source as int,
        old: p.old_id@,
        new: p.new_id@,
        parent: opt_string_view(p.parent_id),
    }
}

/// The meanings of placed nodes, in order.
pub open spec fn placed_specs(ps: Seq<PlacedNode>) -> Seq<PlacedSpec> {
    ps.map_values(|p: PlacedNode| placed_spec(p))
}

/// The stored id of the node imported as `old`, if one was placed.
pub open spec fn lookup(order: Seq<PlacedSpec>, old: Seq<char>) -> Option<Seq<char>>
    decreases order.len(),
{
    if order.len() == 0 {
        None
    } else if order.last().old == old {
        Some(order.last().new)
    } else {
        lookup(order.drop_last(), old)
    }
}

/// Whether some entry of the imported list has the id `id`.
pub open spec fn is_original(nodes: Seq<Json>, id: Seq<char>) -> bool {
    exists|i: int| 0 <= i < nodes.len() && field_str(#[trigger] nodes[i]@, "id"@) == Some(id)
}

/// The parent an entry names, under either spelling of the key.
pub open spec fn old_parent(v: JsonView) -> Option<Seq<char>> {
    match field_str(v, "parent_id"@) {
        Some(p) => Some(p),
        None => field_str(v, "parentId"@),
    }
}

/// What becomes of one entry when its turn comes.
pub enum ImportStep {
    /// An entry with an id already placed: left out.
    Skip,
    /// An entry whose parent is in the list but not placed yet: tried again
    /// in the next round.
    Defer,
    /// The entry is placed under this stored parent.
    Place(Option<Seq<char>>),
    /// The import fails with this message.
    Fail(Seq<char>),
}

/// The message for an entry of an unknown type.
pub open spec fn unknown_type_message(t: Seq<char>) -> Seq<char> {
    "Unsupported node type in import: "@ + t
}

/// The message for a workspace imported under another node.
pub open spec fn nested_workspace_message() -> Seq<char> {
    "Cannot import a Workspace under another node. Import this JSON at the root instead."@
}

/// The message for parents that never resolve.
pub open spec fn unresolved_parent_message() -> Seq<char> {
    "Import contains a circular or unresolved node parent relationship"@
}

/// What becomes of the entry `v` with the nodes in `order` placed: its parent
/// is the placed parent, or it waits for a parent still in the list, or it
/// goes under `dest` when it names no parent or one outside the list.
pub open spec fn node_step(
    v: JsonView,
    order: Seq<PlacedSpec>,
    nodes: Seq<Json>,
    dest: Option<Seq<char>>,
) -> ImportStep {
    match field_str(v, "id"@) {
        None => ImportStep::Fail(missing_field_message("id"@)),
        Some(id) => if lookup(order, id) is Some {
            ImportStep::Skip
        } else {
            let target: Option<Option<Seq<char>>> = match old_parent(v) {
                Some(p) => match lookup(order, p) {
                    Some(np) => Some(Some(np)),
                    None => if is_original(nodes, p) {
                        None
                    } else {
                        Some(dest)
                    },
                },
                None => Some(dest),
            };
            match target {
                None => ImportStep::Defer,
                Some(parent) => match field_str(v, "type"@) {
                    None => ImportStep::Fail(missing_field_message("type"@)),
                    Some(t) => match crate::node::model::parse_node_type(t) {
                        None => ImportStep::Fail(unknown_type_message(t)),
                        Some(nt) => if dest is Some && old_parent(v) is None && nt
                            == crate::node::model::NodeType::Workspace {
                            ImportStep::Fail(nested_workspace_message())
                        } else {
                            ImportStep::Place(parent)
                        },
                    },
                },
            }
        },
    }
}

/// One round over the entries `pending` (indices into `nodes`), in order:
/// the entries left for the next round and the nodes placed so far, or the
/// failure.
pub open spec fn run_round(
    pending: Seq<int>,
    order: Seq<PlacedSpec>,
    nodes: Seq<Json>,
    dest: Option<Seq<char>>,
    ids: Seq<Seq<char>>,
) -> Result<(Seq<int>, Seq<PlacedSpec>), Seq<char>>
    decreases pending.len(),
{
    if pending.len() == 0 {
        Ok((Seq::empty(), order))
    } else {
        match run_round(pending.drop_last(), order, nodes, dest, ids) {
            Err(m) => Err(m),
            Ok((deferred, o)) => {
                let idx = pending.last();
                let v = nodes[idx]@;
                match node_step(v, o, nodes, dest) {
                    ImportStep::Skip => Ok((deferred, o)),
                    ImportStep::Defer => Ok((deferred.push(idx), o)),
                    ImportStep::Fail(m) => Err(m),
                    ImportStep::Place(parent) => Ok(
                        (
                            deferred,
                            o.push(
                                PlacedSpec {
                                    source: idx,
                                    old: field_str(v, "id"@)->0,
                                    new: ids[o.len() as int],
                                    parent,
                                },
                            ),
                        ),
                    ),
                }
            },
        }
    }
}

/// Rounds until every entry is placed or left out; a round that places
/// nothing and leaves nothing out means the parents never resolve.
pub open spec fn run_rounds(
    pending: Seq<int>,
    order: Seq<PlacedSpec>,
    nodes: Seq<Json>,
    dest: Option<Seq<char>>,
    ids: Seq<Seq<char>>,
) -> Result<Seq<PlacedSpec>, Seq<char>>
    decreases pending.len(),
{
    if pending.len() == 0 {
        Ok(order)
    } else {
        match run_round(pending, order, nodes, dest, ids) {
            Err(m) => Err(m),
            Ok((next, o)) => if next.len() >= pending.len() {
                Err(unresolved_parent_message())
            } else {
                run_rounds(next, o, nodes, dest, ids)
            },
        }
    }
}

/// The indices `0..n`.
pub open spec fn all_indices(n: int) -> Seq<int> {
    Seq::new(n as nat, |i: int| i)
}

/// How an imported list of nodes is placed under `dest`, the `k`-th node
/// placed getting the stored id `ids[k]`.
pub open spec fn import_plan(nodes: Seq<Json>, dest: Option<Seq<char>>, ids: Seq<Seq<char>>) -> Result<
    Seq<PlacedSpec>,
    Seq<char>,
> {
    run_rounds(all_indices(nodes.len() as int), Seq::empty(), nodes, dest, ids)
}

/// Every entry of `nodes` can be read as an object.
pub open spec fn entries_wf(nodes: Seq<Json>) -> bool {
    forall|i: int| 0 <= i < nodes.len() ==> wf_if_object(#[trigger] nodes[i])
}

/// The stored id of the node placed as `old`, if any.
fn find_placed(order: &Vec<PlacedNode>, old: &str) -> (r: Option<String>)
    ensures
        opt_string_view(r) == lookup(placed_specs(order@), old@),
{
    let mut k: usize = order.len();
    assert(order@.take(k as int) =~= order@);
    while k > 0
        invariant
            k <= order@.len(),
            lookup(placed_specs(order@), old@) == lookup(placed_specs(order@.take(k as int)), old@),
        decreases k,
    {
        proof {
            assert(placed_specs(order@.take(k as int)).drop_last() =~= placed_specs(
                order@.take(k - 1),
            ));
        }
        if crate::text::str_eq(order[k - 1].old_id.as_str(), old) {
            return Some(order[k - 1].new_id.clone());
        }
        k = k - 1;
    }
    proof {
        assert(placed_specs(order@.take(0)) =~= Seq::<PlacedSpec>::empty());
    }
    None
}

/// Whether some entry of `nodes` has the id `id`.
fn original_has(nodes: &Vec<Json>, id: &str) -> (r: bool)
    requires
        entries_wf(nodes@),
    ensures
        r == is_original(nodes@, id@),
{
    let mut i: usize = 0;
    while i < nodes.len()
        invariant
            i <= nodes@.len(),
            entries_wf(nodes@),
            forall|j: int| 0 <= j < i ==> field_str(#[trigger] nodes@[j]@, "id"@) != Some(id@),
        decreases nodes.len() - i,
    {
        let found = optional_string(&nodes[i], "id");
        if let Some(s) = found {
            if crate::text::str_eq(s.as_str(), id) {
                return true;
            }
        }
        i = i + 1;
    }
    false
}

/// What becomes of the entry `node` (see `node_step`).
pub enum StepOutcome {
    Skip,
    Defer,
    Place(Option<String>),
}

/// Decides what becomes of one entry with the nodes in `order` placed.
fn decide_step(node: &Json, order: &Vec<PlacedNode>, nodes: &Vec<Json>, dest: &Option<String>) -> (r:
    Result<(StepOutcome, String), Error>)
    requires
        wf_if_object(*node),
        entries_wf(nodes@),
    ensures
        match node_step(node@, placed_specs(order@), nodes@, opt_string_view(*dest)) {
            ImportStep::Skip => r matches Ok((StepOutcome::Skip, _)),
            ImportStep::Defer => r matches Ok((StepOutcome::Defer, _)),
            ImportStep::Place(p) => r matches Ok((StepOutcome::Place(q), id)) && opt_string_view(q)
                == p && field_str(node@, "id"@) == Some(id@),
            ImportStep::Fail(m) => r matches Err(e) && is_validation(e, m),
        },
{
    let old_id = required_string(node, "id")?;
    if find_placed(order, old_id.as_str()).is_some() {
        return Ok((StepOutcome::Skip, old_id));
    }
    let named_parent = match optional_string(node, "parent_id") {
        Some(p) => Some(p),
        None => optional_string(node, "parentId"),
    };
    let parent: Option<String> = match &named_parent {
        Some(p) => match find_placed(order, p.as_str()) {
            Some(np) => Some(np),
            None => {
                if original_has(nodes, p.as_str()) {
                    return Ok((StepOutcome::Defer, old_id));
                }
                match dest {
                    Some(d) => Some(d.clone()),
                    None => None,
                }
            },
        },
        None => match dest {
            Some(d) => Some(d.clone()),
            None => None,
        },
    };
    let node_type = required_string(node, "type")?;
    let parsed = crate::node::model::NodeType::parse(node_type.as_str());
    match parsed {
        None => {
            let msg = crate::backup::concat2("Unsupported node type in import: ", node_type.as_str());
            proof {
                reveal_strlit("Unsupported node type in import: ");
            }
            Err(Error::Validation(msg))
        },
        Some(nt) => {
            if dest.is_some() && named_parent.is_none()
                && nt == crate::node::model::NodeType::Workspace {
                return Err(
                    crate::error::validation_error(
                        "Cannot import a Workspace under another node. Import this JSON at the root instead.",
                    ),
                );
            }
            Ok((StepOutcome::Place(parent), old_id))
        },
    }
}

} // verus!

verus! {

/// Indices as mathematical integers.
pub open spec fn idx_view(v: Seq<usize>) -> Seq<int> {
    v.map_values(|x: usize| x as int)
}

/// The texts of `v`.
pub open spec fn strings_view(v: Seq<String>) -> Seq<Seq<char>> {
    v.map_values(|s: String| s@)
}

proof fn lemma_round_failure_persists(
    pending: Seq<int>,
    k: int,
    order: Seq<PlacedSpec>,
    nodes: Seq<Json>,
    dest: Option<Seq<char>>,
    ids: Seq<Seq<char>>,
)
    requires
        0 <= k <= pending.len(),
        run_round(pending.take(k), order, nodes, dest, ids) is Err,
    ensures
        run_round(pending, order, nodes, dest, ids) == run_round(
            pending.take(k),
            order,
            nodes,
            dest,
            ids,
        ),
    decreases pending.len() - k,
{
    if k < pending.len() {
        assert(pending.take(k + 1).drop_last() =~= pending.take(k));
        lemma_round_failure_persists(pending, k + 1, order, nodes, dest, ids);
    } else {
        assert(pending.take(k) =~= pending);
    }
}

/// Places an imported list of nodes under `dest`, giving the `k`-th node
/// placed the stored id `ids[k]`: a node goes in after its parent, a node
/// whose parent is outside the list goes under `dest`, a repeated id is left
/// out, and the import fails on an entry without id or type, of an unknown
/// type, a workspace put under a node, or parents that never resolve.
pub fn plan_node_import_with_ids(nodes: &Vec<Json>, dest: Option<String>, ids: &Vec<String>) -> (r:
    Result<Vec<PlacedNode>, Error>)
    requires
        entries_wf(nodes@),
        ids@.len() >= nodes@.len(),
    ensures
        match import_plan(nodes@, opt_string_view(dest), strings_view(ids@)) {
            Ok(o) => r matches Ok(v) && placed_specs(v@) == o,
            Err(m) => r matches Err(e) && is_validation(e, m),
        },
{
    let ghost d = opt_string_view(dest);
    let ghost idv = strings_view(ids@);
    let n = nodes.len();
    let mut pending: Vec<usize> = Vec::new();
    let mut j: usize = 0;
    while j < n
        invariant
            j <= n,
            n == nodes@.len(),
            pending@.len() == j,
            forall|t: int| 0 <= t < j ==> #[trigger] pending@[t] == t,
        decreases n - j,
    {
        pending.push(j);
        j = j + 1;
    }
    proof {
        assert(idx_view(pending@) =~= all_indices(n as int));
    }
    let mut order: Vec<PlacedNode> = Vec::new();
    proof {
        assert(placed_specs(order@) =~= Seq::<PlacedSpec>::empty());
    }
    while pending.len() > 0
        invariant
            n == nodes@.len(),
            entries_wf(nodes@),
            ids@.len() >= n,
            d == opt_string_view(dest),
            idv == strings_view(ids@),
            run_rounds(idx_view(pending@), placed_specs(order@), nodes@, d, idv) == import_plan(
                nodes@,
                d,
                idv,
            ),
            order@.len() + pending@.len() <= n,
            forall|t: int| 0 <= t < pending@.len() ==> #[trigger] pending@[t] < n,
        decreases pending.len(),
    {
        let before = pending.len();
        let ghost order0 = placed_specs(order@);
        let ghost pend = idx_view(pending@);
        let mut next: Vec<usize> = Vec::new();
        let mut i: usize = 0;
        proof {
            assert(pend.take(0) =~= Seq::<int>::empty());
            assert(idx_view(next@) =~= Seq::<int>::empty());
        }
        while i < pending.len()
            invariant
                n == nodes@.len(),
                entries_wf(nodes@),
                ids@.len() >= n,
                d == opt_string_view(dest),
                idv == strings_view(ids@),
                before == pending@.len(),
                pend == idx_view(pending@),
                i <= before,
                run_round(pend.take(i as int), order0, nodes@, d, idv) == Ok::<
                    (Seq<int>, Seq<PlacedSpec>),
                    Seq<char>,
                >((idx_view(next@), placed_specs(order@))),
                order@.len() + next@.len() + (before - i) <= n,
                next@.len() <= i,
                run_rounds(pend, order0, nodes@, d, idv) == import_plan(nodes@, d, idv),
                forall|t: int| 0 <= t < pending@.len() ==> #[trigger] pending@[t] < n,
                forall|t: int| 0 <= t < next@.len() ==> #[trigger] next@[t] < n,
            decreases before - i,
        {
            let idx = pending[i];
            let ghost prefix = pend.take(i + 1);
            let ghost v = nodes@[idx as int]@;
            let ghost st = node_step(v, placed_specs(order@), nodes@, d);
            proof {
                assert(prefix.drop_last() =~= pend.take(i as int));
                assert(prefix.last() == idx as int);
                assert(pend[i as int] == idx as int);
            }
            let step = decide_step(&nodes[idx], &order, nodes, &dest);
            match step {
                Err(e) => {
                    proof {
                        assert(st is Fail);
                        assert(run_round(prefix, order0, nodes@, d, idv) == Err::<
                            (Seq<int>, Seq<PlacedSpec>),
                            Seq<char>,
                        >(st->Fail_0));
                        lemma_round_failure_persists(pend, i + 1, order0, nodes@, d, idv);
                        assert(run_rounds(pend, order0, nodes@, d, idv) == Err::<
                            Seq<PlacedSpec>,
                            Seq<char>,
                        >(st->Fail_0));
                    }
                    return Err(e);
                },
                Ok((StepOutcome::Skip, _)) => {
                    proof {
                        assert(st is Skip);
                    }
                },
                Ok((StepOutcome::Defer, _)) => {
                    let ghost prev_next = next@;
                    next.push(idx);
                    proof {
                        assert(st is Defer);
                        assert(idx_view(next@) =~= idx_view(prev_next).push(idx as int));
                    }
                },
                Ok((StepOutcome::Place(parent), old_id)) => {
                    let k = order.len();
                    let placed = PlacedNode {
                        source: idx,
                        old_id,
                        new_id: ids[k].clone(),
                        parent_id: parent,
                    };
                    let ghost prev = order@;
                    order.push(placed);
                    proof {
                        assert(st is Place);
                        assert(placed_specs(order@) =~= placed_specs(prev).push(
                            placed_spec(placed),
                        ));
                        assert(idv[k as int] == ids@[k as int]@);
                        assert(placed_specs(prev).len() == k);
                    }
                },
            }
            i = i + 1;
        }
        proof {
            assert(pend.take(before as int) =~= pend);
        }
        if next.len() == before {
            proof {
                assert(run_rounds(pend, order0, nodes@, d, idv) == Err::<Seq<PlacedSpec>, Seq<char>>(
                    unresolved_parent_message(),
                ));
            }
            return Err(
                crate::error::validation_error(
                    "Import contains a circular or unresolved node parent relationship",
                ),
            );
        }
        pending = next;
    }
    Ok(order)
}

/// Places an imported list of nodes under `dest` (see
/// `plan_node_import_with_ids`), each placed node under a fresh UUID.
pub fn plan_node_import(nodes: &Vec<Json>, dest: Option<String>) -> (r: Result<
    Vec<PlacedNode>,
    Error,
>)
    requires
        entries_wf(nodes@),
    ensures
        exists|ids: Seq<Seq<char>>|
            #![trigger import_plan(nodes@, opt_string_view(dest), ids)]
            ids.len() == nodes@.len() && (forall|i: int|
                0 <= i < ids.len() ==> crate::ids::is_uuid_text(#[trigger] ids[i])) && match import_plan(
                nodes@,
                opt_string_view(dest),
                ids,
            ) {
                Ok(o) => r matches Ok(v) && placed_specs(v@) == o,
                Err(m) => r matches Err(e) && is_validation(e, m),
            },
{
    let mut ids: Vec<String> = Vec::new();
    let mut i: usize = 0;
    while i < nodes.len()
        invariant
            i <= nodes@.len(),
            ids@.len() == i,
            forall|t: int| 0 <= t < i ==> crate::ids::is_uuid_text(#[trigger] ids@[t]@),
        decreases nodes.len() - i,
    {
        ids.push(crate::ids::new_id());
        i = i + 1;
    }
    let r = plan_node_import_with_ids(nodes, dest, &ids);
    proof {
        let w = strings_view(ids@);
        assert(forall|t: int| 0 <= t < w.len() ==> crate::ids::is_uuid_text(#[trigger] w[t]));
    }
    r
}

} // verus!

verus! {

/// Every placed node goes in under `dest` or under a node placed before it,
/// and no id is placed twice.
pub open spec fn placed_in_order(o: Seq<PlacedSpec>, dest: Option<Seq<char>>) -> bool {
    &&& forall|k: int|
        0 <= k < o.len() ==> (#[trigger] o[k]).parent == dest || exists|j: int|
            0 <= j < k && Some(o[j].new) == o[k].parent
    &&& forall|j: int, k: int| 0 <= j < k < o.len() ==> o[j].old != o[k].old
}

proof fn lemma_lookup(o: Seq<PlacedSpec>, old: Seq<char>)
    ensures
        lookup(o, old) matches Some(n) ==> exists|j: int|
            0 <= j < o.len() && o[j].new == n && o[j].old == old,
        lookup(o, old) is None ==> forall|j: int| 0 <= j < o.len() ==> o[j].old != old,
    decreases o.len(),
{
    if o.len() > 0 {
        lemma_lookup(o.drop_last(), old);
        if o.last().old != old {
            if let Some(n) = lookup(o, old) {
                let j = choose|j: int|
                    0 <= j < o.drop_last().len() && o.drop_last()[j].new == n
                        && o.drop_last()[j].old == old;
                assert(o[j] == o.drop_last()[j]);
            }
            assert forall|j: int| 0 <= j < o.len() && lookup(o, old) is None implies o[j].old
                != old by {
                if j < o.len() - 1 {
                    assert(o[j] == o.drop_last()[j]);
                }
            }
        }
    }
}

proof fn lemma_round_in_order(
    pending: Seq<int>,
    order: Seq<PlacedSpec>,
    nodes: Seq<Json>,
    dest: Option<Seq<char>>,
    ids: Seq<Seq<char>>,
)
    requires
        placed_in_order(order, dest),
    ensures
        run_round(pending, order, nodes, dest, ids) matches Ok((_, o)) ==> placed_in_order(o, dest)
            && order.len() <= o.len() && o.take(order.len() as int) == order,
    decreases pending.len(),
{
    if pending.len() > 0 {
        lemma_round_in_order(pending.drop_last(), order, nodes, dest, ids);
        if let Ok((deferred, o)) = run_round(pending.drop_last(), order, nodes, dest, ids) {
            let idx = pending.last();
            let v = nodes[idx]@;
            if let ImportStep::Place(parent) = node_step(v, o, nodes, dest) {
                let id = field_str(v, "id"@)->0;
                let e = PlacedSpec { source: idx, old: id, new: ids[o.len() as int], parent };
                let o2 = o.push(e);
                lemma_lookup(o, id);
                match old_parent(v) {
                    Some(p) => {
                        lemma_lookup(o, p);
                    },
                    None => {},
                }
                assert forall|k: int| 0 <= k < o2.len() implies (#[trigger] o2[k]).parent == dest
                    || exists|j: int| 0 <= j < k && Some(o2[j].new) == o2[k].parent by {
                    if k < o.len() {
                        assert(o2[k] == o[k]);
                        if o[k].parent != dest {
                            let j = choose|j: int| 0 <= j < k && Some(o[j].new) == o[k].parent;
                            assert(o2[j] == o[j]);
                        }
                    } else {
                        if parent != dest {
                            let p = old_parent(v)->0;
                            let j = choose|j: int|
                                0 <= j < o.len() && o[j].new == lookup(o, p)->0 && o[j].old == p;
                            assert(o2[j] == o[j]);
                        }
                    }
                }
                assert(o2.take(order.len() as int) =~= o.take(order.len() as int));
            }
        }
    }
}

proof fn lemma_rounds_in_order(
    pending: Seq<int>,
    order: Seq<PlacedSpec>,
    nodes: Seq<Json>,
    dest: Option<Seq<char>>,
    ids: Seq<Seq<char>>,
)
    requires
        placed_in_order(order, dest),
    ensures
        run_rounds(pending, order, nodes, dest, ids) matches Ok(o) ==> placed_in_order(o, dest),
    decreases pending.len(),
{
    if pending.len() > 0 {
        lemma_round_in_order(pending, order, nodes, dest, ids);
        if let Ok((next, o)) = run_round(pending, order, nodes, dest, ids) {
            if next.len() < pending.len() {
                lemma_rounds_in_order(next, o, nodes, dest, ids);
            }
        }
    }
}

/// The `k`-th placed node went in where the document puts it: under the
/// node placed for the parent it names, when that parent is in the document,
/// and otherwise under `dest`.
pub open spec fn parent_kept(
    o: Seq<PlacedSpec>,
    nodes: Seq<Json>,
    dest: Option<Seq<char>>,
    k: int,
) -> bool {
    match old_parent(nodes[o[k].source]@) {
        None => o[k].parent == dest,
        Some(p) => (exists|j: int| 0 <= j < k && o[j].old == p && Some(o[j].new) == o[k].parent)
            || (o[k].parent == dest && !is_original(nodes, p)),
    }
}

/// Every placed node went in where the document puts it.
pub open spec fn parents_kept(o: Seq<PlacedSpec>, nodes: Seq<Json>, dest: Option<Seq<char>>) -> bool {
    forall|k: int| 0 <= k < o.len() ==> #[trigger] parent_kept(o, nodes, dest, k)
}

proof fn lemma_round_keeps_parents(
    pending: Seq<int>,
    order: Seq<PlacedSpec>,
    nodes: Seq<Json>,
    dest: Option<Seq<char>>,
    ids: Seq<Seq<char>>,
)
    requires
        parents_kept(order, nodes, dest),
    ensures
        run_round(pending, order, nodes, dest, ids) matches Ok((_, o)) ==> parents_kept(
            o,
            nodes,
            dest,
        ),
    decreases pending.len(),
{
    if pending.len() > 0 {
        lemma_round_keeps_parents(pending.drop_last(), order, nodes, dest, ids);
        if let Ok((deferred, o)) = run_round(pending.drop_last(), order, nodes, dest, ids) {
            let idx = pending.last();
            let v = nodes[idx]@;
            if let ImportStep::Place(parent) = node_step(v, o, nodes, dest) {
                let id = field_str(v, "id"@)->0;
                let e = PlacedSpec { source: idx, old: id, new: ids[o.len() as int], parent };
                let o2 = o.push(e);
                match old_parent(v) {
                    Some(p) => {
                        lemma_lookup(o, p);
                    },
                    None => {},
                }
                assert forall|k: int| 0 <= k < o2.len() implies #[trigger] parent_kept(
                    o2,
                    nodes,
                    dest,
                    k,
                ) by {
                    if k < o.len() {
                        assert(o2[k] == o[k]);
                        assert(parent_kept(o, nodes, dest, k));
                        if let Some(p) = old_parent(nodes[o[k].source]@) {
                            if exists|j: int|
                                0 <= j < k && o[j].old == p && Some(o[j].new) == o[k].parent {
                                let j = choose|j: int|
                                    0 <= j < k && o[j].old == p && Some(o[j].new) == o[k].parent;
                                assert(o2[j] == o[j]);
                            }
                        }
                    } else {
                        assert(o2[k] == e);
                        if let Some(p) = old_parent(v) {
                            if let Some(np) = lookup(o, p) {
                                let j = choose|j: int|
                                    0 <= j < o.len() && o[j].new == np && o[j].old == p;
                                assert(o2[j] == o[j]);
                            }
                        }
                    }
                }
            }
        }
    }
}

proof fn lemma_rounds_keep_parents(
    pending: Seq<int>,
    order: Seq<PlacedSpec>,
    nodes: Seq<Json>,
    dest: Option<Seq<char>>,
    ids: Seq<Seq<char>>,
)
    requires
        parents_kept(order, nodes, dest),
    ensures
        run_rounds(pending, order, nodes, dest, ids) matches Ok(o) ==> parents_kept(o, nodes, dest),
    decreases pending.len(),
{
    if pending.len() > 0 {
        lemma_round_keeps_parents(pending, order, nodes, dest, ids);
        if let Ok((next, o)) = run_round(pending, order, nodes, dest, ids) {
            if next.len() < pending.len() {
                lemma_rounds_keep_parents(next, o, nodes, dest, ids);
            }
        }
    }
}

/// An import places every node after its parent, so that each stored node's
/// parent already exists when it is stored: a node's stored parent is the
/// destination or a node placed before it. No imported id is placed twice.
/// And it keeps the hierarchy of the document: a node naming a parent that
/// the document holds goes under the node stored for that parent; a node
/// naming none, or one the document does not hold, goes under the
/// destination.
pub proof fn law_import_places_parents_first(
    nodes: Seq<Json>,
    dest: Option<Seq<char>>,
    ids: Seq<Seq<char>>,
)
    ensures
        import_plan(nodes, dest, ids) matches Ok(o) ==> placed_in_order(o, dest),
        import_plan(nodes, dest, ids) matches Ok(o) ==> parents_kept(o, nodes, dest),
{
    lemma_rounds_in_order(all_indices(nodes.len() as int), Seq::empty(), nodes, dest, ids);
    lemma_rounds_keep_parents(all_indices(nodes.len() as int), Seq::empty(), nodes, dest, ids);
}

} // verus!

verus! {

/// An id in the imported document and the id it is stored under.
#[derive(Debug, Clone)]
pub struct IdPair {
    pub old: String,
    pub new: String,
}

/// The stored id of `old` among `pairs`; a later pair wins over an earlier
/// one for the same id.
pub open spec fn pair_lookup(pairs: Seq<IdPair>, old: Seq<char>) -> Option<Seq<char>>
    decreases pairs.len(),
{
    if pairs.len() == 0 {
        None
    } else if pairs.last().old@ == old {
        Some(pairs.last().new@)
    } else {
        pair_lookup(pairs.drop_last(), old)
    }
}

/// The stored id of `old` among `pairs`.
pub fn find_pair(pairs: &Vec<IdPair>, old: &str) -> (r: Option<String>)
    ensures
        opt_string_view(r) == pair_lookup(pairs@, old@),
{
    let mut k: usize = pairs.len();
    assert(pairs@.take(k as int) =~= pairs@);
    while k > 0
        invariant
            k <= pairs@.len(),
            pair_lookup(pairs@, old@) == pair_lookup(pairs@.take(k as int), old@),
        decreases k,
    {
        proof {
            assert(pairs@.take(k as int).drop_last() =~= pairs@.take(k - 1));
        }
        if crate::text::str_eq(pairs[k - 1].old.as_str(), old) {
            return Some(pairs[k - 1].new.clone());
        }
        k = k - 1;
    }
    None
}

/// The id pairs of the placed nodes.
pub fn node_id_pairs(placed: &Vec<PlacedNode>) -> (r: Vec<IdPair>)
    ensures
        r@.len() == placed@.len(),
        forall|i: int|
            0 <= i < r@.len() ==> (#[trigger] r@[i]).old == placed@[i].old_id && r@[i].new
                == placed@[i].new_id,
{
    let mut out: Vec<IdPair> = Vec::new();
    let mut i: usize = 0;
    while i < placed.len()
        invariant
            i <= placed@.len(),
            out@.len() == i,
            forall|j: int|
                0 <= j < i ==> (#[trigger] out@[j]).old == placed@[j].old_id && out@[j].new
                    == placed@[j].new_id,
        decreases placed.len() - i,
    {
        out.push(IdPair { old: placed[i].old_id.clone(), new: placed[i].new_id.clone() });
        i = i + 1;
    }
    out
}

/// The text under `a`, or else under `b`; the failure names `b`.
pub open spec fn either_field(v: JsonView, a: Seq<char>, b: Seq<char>) -> Result<Seq<char>, Seq<char>> {
    match field_str(v, a) {
        Some(s) => Ok(s),
        None => match field_str(v, b) {
            Some(s) => Ok(s),
            None => Err(missing_field_message(b)),
        },
    }
}

/// The text under `a`, or else under `b`, one of which must be there.
fn required_either(value: &Json, a: &str, b: &str) -> (r: Result<String, Error>)
    requires
        wf_if_object(*value),
    ensures
        match either_field(value@, a@, b@) {
            Ok(s) => r matches Ok(t) && t@ == s,
            Err(m) => r matches Err(e) && is_validation(e, m),
        },
{
    match required_string(value, a) {
        Ok(s) => Ok(s),
        Err(_) => required_string(value, b),
    }
}

/// What a tag relation of the document resolves to: the stored node and tag
/// ids, or why it cannot be stored.
pub open spec fn node_tag_spec(v: JsonView, nodes: Seq<IdPair>, tags: Seq<IdPair>) -> Result<
    (Seq<char>, Seq<char>),
    Seq<char>,
> {
    match either_field(v, "node_id"@, "nodeId"@) {
        Err(m) => Err(m),
        Ok(old_node) => match either_field(v, "tag_id"@, "tagId"@) {
            Err(m) => Err(m),
            Ok(old_tag) => match pair_lookup(nodes, old_node) {
                None => Err("Tag relation references missing node: "@ + old_node),
                Some(n) => match pair_lookup(tags, old_tag) {
                    None => Err("Tag relation references missing tag: "@ + old_tag),
                    Some(t) => Ok((n, t)),
                },
            },
        },
    }
}

/// Resolves a tag relation of the document to the stored node and tag ids.
pub fn resolve_node_tag(relation: &Json, nodes: &Vec<IdPair>, tags: &Vec<IdPair>) -> (r: Result<
    (String, String),
    Error,
>)
    requires
        wf_if_object(*relation),
    ensures
        match node_tag_spec(relation@, nodes@, tags@) {
            Ok((n, t)) => r matches Ok((rn, rt)) && rn@ == n && rt@ == t,
            Err(m) => r matches Err(e) && is_validation(e, m),
        },
{
    let old_node = required_either(relation, "node_id", "nodeId")?;
    let old_tag = required_either(relation, "tag_id", "tagId")?;
    proof {
        reveal_strlit("Tag relation references missing node: ");
        reveal_strlit("Tag relation references missing tag: ");
    }
    let n = match find_pair(nodes, old_node.as_str()) {
        Some(n) => n,
        None => {
            return Err(
                Error::Validation(
                    crate::backup::concat2(
                        "Tag relation references missing node: ",
                        old_node.as_str(),
                    ),
                ),
            );
        },
    };
    let t = match find_pair(tags, old_tag.as_str()) {
        Some(t) => t,
        None => {
            return Err(
                Error::Validation(
                    crate::backup::concat2("Tag relation references missing tag: ", old_tag.as_str()),
                ),
            );
        },
    };
    Ok((n, t))
}

/// The optional text under `a`, or else under `b`.
pub open spec fn either_optional(v: JsonView, a: Seq<char>, b: Seq<char>) -> Option<Seq<char>> {
    match field_str(v, a) {
        Some(s) => Some(s),
        None => field_str(v, b),
    }
}

/// The optional text under `a`, or else under `b`.
pub fn optional_either(value: &Json, a: &str, b: &str) -> (r: Option<String>)
    requires
        wf_if_object(*value),
    ensures
        opt_string_view(r) == either_optional(value@, a@, b@),
{
    match optional_string(value, a) {
        Some(s) => Some(s),
        None => optional_string(value, b),
    }
}

/// The stored task a time block of the document links to: none when it names
/// none, and an error when it names a task that was not imported.
pub fn resolve_time_block_task(row: &Json, nodes: &Vec<IdPair>) -> (r: Result<Option<String>, Error>)
    requires
        wf_if_object(*row),
    ensures
        match either_optional(row@, "task_id"@, "taskId"@) {
            None => r matches Ok(None),
            Some(old) => match pair_lookup(nodes@, old) {
                Some(n) => r matches Ok(Some(t)) && t@ == n,
                None => r matches Err(e) && is_validation(
                    e,
                    "Time block references missing task: "@ + old,
                ),
            },
        },
{
    match optional_either(row, "task_id", "taskId") {
        None => Ok(None),
        Some(old) => match find_pair(nodes, old.as_str()) {
            Some(n) => Ok(Some(n)),
            None => {
                proof {
                    reveal_strlit("Time block references missing task: ");
                }
                Err(
                    Error::Validation(
                        crate::backup::concat2("Time block references missing task: ", old.as_str()),
                    ),
                )
            },
        },
    }
}

/// The stored task a focus session of the document links to; a task that was
/// not imported leaves the session unlinked.
pub fn resolve_focus_task(row: &Json, nodes: &Vec<IdPair>) -> (r: Option<String>)
    requires
        wf_if_object(*row),
    ensures
        opt_string_view(r) == match either_optional(row@, "task_id"@, "taskId"@) {
            None => None,
            Some(old) => pair_lookup(nodes@, old),
        },
{
    match optional_either(row, "task_id", "taskId") {
        None => None,
        Some(old) => find_pair(nodes, old.as_str()),
    }
}

/// The stored habit a log of the document belongs to, which must have been
/// imported.
pub fn resolve_habit(row: &Json, habits: &Vec<IdPair>) -> (r: Result<String, Error>)
    requires
        wf_if_object(*row),
    ensures
        match either_field(row@, "habit_id"@, "habitId"@) {
            Err(m) => r matches Err(e) && is_validation(e, m),
            Ok(old) => match pair_lookup(habits@, old) {
                Some(n) => r matches Ok(t) && t@ == n,
                None => r matches Err(e) && is_validation(
                    e,
                    "Habit log references missing habit: "@ + old,
                ),
            },
        },
{
    let old = required_either(row, "habit_id", "habitId")?;
    match find_pair(habits, old.as_str()) {
        Some(n) => Ok(n),
        None => {
            proof {
                reveal_strlit("Habit log references missing habit: ");
            }
            Err(
                Error::Validation(
                    crate::backup::concat2("Habit log references missing habit: ", old.as_str()),
                ),
            )
        },
    }
}

/// The message for an import under a parent that is not there.
pub fn missing_destination(parent_id: &str) -> (e: Error)
    ensures
        is_validation(e, "Import destination parent not found: "@ + parent_id@),
{
    proof {
        reveal_strlit("Import destination parent not found: ");
    }
    Error::Validation(crate::backup::concat2("Import destination parent not found: ", parent_id))
}

} // verus!
