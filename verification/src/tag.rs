use vstd::prelude::*;
use crate::error::{is_validation, Error};
use crate::text::{strings_of, trim_seq};
use crate::json::{items_view, lemma_items_view, Json, JsonView};
use crate::json_text::{parse_json, parsed_json};

verus! {

/// A label that nodes can carry.
#[derive(Debug, Clone, PartialEq, Eq)]
pub struct Tag {
    pub id: String,
    pub name: String,
    pub color: Option<String>,
    pub created_at: String,
}

/// A tag name as stored: trimmed, and refused when nothing is left.
pub fn clean_name(name: &str) -> (r: Result<String, Error>)
    ensures
        trim_seq(name@).len() == 0 ==> (r matches Err(e) && is_validation(
            e,
            "Tag name is required"@,
        )),
        trim_seq(name@).len() > 0 ==> (r matches Ok(t) && t@ == trim_seq(name@)),
{
    let clean = crate::text::trim(name);
    if clean.unicode_len() == 0 {
        return Err(crate::error::validation_error("Tag name is required"));
    }
    Ok(clean.to_owned())
}

/// The view of an optional string slice, copied into a `String`.
pub open spec fn opt_owned(o: Option<&str>) -> Option<Seq<char>> {
    match o {
        Some(s) => Some(s@),
        None => None,
    }
}

/// The tag that creating `name` stores under `id` at `now`: its name is
/// trimmed and must not be empty. (That no other tag has the name, in any
/// case, the store itself enforces.)
pub fn plan_create_tag(name: &str, color: Option<&str>, id: String, now: String) -> (r: Result<
    Tag,
    Error,
>)
    ensures
        trim_seq(name@).len() == 0 ==> (r matches Err(e) && is_validation(
            e,
            "Tag name is required"@,
        )),
        trim_seq(name@).len() > 0 ==> (r matches Ok(t) && t.name@ == trim_seq(name@) && t.id == id
            && t.created_at == now && match t.color {
            Some(c) => opt_owned(color) == Some(c@),
            None => color is None,
        }),
{
    let clean = clean_name(name)?;
    let c = match color {
        Some(v) => Some(v.to_owned()),
        None => None,
    };
    Ok(Tag { id, name: clean, color: c, created_at: now })
}

/// The message that refuses a name another tag already has.
pub open spec fn tag_exists_message(name: Seq<char>) -> Seq<char> {
    "Tag already exists: "@ + name
}

/// Checks a new name for the tag being renamed: trimmed, not empty, and not
/// the name of another tag (`taken`, as the store compares names without
/// regard to case). Gives the name to store.
pub fn check_rename(name: &str, taken: bool) -> (r: Result<String, Error>)
    ensures
        trim_seq(name@).len() == 0 ==> (r matches Err(e) && is_validation(
            e,
            "Tag name is required"@,
        )),
        trim_seq(name@).len() > 0 && taken ==> (r matches Err(e) && is_validation(
            e,
            tag_exists_message(trim_seq(name@)),
        )),
        trim_seq(name@).len() > 0 && !taken ==> (r matches Ok(t) && t@ == trim_seq(name@)),
{
    let clean = clean_name(name)?;
    if taken {
        let mut msg = String::from_str("Tag already exists: ");
        msg.append(clean.as_str());
        proof {
            reveal_strlit("Tag already exists: ");
        }
        return Err(Error::Validation(msg));
    }
    Ok(clean)
}

/// The tag names kept from a node's legacy list: each trimmed, the empty ones
/// left out, in their order.
pub open spec fn legacy_names(raw: Seq<String>) -> Seq<Seq<char>>
    decreases raw.len(),
{
    if raw.len() == 0 {
        Seq::empty()
    } else {
        let rest = legacy_names(raw.drop_last());
        let t = trim_seq(raw.last()@);
        if t.len() == 0 {
            rest
        } else {
            rest.push(t)
        }
    }
}

/// The tag names a node's legacy `custom.tags` list gives: each trimmed, the
/// empty ones left out, in their order.
pub fn legacy_tag_names(raw: &Vec<String>) -> (r: Vec<String>)
    ensures
        r@.len() == legacy_names(raw@).len(),
        forall|i: int| 0 <= i < r@.len() ==> (#[trigger] r@[i])@ == legacy_names(raw@)[i],
{
    let mut out: Vec<String> = Vec::new();
    let mut i: usize = 0;
    proof {
        assert(raw@.take(0) =~= Seq::<String>::empty());
    }
    while i < raw.len()
        invariant
            i <= raw@.len(),
            out@.len() == legacy_names(raw@.take(i as int)).len(),
            forall|j: int|
                0 <= j < out@.len() ==> (#[trigger] out@[j])@ == legacy_names(raw@.take(i as int))[j],
        decreases raw.len() - i,
    {
        proof {
            assert(raw@.take(i + 1).drop_last() =~= raw@.take(i as int));
        }
        let clean = crate::text::trim(raw[i].as_str());
        if clean.unicode_len() > 0 {
            out.push(clean.to_owned());
        }
        i = i + 1;
    }
    proof {
        assert(raw@.take(raw@.len() as int) =~= raw@);
    }
    out
}

/// How many tag assignments the legacy lists of all nodes make: one per
/// non-empty name.
pub open spec fn legacy_assignments(lists: Seq<Vec<String>>) -> int
    decreases lists.len(),
{
    if lists.len() == 0 {
        0
    } else {
        legacy_assignments(lists.drop_last()) + legacy_names(lists.last()@).len()
    }
}

proof fn lemma_legacy_names_len(raw: Seq<String>)
    ensures
        legacy_names(raw).len() <= raw.len(),
    decreases raw.len(),
{
    if raw.len() > 0 {
        lemma_legacy_names_len(raw.drop_last());
    }
}

/// The number of tag assignments the legacy lists make, counted as the
/// migration counts them.
pub fn count_legacy_assignments(lists: &Vec<Vec<String>>) -> (r: u32)
    requires
        legacy_assignments(lists@) <= u32::MAX,
        forall|i: int| 0 <= i <= lists@.len() ==> #[trigger] legacy_assignments(lists@.take(i))
            <= u32::MAX,
    ensures
        r == legacy_assignments(lists@),
{
    let mut total: u32 = 0;
    let mut i: usize = 0;
    proof {
        assert(lists@.take(0) =~= Seq::<Vec<String>>::empty());
    }
    while i < lists.len()
        invariant
            i <= lists@.len(),
            total == legacy_assignments(lists@.take(i as int)),
            forall|k: int| 0 <= k <= lists@.len() ==> #[trigger] legacy_assignments(lists@.take(k))
                <= u32::MAX,
        decreases lists.len() - i,
    {
        let names = legacy_tag_names(&lists[i]);
        proof {
            assert(lists@.take(i + 1).drop_last() =~= lists@.take(i as int));
            assert(lists@.take(i + 1).last() == lists@[i as int]);
            assert(legacy_assignments(lists@.take(i + 1)) <= u32::MAX);
        }
        total = total + names.len() as u32;
        i = i + 1;
    }
    proof {
        assert(lists@.take(lists@.len() as int) =~= lists@);
    }
    total
}

/// A kept legacy name is never empty and never begins or ends with white
/// space.
pub proof fn law_legacy_names_are_clean(raw: Seq<String>, i: int)
    requires
        0 <= i < legacy_names(raw).len(),
    ensures
        legacy_names(raw)[i].len() > 0,
        !crate::text::is_white_space(legacy_names(raw)[i][0]),
        !crate::text::is_white_space(legacy_names(raw)[i].last()),
    decreases raw.len(),
{
    let rest = legacy_names(raw.drop_last());
    if i < rest.len() {
        law_legacy_names_are_clean(raw.drop_last(), i);
    } else {
        crate::text::lemma_trim_clean(raw.last()@);
    }
}

/// The names kept from a legacy list are the list's entries, each trimmed,
/// with the entries that trim to nothing left out, in their order.
pub proof fn law_legacy_names_keep_every_named_entry(raw: Seq<String>)
    ensures
        legacy_names(raw) == raw.map_values(|s: String| trim_seq(s@)).filter(
            |t: Seq<char>| t.len() > 0,
        ),
    decreases raw.len(),
{
    reveal_with_fuel(Seq::filter, 1);
    if raw.len() > 0 {
        let init = raw.drop_last();
        law_legacy_names_keep_every_named_entry(init);
        let m = raw.map_values(|s: String| trim_seq(s@));
        assert(m.drop_last() =~= init.map_values(|s: String| trim_seq(s@)));
        assert(m.last() == trim_seq(raw.last()@));
    }
}

/// The texts a legacy `custom.tags` document lists: the strings of an array
/// made only of strings, and none for any other document or for text that is
/// not JSON.
pub open spec fn legacy_list(doc: Option<JsonView>) -> Seq<Seq<char>> {
    match doc {
        Some(JsonView::Array(items)) => if forall|i: int|
            0 <= i < items.len() ==> #[trigger] items[i] is Str {
            Seq::new(items.len(), |i: int| items[i]->Str_0)
        } else {
            Seq::empty()
        },
        _ => Seq::empty(),
    }
}

/// Reads a node's stored legacy `custom.tags` list.
pub fn legacy_tag_list(raw: &str) -> (r: Vec<String>)
    ensures
        strings_of(r@) == legacy_list(parsed_json(raw@)),
{
    match parse_json(raw) {
        Ok(Json::Array(items)) => {
            let ghost view = items_view(items@);
            proof {
                lemma_items_view(items@);
            }
            let mut out: Vec<String> = Vec::new();
            let mut i: usize = 0;
            while i < items.len()
                invariant
                    i <= items@.len(),
                    view == items_view(items@),
                    parsed_json(raw@) == Some(JsonView::Array(view)),
                    view.len() == items@.len(),
                    forall|k: int| 0 <= k < items@.len() ==> #[trigger] view[k] == items@[k]@,
                    out@.len() == i,
                    forall|k: int| 0 <= k < i ==> #[trigger] view[k] == JsonView::Str(out@[k]@),
                decreases items.len() - i,
            {
                match &items[i] {
                    Json::Str(t) => {
                        out.push(t.clone());
                    },
                    _ => {
                        assert(!(view[i as int] is Str));
                        let none: Vec<String> = Vec::new();
                        assert(strings_of(none@) =~= Seq::<Seq<char>>::empty());
                        return none;
                    },
                }
                i = i + 1;
            }
            assert(strings_of(out@) =~= Seq::new(view.len(), |k: int| view[k]->Str_0));
            out
        },
        _ => {
            let none: Vec<String> = Vec::new();
            assert(strings_of(none@) =~= Seq::<Seq<char>>::empty());
            none
        },
    }
}

} // verus!
