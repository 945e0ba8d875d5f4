use vstd::prelude::*;
use crate::json::{
    Json, JsonMember, JsonView, find_member, json_view, keys_unique, lemma_members_map_domain,
    lemma_members_map_push, lemma_members_map_remove, lemma_members_map_value, members_map,
    wf_if_object,
};
use crate::text::str_eq;

verus! {

/// Every member value that is an object has distinct keys.
pub open spec fn values_wf(members: Seq<JsonMember>) -> bool {
    forall|i: int| 0 <= i < members.len() ==> wf_if_object(#[trigger] members[i].value)
}

/// The member list is a well-formed object: distinct keys, and so are the
/// keys of every object directly inside it.
pub open spec fn members_wf(members: Seq<JsonMember>) -> bool {
    keys_unique(members) && values_wf(members)
}

/// The sub-key merge used for the `custom` bag: keys of `next` replace those of
/// `cur`, a `null` removes the key, and every other key of `cur` stays.
pub open spec fn custom_merge(
    cur: Map<Seq<char>, JsonView>,
    next: Map<Seq<char>, JsonView>,
) -> Map<Seq<char>, JsonView> {
    Map::new(
        |k: Seq<char>|
            if next.contains_key(k) {
                !(next[k] is Null)
            } else {
                cur.contains_key(k)
            },
        |k: Seq<char>|
            if next.contains_key(k) {
                next[k]
            } else {
                cur[k]
            },
    )
}

/// What a property patch leaves under key `k`: a `null` clears the key, an
/// object under `custom` is merged key by key into a stored `custom` object,
/// any other patched value replaces the stored one, and a key the patch does
/// not mention keeps its stored value.
pub open spec fn patched_entry(
    base: Map<Seq<char>, JsonView>,
    patch: Map<Seq<char>, JsonView>,
    k: Seq<char>,
) -> Option<JsonView> {
    if patch.contains_key(k) {
        let v = patch[k];
        if v is Null {
            None
        } else if k == "custom"@ && base.contains_key(k) && base[k] is Object && v is Object {
            Some(JsonView::Object(custom_merge(base[k]->Object_0, v->Object_0)))
        } else {
            Some(v)
        }
    } else if base.contains_key(k) {
        Some(base[k])
    } else {
        None
    }
}

/// The stored properties `base` after applying the object `patch`.
pub open spec fn patch_map(
    base: Map<Seq<char>, JsonView>,
    patch: Map<Seq<char>, JsonView>,
) -> Map<Seq<char>, JsonView> {
    Map::new(
        |k: Seq<char>| patched_entry(base, patch, k) is Some,
        |k: Seq<char>| patched_entry(base, patch, k)->Some_0,
    )
}

/// The stored properties `base` after a patch; a patch that is not an object
/// changes nothing.
pub open spec fn patch_properties_spec(
    base: Map<Seq<char>, JsonView>,
    patch: JsonView,
) -> Map<Seq<char>, JsonView> {
    match patch {
        JsonView::Object(p) => patch_map(base, p),
        _ => base,
    }
}

/// One patch member applied to the current properties.
pub open spec fn apply_patch_member(
    m: Map<Seq<char>, JsonView>,
    k: Seq<char>,
    v: JsonView,
) -> Map<Seq<char>, JsonView> {
    if v is Null {
        m.remove(k)
    } else if k == "custom"@ && m.contains_key(k) && m[k] is Object && v is Object {
        m.insert(k, JsonView::Object(custom_merge(m[k]->Object_0, v->Object_0)))
    } else {
        m.insert(k, v)
    }
}

proof fn lemma_patch_map_step(
    base: Map<Seq<char>, JsonView>,
    p: Map<Seq<char>, JsonView>,
    k: Seq<char>,
    v: JsonView,
)
    requires
        !p.contains_key(k),
    ensures
        patch_map(base, p.insert(k, v)) == apply_patch_member(patch_map(base, p), k, v),
{
    assert(patch_map(base, p.insert(k, v)) =~= apply_patch_member(patch_map(base, p), k, v));
}

proof fn lemma_custom_merge_step(
    cur: Map<Seq<char>, JsonView>,
    n: Map<Seq<char>, JsonView>,
    k: Seq<char>,
    v: JsonView,
)
    requires
        !n.contains_key(k),
    ensures
        custom_merge(cur, n.insert(k, v)) == (if v is Null {
            custom_merge(cur, n).remove(k)
        } else {
            custom_merge(cur, n).insert(k, v)
        }),
{
    if v is Null {
        assert(custom_merge(cur, n.insert(k, v)) =~= custom_merge(cur, n).remove(k));
    } else {
        assert(custom_merge(cur, n.insert(k, v)) =~= custom_merge(cur, n).insert(k, v));
    }
}

proof fn lemma_prefix_map_step(members: Seq<JsonMember>, i: int)
    requires
        keys_unique(members),
        0 <= i < members.len(),
    ensures
        members_map(members.subrange(0, i + 1)) == members_map(members.subrange(0, i)).insert(
            members[i].key@,
            json_view(members[i].value),
        ),
        !members_map(members.subrange(0, i)).contains_key(members[i].key@),
{
    let p = members.subrange(0, i + 1);
    assert(p.drop_last() =~= members.subrange(0, i));
    lemma_members_map_domain(members.subrange(0, i), members[i].key@);
    if members_map(members.subrange(0, i)).contains_key(members[i].key@) {
        let j = choose|j: int|
            0 <= j < members.subrange(0, i).len() && #[trigger] members.subrange(0, i)[j].key@
                == members[i].key@;
        assert(members[j].key@ == members[i].key@);
    }
}

/// Removes the member under `key`, if any, keeping the keys distinct.
fn remove_key(members: &mut Vec<JsonMember>, key: &str)
    requires
        keys_unique(old(members)@),
    ensures
        keys_unique(final(members)@),
        values_wf(old(members)@) ==> values_wf(final(members)@),
        members_map(final(members)@) == members_map(old(members)@).remove(key@),
{
    let found = find_member(members, key);
    match found {
        Some(j) => {
            proof {
                lemma_members_map_remove(members@, j as int);
            }
            let ghost before = members@;
            members.remove(j);
            assert forall|i: int| 0 <= i < members@.len() && values_wf(before) implies wf_if_object(
                #[trigger] members@[i].value,
            ) by {
                if i < j {
                    assert(members@[i] == before[i]);
                } else {
                    assert(members@[i] == before[i + 1]);
                }
            }
        },
        None => {
            proof {
                lemma_members_map_domain(members@, key@);
            }
            assert(members_map(members@).remove(key@) =~= members_map(members@));
        },
    }
}

/// Stores `m` under its key, replacing any member with that key.
fn insert_member(members: &mut Vec<JsonMember>, m: JsonMember)
    requires
        keys_unique(old(members)@),
    ensures
        keys_unique(final(members)@),
        values_wf(old(members)@) && wf_if_object(m.value) ==> values_wf(final(members)@),
        members_map(final(members)@) == members_map(old(members)@).insert(
            m.key@,
            json_view(m.value),
        ),
{
    remove_key(members, m.key.as_str());
    let ghost before = members@;
    proof {
        lemma_members_map_domain(before, m.key@);
    }
    members.push(m);
    proof {
        lemma_members_map_push(before, m);
        assert(members_map(before).remove(m.key@).insert(m.key@, json_view(m.value))
            =~= members_map(before).insert(m.key@, json_view(m.value)));
        assert forall|a: int, b: int|
            0 <= a < members@.len() && 0 <= b < members@.len() && a != b implies members@[a].key@
            != members@[b].key@ by {
            if a == before.len() as int {
                assert(members@[b] == before[b]);
            } else if b == before.len() as int {
                assert(members@[a] == before[a]);
            }
        }
        assert forall|i: int|
            0 <= i < members@.len() && values_wf(old(members)@) && wf_if_object(
                m.value,
            ) implies wf_if_object(#[trigger] members@[i].value) by {
            if i < before.len() {
                assert(members@[i] == before[i]);
            }
        }
    }
}

/// Merges the sub-keys of `next` into `cur`, as the `custom` bag is merged.
pub fn merge_custom(cur: Vec<JsonMember>, next: Vec<JsonMember>) -> (r: Vec<JsonMember>)
    requires
        keys_unique(cur@),
        keys_unique(next@),
    ensures
        keys_unique(r@),
        members_map(r@) == custom_merge(members_map(cur@), members_map(next@)),
{
    let mut result = cur;
    let mut rest = next;
    let ghost all = next@;
    let ghost base = members_map(cur@);
    let ghost mut i: int = 0;
    proof {
        assert(all.subrange(0, 0) =~= Seq::<JsonMember>::empty());
        assert(custom_merge(base, Map::empty()) =~= base);
        assert(all.subrange(0, all.len() as int) =~= all);
    }
    while rest.len() > 0
        invariant
            0 <= i <= all.len(),
            keys_unique(all),
            rest@ == all.subrange(i, all.len() as int),
            keys_unique(result@),
            members_map(result@) == custom_merge(base, members_map(all.subrange(0, i))),
        decreases rest.len(),
    {
        let m = rest.remove(0);
        assert(m == all[i]);
        proof {
            lemma_prefix_map_step(all, i);
            lemma_custom_merge_step(
                base,
                members_map(all.subrange(0, i)),
                m.key@,
                json_view(m.value),
            );
        }
        if m.value.is_null() {
            remove_key(&mut result, m.key.as_str());
        } else {
            insert_member(&mut result, m);
        }
        proof {
            i = i + 1;
            assert(rest@ =~= all.subrange(i, all.len() as int));
        }
    }
    proof {
        assert(all.subrange(0, i) =~= all);
    }
    result
}

/// Applies one patch member to the stored properties.
fn apply_member(result: &mut Vec<JsonMember>, m: JsonMember)
    requires
        members_wf(old(result)@),
        wf_if_object(m.value),
    ensures
        members_wf(final(result)@),
        members_map(final(result)@) == apply_patch_member(
            members_map(old(result)@),
            m.key@,
            json_view(m.value),
        ),
{
    if m.value.is_null() {
        remove_key(result, m.key.as_str());
        return ;
    }
    let is_custom = str_eq(m.key.as_str(), "custom");
    let found = find_member(result, m.key.as_str());
    proof {
        lemma_members_map_domain(result@, m.key@);
    }
    match found {
        Some(j) => {
            proof {
                lemma_members_map_value(result@, j as int);
            }
            if is_custom && m.value.is_object() && result[j].value.is_object() {
                let ghost before = result@;
                proof {
                    lemma_members_map_remove(result@, j as int);
                }
                let old = result.remove(j);
                assert(old == before[j as int]);
                assert(wf_if_object(before[j as int].value));
                assert(members_wf(result@)) by {
                    assert forall|i: int| 0 <= i < result@.len() implies wf_if_object(
                        #[trigger] result@[i].value,
                    ) by {
                        if i < j {
                            assert(result@[i] == before[i]);
                        } else {
                            assert(result@[i] == before[i + 1]);
                        }
                    }
                }
                match (old.value, m.value) {
                    (Json::Object(cur), Json::Object(next)) => {
                        let merged = merge_custom(cur, next);
                        let member = JsonMember { key: m.key, value: Json::Object(merged) };
                        insert_member(result, member);
                        proof {
                            assert(members_map(before).remove(m.key@).insert(
                                m.key@,
                                json_view(member.value),
                            ) =~= members_map(before).insert(m.key@, json_view(member.value)));
                        }
                    },
                    _ => {},
                }
            } else {
                insert_member(result, m);
            }
        },
        None => {
            insert_member(result, m);
        },
    }
}

/// The object stored in a node's properties: its members when the stored
/// text parsed as an object, and no members otherwise, so that keys this
/// build does not know survive a read and write.
pub fn read_properties_object(parsed: Option<Json>) -> (r: Vec<JsonMember>)
    ensures
        parsed matches Some(Json::Object(m)) ==> r == m,
        !(parsed matches Some(Json::Object(_))) ==> r@.len() == 0,
{
    match parsed {
        Some(Json::Object(m)) => m,
        _ => Vec::new(),
    }
}

/// The object stored in a node's properties text `raw`: its members when
/// the text reads as a JSON object, and no members otherwise.
pub fn stored_properties_object(raw: &str) -> (r: Vec<JsonMember>)
    ensures
        crate::json_text::parsed_json(raw@) matches Some(JsonView::Object(m)) ==> members_map(
            r@,
        ) == m && keys_unique(r@),
        !(crate::json_text::parsed_json(raw@) matches Some(JsonView::Object(_))) ==> r@.len()
            == 0,
{
    let parsed = match crate::json_text::parse_json(raw) {
        Ok(j) => Some(j),
        Err(_) => None,
    };
    read_properties_object(parsed)
}

/// Whether `members` is a well-formed object: distinct keys, and so are the
/// keys of every object directly inside it.
pub fn members_are_wf(members: &Vec<JsonMember>) -> (r: bool)
    ensures
        r == members_wf(members@),
{
    if !crate::json::has_unique_keys(members) {
        return false;
    }
    let mut i: usize = 0;
    while i < members.len()
        invariant
            i <= members@.len(),
            forall|k: int| 0 <= k < i ==> wf_if_object(#[trigger] members@[k].value),
        decreases members.len() - i,
    {
        if !crate::json::is_wf(&members[i].value) {
            return false;
        }
        i = i + 1;
    }
    true
}

/// Applies `patch` over a node's stored properties and returns the merged
/// object. A `null` in the patch removes that key; an object under `custom`
/// is merged into the stored `custom` object key by key; every other patched
/// key is replaced; every key the patch does not name is left untouched.
pub fn merged_properties(existing: Vec<JsonMember>, patch: Json) -> (r: Vec<JsonMember>)
    requires
        members_wf(existing@),
        patch matches Json::Object(p) ==> members_wf(p@),
    ensures
        members_wf(r@),
        members_map(r@) == patch_properties_spec(members_map(existing@), patch@),
{
    let mut result = existing;
    let ghost base = members_map(existing@);
    match patch {
        Json::Object(pm) => {
            let mut rest = pm;
            let ghost all = pm@;
            let ghost mut i: int = 0;
            proof {
                assert(all.subrange(0, 0) =~= Seq::<JsonMember>::empty());
                assert(patch_map(base, Map::empty()) =~= base);
                assert(all.subrange(0, all.len() as int) =~= all);
            }
            while rest.len() > 0
                invariant
                    0 <= i <= all.len(),
                    members_wf(all),
                    rest@ == all.subrange(i, all.len() as int),
                    members_wf(result@),
                    members_map(result@) == patch_map(base, members_map(all.subrange(0, i))),
                decreases rest.len(),
            {
                let m = rest.remove(0);
                assert(m == all[i]);
                proof {
                    lemma_prefix_map_step(all, i);
                    lemma_patch_map_step(
                        base,
                        members_map(all.subrange(0, i)),
                        m.key@,
                        json_view(m.value),
                    );
                }
                apply_member(&mut result, m);
                proof {
                    i = i + 1;
                    assert(rest@ =~= all.subrange(i, all.len() as int));
                }
            }
            proof {
                assert(all.subrange(0, i) =~= all);
            }
            result
        },
        _ => result,
    }
}

/// The keys of a node's properties that this build models; replacing the
/// properties rewrites exactly these.
pub open spec fn is_known_property_key(k: Seq<char>) -> bool {
    ||| k == "due_date"@
    ||| k == "start_date"@
    ||| k == "priority"@
    ||| k == "reminders"@
    ||| k == "recurrence"@
    ||| k == "estimated_duration_minutes"@
    ||| k == "custom"@
    ||| k == "icon"@
    ||| k == "color"@
    ||| k == "pinned"@
    ||| k == "favorite"@
}

/// Whether `k` is one of the modelled property keys.
pub fn known_property_key(k: &str) -> (r: bool)
    ensures
        r == is_known_property_key(k@),
{
    str_eq(k, "due_date") || str_eq(k, "start_date") || str_eq(k, "priority") || str_eq(
        k,
        "reminders",
    ) || str_eq(k, "recurrence") || str_eq(k, "estimated_duration_minutes") || str_eq(k, "custom")
        || str_eq(k, "icon") || str_eq(k, "color") || str_eq(k, "pinned") || str_eq(k, "favorite")
}

/// The stored properties after a replacement: every modelled key takes the
/// replacement's value or is removed, and every other key keeps its stored
/// value unless the replacement names it.
pub open spec fn replace_map(
    base: Map<Seq<char>, JsonView>,
    replacement: Map<Seq<char>, JsonView>,
) -> Map<Seq<char>, JsonView> {
    Map::new(
        |k: Seq<char>|
            replacement.contains_key(k) || (!is_known_property_key(k) && base.contains_key(k)),
        |k: Seq<char>|
            if replacement.contains_key(k) {
                replacement[k]
            } else {
                base[k]
            },
    )
}

/// The stored properties after replacing the modelled keys with `replacement`
/// (a replacement that is not an object only clears them).
pub open spec fn replace_properties_spec(
    base: Map<Seq<char>, JsonView>,
    replacement: JsonView,
) -> Map<Seq<char>, JsonView> {
    match replacement {
        JsonView::Object(r) => replace_map(base, r),
        _ => replace_map(base, Map::empty()),
    }
}

/// Replaces the properties this build models, leaving every other key intact.
pub fn replaced_properties(existing: Vec<JsonMember>, replacement: Json) -> (r: Vec<JsonMember>)
    requires
        members_wf(existing@),
        replacement matches Json::Object(p) ==> members_wf(p@),
    ensures
        members_wf(r@),
        members_map(r@) == replace_properties_spec(members_map(existing@), replacement@),
{
    let ghost base = members_map(existing@);
    let mut kept: Vec<JsonMember> = Vec::new();
    let mut rest = existing;
    let ghost all = existing@;
    let ghost mut i: int = 0;
    proof {
        assert(all.subrange(0, 0) =~= Seq::<JsonMember>::empty());
        assert(all.subrange(0, all.len() as int) =~= all);
    }
    while rest.len() > 0
        invariant
            0 <= i <= all.len(),
            members_wf(all),
            rest@ == all.subrange(i, all.len() as int),
            members_wf(kept@),
            members_map(kept@) == replace_map(members_map(all.subrange(0, i)), Map::empty()),
        decreases rest.len(),
    {
        let m = rest.remove(0);
        assert(m == all[i]);
        proof {
            lemma_prefix_map_step(all, i);
        }
        let ghost prefix = members_map(all.subrange(0, i));
        if known_property_key(m.key.as_str()) {
            proof {
                assert(replace_map(prefix.insert(m.key@, json_view(m.value)), Map::empty())
                    =~= replace_map(prefix, Map::empty()));
            }
        } else {
            assert(wf_if_object(all[i].value));
            insert_member(&mut kept, m);
            proof {
                assert(replace_map(prefix.insert(m.key@, json_view(m.value)), Map::empty())
                    =~= replace_map(prefix, Map::empty()).insert(m.key@, json_view(m.value)));
            }
        }
        proof {
            i = i + 1;
            assert(rest@ =~= all.subrange(i, all.len() as int));
        }
    }
    proof {
        assert(all.subrange(0, i) =~= all);
    }
    let ghost stripped = replace_map(base, Map::empty());
    let mut result = kept;
    match replacement {
        Json::Object(pm) => {
            let mut rest2 = pm;
            let ghost all2 = pm@;
            let ghost mut k: int = 0;
            proof {
                assert(all2.subrange(0, 0) =~= Seq::<JsonMember>::empty());
                assert(all2.subrange(0, all2.len() as int) =~= all2);
                assert(replace_map(base, Map::empty()) =~= replace_map(
                    base,
                    members_map(all2.subrange(0, 0)),
                ));
            }
            while rest2.len() > 0
                invariant
                    0 <= k <= all2.len(),
                    members_wf(all2),
                    rest2@ == all2.subrange(k, all2.len() as int),
                    members_wf(result@),
                    members_map(result@) == replace_map(base, members_map(all2.subrange(0, k))),
                decreases rest2.len(),
            {
                let m = rest2.remove(0);
                assert(m == all2[k]);
                proof {
                    lemma_prefix_map_step(all2, k);
                    assert(replace_map(
                        base,
                        members_map(all2.subrange(0, k)).insert(m.key@, json_view(m.value)),
                    ) =~= replace_map(base, members_map(all2.subrange(0, k))).insert(
                        m.key@,
                        json_view(m.value),
                    ));
                }
                assert(wf_if_object(all2[k].value));
                insert_member(&mut result, m);
                proof {
                    k = k + 1;
                    assert(rest2@ =~= all2.subrange(k, all2.len() as int));
                }
            }
            proof {
                assert(all2.subrange(0, k) =~= all2);
            }
            result
        },
        _ => result,
    }
}

} // verus!

verus! {

/// A property patch leaves every key it does not name as it was, removes
/// the keys it sets to `null`, and stores every other value it names (the
/// `custom` bag, when both sides are objects, merged key by key).
pub proof fn law_patch_touches_only_named_keys(
    base: Map<Seq<char>, JsonView>,
    patch: Map<Seq<char>, JsonView>,
    k: Seq<char>,
)
    ensures
        !patch.contains_key(k) ==> (patch_map(base, patch).contains_key(k) == base.contains_key(k)
            && (base.contains_key(k) ==> patch_map(base, patch)[k] == base[k])),
        patch.contains_key(k) && patch[k] is Null ==> !patch_map(base, patch).contains_key(k),
        patch.contains_key(k) && !(patch[k] is Null) && k != "custom"@ ==> patch_map(
            base,
            patch,
        ).contains_key(k) && patch_map(base, patch)[k] == patch[k],
{
}

/// Inside the `custom` bag a patch again changes only the sub-keys it names.
pub proof fn law_custom_merge_keeps_other_sub_keys(
    cur: Map<Seq<char>, JsonView>,
    next: Map<Seq<char>, JsonView>,
    k: Seq<char>,
)
    ensures
        !next.contains_key(k) ==> (custom_merge(cur, next).contains_key(k) == cur.contains_key(k)
            && (cur.contains_key(k) ==> custom_merge(cur, next)[k] == cur[k])),
        next.contains_key(k) && next[k] is Null ==> !custom_merge(cur, next).contains_key(k),
{
}

/// Replacing the properties keeps every key this build does not model, unless
/// the replacement names it, and removes every modelled key the replacement
/// leaves out.
pub proof fn law_replace_keeps_unknown_keys(
    base: Map<Seq<char>, JsonView>,
    replacement: Map<Seq<char>, JsonView>,
    k: Seq<char>,
)
    ensures
        !is_known_property_key(k) && !replacement.contains_key(k) ==> (replace_map(
            base,
            replacement,
        ).contains_key(k) == base.contains_key(k) && (base.contains_key(k) ==> replace_map(
            base,
            replacement,
        )[k] == base[k])),
        is_known_property_key(k) && !replacement.contains_key(k) ==> !replace_map(
            base,
            replacement,
        ).contains_key(k),
        replacement.contains_key(k) ==> replace_map(base, replacement).contains_key(k)
            && replace_map(base, replacement)[k] == replacement[k],
{
}

} // verus!
