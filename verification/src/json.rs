use vstd::prelude::*;
use crate::text::str_eq;

verus! {

/// A JSON number as `serde_json` keeps it: a non-negative integer, a
/// negative integer, or a float, held by the text `serde_json` writes for it.
#[derive(Debug, Clone, PartialEq, Eq)]
pub enum JsonNumber {
    PosInt(u64),
    NegInt(i64),
    Float(String),
}

/// One `"key": value` entry of a JSON object.
#[derive(Debug, PartialEq)]
pub struct JsonMember {
    pub key: String,
    pub value: Json,
}

/// A JSON document. An object lists its members; its keys are expected to be
/// distinct, as in any object that `serde_json` produces.
#[derive(Debug, PartialEq)]
pub enum Json {
    Null,
    Bool(bool),
    Number(JsonNumber),
    Str(String),
    Array(Vec<Json>),
    Object(Vec<JsonMember>),
}

/// The mathematical meaning of a JSON document: objects are maps from key to
/// value.
pub enum JsonView {
    Null,
    Bool(bool),
    Number(JsonNumber),
    Str(Seq<char>),
    Array(Seq<JsonView>),
    Object(Map<Seq<char>, JsonView>),
}

pub open spec fn json_view(j: Json) -> JsonView
    decreases j,
{
    match j {
        Json::Null => JsonView::Null,
        Json::Bool(b) => JsonView::Bool(b),
        Json::Number(n) => JsonView::Number(n),
        Json::Str(s) => JsonView::Str(s@),
        Json::Array(items) => JsonView::Array(items_view(items@)),
        Json::Object(members) => JsonView::Object(members_map(members@)),
    }
}

/// The views of `items`, in order.
pub open spec fn items_view(items: Seq<Json>) -> Seq<JsonView>
    decreases items,
{
    if items.len() == 0 {
        Seq::empty()
    } else {
        items_view(items.drop_last()).push(json_view(items.last()))
    }
}

/// The map that the members of an object stand for; a later member wins over
/// an earlier one with the same key.
pub open spec fn members_map(members: Seq<JsonMember>) -> Map<Seq<char>, JsonView>
    decreases members,
{
    if members.len() == 0 {
        Map::empty()
    } else {
        members_map(members.drop_last()).insert(
            members.last().key@,
            json_view(members.last().value),
        )
    }
}

impl View for Json {
    type V = JsonView;

    open spec fn view(&self) -> JsonView {
        json_view(*self)
    }
}

/// No two members share a key.
pub open spec fn keys_unique(members: Seq<JsonMember>) -> bool {
    forall|i: int, j: int|
        0 <= i < members.len() && 0 <= j < members.len() && i != j ==> members[i].key@
            != members[j].key@
}

/// The object members of `j`, when it is an object; the keys are distinct.
pub open spec fn is_wf_object(j: Json) -> bool {
    j matches Json::Object(m) && keys_unique(m@)
}

/// `j` is an object whose keys are distinct, or not an object at all.
pub open spec fn wf_if_object(j: Json) -> bool {
    j matches Json::Object(m) ==> keys_unique(m@)
}

/// The views of `items` are as many as the items, each the view of its item.
pub proof fn lemma_items_view(items: Seq<Json>)
    ensures
        items_view(items).len() == items.len(),
        forall|i: int| 0 <= i < items.len() ==> #[trigger] items_view(items)[i] == json_view(items[i]),
    decreases items.len(),
{
    if items.len() > 0 {
        lemma_items_view(items.drop_last());
    }
}

pub proof fn lemma_members_map_domain(members: Seq<JsonMember>, k: Seq<char>)
    ensures
        members_map(members).contains_key(k) <==> exists|i: int|
            0 <= i < members.len() && #[trigger] members[i].key@ == k,
    decreases members.len(),
{
    if members.len() > 0 {
        let init = members.drop_last();
        lemma_members_map_domain(init, k);
        if members_map(members).contains_key(k) {
            if k != members.last().key@ {
                let i = choose|i: int| 0 <= i < init.len() && #[trigger] init[i].key@ == k;
                assert(members[i].key@ == k);
            } else {
                assert(members[members.len() - 1].key@ == k);
            }
        }
        if exists|i: int| 0 <= i < members.len() && #[trigger] members[i].key@ == k {
            let i = choose|i: int| 0 <= i < members.len() && #[trigger] members[i].key@ == k;
            if i < members.len() - 1 {
                assert(init[i].key@ == k);
            }
        }
    }
}

pub proof fn lemma_members_map_value(members: Seq<JsonMember>, i: int)
    requires
        keys_unique(members),
        0 <= i < members.len(),
    ensures
        members_map(members).contains_key(members[i].key@),
        members_map(members)[members[i].key@] == json_view(members[i].value),
    decreases members.len(),
{
    let init = members.drop_last();
    if i < members.len() - 1 {
        assert(keys_unique(init));
        assert(init[i] == members[i]);
        lemma_members_map_value(init, i);
        assert(members[i].key@ != members[members.len() - 1].key@);
    }
}

pub proof fn lemma_members_map_push(members: Seq<JsonMember>, m: JsonMember)
    ensures
        members_map(members.push(m)) == members_map(members).insert(m.key@, json_view(m.value)),
{
    assert(members.push(m).drop_last() =~= members);
}

pub proof fn lemma_members_map_remove(members: Seq<JsonMember>, j: int)
    requires
        keys_unique(members),
        0 <= j < members.len(),
    ensures
        members_map(members.remove(j)) == members_map(members).remove(members[j].key@),
        keys_unique(members.remove(j)),
    decreases members.len(),
{
    let n = members.len();
    let init = members.drop_last();
    let kj = members[j].key@;
    assert(keys_unique(init));
    if j == n - 1 {
        assert(members.remove(j) =~= init);
        lemma_members_map_domain(init, kj);
        if members_map(init).contains_key(kj) {
            let i = choose|i: int| 0 <= i < init.len() && #[trigger] init[i].key@ == kj;
            assert(members[i].key@ == kj);
        }
        assert(members_map(members).remove(kj) =~= members_map(init));
    } else {
        lemma_members_map_remove(init, j);
        assert(members.remove(j) =~= init.remove(j).push(members.last()));
        lemma_members_map_push(init.remove(j), members.last());
        assert(kj != members.last().key@);
        assert(members_map(members).remove(kj) =~= members_map(init).remove(kj).insert(
            members.last().key@,
            json_view(members.last().value),
        ));
    }
    assert forall|a: int, b: int|
        0 <= a < members.remove(j).len() && 0 <= b < members.remove(j).len() && a != b implies
        members.remove(j)[a].key@ != members.remove(j)[b].key@ by {
        let a2 = if a < j { a } else { a + 1 };
        let b2 = if b < j { b } else { b + 1 };
        assert(members.remove(j)[a] == members[a2]);
        assert(members.remove(j)[b] == members[b2]);
    }
}

/// Where the member with key `key` stands in `members`, searching from the front.
pub fn find_member(members: &Vec<JsonMember>, key: &str) -> (r: Option<usize>)
    ensures
        r matches Some(i) ==> i < members@.len() && members@[i as int].key@ == key@ && forall|
            j: int,
        |
            0 <= j < i ==> members@[j].key@ != key@,
        r is None ==> forall|j: int| 0 <= j < members@.len() ==> members@[j].key@ != key@,
{
    let mut i: usize = 0;
    while i < members.len()
        invariant
            i <= members@.len(),
            forall|j: int| 0 <= j < i ==> members@[j].key@ != key@,
        decreases members.len() - i,
    {
        if str_eq(members[i].key.as_str(), key) {
            return Some(i);
        }
        i = i + 1;
    }
    None
}

/// The member value stored under `key` in an object's member list.
pub fn member_get<'a>(members: &'a Vec<JsonMember>, key: &str) -> (r: Option<&'a Json>)
    requires
        keys_unique(members@),
    ensures
        members_map(members@).contains_key(key@) <==> r is Some,
        r matches Some(v) ==> members_map(members@)[key@] == json_view(*v),
{
    let found = find_member(members, key);
    proof {
        lemma_members_map_domain(members@, key@);
    }
    match found {
        Some(i) => {
            proof {
                lemma_members_map_value(members@, i as int);
            }
            Some(&members[i].value)
        },
        None => None,
    }
}

/// The value a JSON object holds under `key`, as `serde_json::Value::get`
/// with a string index.
pub open spec fn view_get(j: JsonView, key: Seq<char>) -> Option<JsonView> {
    match j {
        JsonView::Object(m) => if m.contains_key(key) {
            Some(m[key])
        } else {
            None
        },
        _ => None,
    }
}

impl Json {
    /// `serde_json::Value::get` with a string index: the member under `key`
    /// when this is an object that has one.
    pub fn get(&self, key: &str) -> (r: Option<&Json>)
        requires
            wf_if_object(*self),
        ensures
            r is Some <==> view_get(self@, key@) is Some,
            r matches Some(v) ==> view_get(self@, key@) == Some(v@),
    {
        match self {
            Json::Object(members) => member_get(members, key),
            _ => None,
        }
    }

    /// `serde_json::Value::is_object`.
    pub fn is_object(&self) -> (r: bool)
        ensures
            r == (self@ is Object),
    {
        match self {
            Json::Object(_) => true,
            _ => false,
        }
    }

    /// `serde_json::Value::is_null`.
    pub fn is_null(&self) -> (r: bool)
        ensures
            r == (self@ is Null),
    {
        match self {
            Json::Null => true,
            _ => false,
        }
    }

    /// `serde_json::Value::as_str`, copied out.
    pub fn as_string(&self) -> (r: Option<String>)
        ensures
            r is Some <==> self@ is Str,
            r matches Some(s) ==> self@ == JsonView::Str(s@),
    {
        match self {
            Json::Str(s) => Some(s.clone()),
            _ => None,
        }
    }
}

/// A JSON string holding `s`.
pub fn json_string(s: &str) -> (j: Json)
    ensures
        j@ == JsonView::Str(s@),
{
    Json::Str(s.to_owned())
}

/// Whether no two of `members` share a key.
pub fn has_unique_keys(members: &Vec<JsonMember>) -> (r: bool)
    ensures
        r == keys_unique(members@),
{
    let n = members.len();
    let mut i: usize = 0;
    while i < n
        invariant
            n == members@.len(),
            i <= n,
            forall|a: int, b: int| 0 <= a < i && a < b < n ==> members@[a].key@ != members@[b].key@,
        decreases n - i,
    {
        let mut j: usize = i + 1;
        while j < n
            invariant
                n == members@.len(),
                i < n,
                i + 1 <= j <= n,
                forall|a: int, b: int|
                    0 <= a < i && a < b < n ==> members@[a].key@ != members@[b].key@,
                forall|b: int| i < b < j ==> members@[i as int].key@ != members@[b].key@,
            decreases n - j,
        {
            if str_eq(members[i].key.as_str(), members[j].key.as_str()) {
                return false;
            }
            j = j + 1;
        }
        i = i + 1;
    }
    true
}

/// Whether `j` is an object with distinct keys, or no object.
pub fn is_wf(j: &Json) -> (r: bool)
    ensures
        r == wf_if_object(*j),
{
    match j {
        Json::Object(m) => has_unique_keys(m),
        _ => true,
    }
}

} // verus!

