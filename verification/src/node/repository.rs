use vstd::prelude::*;
use crate::node::model::{
    node_type_name, parse_node_type, Node, NodeProperties, NodeType, Position, SearchFilters,
    UpdateNodeInput,
};
use crate::text::str_eq;

verus! {

/// The texts of a list of ids.
pub open spec fn ids_view(ids: Seq<String>) -> Seq<Seq<char>> {
    ids.map_values(|s: String| s@)
}

/// The test for an id other than `x`.
pub open spec fn other_than(x: Seq<char>) -> spec_fn(Seq<char>) -> bool {
    |s: Seq<char>| s != x
}

/// `ids` without every occurrence of `x`.
pub open spec fn without(ids: Seq<Seq<char>>, x: Seq<char>) -> Seq<Seq<char>> {
    ids.filter(other_than(x))
}

/// The sibling order after a move: the ids in their stored order, without the
/// node that left (`exclude`), and with the node that arrived (`insert`)
/// placed at its target index, or last when the index is past the end.
pub open spec fn sibling_order_spec(
    ids: Seq<Seq<char>>,
    exclude: Option<Seq<char>>,
    insert: Option<(Seq<char>, int)>,
) -> Seq<Seq<char>> {
    let kept = match exclude {
        Some(x) => without(ids, x),
        None => ids,
    };
    match insert {
        Some((y, index)) => {
            let rest = without(kept, y);
            let at = if index < rest.len() {
                index
            } else {
                rest.len() as int
            };
            rest.insert(at, y)
        },
        None => kept,
    }
}

/// `ids` without the entries equal to `x`, in order.
fn remove_id(ids: Vec<String>, x: &str) -> (r: Vec<String>)
    ensures
        ids_view(r@) == without(ids_view(ids@), x@),
{
    let ghost v = ids_view(ids@);
    let mut r: Vec<String> = Vec::new();
    let mut i: usize = 0;
    proof {
        reveal(Seq::filter);
        assert(v.take(0) =~= Seq::<Seq<char>>::empty());
        assert(ids_view(r@) =~= Seq::<Seq<char>>::empty());
    }
    while i < ids.len()
        invariant
            i <= ids@.len(),
            v == ids_view(ids@),
            v.len() == ids@.len(),
            ids_view(r@) == without(v.take(i as int), x@),
        decreases ids.len() - i,
    {
        proof {
            reveal(Seq::filter);
            assert(v.take(i + 1).drop_last() =~= v.take(i as int));
            assert(v.take(i + 1).last() == ids@[i as int]@);
        }
        if !str_eq(ids[i].as_str(), x) {
            let s = ids[i].clone();
            let ghost before = r@;
            r.push(s);
            assert(ids_view(r@) =~= ids_view(before).push(s@));
        }
        i = i + 1;
    }
    assert(v.take(ids@.len() as int) =~= v);
    r
}

/// The order of a parent's children after a node leaves (`exclude_id`) or
/// arrives at `target_index` (`insert`); `ids` is their stored order.
pub fn normalize_sibling_order(
    ids: Vec<String>,
    exclude_id: Option<&str>,
    insert: Option<(&str, usize)>,
) -> (r: Vec<String>)
    ensures
        ids_view(r@) == sibling_order_spec(
            ids_view(ids@),
            match exclude_id {
                Some(x) => Some(x@),
                None => None,
            },
            match insert {
                Some((y, i)) => Some((y@, i as int)),
                None => None,
            },
        ),
{
    let kept = match exclude_id {
        Some(x) => remove_id(ids, x),
        None => ids,
    };
    match insert {
        Some((y, index)) => {
            let mut rest = remove_id(kept, y);
            let at = if index < rest.len() {
                index
            } else {
                rest.len()
            };
            let ghost before = rest@;
            let s = y.to_owned();
            rest.insert(at, s);
            assert(ids_view(rest@) =~= ids_view(before).insert(at as int, y@));
            rest
        },
        None => kept,
    }
}

/// A node moved to `index` among its new siblings lands there (or last, when
/// the index is past the end), appears there once, and the other siblings
/// keep their order around it.
pub proof fn law_ordered_move_lands_at_its_index(ids: Seq<Seq<char>>, y: Seq<char>, index: int)
    requires
        index >= 0,
    ensures
        ({
            let rest = without(ids, y);
            let at = if index < rest.len() {
                index
            } else {
                rest.len() as int
            };
            let r = sibling_order_spec(ids, None, Some((y, index)));
            &&& r.len() == rest.len() + 1
            &&& r[at] == y
            &&& r.remove(at) == rest
            &&& forall|i: int| 0 <= i < r.len() && i != at ==> r[i] != y
        }),
{
    let rest = without(ids, y);
    let at = if index < rest.len() {
        index
    } else {
        rest.len() as int
    };
    let r = sibling_order_spec(ids, None, Some((y, index)));
    assert(r == rest.insert(at, y));
    assert(r.remove(at) =~= rest);
    assert forall|i: int| 0 <= i < r.len() && i != at implies r[i] != y by {
        let k = if i < at {
            i
        } else {
            i - 1
        };
        assert(r[i] == rest[k]);
        ids.lemma_filter_pred(other_than(y), k);
    }
}

/// The position of the child in slot `index` after positions are normalized.
pub open spec fn slot_position_spec(index: int) -> int {
    index * 1000
}

/// The position given to the child in slot `index`: 0, 1000, 2000, ...
pub fn slot_position(index: usize) -> (p: u64)
    requires
        index <= u64::MAX / 1000,
    ensures
        p == slot_position_spec(index as int),
{
    (index as u64) * 1000
}

/// Normalized positions keep the slots in order and never collide.
pub proof fn law_slot_positions_strictly_increase(i: int, j: int)
    requires
        0 <= i < j,
    ensures
        slot_position_spec(i) < slot_position_spec(j),
{
}

/// The type stored under `name`, read as a task when the name is unknown.
pub fn node_type_or_task(name: &str) -> (t: NodeType)
    ensures
        t == match parse_node_type(name@) {
            Some(t) => t,
            None => NodeType::Task,
        },
{
    match NodeType::parse(name) {
        Some(t) => t,
        None => NodeType::Task,
    }
}

/// `s` with every double quote doubled, as FTS5 escapes a quoted string.
pub open spec fn double_quotes(s: Seq<char>) -> Seq<char>
    decreases s.len(),
{
    if s.len() == 0 {
        s
    } else {
        double_quotes(s.drop_last()) + if s.last() == '"' {
            seq!['"', '"']
        } else {
            seq![s.last()]
        }
    }
}

/// The full-text query that matches `query` as one phrase.
pub open spec fn fts_phrase(query: Seq<char>) -> Seq<char> {
    seq!['"'] + double_quotes(query) + seq!['"']
}

/// The full-text query for a search: the text as one quoted phrase.
pub fn fts_query(query: &str) -> (r: String)
    ensures
        r@ == fts_phrase(query@),
{
    let n = query.unicode_len();
    let mut out: Vec<char> = Vec::new();
    out.push('"');
    let mut i: usize = 0;
    while i < n
        invariant
            n == query@.len(),
            i <= n,
            out@ == seq!['"'] + double_quotes(query@.take(i as int)),
        decreases n - i,
    {
        let c = query.get_char(i);
        assert(query@.take(i + 1).drop_last() =~= query@.take(i as int));
        if c == '"' {
            out.push('"');
            out.push('"');
        } else {
            out.push(c);
        }
        i = i + 1;
        assert(out@ =~= seq!['"'] + double_quotes(query@.take(i as int)));
    }
    out.push('"');
    assert(query@.take(n as int) =~= query@);
    assert(out@ =~= fts_phrase(query@));
    crate::text::chars_to_string(&out)
}

/// The `LIKE` pattern that finds `query` anywhere in a title.
pub fn quick_find_pattern(query: &str) -> (r: String)
    ensures
        r@ == seq!['%'] + query@ + seq!['%'],
{
    let mut r = String::from_str("%");
    r.append(query);
    r.append("%");
    proof {
        reveal_strlit("%");
        assert(r@ =~= seq!['%'] + query@ + seq!['%']);
    }
    r
}

/// The quoted, comma-separated type names of an `IN (...)` list.
pub open spec fn type_list(types: Seq<NodeType>) -> Seq<char>
    decreases types.len(),
{
    if types.len() == 0 {
        Seq::empty()
    } else if types.len() == 1 {
        seq!['\''] + node_type_name(types[0]) + seq!['\'']
    } else {
        type_list(types.drop_last()) + seq![','] + seq!['\''] + node_type_name(types.last())
            + seq!['\'']
    }
}

/// The text a search query starts with.
pub open spec fn search_sql_head() -> Seq<char> {
    "SELECT n.*, snippet(nodes_fts, 1, '<mark>', '</mark>', '...', 40) AS snippet,\n             rank FROM nodes_fts\n             JOIN nodes n ON nodes_fts.node_id = n.id\n             WHERE nodes_fts MATCH ?1 AND n.deleted_at IS NULL"@
}

/// The `IN (...)` restriction to the given node types, if any.
pub open spec fn types_clause(types: Option<Seq<NodeType>>) -> Seq<char> {
    match types {
        Some(t) => " AND n.type IN ("@ + type_list(t) + ")"@,
        None => Seq::empty(),
    }
}

/// The node types of a filter, as a sequence.
pub open spec fn filter_types(types: Option<Vec<NodeType>>) -> Option<Seq<NodeType>> {
    match types {
        Some(v) => Some(v@),
        None => None,
    }
}

/// The search query for `filters`: the node types, the priority and the
/// completion state narrow the full-text match; tags, due dates and the
/// workspace do not.
pub open spec fn search_sql_spec(
    types: Option<Seq<NodeType>>,
    priority: Option<i32>,
    completed: Option<bool>,
) -> Seq<char> {
    let types_clause = types_clause(types);
    let priority_clause = match priority {
        Some(p) => " AND json_extract(n.properties, '$.priority') = "@
            + crate::text::signed_decimal_seq(p as int),
        None => Seq::empty(),
    };
    let completed_clause = match completed {
        Some(true) => " AND n.is_completed = 1"@,
        Some(false) => " AND n.is_completed = 0"@,
        None => Seq::empty(),
    };
    search_sql_head() + types_clause + priority_clause + completed_clause
        + " ORDER BY rank LIMIT 50"@
}

/// The full-text search query for `filters`; the phrase goes in as `?1`.
pub fn search_sql(filters: &SearchFilters) -> (r: String)
    ensures
        r@ == search_sql_spec(
            filter_types(filters.node_types),
            filters.priority,
            filters.is_completed,
        ),
{
    let mut sql = String::from_str(
        "SELECT n.*, snippet(nodes_fts, 1, '<mark>', '</mark>', '...', 40) AS snippet,\n             rank FROM nodes_fts\n             JOIN nodes n ON nodes_fts.node_id = n.id\n             WHERE nodes_fts MATCH ?1 AND n.deleted_at IS NULL",
    );
    let ghost head = sql@;
    if let Some(types) = &filters.node_types {
        sql.append(" AND n.type IN (");
        let mut i: usize = 0;
        let ghost start = sql@;
        proof {
            assert(types@.take(0) =~= Seq::<NodeType>::empty());
            assert(sql@ =~= start + type_list(types@.take(0)));
        }
        while i < types.len()
            invariant
                i <= types@.len(),
                sql@ == start + type_list(types@.take(i as int)),
            decreases types.len() - i,
        {
            let ghost before = sql@;
            if i > 0 {
                sql.append(",");
            }
            sql.append("'");
            sql.append(types[i].as_str());
            sql.append("'");
            proof {
                reveal_strlit(",");
                reveal_strlit("'");
                let t = types@.take(i + 1);
                assert(t.drop_last() =~= types@.take(i as int));
                assert(t.last() == types@[i as int]);
                if i == 0 {
                    assert(sql@ =~= start + type_list(t));
                } else {
                    assert(sql@ =~= start + type_list(t));
                }
            }
            i = i + 1;
        }
        assert(types@.take(types@.len() as int) =~= types@);
        sql.append(")");
    }
    let ghost after_types = sql@;
    if let Some(priority) = filters.priority {
        sql.append(" AND json_extract(n.properties, '$.priority') = ");
        let digits = crate::text::i64_to_decimal(priority as i64);
        sql.append(digits.as_str());
    }
    match filters.is_completed {
        Some(true) => sql.append(" AND n.is_completed = 1"),
        Some(false) => sql.append(" AND n.is_completed = 0"),
        None => {},
    }
    sql.append(" ORDER BY rank LIMIT 50");
    assert(after_types =~= head + types_clause(filter_types(filters.node_types)));
    assert(sql@ =~= search_sql_spec(
        filter_types(filters.node_types),
        filters.priority,
        filters.is_completed,
    ));
    sql
}

} // verus!

verus! {

/// The columns of a stored node, as text and numbers; its properties come
/// already read (the defaults where the stored text could not be read).
#[derive(Debug)]
pub struct NodeColumns {
    pub id: String,
    pub parent_id: Option<String>,
    pub position: Position,
    pub node_type: String,
    pub title: String,
    pub body: String,
    pub is_collapsed: i32,
    pub is_completed: i32,
    pub completed_at: Option<String>,
    pub deleted_at: Option<String>,
    pub version: i32,
    pub clock: String,
    pub created_at: String,
    pub updated_at: String,
}

/// The node a stored row describes: an unknown type reads as a task, the
/// completion and trash instants as RFC 3339 (none where unreadable), the
/// creation and change instants as the epoch where unreadable.
pub open spec fn node_from_columns_spec(c: NodeColumns, properties: NodeProperties) -> Node {
    Node {
        id: c.id,
        parent_id: c.parent_id,
        position: c.position,
        node_type: match parse_node_type(c.node_type@) {
            Some(t) => t,
            None => NodeType::Task,
        },
        title: c.title,
        body: c.body,
        properties,
        is_collapsed: c.is_collapsed != 0,
        is_completed: c.is_completed != 0,
        completed_at: crate::time::opt_parsed_rfc3339(c.completed_at),
        deleted_at: crate::time::opt_parsed_rfc3339(c.deleted_at),
        version: c.version,
        clock: c.clock,
        created_at: crate::focus::utc_or_epoch(c.created_at),
        updated_at: crate::focus::utc_or_epoch(c.updated_at),
    }
}

/// The node a stored row describes.
pub fn node_from_columns(c: NodeColumns, properties: NodeProperties) -> (r: Node)
    ensures
        r == node_from_columns_spec(c, properties),
{
    let node_type = node_type_or_task(c.node_type.as_str());
    let completed_at = crate::time::parse_rfc3339_opt(&c.completed_at);
    let deleted_at = crate::time::parse_rfc3339_opt(&c.deleted_at);
    let created_at = crate::time::parse_utc_or_epoch(c.created_at.as_str());
    let updated_at = crate::time::parse_utc_or_epoch(c.updated_at.as_str());
    Node {
        id: c.id,
        parent_id: c.parent_id,
        position: c.position,
        node_type,
        title: c.title,
        body: c.body,
        properties,
        is_collapsed: c.is_collapsed != 0,
        is_completed: c.is_completed != 0,
        completed_at,
        deleted_at,
        version: c.version,
        clock: c.clock,
        created_at,
        updated_at,
    }
}

/// A column of a node that an update writes.
#[derive(Debug, Clone, Copy, PartialEq, Eq, Structural)]
pub enum NodeColumn {
    Title,
    Body,
    Type,
    Collapsed,
    Properties,
}

/// The columns an update writes, in the order it writes them: each field it
/// carries, and no other.
pub open spec fn update_columns_spec(changes: UpdateNodeInput) -> Seq<NodeColumn> {
    let a = if changes.title is Some {
        seq![NodeColumn::Title]
    } else {
        Seq::empty()
    };
    let b = if changes.body is Some {
        seq![NodeColumn::Body]
    } else {
        Seq::empty()
    };
    let c = if changes.node_type is Some {
        seq![NodeColumn::Type]
    } else {
        Seq::empty()
    };
    let d = if changes.is_collapsed is Some {
        seq![NodeColumn::Collapsed]
    } else {
        Seq::empty()
    };
    let e = if changes.properties is Some {
        seq![NodeColumn::Properties]
    } else {
        Seq::empty()
    };
    a + b + c + d + e
}

/// An update writes each column whose field it carries, once, and no other
/// column.
pub proof fn law_update_writes_the_given_fields(changes: UpdateNodeInput)
    ensures
        update_columns_spec(changes).contains(NodeColumn::Title) <==> changes.title is Some,
        update_columns_spec(changes).contains(NodeColumn::Body) <==> changes.body is Some,
        update_columns_spec(changes).contains(NodeColumn::Type) <==> changes.node_type is Some,
        update_columns_spec(changes).contains(NodeColumn::Collapsed) <==> changes.is_collapsed is Some,
        update_columns_spec(changes).contains(NodeColumn::Properties) <==> changes.properties is Some,
        forall|i: int, j: int|
            0 <= i < j < update_columns_spec(changes).len() ==> update_columns_spec(changes)[i]
                != update_columns_spec(changes)[j],
{
    let cols = update_columns_spec(changes);
    let a = if changes.title is Some { seq![NodeColumn::Title] } else { Seq::<NodeColumn>::empty() };
    let b = if changes.body is Some { seq![NodeColumn::Body] } else { Seq::<NodeColumn>::empty() };
    let c = if changes.node_type is Some { seq![NodeColumn::Type] } else { Seq::<NodeColumn>::empty() };
    let d = if changes.is_collapsed is Some {
        seq![NodeColumn::Collapsed]
    } else {
        Seq::<NodeColumn>::empty()
    };
    let e = if changes.properties is Some {
        seq![NodeColumn::Properties]
    } else {
        Seq::<NodeColumn>::empty()
    };
    assert(cols == a + b + c + d + e);
    let rank = |x: NodeColumn|
        match x {
            NodeColumn::Title => 0int,
            NodeColumn::Body => 1int,
            NodeColumn::Type => 2int,
            NodeColumn::Collapsed => 3int,
            NodeColumn::Properties => 4int,
        };
    assert forall|i: int, j: int| 0 <= i < j < cols.len() implies rank(cols[i]) < rank(cols[j]) by {
        let ab = a + b;
        let abc = ab + c;
        let abcd = abc + d;
        assert(cols == abcd + e);
    }
    assert forall|x: NodeColumn| cols.contains(x) <==> ((x == NodeColumn::Title && a.len() > 0) || (x
        == NodeColumn::Body && b.len() > 0) || (x == NodeColumn::Type && c.len() > 0) || (x
        == NodeColumn::Collapsed && d.len() > 0) || (x == NodeColumn::Properties && e.len() > 0)) by {
        if cols.contains(x) {
            let k = choose|k: int| 0 <= k < cols.len() && cols[k] == x;
        }
        if x == NodeColumn::Title && a.len() > 0 {
            assert(cols[0] == x);
        }
        if x == NodeColumn::Body && b.len() > 0 {
            assert(cols[a.len() as int] == x);
        }
        if x == NodeColumn::Type && c.len() > 0 {
            assert(cols[(a.len() + b.len()) as int] == x);
        }
        if x == NodeColumn::Collapsed && d.len() > 0 {
            assert(cols[(a.len() + b.len() + c.len()) as int] == x);
        }
        if x == NodeColumn::Properties && e.len() > 0 {
            assert(cols[(a.len() + b.len() + c.len() + d.len()) as int] == x);
        }
    }
}

/// The columns an update writes, and whether the search index must be
/// refreshed: only when the title or the body change.
pub fn plan_node_update(changes: &UpdateNodeInput) -> (r: (Vec<NodeColumn>, bool))
    ensures
        r.0@ == update_columns_spec(*changes),
        r.1 == (changes.title is Some || changes.body is Some),
{
    let mut cols: Vec<NodeColumn> = Vec::new();
    let ghost mut expect: Seq<NodeColumn> = Seq::empty();
    if changes.title.is_some() {
        cols.push(NodeColumn::Title);
    }
    proof {
        expect = if changes.title is Some { seq![NodeColumn::Title] } else { Seq::empty() };
        assert(cols@ =~= expect);
    }
    if changes.body.is_some() {
        cols.push(NodeColumn::Body);
    }
    proof {
        expect = expect + if changes.body is Some { seq![NodeColumn::Body] } else { Seq::empty() };
        assert(cols@ =~= expect);
    }
    if changes.node_type.is_some() {
        cols.push(NodeColumn::Type);
    }
    proof {
        expect = expect + if changes.node_type is Some { seq![NodeColumn::Type] } else { Seq::empty() };
        assert(cols@ =~= expect);
    }
    if changes.is_collapsed.is_some() {
        cols.push(NodeColumn::Collapsed);
    }
    proof {
        expect = expect + if changes.is_collapsed is Some {
            seq![NodeColumn::Collapsed]
        } else {
            Seq::empty()
        };
        assert(cols@ =~= expect);
    }
    if changes.properties.is_some() {
        cols.push(NodeColumn::Properties);
    }
    proof {
        expect = expect + if changes.properties is Some {
            seq![NodeColumn::Properties]
        } else {
            Seq::empty()
        };
        assert(cols@ =~= expect);
    }
    (cols, changes.title.is_some() || changes.body.is_some())
}

} // verus!
