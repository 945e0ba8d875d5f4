use vstd::prelude::*;
use crate::error::{Error, is_validation, validation_error};
use crate::json::{Json, JsonMember, JsonNumber, JsonView, keys_unique, members_map};
use crate::node::handler::{NodeHandler, handler_for, handler_type, properties_valid_for};
use crate::node::model::{Node, NodeProperties, NodeType, UpdateNodeInput};
use crate::node::query::copy_opt_string;
use crate::text::{ends_with, i64_to_decimal, signed_decimal_seq};

verus! {

/// Where a node of type `t` may live: a workspace only at the root; a group
/// inside a workspace or group; a task inside a workspace, group or task;
/// notes, attachments and comments anywhere.
pub open spec fn parent_rule_allows(t: NodeType, parent: Option<NodeType>) -> bool {
    match t {
        NodeType::Workspace => parent is None,
        NodeType::Group => parent matches Some(p) && (p is Workspace || p is Group),
        NodeType::Task => parent matches Some(p) && (p is Workspace || p is Group || p is Task),
        _ => true,
    }
}

/// The message with which the parent rule refuses a node of type `t` under
/// `parent`.
pub open spec fn parent_rule_message(t: NodeType, parent: Option<NodeType>) -> Seq<char> {
    match t {
        NodeType::Workspace => "Workspace cannot be nested inside another node"@,
        NodeType::Group => if parent is Some {
            "Group/subgroup can only be created inside a workspace, group, or subgroup"@
        } else {
            "Group must belong to a workspace or another group"@
        },
        _ => if parent is Some {
            "Task/subtask can only be created inside a workspace, group, subgroup, task, or subtask"@
        } else {
            "Task must belong to a workspace, group, subgroup, task, or subtask"@
        },
    }
}

/// Checks that a node of type `node_type` may live under a parent of type
/// `parent_type` (`None`: at the root).
pub fn validate_parent_rule(node_type: &NodeType, parent_type: Option<NodeType>) -> (r: Result<
    (),
    Error,
>)
    ensures
        r is Ok <==> parent_rule_allows(*node_type, parent_type),
        r matches Err(e) ==> is_validation(e, parent_rule_message(*node_type, parent_type)),
{
    match node_type {
        NodeType::Workspace => {
            if parent_type.is_some() {
                return Err(validation_error("Workspace cannot be nested inside another node"));
            }
        },
        NodeType::Group => match parent_type {
            Some(NodeType::Workspace) | Some(NodeType::Group) => {},
            Some(_) => {
                return Err(
                    validation_error(
                        "Group/subgroup can only be created inside a workspace, group, or subgroup",
                    ),
                );
            },
            None => {
                return Err(validation_error("Group must belong to a workspace or another group"));
            },
        },
        NodeType::Task => match parent_type {
            Some(NodeType::Workspace) | Some(NodeType::Group) | Some(NodeType::Task) => {},
            Some(_) => {
                return Err(
                    validation_error(
                        "Task/subtask can only be created inside a workspace, group, subgroup, task, or subtask",
                    ),
                );
            },
            None => {
                return Err(
                    validation_error(
                        "Task must belong to a workspace, group, subgroup, task, or subtask",
                    ),
                );
            },
        },
        NodeType::Note | NodeType::Attachment | NodeType::Comment => {},
    }
    Ok(())
}

/// The priority a new node ends up with: a task without one gets priority 4.
pub open spec fn create_priority(t: NodeType, requested: Option<i32>) -> Option<i32> {
    if t is Task && requested is None {
        Some(4i32)
    } else {
        requested
    }
}

/// `p` with its priority set to `priority`.
pub open spec fn with_priority(p: NodeProperties, priority: Option<i32>) -> NodeProperties {
    NodeProperties { priority: priority, ..p }
}

/// The properties a new node of type `node_type` is stored with: a task
/// without a priority gets priority 4, and the result must satisfy the
/// type's rules.
pub fn prepare_create_properties(node_type: &NodeType, properties: NodeProperties) -> (r: Result<
    NodeProperties,
    Error,
>)
    ensures
        r is Ok <==> properties_valid_for(
            *node_type,
            with_priority(properties, create_priority(*node_type, properties.priority)),
        ),
        r matches Ok(p) ==> p == with_priority(
            properties,
            create_priority(*node_type, properties.priority),
        ),
        r matches Err(e) ==> is_validation(e, "Priority must be 1-4"@),
{
    let mut properties = properties;
    let handler = handler_for(node_type);
    if matches!(node_type, NodeType::Task) && properties.priority.is_none() {
        let defaults = handler.default_properties();
        properties.priority = defaults.priority;
    }
    match handler.validate_properties(&properties) {
        Ok(()) => Ok(properties),
        Err(e) => Err(e),
    }
}

/// The type a node has after `changes`.
pub open spec fn updated_type(before: NodeType, changes: UpdateNodeInput) -> NodeType {
    match changes.node_type {
        Some(t) => t,
        None => before,
    }
}

/// The properties `changes` carries satisfy the rules of the type the node
/// has afterwards.
pub open spec fn update_properties_valid(before: NodeType, changes: UpdateNodeInput) -> bool {
    changes.properties matches Some(p) ==> properties_valid_for(updated_type(before, changes), p)
}

/// Checks the properties an update carries against the rules of the type the
/// node will have afterwards.
pub fn validate_update_properties(before_type: &NodeType, changes: &UpdateNodeInput) -> (r: Result<
    (),
    Error,
>)
    ensures
        r is Ok <==> update_properties_valid(*before_type, *changes),
        r matches Err(e) ==> is_validation(e, "Priority must be 1-4"@),
{
    match &changes.properties {
        Some(props) => {
            let target = match changes.node_type {
                Some(t) => t,
                None => *before_type,
            };
            handler_for(&target).validate_properties(props)
        },
        None => Ok(()),
    }
}

/// The parent a restored node returns under: the chosen destination, or the
/// parent it had when it was deleted. A node that is not in the trash cannot
/// be restored.
pub fn restore_target(deleted: &Node, destination_parent_id: Option<&str>) -> (r: Result<
    Option<String>,
    Error,
>)
    ensures
        r is Ok <==> deleted.deleted_at is Some,
        r matches Err(e) ==> is_validation(e, "Node is not in Trash"@),
        r matches Ok(t) ==> match destination_parent_id {
            Some(d) => t matches Some(s) && s@ == d@,
            None => t == deleted.parent_id,
        },
{
    if deleted.deleted_at.is_none() {
        return Err(validation_error("Node is not in Trash"));
    }
    match destination_parent_id {
        Some(d) => Ok(Some(d.to_owned())),
        None => Ok(copy_opt_string(&deleted.parent_id)),
    }
}

/// Checks that the parent a node is restored under is itself active.
pub fn check_restore_destination(parent: &Node) -> (r: Result<(), Error>)
    ensures
        r is Ok <==> parent.deleted_at is None,
        r matches Err(e) ==> is_validation(
            e,
            "Choose an active destination before restoring this node"@,
        ),
{
    if parent.deleted_at.is_some() {
        return Err(validation_error("Choose an active destination before restoring this node"));
    }
    Ok(())
}

/// Checks that every node to reorder at the root is a root workspace.
pub fn validate_root_reorder(nodes: &Vec<Node>) -> (r: Result<(), Error>)
    ensures
        r is Ok <==> forall|i: int|
            0 <= i < nodes@.len() ==> (#[trigger] nodes@[i]).parent_id is None
                && nodes@[i].node_type is Workspace,
        r matches Err(e) ==> is_validation(e, "Only root workspaces can be reordered at the root"@),
{
    let mut i: usize = 0;
    while i < nodes.len()
        invariant
            i <= nodes@.len(),
            forall|j: int|
                0 <= j < i ==> (#[trigger] nodes@[j]).parent_id is None
                    && nodes@[j].node_type is Workspace,
        decreases nodes.len() - i,
    {
        let node = &nodes[i];
        if node.parent_id.is_some() || !matches!(node.node_type, NodeType::Workspace) {
            return Err(validation_error("Only root workspaces can be reordered at the root"));
        }
        i = i + 1;
    }
    Ok(())
}

/// Checks that `priority` names a priority, 1 to 4.
pub fn validate_priority(priority: i32) -> (r: Result<(), Error>)
    ensures
        r is Ok <==> 1 <= priority <= 4,
        r matches Err(e) ==> is_validation(
            e,
            "Invalid priority: "@ + signed_decimal_seq(priority as int),
        ),
{
    if priority < 1 || priority > 4 {
        let mut msg = String::from_str("Invalid priority: ");
        let digits = i64_to_decimal(priority as i64);
        msg.append(digits.as_str());
        return Err(Error::Validation(msg));
    }
    Ok(())
}

/// Checks that a node can be completed: only tasks and subtasks can.
pub fn require_task(node_type: &NodeType) -> (r: Result<(), Error>)
    ensures
        r is Ok <==> *node_type is Task,
        r matches Err(e) ==> is_validation(e, "Only tasks and subtasks can be completed"@),
{
    if !matches!(node_type, NodeType::Task) {
        return Err(validation_error("Only tasks and subtasks can be completed"));
    }
    Ok(())
}

/// What setting a task's completion writes.
#[derive(Debug, Clone, Copy, PartialEq, Eq, Structural)]
pub enum CompletionStep {
    /// Complete the task and every task below it that is out of the trash
    /// (see `completion_targets`).
    CompleteSubtree,
    /// Complete the given node alone.
    CompleteOne,
    /// Mark the given node not completed.
    ClearOne,
}

/// Decides what setting the completion of a node of type `node_type` to
/// `completed` writes, cascading to the tasks below when `cascade` asks it;
/// only tasks can be completed.
pub fn completion_step(node_type: &NodeType, completed: bool, cascade: bool) -> (r: Result<
    CompletionStep,
    Error,
>)
    ensures
        r is Ok <==> *node_type is Task,
        r matches Err(e) ==> is_validation(e, "Only tasks and subtasks can be completed"@),
        r matches Ok(s) ==> s == if !completed {
            CompletionStep::ClearOne
        } else if cascade {
            CompletionStep::CompleteSubtree
        } else {
            CompletionStep::CompleteOne
        },
{
    require_task(node_type)?;
    if !completed {
        Ok(CompletionStep::ClearOne)
    } else if cascade {
        Ok(CompletionStep::CompleteSubtree)
    } else {
        Ok(CompletionStep::CompleteOne)
    }
}

/// The title of a duplicate: the node's title with " (Copy)" added, unless
/// it already ends with "(Copy)".
pub open spec fn duplicate_title_spec(title: Seq<char>) -> Seq<char> {
    let suffix = "(Copy)"@;
    if suffix.len() <= title.len() && title.subrange(title.len() - suffix.len(), title.len() as int)
        == suffix {
        title
    } else {
        title + " (Copy)"@
    }
}

/// The title given to a duplicated node.
pub fn duplicate_title(title: &str) -> (r: String)
    ensures
        r@ == duplicate_title_spec(title@),
{
    if ends_with(title, "(Copy)") {
        title.to_owned()
    } else {
        let mut t = title.to_owned();
        t.append(" (Copy)");
        t
    }
}

/// The single-key patch `{"priority": priority}`.
pub fn priority_patch(priority: i32) -> (j: Json)
    ensures
        j matches Json::Object(m) && keys_unique(m@) && m@.len() == 1 && m@[0].key@ == "priority"@
            && m@[0].value == Json::Number(
            if priority >= 0 {
                JsonNumber::PosInt(priority as u64)
            } else {
                JsonNumber::NegInt(priority as i64)
            },
        ),
{
    let n = if priority >= 0 {
        JsonNumber::PosInt(priority as u64)
    } else {
        JsonNumber::NegInt(priority as i64)
    };
    let mut members: Vec<JsonMember> = Vec::new();
    members.push(JsonMember { key: String::from_str("priority"), value: Json::Number(n) });
    Json::Object(members)
}

/// The single-key patch `{"due_date": due}`, with `null` when the due date is
/// cleared; `due` is the RFC 3339 text of the new due date.
pub fn due_date_patch(due: Option<String>) -> (j: Json)
    ensures
        j matches Json::Object(m) && keys_unique(m@) && m@.len() == 1 && m@[0].key@ == "due_date"@
            && m@[0].value == match due {
            Some(s) => Json::Str(s),
            None => Json::Null,
        },
{
    let value = match due {
        Some(s) => Json::Str(s),
        None => Json::Null,
    };
    let mut members: Vec<JsonMember> = Vec::new();
    members.push(JsonMember { key: String::from_str("due_date"), value });
    Json::Object(members)
}

/// Who is whose parent: each node with a parent maps to its parent's id;
/// roots are absent.
pub type ParentMap = Map<Seq<char>, Seq<char>>;

/// `c` is the line of ancestors of `c[0]` under `parents`, up to a root:
/// each entry's parent is the next, and the last has none.
pub open spec fn is_ancestry(parents: ParentMap, c: Seq<Seq<char>>) -> bool {
    &&& c.len() > 0
    &&& forall|i: int|
        0 <= i < c.len() - 1 ==> parents.contains_key(#[trigger] c[i]) && parents[c[i]] == c[i + 1]
    &&& !parents.contains_key(c.last())
}

/// Following parents from `n` ends at a root.
pub open spec fn reaches_root(parents: ParentMap, n: Seq<char>) -> bool {
    exists|c: Seq<Seq<char>>| #[trigger] is_ancestry(parents, c) && c[0] == n
}

/// The hierarchy is a forest: from every node, the parents lead to a root,
/// so no node is its own ancestor.
pub open spec fn is_forest(parents: ParentMap) -> bool {
    forall|n: Seq<char>| #[trigger] parents.contains_key(n) ==> reaches_root(parents, n)
}

/// Refuses to put the node `id` under a parent whose line of ancestors
/// (`ancestry`: the parent itself, its parent, and so on to the root)
/// holds `id`: the node would end up inside its own subtree.
pub fn check_move_target(id: &str, ancestry: &Vec<String>) -> (r: Result<(), Error>)
    ensures
        r is Ok <==> !crate::node::repository::ids_view(ancestry@).contains(id@),
        r matches Err(e) ==> e is CycleDetected,
{
    let ghost v = crate::node::repository::ids_view(ancestry@);
    let mut i: usize = 0;
    while i < ancestry.len()
        invariant
            i <= ancestry@.len(),
            v == crate::node::repository::ids_view(ancestry@),
            forall|j: int| 0 <= j < i ==> ancestry@[j]@ != id@,
        decreases ancestry.len() - i,
    {
        if crate::text::str_eq(ancestry[i].as_str(), id) {
            assert(v[i as int] == id@);
            return Err(Error::CycleDetected);
        }
        i = i + 1;
    }
    proof {
        if v.contains(id@) {
            let j = choose|j: int| 0 <= j < v.len() && v[j] == id@;
            assert(ancestry@[j]@ == id@);
        }
    }
    Ok(())
}

/// Once `id`, which is not among the ancestors `chain` of `new_parent`, is
/// put under `new_parent`, `id` reaches a root, and so does every node whose
/// ancestors under `parents` are `c`.
proof fn lemma_reaches_after_move(
    parents: ParentMap,
    id: Seq<char>,
    new_parent: Seq<char>,
    chain: Seq<Seq<char>>,
    c: Seq<Seq<char>>,
)
    requires
        is_ancestry(parents, chain),
        chain[0] == new_parent,
        !chain.contains(id),
        c.len() > 0,
        c[0] == id || is_ancestry(parents, c),
    ensures
        reaches_root(parents.insert(id, new_parent), c[0]),
    decreases c.len(),
{
    let moved = parents.insert(id, new_parent);
    if c[0] == id {
        let w = seq![id] + chain;
        assert forall|i: int| 0 <= i < w.len() - 1 implies moved.contains_key(#[trigger] w[i])
            && moved[w[i]] == w[i + 1] by {
            if i > 0 {
                assert(w[i] == chain[i - 1]);
                assert(chain[i - 1] != id);
                assert(parents.contains_key(chain[i - 1]));
            }
        }
        assert(w.last() == chain.last());
        assert(chain.last() != id);
        assert(is_ancestry(moved, w));
    } else if c.len() == 1 {
        assert(!moved.contains_key(c[0]));
        assert(is_ancestry(moved, c));
    } else {
        let rest = c.skip(1);
        assert forall|i: int| 0 <= i < rest.len() - 1 implies parents.contains_key(
            #[trigger] rest[i],
        ) && parents[rest[i]] == rest[i + 1] by {
            assert(rest[i] == c[i + 1]);
            assert(rest[i + 1] == c[i + 2]);
        }
        assert(rest.last() == c.last());
        assert(is_ancestry(parents, rest));
        lemma_reaches_after_move(parents, id, new_parent, chain, rest);
        let w0 = choose|w: Seq<Seq<char>>| #[trigger] is_ancestry(moved, w) && w[0] == rest[0];
        let w = seq![c[0]] + w0;
        assert forall|i: int| 0 <= i < w.len() - 1 implies moved.contains_key(#[trigger] w[i])
            && moved[w[i]] == w[i + 1] by {
            if i == 0 {
                assert(w[1] == w0[0]);
                assert(w0[0] == c[1]);
            } else {
                assert(w[i] == w0[i - 1]);
                assert(w[i + 1] == w0[i]);
            }
        }
        assert(w.last() == w0.last());
        assert(is_ancestry(moved, w));
    }
}

/// A move that `check_move_target` lets through keeps the hierarchy a
/// forest: if every node reached a root before, every node reaches one after
/// `id` is put under `new_parent`, whose line of ancestors `chain` does not
/// hold `id`.
pub proof fn law_checked_move_keeps_forest(
    parents: ParentMap,
    id: Seq<char>,
    new_parent: Seq<char>,
    chain: Seq<Seq<char>>,
)
    requires
        is_forest(parents),
        is_ancestry(parents, chain),
        chain[0] == new_parent,
        !chain.contains(id),
    ensures
        is_forest(parents.insert(id, new_parent)),
{
    let moved = parents.insert(id, new_parent);
    assert forall|n: Seq<char>| #[trigger] moved.contains_key(n) implies reaches_root(moved, n) by {
        if n == id {
            lemma_reaches_after_move(parents, id, new_parent, chain, seq![id]);
        } else {
            let c = choose|c: Seq<Seq<char>>| #[trigger] is_ancestry(parents, c) && c[0] == n;
            lemma_reaches_after_move(parents, id, new_parent, chain, c);
        }
    }
}

} // verus!
