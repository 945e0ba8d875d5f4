use doyo_core::error::Error;
use doyo_core::json::{Json, JsonMember, JsonNumber};
use doyo_core::node::handler::{get_handler, handler_for, AnyHandler};
use doyo_core::node::model::{Node, NodeProperties, NodeType, Position, Priority};
use doyo_core::node::properties::{merged_properties, replaced_properties};
use doyo_core::node::repository::{
    fts_query, node_from_columns, node_type_or_task, NodeColumns, normalize_sibling_order, quick_find_pattern, slot_position,
};
use doyo_core::node::subtree::{ancestor_ids, completion_targets, duplicate_plan, open_task_descendants, subtree_descendants, subtree_members, TreeRow};
use doyo_core::node::service::{
    check_move_target, completion_step, CompletionStep, check_restore_destination, duplicate_title, prepare_create_properties, priority_patch,
    require_task, restore_target, validate_parent_rule, validate_priority, validate_root_reorder,
};
use doyo_core::time::Timestamp;
use doyo_core::undo::{plan_history_step, HistoryStep, UndoAction, UndoOp, UndoStack};

fn why(e: Error) -> String {
    match e {
        Error::Validation(m) => m,
        other => panic!("unexpected error {:?}", other),
    }
}

fn sample_node(id: &str, kind: NodeType, parent: Option<&str>, title: &str) -> Node {
    Node {
        id: id.into(),
        parent_id: parent.map(|p| p.to_string()),
        position: Position(0),
        node_type: kind,
        title: title.into(),
        body: String::new(),
        properties: NodeProperties::unset(),
        is_collapsed: false,
        is_completed: false,
        completed_at: None,
        deleted_at: None,
        version: 1,
        clock: String::new(),
        created_at: Timestamp { secs: 0, nanos: 0 },
        updated_at: Timestamp { secs: 0, nanos: 0 },
    }
}

fn member(k: &str, v: Json) -> JsonMember {
    JsonMember { key: k.to_string(), value: v }
}

fn lookup<'a>(members: &'a [JsonMember], k: &str) -> Option<&'a Json> {
    members.iter().find(|m| m.key == k).map(|m| &m.value)
}

#[test]
fn node_types_round_trip() {
    for t in [
        NodeType::Workspace,
        NodeType::Group,
        NodeType::Task,
        NodeType::Note,
        NodeType::Attachment,
        NodeType::Comment,
    ] {
        assert_eq!(NodeType::parse(t.as_str()), Some(t));
    }
    assert_eq!(NodeType::parse("task"), None);
    assert_eq!(node_type_or_task("bogus"), NodeType::Task);
    assert_eq!(Priority::from_i32(3).map(|p| p.value()), Some(3));
    assert_eq!(Priority::from_i32(5), None);
}

#[test]
fn parent_rules_decide_where_nodes_live() {
    assert!(validate_parent_rule(&NodeType::Workspace, None).is_ok());
    assert_eq!(
        why(validate_parent_rule(&NodeType::Workspace, Some(NodeType::Group)).unwrap_err()),
        "Workspace cannot be nested inside another node"
    );
    assert_eq!(
        why(validate_parent_rule(&NodeType::Group, None).unwrap_err()),
        "Group must belong to a workspace or another group"
    );
    assert_eq!(
        why(validate_parent_rule(&NodeType::Group, Some(NodeType::Task)).unwrap_err()),
        "Group/subgroup can only be created inside a workspace, group, or subgroup"
    );
    assert_eq!(
        why(validate_parent_rule(&NodeType::Task, None).unwrap_err()),
        "Task must belong to a workspace, group, subgroup, task, or subtask"
    );
    assert_eq!(
        why(validate_parent_rule(&NodeType::Task, Some(NodeType::Note)).unwrap_err()),
        "Task/subtask can only be created inside a workspace, group, subgroup, task, or subtask"
    );
    assert!(validate_parent_rule(&NodeType::Task, Some(NodeType::Task)).is_ok());
    assert!(validate_parent_rule(&NodeType::Note, None).is_ok());
}

#[test]
fn new_tasks_default_to_lowest_priority() {
    let props = prepare_create_properties(&NodeType::Task, NodeProperties::unset()).unwrap();
    assert_eq!(props.priority, Some(4));
    let group = prepare_create_properties(&NodeType::Group, NodeProperties::unset()).unwrap();
    assert_eq!(group.priority, None);
    assert!(matches!(handler_for(&NodeType::Task), AnyHandler::Task(_)));
    assert!(matches!(*get_handler(&NodeType::Comment), AnyHandler::Note(_)));
    assert!(matches!(*get_handler(&NodeType::Workspace), AnyHandler::Workspace(_)));
    assert_eq!(validate_priority(0).map_err(why), Err("Invalid priority: 0".to_string()));
    assert!(validate_priority(4).is_ok());
    assert_eq!(why(require_task(&NodeType::Note).unwrap_err()), "Only tasks and subtasks can be completed");
}

#[test]
fn trash_restore_checks_destination() {
    let mut gone = sample_node("t", NodeType::Task, Some("g"), "T");
    assert_eq!(why(restore_target(&gone, None).unwrap_err()), "Node is not in Trash");
    gone.deleted_at = Some(Timestamp { secs: 5, nanos: 0 });
    assert_eq!(restore_target(&gone, None).unwrap(), Some("g".to_string()));
    assert_eq!(restore_target(&gone, Some("w")).unwrap(), Some("w".to_string()));
    let mut parent = sample_node("g", NodeType::Group, Some("w"), "G");
    assert!(check_restore_destination(&parent).is_ok());
    parent.deleted_at = Some(Timestamp { secs: 1, nanos: 0 });
    assert_eq!(
        why(check_restore_destination(&parent).unwrap_err()),
        "Choose an active destination before restoring this node"
    );
    let roots = vec![sample_node("a", NodeType::Workspace, None, "A")];
    assert!(validate_root_reorder(&roots).is_ok());
    let nested = vec![sample_node("b", NodeType::Workspace, Some("a"), "B")];
    assert!(validate_root_reorder(&nested).is_err());
}

#[test]
fn sibling_order_moves_and_slots() {
    let ids: Vec<String> = ["a", "b", "c", "d"].iter().map(|s| s.to_string()).collect();
    assert_eq!(normalize_sibling_order(ids.clone(), Some("b"), None), vec!["a", "c", "d"]);
    assert_eq!(normalize_sibling_order(ids.clone(), None, Some(("d", 0))), vec!["d", "a", "b", "c"]);
    assert_eq!(normalize_sibling_order(ids, None, Some(("x", 99))), vec!["a", "b", "c", "d", "x"]);
    assert_eq!(slot_position(3), 3000);
}

#[test]
fn search_texts_are_escaped() {
    assert_eq!(fts_query("say \"hi\""), "\"say \"\"hi\"\"\"");
    assert_eq!(quick_find_pattern("draft"), "%draft%");
    assert_eq!(duplicate_title("Plan"), "Plan (Copy)");
    assert_eq!(duplicate_title("Plan (Copy)"), "Plan (Copy)");
}

#[test]
fn property_writes_keep_unknown_keys() {
    let existing = vec![
        member("color", Json::Str("#fff".into())),
        member("future_key", Json::Bool(true)),
        member("custom", Json::Object(vec![member("tags", Json::Array(vec![])), member("x", Json::Null)])),
    ];
    let patch = Json::Object(vec![
        member("color", Json::Null),
        member("priority", Json::Number(JsonNumber::PosInt(2))),
        member("custom", Json::Object(vec![member("y", Json::Bool(false)), member("x", Json::Null)])),
    ]);
    let merged = merged_properties(existing, patch);
    assert_eq!(lookup(&merged, "color"), None);
    assert_eq!(lookup(&merged, "future_key"), Some(&Json::Bool(true)));
    assert_eq!(lookup(&merged, "priority"), Some(&Json::Number(JsonNumber::PosInt(2))));
    match lookup(&merged, "custom") {
        Some(Json::Object(c)) => {
            assert_eq!(lookup(c, "tags"), Some(&Json::Array(vec![])));
            assert_eq!(lookup(c, "y"), Some(&Json::Bool(false)));
            assert_eq!(lookup(c, "x"), None);
        },
        other => panic!("custom lost: {:?}", other),
    }
    let replaced = replaced_properties(
        vec![member("color", Json::Str("#fff".into())), member("future_key", Json::Bool(true))],
        Json::Object(vec![member("icon", Json::Str("star".into()))]),
    );
    assert_eq!(lookup(&replaced, "color"), None);
    assert_eq!(lookup(&replaced, "future_key"), Some(&Json::Bool(true)));
    assert_eq!(lookup(&replaced, "icon"), Some(&Json::Str("star".into())));
    let p = priority_patch(1);
    assert_eq!(p, Json::Object(vec![member("priority", Json::Number(JsonNumber::PosInt(1)))]));
}

#[test]
fn undo_history_is_last_in_first_out() {
    let mut stack = UndoStack::new();
    assert!(!stack.can_undo());
    stack.push_create(sample_node("a", NodeType::Workspace, None, "A"));
    stack.push_delete("b".into(), sample_node("b", NodeType::Group, Some("a"), "B"));
    assert!(stack.can_undo());
    let last = stack.pop_undo().unwrap();
    assert_eq!(last.description, "Deleted node b");
    let plan = plan_history_step(last, None, false);
    assert!(matches!(plan.step, HistoryStep::RestoreSnapshot));
    assert_eq!(plan.counter.description, "Redo delete \"B\"");
    stack.push_redo(plan.counter);
    assert!(stack.can_redo());
    let redo = stack.pop_redo().unwrap();
    let again = plan_history_step(redo, None, true);
    assert!(matches!(again.step, HistoryStep::SoftDelete(ref id) if id == "b"));
    assert_eq!(again.counter.description, "Undo delete \"B\"");
    let first = stack.pop_undo().unwrap();
    assert_eq!(first.description, "Created \"A\"");
    assert!(stack.pop_undo().is_none());
    let moved = UndoAction {
        op: UndoOp::Move("a".into(), None, Position(5)),
        description: "Moved".into(),
    };
    let current = sample_node("a", NodeType::Task, Some("p"), "Task A");
    let plan = plan_history_step(moved, Some(current), false);
    assert!(matches!(plan.step, HistoryStep::Move { position: Position(5), .. }));
    assert_eq!(plan.counter.description, "Redo move \"Task A\"");
}

#[test]
fn stored_rows_read_back_as_nodes() {
    let columns = NodeColumns {
        id: "n1".into(),
        parent_id: Some("p1".into()),
        position: Position(2000f64.to_bits()),
        node_type: "Mystery".into(),
        title: "Stored".into(),
        body: "text".into(),
        is_collapsed: 1,
        is_completed: 0,
        completed_at: Some("2026-01-02T03:04:05+02:00".into()),
        deleted_at: Some("not a time".into()),
        version: 7,
        clock: "c".into(),
        created_at: "2026-01-02T01:04:05Z".into(),
        updated_at: "garbled".into(),
    };
    let node = node_from_columns(columns, NodeProperties::unset());
    assert_eq!(node.id, "n1");
    assert_eq!(node.parent_id.as_deref(), Some("p1"));
    assert_eq!(f64::from_bits(node.position.0), 2000.0);
    assert_eq!(node.node_type, NodeType::Task);
    assert!(node.is_collapsed);
    assert!(!node.is_completed);
    assert_eq!(node.completed_at, Some(Timestamp { secs: 1_767_315_845, nanos: 0 }));
    assert_eq!(node.deleted_at, None);
    assert_eq!(node.created_at, Timestamp { secs: 1_767_315_845, nanos: 0 });
    assert_eq!(node.updated_at, Timestamp { secs: 0, nanos: 0 });
    assert_eq!(node.version, 7);
}

#[test]
fn nodes_cannot_move_into_their_own_subtree() {
    let ancestry = vec!["grammar".to_string(), "english".to_string(), "ws".to_string()];
    assert!(matches!(check_move_target("english", &ancestry), Err(Error::CycleDetected)));
    assert!(matches!(check_move_target("grammar", &ancestry), Err(Error::CycleDetected)));
    assert!(check_move_target("tenses", &ancestry).is_ok());
    assert!(check_move_target("ws2", &Vec::new()).is_ok());
}

fn tree_row(id: &str, parent: Option<&str>, kind: NodeType, linked: bool) -> TreeRow {
    TreeRow { id: id.into(), parent_id: parent.map(|p| p.to_string()), node_type: kind, linked, completed: false }
}

fn sorted(mut v: Vec<String>) -> Vec<String> {
    v.sort();
    v
}

fn sample_tree() -> Vec<TreeRow> {
    vec![
        tree_row("root", None, NodeType::Task, true),
        tree_row("a", Some("root"), NodeType::Task, true),
        tree_row("note", Some("root"), NodeType::Note, true),
        tree_row("b", Some("note"), NodeType::Task, true),
        tree_row("trashed", Some("root"), NodeType::Task, false),
        tree_row("under_trashed", Some("trashed"), NodeType::Task, true),
        tree_row("a1", Some("a"), NodeType::Task, true),
        tree_row("other", None, NodeType::Task, true),
        tree_row("other_child", Some("other"), NodeType::Task, true),
    ]
}

#[test]
fn cascade_completion_reaches_live_tasks_below() {
    let targets = sorted(completion_targets(&sample_tree(), "root"));
    assert_eq!(targets, vec!["a", "a1", "b", "root"]);
}

#[test]
fn cascade_completion_of_a_leaf_is_the_leaf() {
    assert_eq!(completion_targets(&sample_tree(), "a1"), vec!["a1"]);
    assert!(completion_targets(&sample_tree(), "missing").is_empty());
}

#[test]
fn cascade_delete_takes_every_descendant() {
    let mut rows = sample_tree();
    for r in rows.iter_mut() {
        r.linked = true;
    }
    let below = sorted(subtree_descendants(&rows, "root"));
    assert_eq!(below, vec!["a", "a1", "b", "note", "trashed", "under_trashed"]);
    assert!(subtree_descendants(&rows, "a1").is_empty());
}

#[test]
fn cascade_delete_skips_what_is_not_followed() {
    let below = sorted(subtree_descendants(&sample_tree(), "root"));
    assert_eq!(below, vec!["a", "a1", "b", "note"]);
}

#[test]
fn completion_step_follows_the_request() {
    assert_eq!(completion_step(&NodeType::Task, true, true).unwrap(), CompletionStep::CompleteSubtree);
    assert_eq!(completion_step(&NodeType::Task, true, false).unwrap(), CompletionStep::CompleteOne);
    assert_eq!(completion_step(&NodeType::Task, false, true).unwrap(), CompletionStep::ClearOne);
    assert_eq!(
        why(completion_step(&NodeType::Note, true, true).unwrap_err()),
        "Only tasks and subtasks can be completed"
    );
}

#[test]
fn walks_start_only_from_a_followed_root() {
    assert!(completion_targets(&sample_tree(), "trashed").is_empty());
    assert!(subtree_descendants(&sample_tree(), "trashed").is_empty());
    assert!(open_task_descendants(&sample_tree(), "trashed").is_empty());
}

#[test]
fn restore_brings_back_the_whole_subtree() {
    let mut rows = sample_tree();
    for r in rows.iter_mut() {
        r.linked = true;
    }
    let members = sorted(subtree_members(&rows, "trashed"));
    assert_eq!(members, vec!["trashed", "under_trashed"]);
    assert!(subtree_members(&rows, "missing").is_empty());
}

#[test]
fn open_task_count_skips_root_done_and_trashed() {
    let mut rows = sample_tree();
    rows[1].completed = true;
    let open = sorted(open_task_descendants(&rows, "root"));
    assert_eq!(open, vec!["a1", "b"]);
}

#[test]
fn restore_brings_back_what_cascade_delete_took() {
    let mut rows = sample_tree();
    for r in rows.iter_mut() {
        r.linked = true;
    }
    let mut deleted = subtree_descendants(&rows, "root");
    deleted.push("root".to_string());
    assert_eq!(sorted(subtree_members(&rows, "root")), sorted(deleted));
}

#[test]
fn ancestors_come_outermost_first() {
    assert_eq!(ancestor_ids(&sample_tree(), "b"), vec!["root", "note"]);
    assert_eq!(ancestor_ids(&sample_tree(), "under_trashed"), vec!["root", "trashed"]);
    assert!(ancestor_ids(&sample_tree(), "root").is_empty());
    assert!(ancestor_ids(&sample_tree(), "missing").is_empty());
}

#[test]
fn ancestors_stop_at_a_missing_parent_and_at_the_row_count() {
    let rows = vec![tree_row("orphan", Some("gone"), NodeType::Task, true)];
    assert!(ancestor_ids(&rows, "orphan").is_empty());
    let looped = vec![
        tree_row("x", Some("y"), NodeType::Task, true),
        tree_row("y", Some("x"), NodeType::Task, true),
    ];
    assert_eq!(ancestor_ids(&looped, "x"), vec!["x", "y"]);
}

#[test]
fn duplicate_copies_live_nodes_under_their_parents_copies() {
    let rows = sample_tree();
    let fresh: Vec<String> = (0..rows.len()).map(|i| format!("new{}", i)).collect();
    let plan = duplicate_plan(&rows, "root", "root_copy", &fresh);
    let mut sources: Vec<String> = plan.iter().map(|s| s.source.clone()).collect();
    sources.sort();
    assert_eq!(sources, vec!["a", "a1", "b", "note"]);
    for (k, step) in plan.iter().enumerate() {
        assert_eq!(step.copy, fresh[k]);
        let row = rows.iter().find(|r| r.id == step.source).unwrap();
        let parent = row.parent_id.clone().unwrap();
        if parent == "root" {
            assert_eq!(step.parent, "root_copy");
        } else {
            let earlier = plan[..k].iter().find(|s| s.source == parent).unwrap();
            assert_eq!(step.parent, earlier.copy);
        }
    }
}

#[test]
fn duplicate_of_a_leaf_copies_nothing_below() {
    let rows = sample_tree();
    let fresh: Vec<String> = (0..rows.len()).map(|i| format!("new{}", i)).collect();
    assert!(duplicate_plan(&rows, "a1", "a1_copy", &fresh).is_empty());
}
