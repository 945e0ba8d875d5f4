use doyo_core::error::Error;
use doyo_core::export::{
    export_document, markdown_content, markdown_file_paths, sanitize_title, MarkdownNode,
    TransferTables,
};
use doyo_core::import::{
    array_or_empty, bool_field, integer_field, normalize_transfer_data, optional_string,
    plan_node_import, plan_node_import_with_ids, required_string, text_field, text_field_any,
    PlacedNode,
};
use doyo_core::json::{has_unique_keys, is_wf, Json, JsonMember, JsonNumber};
use doyo_core::json_text::{parse_json, to_json_pretty_text, to_json_text};
use doyo_core::import::{entries_are_wf, read_transfer_data};
use doyo_core::node::properties::{members_are_wf, stored_properties_object};

fn msg(e: Error) -> String {
    match e {
        Error::Validation(m) => m,
        other => panic!("unexpected error {:?}", other),
    }
}

fn obj(members: Vec<(&str, Json)>) -> Json {
    Json::Object(
        members.into_iter().map(|(k, v)| JsonMember { key: k.to_string(), value: v }).collect(),
    )
}

fn s(v: &str) -> Json {
    Json::Str(v.to_string())
}

fn node(id: &str, parent: Option<&str>, kind: &str, title: &str) -> Json {
    let mut m = vec![("id", s(id)), ("type", s(kind)), ("title", s(title))];
    if let Some(p) = parent {
        m.push(("parentId", s(p)));
    }
    obj(m)
}

fn ids(n: usize) -> Vec<String> {
    (0..n).map(|i| format!("new-{}", i)).collect()
}

fn placed_titles(nodes: &[Json], placed: &[PlacedNode]) -> Vec<String> {
    placed.iter().map(|p| text_field(&nodes[p.source], "title", "")).collect()
}

#[test]
fn field_helpers_read_both_spellings() {
    let row = obj(vec![
        ("task_id", s("t1")),
        ("allDay", Json::Bool(true)),
        ("archived", Json::Number(JsonNumber::PosInt(2))),
        ("interruptions", Json::Number(JsonNumber::NegInt(-3))),
        ("big", Json::Number(JsonNumber::PosInt(u64::MAX))),
    ]);
    assert_eq!(optional_string(&row, "task_id"), Some("t1".to_string()));
    assert_eq!(optional_string(&row, "allDay"), None);
    assert_eq!(msg(required_string(&row, "title").unwrap_err()), "Missing required field: title");
    assert_eq!(text_field(&row, "title", "Untitled"), "Untitled");
    assert_eq!(text_field_any(&row, &["taskId", "task_id"], ""), "t1");
    assert!(bool_field(&row, "all_day", "allDay"));
    assert!(bool_field(&row, "archived", "archived"));
    assert!(!bool_field(&row, "missing", "alsoMissing"));
    assert_eq!(integer_field(&row, "interruptions", 0), -3);
    assert_eq!(integer_field(&row, "big", 7), 7);
    assert!(array_or_empty(None).unwrap().is_none());
    assert_eq!(
        msg(array_or_empty(Some(&row)).unwrap_err()),
        "Expected an array in JSON export data"
    );
}

#[test]
fn transfer_documents_are_checked() {
    let old_style = Json::Array(vec![node("a", None, "Workspace", "A")]);
    let data = normalize_transfer_data(old_style).unwrap();
    assert_eq!(data.get("nodes").map(|n| matches!(n, Json::Array(v) if v.len() == 1)), Some(true));
    assert_eq!(data.get("focusSessions"), Some(&Json::Array(vec![])));
    let bad = obj(vec![("format", s("bad"))]);
    assert_eq!(
        msg(normalize_transfer_data(bad).unwrap_err()),
        "Unsupported JSON export format: expected io.github.hex1mal.doyo.transfer"
    );
    let v2 = obj(vec![
        ("format", s("io.github.hex1mal.doyo.transfer")),
        ("version", Json::Number(JsonNumber::PosInt(2))),
    ]);
    assert_eq!(msg(normalize_transfer_data(v2).unwrap_err()), "Unsupported JSON export version: 2");
    let no_data = obj(vec![
        ("format", s("io.github.hex1mal.doyo.transfer")),
        ("version", Json::Number(JsonNumber::PosInt(1))),
    ]);
    assert_eq!(msg(normalize_transfer_data(no_data).unwrap_err()), "JSON export is missing data");
}

#[test]
fn export_document_is_read_back_by_import() {
    let tables = TransferTables {
        nodes: vec![node("a", None, "Workspace", "Polyglot")],
        tags: vec![obj(vec![("id", s("t")), ("name", s("Study"))])],
        node_tags: vec![],
        time_blocks: vec![],
        habits: vec![],
        habit_logs: vec![],
        countdowns: vec![],
        focus_sessions: vec![],
    };
    let doc = export_document(tables);
    assert_eq!(doc.get("format"), Some(&s("io.github.hex1mal.doyo.transfer")));
    assert_eq!(doc.get("version"), Some(&Json::Number(JsonNumber::PosInt(1))));
    let data = normalize_transfer_data(doc).unwrap();
    match data.get("tags") {
        Some(Json::Array(tags)) => assert_eq!(tags.len(), 1),
        other => panic!("tags missing: {:?}", other),
    }
}

#[test]
fn import_places_parents_before_children() {
    let nodes = vec![
        node("task", Some("tenses"), "Task", "Study present perfect"),
        node("sub", Some("task"), "Task", "Write examples"),
        node("tenses", Some("grammar"), "Group", "Tenses"),
        node("ws", None, "Workspace", "Polyglot"),
        node("grammar", Some("english"), "Group", "Grammar"),
        node("english", Some("ws"), "Group", "English"),
    ];
    let placed = plan_node_import_with_ids(&nodes, None, &ids(6)).unwrap();
    assert_eq!(placed.len(), 6);
    assert_eq!(
        placed_titles(&nodes, &placed),
        vec!["Polyglot", "English", "Grammar", "Tenses", "Study present perfect", "Write examples"]
    );
    for (k, p) in placed.iter().enumerate() {
        assert_eq!(p.new_id, format!("new-{}", k));
        if let Some(parent) = &p.parent_id {
            assert!(placed[..k].iter().any(|q| &q.new_id == parent));
        }
    }
    assert_eq!(placed[0].parent_id, None);
    let new_of = |old: &str| placed.iter().find(|q| q.old_id == old).map(|q| q.new_id.clone());
    let parent_of = |old: &str| placed.iter().find(|q| q.old_id == old).and_then(|q| q.parent_id.clone());
    assert_eq!(parent_of("english"), new_of("ws"));
    assert_eq!(parent_of("grammar"), new_of("english"));
    assert_eq!(parent_of("tenses"), new_of("grammar"));
    assert_eq!(parent_of("task"), new_of("tenses"));
    assert_eq!(parent_of("sub"), new_of("task"));
    let outside = vec![node("loose", Some("elsewhere"), "Task", "Loose")];
    let under = plan_node_import_with_ids(&outside, Some("dest".to_string()), &ids(1)).unwrap();
    assert_eq!(under[0].parent_id.as_deref(), Some("dest"));
    let fresh = plan_node_import(&nodes, None).unwrap();
    assert_eq!(fresh.len(), 6);
    assert!(fresh.iter().all(|p| p.new_id.len() == 36));
}

#[test]
fn import_rejects_bad_node_lists() {
    let cycle = vec![node("a", Some("b"), "Task", "A"), node("b", Some("a"), "Task", "B")];
    assert_eq!(
        msg(plan_node_import_with_ids(&cycle, None, &ids(2)).unwrap_err()),
        "Import contains a circular or unresolved node parent relationship"
    );
    let unknown = vec![node("a", None, "Planet", "A")];
    assert_eq!(
        msg(plan_node_import_with_ids(&unknown, None, &ids(1)).unwrap_err()),
        "Unsupported node type in import: Planet"
    );
    let ws = vec![node("w", None, "Workspace", "W")];
    assert_eq!(
        msg(plan_node_import_with_ids(&ws, Some("dest".into()), &ids(1)).unwrap_err()),
        "Cannot import a Workspace under another node. Import this JSON at the root instead."
    );
    let no_id = vec![obj(vec![("type", s("Task"))])];
    assert_eq!(
        msg(plan_node_import_with_ids(&no_id, None, &ids(1)).unwrap_err()),
        "Missing required field: id"
    );
    let outside = vec![node("t", Some("elsewhere"), "Task", "T"), node("t", None, "Task", "again")];
    let placed = plan_node_import_with_ids(&outside, Some("dest".into()), &ids(2)).unwrap();
    assert_eq!(placed.len(), 1);
    assert_eq!(placed[0].parent_id, Some("dest".to_string()));
}

#[test]
fn markdown_export_writes_distinct_safe_files() {
    assert_eq!(sanitize_title("Read/Notes: a*b?"), "Read_Notes_ a_b_");
    let nodes = vec![
        MarkdownNode { id: "n1".into(), title: "Export".into(), body: String::new() },
        MarkdownNode { id: "n2".into(), title: "Read/Notes".into(), body: "x".into() },
        MarkdownNode { id: "n3".into(), title: "Read/Notes".into(), body: "y".into() },
        MarkdownNode { id: "n4".into(), title: "Read\\Notes".into(), body: "z".into() },
    ];
    let paths = markdown_file_paths(&nodes);
    assert_eq!(paths, vec!["Export.md", "Read_Notes.md", "n3/Read_Notes.md", "n4/Read_Notes.md"]);
    for (i, a) in paths.iter().enumerate() {
        for b in &paths[i + 1..] {
            assert_ne!(a, b);
        }
    }
    assert_eq!(markdown_content("T", "body"), "# T\n\nbody");
}

#[test]
fn json_text_reads_and_writes_documents() {
    let doc = parse_json(r#"{"b": [1, -2, 2.5, "x", null, true], "a": {}}"#).unwrap();
    match &doc {
        Json::Object(m) => {
            assert_eq!(m.len(), 2);
            assert_eq!(m[0].key, "a");
            match &m[1].value {
                Json::Array(items) => {
                    assert_eq!(items[0], Json::Number(JsonNumber::PosInt(1)));
                    assert_eq!(items[1], Json::Number(JsonNumber::NegInt(-2)));
                    assert_eq!(items[2], Json::Number(JsonNumber::Float("2.5".to_string())));
                }
                other => panic!("not an array: {:?}", other),
            }
        }
        other => panic!("not an object: {:?}", other),
    }
    assert_eq!(to_json_text(&doc), r#"{"a":{},"b":[1,-2,2.5,"x",null,true]}"#);
    assert_eq!(to_json_pretty_text(&Json::Array(vec![Json::Null])), "[\n  null\n]");
    assert!(parse_json("{not json").is_err());
}

#[test]
fn transfer_text_is_read_as_the_document_says() {
    assert!(matches!(read_transfer_data("{oops"), Err(Error::Json(_))));
    assert_eq!(
        msg(read_transfer_data(r#"{"format":"bad"}"#).unwrap_err()),
        "Unsupported JSON export format: expected io.github.hex1mal.doyo.transfer"
    );
    let data = read_transfer_data(
        r#"{"format":"io.github.hex1mal.doyo.transfer","version":1,"data":{"nodes":[]}}"#,
    )
    .unwrap();
    assert_eq!(data.get("nodes"), Some(&Json::Array(vec![])));
    let legacy = read_transfer_data(r#"[{"id":"a","type":"Workspace"}]"#).unwrap();
    match legacy.get("nodes") {
        Some(Json::Array(items)) => assert!(entries_are_wf(items)),
        other => panic!("nodes missing: {:?}", other),
    }
}

#[test]
fn stored_properties_keep_what_they_hold() {
    let members = stored_properties_object(r#"{"due_date":"2026-08-16","custom":{"k":1}}"#);
    assert_eq!(members.len(), 2);
    assert!(members_are_wf(&members));
    assert!(stored_properties_object("not json").is_empty());
    assert!(stored_properties_object("[1, 2]").is_empty());

    let twice = vec![
        JsonMember { key: "k".into(), value: Json::Null },
        JsonMember { key: "k".into(), value: Json::Bool(true) },
    ];
    assert!(!has_unique_keys(&twice));
    assert!(!is_wf(&Json::Object(twice)));
    assert!(is_wf(&Json::Null));
}

#[test]
fn stored_documents_read_or_null() {
    assert_eq!(doyo_core::json_text::json_or_null("[true]"), doyo_core::json::Json::Array(vec![doyo_core::json::Json::Bool(true)]));
    assert_eq!(doyo_core::json_text::json_or_null("{"), doyo_core::json::Json::Null);
}
