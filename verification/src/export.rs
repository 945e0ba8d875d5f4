use vstd::prelude::*;
use crate::import::{
    document_format, document_version, nodes_only_data, normalize_transfer_data, EXPORT_FORMAT,
    SUPPORTED_VERSION,
};
use crate::json::{
    items_view, json_view, members_map, view_get, Json, JsonMember, JsonNumber, JsonView,
};

verus! {

/// The tables of a transfer document, each a list of rows.
#[derive(Debug)]
pub struct TransferTables {
    pub nodes: Vec<Json>,
    pub tags: Vec<Json>,
    pub node_tags: Vec<Json>,
    pub time_blocks: Vec<Json>,
    pub habits: Vec<Json>,
    pub habit_logs: Vec<Json>,
    pub countdowns: Vec<Json>,
    pub focus_sessions: Vec<Json>,
}

/// The `data` object of a transfer document holding `t`.
pub open spec fn transfer_data(t: TransferTables) -> JsonView {
    JsonView::Object(
        Map::empty().insert("nodes"@, JsonView::Array(items_view(t.nodes@))).insert(
            "tags"@,
            JsonView::Array(items_view(t.tags@)),
        ).insert("nodeTags"@, JsonView::Array(items_view(t.node_tags@))).insert(
            "timeBlocks"@,
            JsonView::Array(items_view(t.time_blocks@)),
        ).insert("habits"@, JsonView::Array(items_view(t.habits@))).insert(
            "habitLogs"@,
            JsonView::Array(items_view(t.habit_logs@)),
        ).insert("countdowns"@, JsonView::Array(items_view(t.countdowns@))).insert(
            "focusSessions"@,
            JsonView::Array(items_view(t.focus_sessions@)),
        ),
    )
}

/// The transfer document holding `data`: it names its format and version.
pub open spec fn transfer_document(data: JsonView) -> JsonView {
    JsonView::Object(
        Map::empty().insert("format"@, JsonView::Str(EXPORT_FORMAT@)).insert(
            "version"@,
            JsonView::Number(JsonNumber::PosInt(SUPPORTED_VERSION)),
        ).insert("data"@, data),
    )
}

/// Appends the member `key: value` to an object's members.
fn push_member(members: &mut Vec<JsonMember>, key: &str, value: Json)
    ensures
        members_map(final(members)@) == members_map(old(members)@).insert(key@, value@),
        final(members)@ == old(members)@.push(JsonMember { key: final(members)@.last().key, value }),
        final(members)@.last().key@ == key@,
{
    let ghost before = members@;
    let m = JsonMember { key: key.to_owned(), value };
    proof {
        crate::json::lemma_members_map_push(before, m);
    }
    members.push(m);
}

/// The transfer document for the tables `t`, as JSON export writes it: its
/// format, its version and its data.
pub fn export_document(t: TransferTables) -> (r: Json)
    ensures
        r@ == transfer_document(transfer_data(t)),
        crate::json::is_wf_object(r),
{
    let ghost tv = transfer_data(t);
    let mut data: Vec<JsonMember> = Vec::new();
    proof {
        assert(members_map(data@) =~= Map::empty());
    }
    push_member(&mut data, "nodes", Json::Array(t.nodes));
    push_member(&mut data, "tags", Json::Array(t.tags));
    push_member(&mut data, "nodeTags", Json::Array(t.node_tags));
    push_member(&mut data, "timeBlocks", Json::Array(t.time_blocks));
    push_member(&mut data, "habits", Json::Array(t.habits));
    push_member(&mut data, "habitLogs", Json::Array(t.habit_logs));
    push_member(&mut data, "countdowns", Json::Array(t.countdowns));
    push_member(&mut data, "focusSessions", Json::Array(t.focus_sessions));
    let data_json = Json::Object(data);
    assert(data_json@ == tv);
    let mut doc: Vec<JsonMember> = Vec::new();
    proof {
        assert(members_map(doc@) =~= Map::empty());
    }
    push_member(&mut doc, "format", Json::Str(EXPORT_FORMAT.to_owned()));
    push_member(&mut doc, "version", Json::Number(JsonNumber::PosInt(SUPPORTED_VERSION)));
    push_member(&mut doc, "data", data_json);
    proof {
        reveal_strlit("format");
        reveal_strlit("version");
        reveal_strlit("data");
        assert("format"@.len() == 6);
        assert("version"@.len() == 7);
        assert("data"@.len() == 4);
        assert(doc@.len() == 3);
        assert(doc@[0].key@ == "format"@);
        assert(doc@[1].key@ == "version"@);
        assert(doc@[2].key@ == "data"@);
    }
    Json::Object(doc)
}

/// What export writes, import reads back: the document of `data` names the
/// format and version import accepts, and import takes from it exactly
/// `data`.
pub proof fn law_export_is_importable(data: JsonView)
    ensures
        document_format(transfer_document(data)) == EXPORT_FORMAT@,
        document_version(transfer_document(data)) == SUPPORTED_VERSION,
        view_get(transfer_document(data), "data"@) == Some(data),
        !(transfer_document(data) is Array),
{
    reveal_strlit("format");
    reveal_strlit("version");
    reveal_strlit("data");
    assert("format"@.len() == 6);
    assert("version"@.len() == 7);
    assert("data"@.len() == 4);
}

} // verus!

verus! {

/// A character that cannot stand in a portable file name.
pub open spec fn is_unsafe_name_char(c: char) -> bool {
    c == '/' || c == '\\' || c == ':' || c == '*' || c == '?' || c == '"' || c == '<' || c == '>'
        || c == '|'
}

/// `t` with every character that cannot stand in a file name replaced by `_`.
pub open spec fn safe_title(t: Seq<char>) -> Seq<char> {
    t.map_values(|c: char| if is_unsafe_name_char(c) { '_' } else { c })
}

/// `s` holds no character that cannot stand in a file name.
pub open spec fn is_safe_text(s: Seq<char>) -> bool {
    forall|i: int| 0 <= i < s.len() ==> !is_unsafe_name_char(#[trigger] s[i])
}

/// A title made fit to be a file name: every `/ \ : * ? " < > |` becomes `_`.
pub fn sanitize_title(title: &str) -> (r: String)
    ensures
        r@ == safe_title(title@),
        is_safe_text(r@),
{
    let n = title.unicode_len();
    let mut out: Vec<char> = Vec::new();
    let mut i: usize = 0;
    while i < n
        invariant
            n == title@.len(),
            i <= n,
            out@ =~= safe_title(title@.take(i as int)),
        decreases n - i,
    {
        let c = title.get_char(i);
        let d = if c == '/' || c == '\\' || c == ':' || c == '*' || c == '?' || c == '"' || c
            == '<' || c == '>' || c == '|' {
            '_'
        } else {
            c
        };
        out.push(d);
        i = i + 1;
        assert(out@ =~= safe_title(title@.take(i as int)));
    }
    assert(title@.take(n as int) =~= title@);
    crate::text::chars_to_string(&out)
}

/// A node written out as Markdown: its id, title and body.
#[derive(Debug, Clone)]
pub struct MarkdownNode {
    pub id: String,
    pub title: String,
    pub body: String,
}

/// The file a node's Markdown goes to, relative to the output directory:
/// its safe title with `.md`, or, when an earlier node already took that
/// name, the same name inside a directory named after the node's id.
pub open spec fn markdown_path(node: MarkdownNode, taken: Seq<Seq<char>>) -> Seq<char> {
    let plain = safe_title(node.title@) + ".md"@;
    if taken.contains(plain) {
        node.id@ + "/"@ + plain
    } else {
        plain
    }
}

/// The files all of `nodes` go to, in order.
pub open spec fn markdown_paths(nodes: Seq<MarkdownNode>) -> Seq<Seq<char>>
    decreases nodes.len(),
{
    if nodes.len() == 0 {
        Seq::empty()
    } else {
        let before = markdown_paths(nodes.drop_last());
        before.push(markdown_path(nodes.last(), before))
    }
}

/// The ids of `nodes` are distinct names fit for a directory.
pub open spec fn ids_distinct_and_safe(nodes: Seq<MarkdownNode>) -> bool {
    &&& forall|i: int| 0 <= i < nodes.len() ==> is_safe_text((#[trigger] nodes[i]).id@)
    &&& forall|i: int, j: int| 0 <= i < j < nodes.len() ==> nodes[i].id@ != nodes[j].id@
}

/// Whether `name` is among `names`.
fn name_taken(names: &Vec<String>, name: &str) -> (r: bool)
    ensures
        r == names@.map_values(|s: String| s@).contains(name@),
{
    let ghost views = names@.map_values(|s: String| s@);
    let mut i: usize = 0;
    while i < names.len()
        invariant
            i <= names@.len(),
            views == names@.map_values(|s: String| s@),
            forall|j: int| 0 <= j < i ==> names@[j]@ != name@,
        decreases names.len() - i,
    {
        if crate::text::str_eq(names[i].as_str(), name) {
            assert(views[i as int] == name@);
            return true;
        }
        i = i + 1;
    }
    proof {
        if views.contains(name@) {
            let j = choose|j: int| 0 <= j < views.len() && views[j] == name@;
            assert(names@[j]@ == name@);
        }
    }
    false
}

/// The files, relative to the output directory, that the Markdown export of
/// `nodes` writes, one per node in order.
pub fn markdown_file_paths(nodes: &Vec<MarkdownNode>) -> (r: Vec<String>)
    ensures
        r@.map_values(|s: String| s@) == markdown_paths(nodes@),
{
    let mut out: Vec<String> = Vec::new();
    let mut i: usize = 0;
    proof {
        assert(nodes@.take(0) =~= Seq::<MarkdownNode>::empty());
        assert(out@.map_values(|s: String| s@) =~= Seq::<Seq<char>>::empty());
    }
    while i < nodes.len()
        invariant
            i <= nodes@.len(),
            out@.map_values(|s: String| s@) == markdown_paths(nodes@.take(i as int)),
        decreases nodes.len() - i,
    {
        let node = &nodes[i];
        let safe = sanitize_title(node.title.as_str());
        let plain = crate::backup::concat2(safe.as_str(), ".md");
        let path = if name_taken(&out, plain.as_str()) {
            crate::backup::concat3(node.id.as_str(), "/", plain.as_str())
        } else {
            plain
        };
        proof {
            assert(nodes@.take(i + 1).drop_last() =~= nodes@.take(i as int));
            assert(nodes@.take(i + 1).last() == nodes@[i as int]);
        }
        let ghost prev = out@;
        out.push(path);
        proof {
            assert(out@.map_values(|s: String| s@) =~= prev.map_values(|s: String| s@).push(path@));
        }
        i = i + 1;
    }
    proof {
        assert(nodes@.take(nodes@.len() as int) =~= nodes@);
    }
    out
}

proof fn lemma_safe_title_safe(t: Seq<char>)
    ensures
        is_safe_text(safe_title(t)),
{
}

proof fn lemma_split_at_slash(a: Seq<char>, x: Seq<char>, b: Seq<char>, y: Seq<char>)
    requires
        is_safe_text(a),
        is_safe_text(b),
        a + "/"@ + x == b + "/"@ + y,
    ensures
        a == b,
{
    reveal_strlit("/");
    let s = a + "/"@ + x;
    if a.len() < b.len() {
        assert(s[a.len() as int] == '/');
        assert(s[a.len() as int] == b[a.len() as int]);
    } else if b.len() < a.len() {
        assert(s[b.len() as int] == '/');
        assert(s[b.len() as int] == a[b.len() as int]);
    } else {
        assert forall|i: int| 0 <= i < a.len() implies a[i] == b[i] by {
            assert(s[i] == a[i]);
        }
        assert(a =~= b);
    }
}

proof fn lemma_paths_shape(nodes: Seq<MarkdownNode>, k: int)
    requires
        0 <= k < nodes.len(),
    ensures
        markdown_paths(nodes)[k] == safe_title(nodes[k].title@) + ".md"@ || markdown_paths(
            nodes,
        )[k] == nodes[k].id@ + "/"@ + safe_title(nodes[k].title@) + ".md"@,
        markdown_paths(nodes).len() == nodes.len(),
        markdown_paths(nodes)[k] == safe_title(nodes[k].title@) + ".md"@ ==> !markdown_paths(
            nodes,
        ).take(k).contains(markdown_paths(nodes)[k]),
    decreases nodes.len(),
{
    lemma_paths_len(nodes);
    let init = nodes.drop_last();
    if k < nodes.len() - 1 {
        lemma_paths_shape(init, k);
        assert(nodes[k] == init[k]);
        assert(markdown_paths(nodes).take(k) =~= markdown_paths(init).take(k));
    } else {
        lemma_paths_len(init);
        reveal_strlit("/");
        assert(markdown_paths(nodes).take(k) =~= markdown_paths(init));
        let plain = safe_title(nodes[k].title@) + ".md"@;
        assert((nodes[k].id@ + "/"@ + plain).len() > plain.len());
    }
}

proof fn lemma_paths_len(nodes: Seq<MarkdownNode>)
    ensures
        markdown_paths(nodes).len() == nodes.len(),
    decreases nodes.len(),
{
    if nodes.len() > 0 {
        lemma_paths_len(nodes.drop_last());
    }
}

/// The Markdown export never writes two nodes to the same file, whatever
/// their titles, when node ids are distinct plain names (as stored ids are);
/// a file at the top of the output directory has no `/` or `\` in its name,
/// and every file is a `.md` file.
pub proof fn law_markdown_paths_distinct(nodes: Seq<MarkdownNode>)
    requires
        ids_distinct_and_safe(nodes),
    ensures
        forall|i: int, j: int|
            0 <= i < j < nodes.len() ==> markdown_paths(nodes)[i] != markdown_paths(nodes)[j],
        forall|i: int|
            0 <= i < nodes.len() ==> (#[trigger] markdown_paths(nodes)[i]) == safe_title(
                nodes[i].title@,
            ) + ".md"@ || markdown_paths(nodes)[i] == nodes[i].id@ + "/"@ + safe_title(
                nodes[i].title@,
            ) + ".md"@,
{
    reveal_strlit(".md");
    reveal_strlit("/");
    let p = markdown_paths(nodes);
    assert forall|i: int| 0 <= i < nodes.len() implies (#[trigger] p[i]) == safe_title(
        nodes[i].title@,
    ) + ".md"@ || p[i] == nodes[i].id@ + "/"@ + safe_title(nodes[i].title@) + ".md"@ by {
        lemma_paths_shape(nodes, i);
    }
    assert forall|i: int, j: int| 0 <= i < j < nodes.len() implies p[i] != p[j] by {
        lemma_paths_shape(nodes, i);
        lemma_paths_shape(nodes, j);
        let ti = safe_title(nodes[i].title@);
        let tj = safe_title(nodes[j].title@);
        lemma_safe_title_safe(nodes[i].title@);
        lemma_safe_title_safe(nodes[j].title@);
        if p[i] == p[j] {
            let top_i = p[i] == ti + ".md"@;
            let top_j = p[j] == tj + ".md"@;
            if top_j {
                assert(p.take(j)[i] == p[i]);
                assert(p.take(j).contains(p[j]));
            } else if top_i {
                // p[j] has a slash at the end of the id; p[i] has none.
                let nested = nodes[j].id@ + "/"@ + (tj + ".md"@);
                assert(p[j] =~= nested);
                let at = nodes[j].id@.len() as int;
                assert(nested[at] == '/');
                assert(p[i] =~= ti + ".md"@);
                if at < ti.len() {
                    assert(p[i][at] == ti[at]);
                } else {
                    assert(p[i][at] == ".md"@[at - ti.len()]);
                }
            } else {
                assert(p[i] =~= nodes[i].id@ + "/"@ + (ti + ".md"@));
                assert(p[j] =~= nodes[j].id@ + "/"@ + (tj + ".md"@));
                lemma_split_at_slash(nodes[i].id@, ti + ".md"@, nodes[j].id@, tj + ".md"@);
            }
        }
    }
}

/// The Markdown written for a node: its title as a heading, then its body.
pub fn markdown_content(title: &str, body: &str) -> (r: String)
    ensures
        r@ == "# "@ + title@ + "\n\n"@ + body@,
{
    crate::backup::concat4("# ", title, "\n\n", body)
}

} // verus!
