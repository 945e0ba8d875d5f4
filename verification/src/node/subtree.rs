use vstd::prelude::*;
use crate::node::model::NodeType;
use crate::node::repository::ids_view;

verus! {

/// A node as the shape of the hierarchy needs it: its id, its parent, its
/// type, whether it is followed as a link (for completion: whether it is
/// out of the trash), and whether it is completed.
#[derive(Debug)]
pub struct TreeRow {
    pub id: String,
    pub parent_id: Option<String>,
    pub node_type: NodeType,
    pub linked: bool,
    pub completed: bool,
}

/// The row `r` is a followed link from `parent` to `child`.
pub open spec fn row_links(r: TreeRow, parent: Seq<char>, child: Seq<char>) -> bool {
    &&& r.linked
    &&& r.id@ == child
    &&& r.parent_id matches Some(p) && p@ == parent
}

/// Some row of `rows` links `parent` to `child`.
pub open spec fn child_link(rows: Seq<TreeRow>, parent: Seq<char>, child: Seq<char>) -> bool {
    exists|i: int| 0 <= i < rows.len() && #[trigger] row_links(rows[i], parent, child)
}

/// The `k`-th step of `c` goes from a node to one of its children.
pub open spec fn link_at(rows: Seq<TreeRow>, c: Seq<Seq<char>>, k: int) -> bool {
    child_link(rows, c[k], c[k + 1])
}

/// `c` goes down the hierarchy, from each node to one of its children.
pub open spec fn is_path(rows: Seq<TreeRow>, c: Seq<Seq<char>>) -> bool {
    &&& c.len() > 0
    &&& forall|k: int| 0 <= k < c.len() - 1 ==> #[trigger] link_at(rows, c, k)
}

/// `x` is `root` or lies below it, following only linked rows.
pub open spec fn in_subtree(rows: Seq<TreeRow>, root: Seq<char>, x: Seq<char>) -> bool {
    exists|c: Seq<Seq<char>>| #[trigger] is_path(rows, c) && c[0] == root && c.last() == x
}

/// The row `j` is marked and has the id `p`.
spec fn marked_id(rows: Seq<TreeRow>, mark: Seq<bool>, j: int, p: Seq<char>) -> bool {
    mark[j] && rows[j].id@ == p
}

/// `p` is the root or the id of a marked row.
spec fn member(rows: Seq<TreeRow>, mark: Seq<bool>, root: Seq<char>, p: Seq<char>) -> bool {
    p == root || exists|j: int| 0 <= j < rows.len() && #[trigger] marked_id(rows, mark, j, p)
}

/// The row `k` is linked and its parent is a member.
spec fn eligible(rows: Seq<TreeRow>, mark: Seq<bool>, root: Seq<char>, k: int) -> bool {
    &&& rows[k].linked
    &&& rows[k].parent_id matches Some(p) && member(rows, mark, root, p@)
}

/// Every marked row is linked and lies in the subtree.
spec fn sound(rows: Seq<TreeRow>, mark: Seq<bool>, root: Seq<char>) -> bool {
    forall|i: int|
        0 <= i < rows.len() && #[trigger] mark[i] ==> rows[i].linked && in_subtree(
            rows,
            root,
            rows[i].id@,
        )
}

/// No unmarked row hangs below a member.
spec fn closed(rows: Seq<TreeRow>, mark: Seq<bool>, root: Seq<char>) -> bool {
    forall|i: int| 0 <= i < rows.len() && !(#[trigger] mark[i]) ==> !eligible(rows, mark, root, i)
}

/// How many rows are still unmarked.
spec fn unmarked(s: Seq<bool>) -> nat
    decreases s.len(),
{
    if s.len() == 0 {
        0
    } else {
        unmarked(s.drop_last()) + if s.last() {
            0nat
        } else {
            1nat
        }
    }
}

proof fn lemma_unmarked_update(s: Seq<bool>, i: int)
    requires
        0 <= i < s.len(),
        !s[i],
    ensures
        unmarked(s.update(i, true)) + 1 == unmarked(s),
    decreases s.len(),
{
    let t = s.update(i, true);
    if i == s.len() - 1 {
        assert(t.drop_last() =~= s.drop_last());
    } else {
        assert(t.drop_last() =~= s.drop_last().update(i, true));
        lemma_unmarked_update(s.drop_last(), i);
    }
}

proof fn lemma_root_in_subtree(rows: Seq<TreeRow>, root: Seq<char>)
    ensures
        in_subtree(rows, root, root),
{
    let c = seq![root];
    assert(is_path(rows, c));
}

proof fn lemma_extend(rows: Seq<TreeRow>, root: Seq<char>, p: Seq<char>, i: int)
    requires
        in_subtree(rows, root, p),
        0 <= i < rows.len(),
        row_links(rows[i], p, rows[i].id@),
    ensures
        in_subtree(rows, root, rows[i].id@),
{
    let c = choose|c: Seq<Seq<char>>| #[trigger] is_path(rows, c) && c[0] == root && c.last() == p;
    let c2 = c.push(rows[i].id@);
    assert forall|k: int| 0 <= k < c2.len() - 1 implies #[trigger] link_at(rows, c2, k) by {
        if k < c.len() - 1 {
            assert(link_at(rows, c, k));
            assert(c2[k] == c[k] && c2[k + 1] == c[k + 1]);
        } else {
            assert(c2[k] == p);
            assert(c2[k + 1] == rows[i].id@);
        }
    }
    assert(is_path(rows, c2));
}

proof fn lemma_member_sound(rows: Seq<TreeRow>, mark: Seq<bool>, root: Seq<char>, p: Seq<char>)
    requires
        mark.len() == rows.len(),
        sound(rows, mark, root),
        member(rows, mark, root, p),
    ensures
        in_subtree(rows, root, p),
{
    if p == root {
        lemma_root_in_subtree(rows, root);
    } else {
        let j = choose|j: int| 0 <= j < rows.len() && #[trigger] marked_id(rows, mark, j, p);
        assert(mark[j]);
    }
}

proof fn lemma_path_members(rows: Seq<TreeRow>, mark: Seq<bool>, root: Seq<char>, c: Seq<Seq<char>>)
    requires
        mark.len() == rows.len(),
        closed(rows, mark, root),
        is_path(rows, c),
        c[0] == root,
    ensures
        member(rows, mark, root, c.last()),
    decreases c.len(),
{
    if c.len() > 1 {
        let c1 = c.drop_last();
        assert forall|k: int| 0 <= k < c1.len() - 1 implies #[trigger] link_at(rows, c1, k) by {
            assert(link_at(rows, c, k));
        }
        lemma_path_members(rows, mark, root, c1);
        let n = c.len() - 1;
        assert(link_at(rows, c, n - 1));
        let i = choose|i: int| 0 <= i < rows.len() && #[trigger] row_links(rows[i], c[n - 1], c[n]);
        assert(c1.last() == c[n - 1]);
        if !mark[i] {
            assert(eligible(rows, mark, root, i));
        }
        assert(marked_id(rows, mark, i, c.last()));
    }
}

/// Whether `p` is the root or the id of a marked row.
fn is_member(rows: &Vec<TreeRow>, mark: &Vec<bool>, root: &str, p: &str) -> (r: bool)
    requires
        mark@.len() == rows@.len(),
    ensures
        r == member(rows@, mark@, root@, p@),
{
    if crate::text::str_eq(p, root) {
        return true;
    }
    let mut j: usize = 0;
    while j < rows.len()
        invariant
            mark@.len() == rows@.len(),
            j <= rows@.len(),
            p@ != root@,
            forall|k: int| 0 <= k < j ==> !#[trigger] marked_id(rows@, mark@, k, p@),
        decreases rows.len() - j,
    {
        if mark[j] && crate::text::str_eq(rows[j].id.as_str(), p) {
            assert(marked_id(rows@, mark@, j as int, p@));
            return true;
        }
        j = j + 1;
    }
    false
}

/// The parent of the row `order[k]` is the root or the id of a row marked
/// before it.
spec fn parent_earlier(rows: Seq<TreeRow>, root: Seq<char>, order: Seq<usize>, k: int) -> bool {
    rows[order[k] as int].parent_id matches Some(p) && (p@ == root || exists|j: int|
        0 <= j < k && #[trigger] rows[order[j] as int].id@ == p@)
}

/// `order` lists the marked rows in the order they were marked, each after
/// the row it hangs below.
spec fn order_ok(rows: Seq<TreeRow>, mark: Seq<bool>, root: Seq<char>, order: Seq<usize>) -> bool {
    &&& order.len() + unmarked(mark) == rows.len()
    &&& forall|k: int|
        0 <= k < order.len() ==> (#[trigger] order[k] as int) < rows.len() && mark[order[k] as int]
    &&& forall|i: int|
        0 <= i < rows.len() && #[trigger] mark[i] ==> exists|k: int|
            0 <= k < order.len() && #[trigger] order[k] == i
    &&& forall|k: int| 0 <= k < order.len() ==> #[trigger] parent_earlier(rows, root, order, k)
}

proof fn lemma_unmarked_none(s: Seq<bool>)
    requires
        forall|i: int| 0 <= i < s.len() ==> !s[i],
    ensures
        unmarked(s) == s.len(),
    decreases s.len(),
{
    if s.len() > 0 {
        lemma_unmarked_none(s.drop_last());
    }
}

/// Marks the rows that lie below `root`, following linked rows only, until
/// no row hangs below a member; also gives the order in which the rows were
/// marked.
fn subtree_marks(rows: &Vec<TreeRow>, root: &str) -> (res: (Vec<bool>, Vec<usize>))
    ensures
        res.0@.len() == rows@.len(),
        sound(rows@, res.0@, root@),
        closed(rows@, res.0@, root@),
        order_ok(rows@, res.0@, root@, res.1@),
{
    let n = rows.len();
    let mut mark: Vec<bool> = Vec::new();
    let mut order: Vec<usize> = Vec::new();
    let mut k: usize = 0;
    while k < n
        invariant
            k <= n,
            mark@.len() == k,
            forall|i: int| 0 <= i < k ==> !mark@[i],
        decreases n - k,
    {
        mark.push(false);
        k = k + 1;
    }
    proof {
        lemma_unmarked_none(mark@);
    }
    loop
        invariant
            n == rows@.len(),
            mark@.len() == n,
            sound(rows@, mark@, root@),
            order_ok(rows@, mark@, root@, order@),
        ensures
            mark@.len() == n,
            sound(rows@, mark@, root@),
            closed(rows@, mark@, root@),
            order_ok(rows@, mark@, root@, order@),
        decreases unmarked(mark@),
    {
        let ghost start = mark@;
        let mut changed = false;
        let mut i: usize = 0;
        while i < n
            invariant
                n == rows@.len(),
                mark@.len() == n,
                start.len() == n,
                i <= n,
                sound(rows@, mark@, root@),
                order_ok(rows@, mark@, root@, order@),
                !changed ==> mark@ == start,
                changed ==> unmarked(mark@) < unmarked(start),
                !changed ==> forall|k: int|
                    0 <= k < i && !(#[trigger] mark@[k]) ==> !eligible(rows@, mark@, root@, k),
            decreases n - i,
        {
            if !mark[i] && rows[i].linked {
                match &rows[i].parent_id {
                    Some(p) => {
                        if is_member(rows, &mark, root, p.as_str()) {
                            proof {
                                lemma_member_sound(rows@, mark@, root@, p@);
                                lemma_extend(rows@, root@, p@, i as int);
                                lemma_unmarked_update(mark@, i as int);
                            }
                            let ghost before = mark@;
                            let ghost order_before = order@;
                            mark.set(i, true);
                            order.push(i);
                            proof {
                                assert forall|j: int|
                                    0 <= j < rows@.len() && #[trigger] mark@[j] implies rows@[j].linked
                                    && in_subtree(rows@, root@, rows@[j].id@) by {
                                    if j != i {
                                        assert(before[j]);
                                    }
                                }
                                assert forall|k: int| 0 <= k < order@.len() implies (
                                #[trigger] order@[k] as int) < rows@.len() && mark@[order@[k] as int] by {
                                    if k < order_before.len() {
                                        assert(order@[k] == order_before[k]);
                                    }
                                }
                                assert forall|j: int| 0 <= j < rows@.len() && #[trigger] mark@[j] implies exists|
                                    k: int,
                                | 0 <= k < order@.len() && #[trigger] order@[k] == j by {
                                    if j == i {
                                        assert(order@[order_before.len() as int] == j);
                                    } else {
                                        assert(before[j]);
                                        let k = choose|k: int|
                                            0 <= k < order_before.len() && #[trigger] order_before[k] == j;
                                        assert(order@[k] == j);
                                    }
                                }
                                assert forall|k: int| 0 <= k < order@.len() implies #[trigger] parent_earlier(
                                    rows@,
                                    root@,
                                    order@,
                                    k,
                                ) by {
                                    if k < order_before.len() {
                                        assert(parent_earlier(rows@, root@, order_before, k));
                                        assert(order@[k] == order_before[k]);
                                        let q = rows@[order@[k] as int].parent_id->0;
                                        if q@ != root@ {
                                            let j = choose|j: int|
                                                0 <= j < k && #[trigger] rows@[order_before[j] as int].id@ == q@;
                                            assert(order@[j] == order_before[j]);
                                            assert(rows@[order@[j] as int].id@ == q@);
                                        }
                                    } else {
                                        assert(order@[k] == i);
                                        if p@ != root@ {
                                            let m = choose|m: int|
                                                0 <= m < rows@.len() && #[trigger] marked_id(rows@, before, m, p@);
                                            assert(before[m]);
                                            let j = choose|j: int|
                                                0 <= j < order_before.len() && #[trigger] order_before[j] == m;
                                            assert(order@[j] == m);
                                            assert(rows@[order@[j] as int].id@ == p@);
                                        }
                                    }
                                }
                            }
                            changed = true;
                        }
                    },
                    None => {},
                }
            }
            i = i + 1;
        }
        if !changed {
            break;
        }
    }
    (mark, order)
}

/// Which rows of a subtree a walk hands back.
#[derive(Clone, Copy)]
struct RowFilter {
    tasks_only: bool,
    open_only: bool,
    skip_root: bool,
}

/// The row `r` is linked and passes the filter `f`.
spec fn picked(r: TreeRow, root: Seq<char>, f: RowFilter) -> bool {
    &&& r.linked
    &&& f.tasks_only ==> r.node_type is Task
    &&& f.open_only ==> !r.completed
    &&& f.skip_root ==> r.id@ != root
}

/// Some row among the first `n` of `rows` has the id `x` and is picked.
spec fn picked_id(rows: Seq<TreeRow>, root: Seq<char>, f: RowFilter, n: int, x: Seq<char>) -> bool {
    exists|k: int| 0 <= k < n && rows[k].id@ == x && #[trigger] picked(rows[k], root, f)
}

/// Some linked row has the id `root`: a walk down from `root` starts there.
pub open spec fn rooted(rows: Seq<TreeRow>, root: Seq<char>) -> bool {
    exists|i: int| 0 <= i < rows.len() && #[trigger] rows[i].id@ == root && rows[i].linked
}

/// Whether some linked row has the id `root`.
fn has_root(rows: &Vec<TreeRow>, root: &str) -> (r: bool)
    ensures
        r == rooted(rows@, root@),
{
    let mut i: usize = 0;
    while i < rows.len()
        invariant
            i <= rows@.len(),
            forall|k: int| 0 <= k < i ==> !(#[trigger] rows@[k].id@ == root@ && rows@[k].linked),
        decreases rows.len() - i,
    {
        if rows[i].linked && crate::text::str_eq(rows[i].id.as_str(), root) {
            return true;
        }
        i = i + 1;
    }
    false
}

/// The ids of the rows below `root` (with `root` itself) that pass `f`,
/// where a linked row has the id `root`; none otherwise.
fn pick_rows(rows: &Vec<TreeRow>, root: &str, f: RowFilter) -> (r: Vec<String>)
    ensures
        forall|x: Seq<char>|
            #![trigger ids_view(r@).contains(x)]
            ids_view(r@).contains(x) <==> rooted(rows@, root@) && picked_id(
                rows@,
                root@,
                f,
                rows@.len() as int,
                x,
            ) && in_subtree(rows@, root@, x),
{
    if !has_root(rows, root) {
        let none: Vec<String> = Vec::new();
        assert(ids_view(none@) =~= Seq::<Seq<char>>::empty());
        return none;
    }
    let (mark, _order) = subtree_marks(rows, root);
    let mut out: Vec<String> = Vec::new();
    let mut i: usize = 0;
    while i < rows.len()
        invariant
            mark@.len() == rows@.len(),
            sound(rows@, mark@, root@),
            closed(rows@, mark@, root@),
            i <= rows@.len(),
            forall|x: Seq<char>|
                ids_view(out@).contains(x) <==> picked_id(rows@, root@, f, i as int, x) && member(
                    rows@,
                    mark@,
                    root@,
                    x,
                ),
        decreases rows.len() - i,
    {
        let is_task = match rows[i].node_type {
            NodeType::Task => true,
            _ => false,
        };
        let wanted = rows[i].linked && (!f.tasks_only || is_task) && (!f.open_only
            || !rows[i].completed) && (!f.skip_root || !crate::text::str_eq(rows[i].id.as_str(), root));
        assert(wanted == picked(rows@[i as int], root@, f));
        if wanted && is_member(rows, &mark, root, rows[i].id.as_str()) {
            let ghost before = out@;
            out.push(rows[i].id.clone());
            proof {
                assert(ids_view(out@) =~= ids_view(before).push(rows@[i as int].id@));
                assert forall|x: Seq<char>|
                    ids_view(out@).contains(x) <==> picked_id(rows@, root@, f, i + 1, x) && member(
                        rows@,
                        mark@,
                        root@,
                        x,
                    ) by {
                    if ids_view(out@).contains(x) && x != rows@[i as int].id@ {
                        assert(ids_view(before).contains(x));
                    }
                    if x == rows@[i as int].id@ {
                        assert(ids_view(out@)[before.len() as int] == x);
                    }
                    if picked_id(rows@, root@, f, i as int, x) && member(rows@, mark@, root@, x) {
                        assert(ids_view(before).contains(x));
                        let m = choose|m: int| 0 <= m < ids_view(before).len() && ids_view(before)[m] == x;
                        assert(ids_view(out@)[m] == x);
                    }
                    if picked_id(rows@, root@, f, i + 1, x) && !picked_id(rows@, root@, f, i as int, x) {
                        let k = choose|k: int| 0 <= k < i + 1 && rows@[k].id@ == x && #[trigger] picked(rows@[k], root@, f);
                        assert(k == i);
                    }
                }
            }
        } else {
            proof {
                assert forall|x: Seq<char>|
                    ids_view(out@).contains(x) <==> picked_id(rows@, root@, f, i + 1, x) && member(
                        rows@,
                        mark@,
                        root@,
                        x,
                    ) by {
                    if picked_id(rows@, root@, f, i + 1, x) && member(rows@, mark@, root@, x) {
                        let k = choose|k: int| 0 <= k < i + 1 && rows@[k].id@ == x && #[trigger] picked(rows@[k], root@, f);
                        if k == i {
                            assert(false);
                        }
                        assert(picked_id(rows@, root@, f, i as int, x));
                    }
                    if picked_id(rows@, root@, f, i as int, x) {
                        let k = choose|k: int| 0 <= k < i && rows@[k].id@ == x && #[trigger] picked(rows@[k], root@, f);
                        assert(picked_id(rows@, root@, f, i + 1, x));
                    }
                }
            }
        }
        i = i + 1;
    }
    proof {
        assert forall|x: Seq<char>| member(rows@, mark@, root@, x) <==> in_subtree(rows@, root@, x) by {
            if member(rows@, mark@, root@, x) {
                lemma_member_sound(rows@, mark@, root@, x);
            }
            if in_subtree(rows@, root@, x) {
                let c = choose|c: Seq<Seq<char>>| #[trigger] is_path(rows@, c) && c[0] == root@ && c.last() == x;
                lemma_path_members(rows@, mark@, root@, c);
            }
        }
    }
    out
}

/// The tasks a cascading completion of `root` completes: the linked tasks
/// (those out of the trash) among `root` and the nodes below it, reached
/// through linked nodes only, starting from a linked `root`.
pub fn completion_targets(rows: &Vec<TreeRow>, root: &str) -> (r: Vec<String>)
    ensures
        forall|x: Seq<char>|
            #![trigger ids_view(r@).contains(x)]
            ids_view(r@).contains(x) <==> rooted(rows@, root@) && (exists|i: int|
                0 <= i < rows@.len() && rows@[i].id@ == x && rows@[i].linked
                    && rows@[i].node_type is Task) && in_subtree(rows@, root@, x),
{
    let f = RowFilter { tasks_only: true, open_only: false, skip_root: false };
    let r = pick_rows(rows, root, f);
    proof {
        assert forall|x: Seq<char>|
            picked_id(rows@, root@, f, rows@.len() as int, x) <==> (exists|i: int|
                0 <= i < rows@.len() && rows@[i].id@ == x && rows@[i].linked
                    && rows@[i].node_type is Task) by {
            if exists|i: int|
                0 <= i < rows@.len() && rows@[i].id@ == x && rows@[i].linked
                    && rows@[i].node_type is Task {
                let i = choose|i: int|
                    0 <= i < rows@.len() && rows@[i].id@ == x && rows@[i].linked
                        && rows@[i].node_type is Task;
                assert(picked(rows@[i], root@, f));
            }
        }
    }
    r
}

/// The nodes below a linked `root`, reached through linked nodes, without
/// `root` itself: what a cascading delete of `root` also moves to the trash.
pub fn subtree_descendants(rows: &Vec<TreeRow>, root: &str) -> (r: Vec<String>)
    ensures
        forall|x: Seq<char>|
            #![trigger ids_view(r@).contains(x)]
            ids_view(r@).contains(x) <==> rooted(rows@, root@) && x != root@ && (exists|i: int|
                0 <= i < rows@.len() && rows@[i].id@ == x && rows@[i].linked) && in_subtree(
                rows@,
                root@,
                x,
            ),
{
    let f = RowFilter { tasks_only: false, open_only: false, skip_root: true };
    let r = pick_rows(rows, root, f);
    proof {
        assert forall|x: Seq<char>|
            picked_id(rows@, root@, f, rows@.len() as int, x) <==> x != root@ && (exists|i: int|
                0 <= i < rows@.len() && rows@[i].id@ == x && rows@[i].linked) by {
            if x != root@ && exists|i: int| 0 <= i < rows@.len() && rows@[i].id@ == x && rows@[i].linked {
                let i = choose|i: int| 0 <= i < rows@.len() && rows@[i].id@ == x && rows@[i].linked;
                assert(picked(rows@[i], root@, f));
            }
        }
    }
    r
}

/// The nodes of the subtree of a linked `root`, `root` among them, reached
/// through linked nodes: what restoring `root` from the trash brings back.
pub fn subtree_members(rows: &Vec<TreeRow>, root: &str) -> (r: Vec<String>)
    ensures
        forall|x: Seq<char>|
            #![trigger ids_view(r@).contains(x)]
            ids_view(r@).contains(x) <==> rooted(rows@, root@) && (exists|i: int|
                0 <= i < rows@.len() && rows@[i].id@ == x && rows@[i].linked) && in_subtree(
                rows@,
                root@,
                x,
            ),
{
    let f = RowFilter { tasks_only: false, open_only: false, skip_root: false };
    let r = pick_rows(rows, root, f);
    proof {
        assert forall|x: Seq<char>|
            picked_id(rows@, root@, f, rows@.len() as int, x) <==> (exists|i: int|
                0 <= i < rows@.len() && rows@[i].id@ == x && rows@[i].linked) by {
            if exists|i: int| 0 <= i < rows@.len() && rows@[i].id@ == x && rows@[i].linked {
                let i = choose|i: int| 0 <= i < rows@.len() && rows@[i].id@ == x && rows@[i].linked;
                assert(picked(rows@[i], root@, f));
            }
        }
    }
    r
}

/// The tasks below a linked `root`, without `root` itself, that are linked
/// and not completed, reached through linked nodes: what a cascading
/// completion of `root` would still have to complete.
pub fn open_task_descendants(rows: &Vec<TreeRow>, root: &str) -> (r: Vec<String>)
    ensures
        forall|x: Seq<char>|
            #![trigger ids_view(r@).contains(x)]
            ids_view(r@).contains(x) <==> rooted(rows@, root@) && x != root@ && (exists|i: int|
                0 <= i < rows@.len() && rows@[i].id@ == x && rows@[i].linked
                    && rows@[i].node_type is Task && !rows@[i].completed) && in_subtree(
                rows@,
                root@,
                x,
            ),
{
    let f = RowFilter { tasks_only: true, open_only: true, skip_root: true };
    let r = pick_rows(rows, root, f);
    proof {
        assert forall|x: Seq<char>|
            picked_id(rows@, root@, f, rows@.len() as int, x) <==> x != root@ && (exists|i: int|
                0 <= i < rows@.len() && rows@[i].id@ == x && rows@[i].linked
                    && rows@[i].node_type is Task && !rows@[i].completed) by {
            if x != root@ && exists|i: int|
                0 <= i < rows@.len() && rows@[i].id@ == x && rows@[i].linked
                    && rows@[i].node_type is Task && !rows@[i].completed {
                let i = choose|i: int|
                    0 <= i < rows@.len() && rows@[i].id@ == x && rows@[i].linked
                        && rows@[i].node_type is Task && !rows@[i].completed;
                assert(picked(rows@[i], root@, f));
            }
        }
    }
    r
}

/// Restoring a node brings back exactly what deleting it with its subtree
/// trashed, read over the same rows: the node itself and its descendants.
pub proof fn law_restore_matches_cascade_delete(rows: Seq<TreeRow>, root: Seq<char>, x: Seq<char>)
    ensures
        (rooted(rows, root) && (exists|i: int|
            0 <= i < rows.len() && rows[i].id@ == x && rows[i].linked) && in_subtree(rows, root, x))
            <==> ((rooted(rows, root) && x == root) || (rooted(rows, root) && x != root && (exists|
            i: int,
        | 0 <= i < rows.len() && rows[i].id@ == x && rows[i].linked) && in_subtree(rows, root, x))),
{
    if rooted(rows, root) && x == root {
        lemma_root_in_subtree(rows, root);
        let i = choose|i: int| 0 <= i < rows.len() && #[trigger] rows[i].id@ == root && rows[i].linked;
        assert(rows[i].id@ == x && rows[i].linked);
    }
}

/// `i` is the first row of `rows` with the id `x`.
pub open spec fn first_row(rows: Seq<TreeRow>, x: Seq<char>, i: int) -> bool {
    &&& 0 <= i < rows.len()
    &&& rows[i].id@ == x
    &&& forall|j: int| 0 <= j < i ==> #[trigger] rows[j].id@ != x
}

/// Some row of `rows` has the id `x`.
pub open spec fn has_row(rows: Seq<TreeRow>, x: Seq<char>) -> bool {
    exists|i: int| 0 <= i < rows.len() && #[trigger] rows[i].id@ == x
}

/// The parent of `x` one step up: the parent named by the first row with the
/// id `x`, where a row with that id exists.
pub open spec fn step_up(rows: Seq<TreeRow>, x: Seq<char>) -> Option<Seq<char>> {
    if exists|i: int| #[trigger] first_row(rows, x, i) {
        let i = choose|i: int| #[trigger] first_row(rows, x, i);
        match rows[i].parent_id {
            Some(p) => if has_row(rows, p@) {
                Some(p@)
            } else {
                None
            },
            None => None,
        }
    } else {
        None
    }
}

/// The ancestors of `x`, outermost first, found in at most `n` steps up.
pub open spec fn ancestry(rows: Seq<TreeRow>, x: Seq<char>, n: nat) -> Seq<Seq<char>>
    decreases n,
{
    if n == 0 {
        Seq::empty()
    } else {
        match step_up(rows, x) {
            Some(p) => ancestry(rows, p, (n - 1) as nat).push(p),
            None => Seq::empty(),
        }
    }
}

/// Whether some row has the id `x`.
fn has_id(rows: &Vec<TreeRow>, x: &str) -> (r: bool)
    ensures
        r == has_row(rows@, x@),
{
    let mut j: usize = 0;
    while j < rows.len()
        invariant
            j <= rows@.len(),
            forall|k: int| 0 <= k < j ==> #[trigger] rows@[k].id@ != x@,
        decreases rows.len() - j,
    {
        if crate::text::str_eq(rows[j].id.as_str(), x) {
            assert(rows@[j as int].id@ == x@);
            return true;
        }
        j = j + 1;
    }
    false
}

/// One step up from `x`.
fn parent_step(rows: &Vec<TreeRow>, x: &str) -> (r: Option<String>)
    ensures
        match r {
            Some(p) => step_up(rows@, x@) == Some(p@),
            None => step_up(rows@, x@) is None,
        },
{
    let mut i: usize = 0;
    while i < rows.len()
        invariant
            i <= rows@.len(),
            forall|j: int| 0 <= j < i ==> #[trigger] rows@[j].id@ != x@,
        decreases rows.len() - i,
    {
        if crate::text::str_eq(rows[i].id.as_str(), x) {
            assert(first_row(rows@, x@, i as int));
            proof {
                let c = choose|c: int| #[trigger] first_row(rows@, x@, c);
                if c < i {
                    assert(rows@[c].id@ != x@);
                }
                if c > i {
                    assert(rows@[i as int].id@ != x@);
                }
            }
            match &rows[i].parent_id {
                Some(p) => {
                    if has_id(rows, p.as_str()) {
                        return Some(p.clone());
                    }
                    return None;
                },
                None => {
                    return None;
                },
            }
        }
        i = i + 1;
    }
    assert forall|c: int| !#[trigger] first_row(rows@, x@, c) by {
        if first_row(rows@, x@, c) {
            assert(rows@[c].id@ == x@);
        }
    }
    None
}

/// The ancestors of `id`, outermost first, without `id` itself: its parent,
/// that parent's parent, and so on, each read from the first row with its
/// id and only as far as the rows go.
pub fn ancestor_ids(rows: &Vec<TreeRow>, id: &str) -> (r: Vec<String>)
    ensures
        ids_view(r@) == ancestry(rows@, id@, rows@.len() as nat),
{
    let ghost n = rows@.len() as nat;
    let mut up: Vec<String> = Vec::new();
    let mut cur: String = id.to_owned();
    let mut k: usize = 0;
    while k < rows.len()
        invariant
            n == rows@.len(),
            k <= n,
            ancestry(rows@, id@, n) == ancestry(rows@, cur@, (n - k) as nat) + ids_view(
                up@,
            ).reverse(),
        decreases n - k,
    {
        match parent_step(rows, cur.as_str()) {
            Some(p) => {
                let ghost before = up@;
                let ghost old_cur = cur@;
                up.push(p.clone());
                cur = p;
                k = k + 1;
                proof {
                    assert(ids_view(up@) =~= ids_view(before).push(cur@));
                    assert(ids_view(up@).reverse() =~= seq![cur@] + ids_view(before).reverse());
                    assert(ancestry(rows@, old_cur, (n - (k - 1)) as nat) == ancestry(
                        rows@,
                        cur@,
                        (n - k) as nat,
                    ).push(cur@));
                    assert(ancestry(rows@, cur@, (n - k) as nat).push(cur@) + ids_view(
                        before,
                    ).reverse() =~= ancestry(rows@, cur@, (n - k) as nat) + ids_view(up@).reverse());
                }
            },
            None => {
                proof {
                    assert(ancestry(rows@, cur@, (n - k) as nat) =~= Seq::<Seq<char>>::empty());
                    assert(ancestry(rows@, cur@, 0) =~= Seq::<Seq<char>>::empty());
                }
                k = rows.len();
            },
        }
    }
    assert(ancestry(rows@, cur@, 0) == Seq::<Seq<char>>::empty());
    assert(ancestry(rows@, id@, n) =~= ids_view(up@).reverse());
    let mut out: Vec<String> = Vec::new();
    let mut m: usize = up.len();
    while m > 0
        invariant
            m <= up@.len(),
            ids_view(out@) == ids_view(up@).reverse().take((up@.len() - m) as int),
        decreases m,
    {
        m = m - 1;
        let ghost before = out@;
        out.push(up[m].clone());
        proof {
            assert(ids_view(out@) =~= ids_view(before).push(up@[m as int]@));
            assert(ids_view(up@).reverse()[(up@.len() - m - 1) as int] == up@[m as int]@);
            assert(ids_view(out@) =~= ids_view(up@).reverse().take((up@.len() - m) as int));
        }
    }
    assert(ids_view(up@).reverse().take(up@.len() as int) =~= ids_view(up@).reverse());
    out
}

/// One node of a duplicated subtree: `copy` is the new id of the node
/// `source`, and it goes under `parent`.
#[derive(Debug)]
pub struct CopyStep {
    pub source: String,
    pub copy: String,
    pub parent: String,
}

/// The sources of `steps`, in order.
pub open spec fn copy_sources(steps: Seq<CopyStep>) -> Seq<Seq<char>> {
    steps.map_values(|c: CopyStep| c.source@)
}

/// The copy made at step `k` goes under the copy of its source's parent:
/// `root_copy` where that parent is `root`, else the copy made at an earlier
/// step of that parent.
pub open spec fn placed_under_copy(
    rows: Seq<TreeRow>,
    root: Seq<char>,
    root_copy: Seq<char>,
    steps: Seq<CopyStep>,
    k: int,
) -> bool {
    exists|i: int|
        0 <= i < rows.len() && #[trigger] rows[i].id@ == steps[k].source@ && rows[i].linked
            && match rows[i].parent_id {
            Some(p) => under_copy_of(root, root_copy, steps, k, p@),
            None => false,
        }
}

/// The copy made at step `k` goes under the copy of `p`: `root_copy` where
/// `p` is `root`, else the copy of `p` made at an earlier step.
pub open spec fn under_copy_of(
    root: Seq<char>,
    root_copy: Seq<char>,
    steps: Seq<CopyStep>,
    k: int,
    p: Seq<char>,
) -> bool {
    if p == root {
        steps[k].parent@ == root_copy
    } else {
        exists|j: int| 0 <= j < k && steps[j].source@ == p && #[trigger] steps[j].copy@ == steps[k].parent@
    }
}

/// The step of `steps` that copies `x`, if any.
fn find_step(steps: &Vec<CopyStep>, x: &str) -> (r: Option<usize>)
    ensures
        match r {
            Some(j) => j < steps@.len() && steps@[j as int].source@ == x@,
            None => !copy_sources(steps@).contains(x@),
        },
{
    let mut j: usize = 0;
    while j < steps.len()
        invariant
            j <= steps@.len(),
            forall|k: int| 0 <= k < j ==> steps@[k].source@ != x@,
        decreases steps.len() - j,
    {
        if crate::text::str_eq(steps[j].source.as_str(), x) {
            return Some(j);
        }
        j = j + 1;
    }
    assert forall|m: int| 0 <= m < copy_sources(steps@).len() implies copy_sources(steps@)[m] != x@ by {
        assert(steps@[m].source@ != x@);
    }
    None
}

/// How duplicating `root` as `root_copy` copies the nodes below it: each node
/// reached from `root` through linked nodes is copied once, under the fresh
/// id taken in turn from `fresh`, and goes under the copy of its parent,
/// which is made before it.
pub fn duplicate_plan(rows: &Vec<TreeRow>, root: &str, root_copy: &str, fresh: &Vec<String>) -> (r:
    Vec<CopyStep>)
    requires
        fresh@.len() >= rows@.len(),
    ensures
        forall|x: Seq<char>|
            #![trigger copy_sources(r@).contains(x)]
            copy_sources(r@).contains(x) <==> x != root@ && (exists|i: int|
                0 <= i < rows@.len() && rows@[i].id@ == x && rows@[i].linked) && in_subtree(
                rows@,
                root@,
                x,
            ),
        forall|j: int, k: int| 0 <= j < k < r@.len() ==> r@[j].source@ != r@[k].source@,
        forall|k: int| 0 <= k < r@.len() ==> #[trigger] r@[k].copy@ == fresh@[k]@,
        forall|k: int| 0 <= k < r@.len() ==> #[trigger] placed_under_copy(rows@, root@, root_copy@, r@, k),
{
    let (mark, order) = subtree_marks(rows, root);
    let mut steps: Vec<CopyStep> = Vec::new();
    let mut k: usize = 0;
    while k < order.len()
        invariant
            mark@.len() == rows@.len(),
            sound(rows@, mark@, root@),
            closed(rows@, mark@, root@),
            order_ok(rows@, mark@, root@, order@),
            fresh@.len() >= rows@.len(),
            k <= order@.len(),
            steps@.len() <= k,
            forall|j: int|
                0 <= j < k ==> (#[trigger] rows@[order@[j] as int].id@ == root@ || copy_sources(
                    steps@,
                ).contains(rows@[order@[j] as int].id@)),
            forall|x: Seq<char>|
                #[trigger] copy_sources(steps@).contains(x) ==> x != root@ && exists|j: int|
                    0 <= j < k && #[trigger] rows@[order@[j] as int].id@ == x,
            forall|a: int, b: int| 0 <= a < b < steps@.len() ==> steps@[a].source@ != steps@[b].source@,
            forall|m: int| 0 <= m < steps@.len() ==> #[trigger] steps@[m].copy@ == fresh@[m]@,
            forall|m: int|
                0 <= m < steps@.len() ==> #[trigger] placed_under_copy(
                    rows@,
                    root@,
                    root_copy@,
                    steps@,
                    m,
                ),
        decreases order.len() - k,
    {
        let i = order[k];
        proof {
            assert((order@[k as int] as int) < rows@.len() && mark@[order@[k as int] as int]);
            assert(parent_earlier(rows@, root@, order@, k as int));
        }
        let src = rows[i].id.as_str();
        if crate::text::str_eq(src, root) {
            assert(rows@[order@[k as int] as int].id@ == root@);
        } else {
            match find_step(&steps, src) {
                Some(j) => {
                    proof {
                        assert(copy_sources(steps@)[j as int] == src@);
                        assert(copy_sources(steps@).contains(rows@[order@[k as int] as int].id@));
                    }
                },
                None => {
                    let ghost mut p_owned: String = rows@[i as int].id;
                    let p = match &rows[i].parent_id {
                        Some(p) => {
                            proof {
                                p_owned = *p;
                            }
                            p.as_str()
                        },
                        None => {
                            assert(false);
                            root
                        },
                    };
                    let ghost mut pj: int = 0;
                    let parent_copy: String = if crate::text::str_eq(p, root) {
                        root_copy.to_owned()
                    } else {
                        match find_step(&steps, p) {
                            Some(j) => {
                                proof {
                                    pj = j as int;
                                }
                                steps[j].copy.clone()
                            },
                            None => {
                                proof {
                                    let j = choose|j: int|
                                        0 <= j < k && #[trigger] rows@[order@[j] as int].id@ == p@;
                                    assert(rows@[order@[j] as int].id@ == p@);
                                }
                                root_copy.to_owned()
                            },
                        }
                    };
                    assert(steps@.len() < fresh@.len());
                    let ghost before = steps@;
                    steps.push(CopyStep { source: rows[i].id.clone(), copy: fresh[steps.len()].clone(), parent: parent_copy });
                    proof {
                        assert(copy_sources(steps@) =~= copy_sources(before).push(src@));
                        assert(copy_sources(steps@)[before.len() as int] == src@);
                        assert forall|m: int| 0 <= m < steps@.len() implies #[trigger] placed_under_copy(
                            rows@,
                            root@,
                            root_copy@,
                            steps@,
                            m,
                        ) by {
                            if m < before.len() {
                                assert(placed_under_copy(rows@, root@, root_copy@, before, m));
                                assert(steps@[m] == before[m]);
                                let ii = choose|ii: int|
                                    0 <= ii < rows@.len() && #[trigger] rows@[ii].id@ == before[m].source@
                                        && rows@[ii].linked && match rows@[ii].parent_id {
                                        Some(q) => under_copy_of(root@, root_copy@, before, m, q@),
                                        None => false,
                                    };
                                let q = rows@[ii].parent_id->0;
                                if q@ != root@ {
                                    let j = choose|j: int|
                                        0 <= j < m && before[j].source@ == q@ && #[trigger] before[j].copy@
                                            == before[m].parent@;
                                    assert(steps@[j] == before[j]);
                                    assert(under_copy_of(root@, root_copy@, steps@, m, q@));
                                }
                                assert(rows@[ii].id@ == steps@[m].source@);
                            } else {
                                let ii = order@[k as int] as int;
                                assert(mark@[ii]);
                                assert(rows@[ii].linked);
                                assert(rows@[ii].id@ == steps@[m].source@);
                                assert(rows@[ii].parent_id == Some(p_owned));
                                if p@ != root@ {
                                    assert(steps@[pj] == before[pj]);
                                    assert(steps@[pj].copy@ == steps@[m].parent@);
                                    assert(under_copy_of(root@, root_copy@, steps@, m, p@));
                                }
                            }
                        }
                        assert forall|j: int|
                            0 <= j < k + 1 implies (#[trigger] rows@[order@[j] as int].id@ == root@
                            || copy_sources(steps@).contains(rows@[order@[j] as int].id@)) by {
                            if j < k && rows@[order@[j] as int].id@ != root@ {
                                let y = rows@[order@[j] as int].id@;
                                assert(copy_sources(before).contains(y));
                                let m = choose|m: int| 0 <= m < before.len() && copy_sources(before)[m] == y;
                                assert(copy_sources(steps@)[m] == y);
                            }
                        }
                        assert forall|x: Seq<char>| #[trigger] copy_sources(steps@).contains(x) implies x
                            != root@ && exists|j: int|
                            0 <= j < k + 1 && #[trigger] rows@[order@[j] as int].id@ == x by {
                            if x == src@ {
                                assert(rows@[order@[k as int] as int].id@ == x);
                            } else {
                                let m = choose|m: int| 0 <= m < steps@.len() && copy_sources(steps@)[m] == x;
                                assert(m < before.len());
                                assert(copy_sources(before)[m] == x);
                                assert(copy_sources(before).contains(x));
                            }
                        }
                        assert forall|a: int, b: int| 0 <= a < b < steps@.len() implies steps@[a].source@
                            != steps@[b].source@ by {
                            if b == before.len() {
                                assert(copy_sources(before)[a] == steps@[a].source@);
                            } else {
                                assert(steps@[a] == before[a] && steps@[b] == before[b]);
                            }
                        }
                    }
                },
            }
        }
        k = k + 1;
    }
    proof {
        assert forall|x: Seq<char>|
            #![trigger copy_sources(steps@).contains(x)]
            copy_sources(steps@).contains(x) <==> x != root@ && (exists|i: int|
                0 <= i < rows@.len() && rows@[i].id@ == x && rows@[i].linked) && in_subtree(
                rows@,
                root@,
                x,
            ) by {
            if copy_sources(steps@).contains(x) {
                let j = choose|j: int| 0 <= j < k && #[trigger] rows@[order@[j] as int].id@ == x;
                let m = order@[j] as int;
                assert((order@[j] as int) < rows@.len() && mark@[order@[j] as int]);
                assert(mark@[m]);
                assert(rows@[m].linked && in_subtree(rows@, root@, rows@[m].id@));
            }
            if x != root@ && (exists|i: int|
                0 <= i < rows@.len() && rows@[i].id@ == x && rows@[i].linked) && in_subtree(
                rows@,
                root@,
                x,
            ) {
                let c = choose|c: Seq<Seq<char>>| #[trigger] is_path(rows@, c) && c[0] == root@ && c.last() == x;
                lemma_path_members(rows@, mark@, root@, c);
                let m = choose|m: int| 0 <= m < rows@.len() && #[trigger] marked_id(rows@, mark@, m, x);
                assert(mark@[m]);
                let j = choose|j: int| 0 <= j < order@.len() && #[trigger] order@[j] == m;
                assert(rows@[order@[j] as int].id@ == x);
            }
        }
    }
    steps
}

} // verus!
