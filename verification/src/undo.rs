use vstd::prelude::*;
use crate::error::Error;
use crate::node::model::{Node, Position, UpdateNodeInput};

verus! {

/// A change to the hierarchy that can be undone, with what undoing it needs.
#[derive(Debug)]
pub enum UndoOp {
    /// Undo create = delete this node; redo = re-insert the snapshot.
    Create(Node),
    /// The node's id and its state before the update.
    Update(String, Node),
    /// The node's id and its state before the delete.
    Delete(String, Node),
    /// The node's id, and its parent and position before the move.
    Move(String, Option<String>, Position),
}

/// An entry of the undo or redo history.
#[derive(Debug)]
pub struct UndoAction {
    pub op: UndoOp,
    pub description: String,
}

/// The undo and redo histories of the hierarchy.
pub struct UndoStack {
    undo_stack: Vec<UndoAction>,
    redo_stack: Vec<UndoAction>,
}

/// `s` wrapped in double quotes after `prefix`.
pub open spec fn quoted(prefix: Seq<char>, s: Seq<char>) -> Seq<char> {
    prefix + "\""@ + s + "\""@
}

/// Builds `prefix"s"`.
pub fn quoted_text(prefix: &str, s: &str) -> (r: String)
    ensures
        r@ == quoted(prefix@, s@),
{
    let mut r = prefix.to_owned();
    r.append("\"");
    r.append(s);
    r.append("\"");
    r
}

/// `id` after `prefix`.
pub fn prefixed_text(prefix: &str, s: &str) -> (r: String)
    ensures
        r@ == prefix@ + s@,
{
    let mut r = prefix.to_owned();
    r.append(s);
    r
}

impl UndoStack {
    /// The undo history, oldest first.
    pub closed spec fn undo_history(&self) -> Seq<UndoAction> {
        self.undo_stack@
    }

    /// The redo history, oldest first.
    pub closed spec fn redo_history(&self) -> Seq<UndoAction> {
        self.redo_stack@
    }

    /// Empty histories.
    pub fn new() -> (s: Self)
        ensures
            s.undo_history().len() == 0,
            s.redo_history().len() == 0,
    {
        UndoStack { undo_stack: Vec::new(), redo_stack: Vec::new() }
    }

    /// Records a new user action; any redo history is dropped.
    fn record(&mut self, action: UndoAction)
        ensures
            final(self).undo_history() == old(self).undo_history().push(action),
            final(self).redo_history().len() == 0,
    {
        self.undo_stack.push(action);
        self.redo_stack.clear();
    }

    /// Records the creation of `node`.
    pub fn push_create(&mut self, node: Node)
        ensures
            final(self).undo_history().drop_last() == old(self).undo_history(),
            final(self).undo_history().len() == old(self).undo_history().len() + 1,
            final(self).undo_history().last().op == UndoOp::Create(node),
            final(self).undo_history().last().description@ == quoted("Created "@, node.title@),
            final(self).redo_history().len() == 0,
    {
        let description = quoted_text("Created ", node.title.as_str());
        self.record(UndoAction { op: UndoOp::Create(node), description });
    }

    /// Records an update of node `id`, whose state before it was `prev`.
    pub fn push_update(&mut self, id: String, prev: Node)
        ensures
            final(self).undo_history().drop_last() == old(self).undo_history(),
            final(self).undo_history().len() == old(self).undo_history().len() + 1,
            final(self).undo_history().last().op == UndoOp::Update(id, prev),
            final(self).undo_history().last().description@ == "Updated node "@ + id@,
            final(self).redo_history().len() == 0,
    {
        let description = prefixed_text("Updated node ", id.as_str());
        self.record(UndoAction { op: UndoOp::Update(id, prev), description });
    }

    /// Records the deletion of node `id`, whose state before it was `node`.
    pub fn push_delete(&mut self, id: String, node: Node)
        ensures
            final(self).undo_history().drop_last() == old(self).undo_history(),
            final(self).undo_history().len() == old(self).undo_history().len() + 1,
            final(self).undo_history().last().op == UndoOp::Delete(id, node),
            final(self).undo_history().last().description@ == "Deleted node "@ + id@,
            final(self).redo_history().len() == 0,
    {
        let description = prefixed_text("Deleted node ", id.as_str());
        self.record(UndoAction { op: UndoOp::Delete(id, node), description });
    }

    /// Records the move of node `id` away from `prev_parent` at `prev_pos`.
    pub fn push_move(&mut self, id: String, prev_parent: Option<String>, prev_pos: Position)
        ensures
            final(self).undo_history().drop_last() == old(self).undo_history(),
            final(self).undo_history().len() == old(self).undo_history().len() + 1,
            final(self).undo_history().last().op == UndoOp::Move(id, prev_parent, prev_pos),
            final(self).undo_history().last().description@ == "Moved node "@ + id@,
            final(self).redo_history().len() == 0,
    {
        let description = prefixed_text("Moved node ", id.as_str());
        self.record(UndoAction { op: UndoOp::Move(id, prev_parent, prev_pos), description });
    }

    /// Takes the most recent entry off the undo history.
    pub fn pop_undo(&mut self) -> (r: Option<UndoAction>)
        ensures
            old(self).undo_history().len() == 0 ==> r is None && final(self).undo_history()
                == old(self).undo_history(),
            old(self).undo_history().len() > 0 ==> r == Some(old(self).undo_history().last())
                && final(self).undo_history() == old(self).undo_history().drop_last(),
            final(self).redo_history() == old(self).redo_history(),
    {
        self.undo_stack.pop()
    }

    /// Puts an entry on the redo history.
    pub fn push_redo(&mut self, action: UndoAction)
        ensures
            final(self).redo_history() == old(self).redo_history().push(action),
            final(self).undo_history() == old(self).undo_history(),
    {
        self.redo_stack.push(action);
    }

    /// Takes the most recent entry off the redo history.
    pub fn pop_redo(&mut self) -> (r: Option<UndoAction>)
        ensures
            old(self).redo_history().len() == 0 ==> r is None && final(self).redo_history()
                == old(self).redo_history(),
            old(self).redo_history().len() > 0 ==> r == Some(old(self).redo_history().last())
                && final(self).redo_history() == old(self).redo_history().drop_last(),
            final(self).undo_history() == old(self).undo_history(),
    {
        self.redo_stack.pop()
    }

    /// Puts an entry back on the undo history after it was redone, keeping
    /// the redo history as it is.
    pub fn push_undo_after_redo(&mut self, action: UndoAction)
        ensures
            final(self).undo_history() == old(self).undo_history().push(action),
            final(self).redo_history() == old(self).redo_history(),
    {
        self.undo_stack.push(action);
    }

    /// Drops both histories.
    pub fn clear(&mut self)
        ensures
            final(self).undo_history().len() == 0,
            final(self).redo_history().len() == 0,
    {
        self.undo_stack.clear();
        self.redo_stack.clear();
    }

    pub fn can_undo(&self) -> (r: bool)
        ensures
            r == (self.undo_history().len() > 0),
    {
        !self.undo_stack.is_empty()
    }

    pub fn can_redo(&self) -> (r: bool)
        ensures
            r == (self.redo_history().len() > 0),
    {
        !self.redo_stack.is_empty()
    }
}

/// What the store must do to undo or redo one entry.
#[derive(Debug)]
pub enum HistoryStep {
    /// Remove the node, with its subtree, for good.
    HardDelete(String),
    /// Bring back the node snapshot held by the returned counter entry:
    /// undelete it, or insert it again when it is gone.
    RestoreSnapshot,
    /// Write these fields back, and set the completion state when given.
    Revert { id: String, changes: UpdateNodeInput, set_completed: Option<bool> },
    /// Move the node, with its subtree, to the trash.
    SoftDelete(String),
    /// Put the node back under `parent_id` at `position`.
    Move { id: String, parent_id: Option<String>, position: Position },
}

/// The step to perform and the entry to record on the other history.
#[derive(Debug)]
pub struct HistoryPlan {
    pub step: HistoryStep,
    pub counter: UndoAction,
}

/// The entry needs the node's current state to be undone or redone.
pub open spec fn needs_current(op: UndoOp) -> bool {
    op is Update || op is Move
}

/// The fields that put a node back to `prev`.
pub open spec fn revert_changes(prev: Node) -> UpdateNodeInput {
    UpdateNodeInput {
        title: Some(prev.title),
        body: Some(prev.body),
        node_type: Some(prev.node_type),
        is_collapsed: Some(prev.is_collapsed),
        properties: Some(prev.properties),
    }
}

/// The completion state to write back: `prev`'s, when it differs from the
/// current one.
pub open spec fn revert_completion(prev: Node, current: Node) -> Option<bool> {
    if current.is_completed != prev.is_completed {
        Some(prev.is_completed)
    } else {
        None
    }
}

/// The step that undoes `op` (`redo` false) or redoes it (`redo` true), given
/// the node's current state where the entry needs it.
pub open spec fn history_step(op: UndoOp, current: Option<Node>, redo: bool) -> HistoryStep {
    match op {
        UndoOp::Create(node) => if redo {
            HistoryStep::RestoreSnapshot
        } else {
            HistoryStep::HardDelete(node.id)
        },
        UndoOp::Update(id, prev) => HistoryStep::Revert {
            id: id,
            changes: revert_changes(prev),
            set_completed: revert_completion(prev, current->Some_0),
        },
        UndoOp::Delete(id, node) => if redo {
            HistoryStep::SoftDelete(id)
        } else {
            HistoryStep::RestoreSnapshot
        },
        UndoOp::Move(id, parent, position) => HistoryStep::Move {
            id: id,
            parent_id: parent,
            position: position,
        },
    }
}

/// The entry recorded on the other history after undoing or redoing `op`:
/// creates and deletes keep their snapshot, updates and moves record the
/// state the node had just before.
pub open spec fn counter_op(op: UndoOp, current: Option<Node>) -> UndoOp {
    match op {
        UndoOp::Create(node) => UndoOp::Create(node),
        UndoOp::Update(id, prev) => UndoOp::Update(id, current->Some_0),
        UndoOp::Delete(id, node) => UndoOp::Delete(id, node),
        UndoOp::Move(id, parent, position) => UndoOp::Move(
            id,
            current->Some_0.parent_id,
            current->Some_0.position,
        ),
    }
}

/// The description of the counter entry: "Redo ..." after an undo, "Undo ..."
/// after a redo, naming the node.
pub open spec fn counter_description(op: UndoOp, current: Option<Node>, redo: bool) -> Seq<
    char,
> {
    let verb = if redo {
        "Undo "@
    } else {
        "Redo "@
    };
    match op {
        UndoOp::Create(node) => quoted(verb + "create "@, node.title@),
        UndoOp::Update(id, prev) => quoted(verb + "update "@, prev.title@),
        UndoOp::Delete(id, node) => quoted(verb + "delete "@, node.title@),
        UndoOp::Move(id, parent, position) => quoted(verb + "move "@, current->Some_0.title@),
    }
}

/// Decides how to undo (`redo` false) or redo (`redo` true) the history entry
/// `action`, given the node's current state when the entry is an update or a
/// move.
pub fn plan_history_step(action: UndoAction, current: Option<Node>, redo: bool) -> (r: HistoryPlan)
    requires
        needs_current(action.op) ==> current is Some,
    ensures
        r.step == history_step(action.op, current, redo),
        r.counter.op == counter_op(action.op, current),
        r.counter.description@ == counter_description(action.op, current, redo),
{
    let verb = if redo {
        "Undo "
    } else {
        "Redo "
    };
    proof {
        reveal_strlit("Undo ");
        reveal_strlit("Redo ");
    }
    match action.op {
        UndoOp::Create(node) => {
            let description = quoted_text(
                prefixed_text(verb, "create ").as_str(),
                node.title.as_str(),
            );
            let step = if redo {
                HistoryStep::RestoreSnapshot
            } else {
                HistoryStep::HardDelete(node.id.clone())
            };
            HistoryPlan { step, counter: UndoAction { op: UndoOp::Create(node), description } }
        },
        UndoOp::Update(id, prev) => {
            let cur = current.unwrap();
            let description = quoted_text(
                prefixed_text(verb, "update ").as_str(),
                prev.title.as_str(),
            );
            let set_completed = if cur.is_completed != prev.is_completed {
                Some(prev.is_completed)
            } else {
                None
            };
            let changes = UpdateNodeInput {
                title: Some(prev.title),
                body: Some(prev.body),
                node_type: Some(prev.node_type),
                is_collapsed: Some(prev.is_collapsed),
                properties: Some(prev.properties),
            };
            let step = HistoryStep::Revert { id: id.clone(), changes, set_completed };
            HistoryPlan { step, counter: UndoAction { op: UndoOp::Update(id, cur), description } }
        },
        UndoOp::Delete(id, node) => {
            let description = quoted_text(
                prefixed_text(verb, "delete ").as_str(),
                node.title.as_str(),
            );
            let step = if redo {
                HistoryStep::SoftDelete(id.clone())
            } else {
                HistoryStep::RestoreSnapshot
            };
            HistoryPlan { step, counter: UndoAction { op: UndoOp::Delete(id, node), description } }
        },
        UndoOp::Move(id, parent, position) => {
            let cur = current.unwrap();
            let description = quoted_text(
                prefixed_text(verb, "move ").as_str(),
                cur.title.as_str(),
            );
            let step = HistoryStep::Move { id: id.clone(), parent_id: parent, position };
            HistoryPlan {
                step,
                counter: UndoAction {
                    op: UndoOp::Move(id, cur.parent_id, cur.position),
                    description,
                },
            }
        },
    }
}

/// The error for an empty history: nothing to undo, or nothing to redo.
pub fn empty_history_error(redo: bool) -> (e: Error)
    ensures
        redo ==> e is NothingToRedo,
        !redo ==> e is NothingToUndo,
{
    if redo {
        Error::NothingToRedo
    } else {
        Error::NothingToUndo
    }
}

/// Undoing (or redoing) an update puts the node back as it was before: the
/// step writes back the earlier title, body, type, collapse state and
/// properties, and after it the node is completed exactly when it was
/// before; the completion is written only where it differs.
pub proof fn law_revert_restores_the_earlier_node(id: String, prev: Node, cur: Node, redo: bool)
    ensures
        history_step(UndoOp::Update(id, prev), Some(cur), redo) matches HistoryStep::Revert {
            id: i,
            changes,
            set_completed,
        } && i == id && changes.title == Some(prev.title) && changes.body == Some(prev.body)
            && changes.node_type == Some(prev.node_type) && changes.is_collapsed == Some(
            prev.is_collapsed,
        ) && changes.properties == Some(prev.properties) && match set_completed {
            Some(b) => b == prev.is_completed && cur.is_completed != prev.is_completed,
            None => cur.is_completed == prev.is_completed,
        },
{
}

/// Undoing an entry and then redoing what the undo recorded puts things back:
/// a create or a delete comes back as the same entry, snapshot and all, and
/// is redone by restoring or trashing the node again; an update is undone by
/// writing back the fields the node had before it and redone by writing back
/// the fields it had when it was undone; a move is undone by returning the
/// node to its old place and redone by returning it to the place it had when
/// it was undone.
pub proof fn law_undo_redo_round_trip(op: UndoOp, c1: Option<Node>, c2: Option<Node>)
    requires
        needs_current(op) ==> c1 is Some,
    ensures
        (op is Create || op is Delete) ==> counter_op(counter_op(op, c1), c2) == op,
        (op is Create || op is Delete) ==> history_step(counter_op(op, c1), c2, true) == match op {
            UndoOp::Create(_) => HistoryStep::RestoreSnapshot,
            UndoOp::Delete(id, _) => HistoryStep::SoftDelete(id),
            _ => HistoryStep::RestoreSnapshot,
        },
        op matches UndoOp::Update(id, prev) ==> {
            &&& history_step(op, c1, false) matches HistoryStep::Revert { id: i, changes, .. }
                && i == id && changes == revert_changes(prev)
            &&& history_step(counter_op(op, c1), c2, true) matches HistoryStep::Revert {
                id: i,
                changes,
                ..
            } && i == id && changes == revert_changes(c1->Some_0)
        },
        op matches UndoOp::Move(id, parent, position) ==> {
            &&& history_step(op, c1, false) == (HistoryStep::Move {
                id: id,
                parent_id: parent,
                position: position,
            })
            &&& history_step(counter_op(op, c1), c2, true) == (HistoryStep::Move {
                id: id,
                parent_id: c1->Some_0.parent_id,
                position: c1->Some_0.position,
            })
        },
{
}

} // verus!
