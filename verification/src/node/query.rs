use vstd::prelude::*;
use crate::node::model::{Node, NodeViewModel};

verus! {

/// A copy of an optional string.
pub fn copy_opt_string(o: &Option<String>) -> (r: Option<String>)
    ensures
        r == *o,
{
    match o {
        Some(s) => Some(s.clone()),
        None => None,
    }
}

/// The tree-view entry for `node`, given the counts and tags looked up for it.
pub fn build_node_viewmodel(
    node: &Node,
    child_count: u32,
    completed_child_count: u32,
    is_expanded: bool,
    depth: u32,
    tags: Vec<String>,
) -> (vm: NodeViewModel)
    ensures
        vm.id == node.id,
        vm.parent_id == node.parent_id,
        vm.node_type == node.node_type,
        vm.title == node.title,
        vm.depth == depth,
        vm.has_children == (child_count > 0),
        vm.is_expanded == is_expanded,
        vm.is_completed == node.is_completed,
        vm.priority == node.properties.priority,
        vm.due_date == node.properties.due_date,
        vm.tags == tags,
        vm.child_count == child_count,
        vm.completed_child_count == completed_child_count,
{
    NodeViewModel {
        id: node.id.clone(),
        parent_id: copy_opt_string(&node.parent_id),
        node_type: node.node_type,
        title: node.title.clone(),
        depth,
        has_children: child_count > 0,
        is_expanded,
        is_completed: node.is_completed,
        priority: node.properties.priority,
        due_date: node.properties.due_date,
        tags,
        child_count,
        completed_child_count,
    }
}

} // verus!
