use vstd::prelude::*;
use crate::json::Json;
use crate::text::str_eq;
use crate::time::Timestamp;

verus! {

/// What kind of entry a node of the hierarchy is.
#[derive(Debug, Clone, Copy, PartialEq, Eq, Structural)]
pub enum NodeType {
    Workspace,
    Group,
    Task,
    Note,
    Attachment,
    Comment,
}

/// The name under which a node type is stored.
pub open spec fn node_type_name(t: NodeType) -> Seq<char> {
    match t {
        NodeType::Workspace => "Workspace"@,
        NodeType::Group => "Group"@,
        NodeType::Task => "Task"@,
        NodeType::Note => "Note"@,
        NodeType::Attachment => "Attachment"@,
        NodeType::Comment => "Comment"@,
    }
}

/// The node type stored under the name `s`, if any.
pub open spec fn parse_node_type(s: Seq<char>) -> Option<NodeType> {
    if s == "Workspace"@ {
        Some(NodeType::Workspace)
    } else if s == "Group"@ {
        Some(NodeType::Group)
    } else if s == "Task"@ {
        Some(NodeType::Task)
    } else if s == "Note"@ {
        Some(NodeType::Note)
    } else if s == "Attachment"@ {
        Some(NodeType::Attachment)
    } else if s == "Comment"@ {
        Some(NodeType::Comment)
    } else {
        None
    }
}

impl NodeType {
    /// The name under which this node type is stored.
    pub fn as_str(&self) -> (s: &'static str)
        ensures
            s@ == node_type_name(*self),
    {
        match self {
            NodeType::Workspace => "Workspace",
            NodeType::Group => "Group",
            NodeType::Task => "Task",
            NodeType::Note => "Note",
            NodeType::Attachment => "Attachment",
            NodeType::Comment => "Comment",
        }
    }

    /// The node type stored under the name `s`, or `None` for any other name.
    pub fn parse(s: &str) -> (r: Option<NodeType>)
        ensures
            r == parse_node_type(s@),
    {
        if str_eq(s, "Workspace") {
            Some(NodeType::Workspace)
        } else if str_eq(s, "Group") {
            Some(NodeType::Group)
        } else if str_eq(s, "Task") {
            Some(NodeType::Task)
        } else if str_eq(s, "Note") {
            Some(NodeType::Note)
        } else if str_eq(s, "Attachment") {
            Some(NodeType::Attachment)
        } else if str_eq(s, "Comment") {
            Some(NodeType::Comment)
        } else {
            None
        }
    }
}

/// Reading a stored type name back gives the type that was stored, and only a
/// name that some type is stored under is read as a type.
pub proof fn law_node_type_name_round_trip(t: NodeType, s: Seq<char>)
    ensures
        parse_node_type(node_type_name(t)) == Some(t),
        parse_node_type(s) == Some(t) ==> s == node_type_name(t),
{
    reveal_strlit("Workspace");
    reveal_strlit("Group");
    reveal_strlit("Task");
    reveal_strlit("Note");
    reveal_strlit("Attachment");
    reveal_strlit("Comment");
    assert("Workspace"@.len() == 9);
    assert("Group"@.len() == 5);
    assert("Task"@.len() == 4);
    assert("Note"@.len() == 4);
    assert("Attachment"@.len() == 10);
    assert("Comment"@.len() == 7);
    assert("Task"@[0] != "Note"@[0]);
    assert("Task"@ != "Note"@);
}

/// A task priority, from 1 (highest) to 4.
#[derive(Debug, Clone, Copy, PartialEq, Eq, PartialOrd, Ord, Structural)]
pub enum Priority {
    P1,
    P2,
    P3,
    P4,
}

/// The number a priority stands for.
pub open spec fn priority_value(p: Priority) -> int {
    match p {
        Priority::P1 => 1,
        Priority::P2 => 2,
        Priority::P3 => 3,
        Priority::P4 => 4,
    }
}

impl Priority {
    /// The priority numbered `v`, or `None` outside 1 to 4.
    pub fn from_i32(v: i32) -> (r: Option<Priority>)
        ensures
            r is Some <==> 1 <= v <= 4,
            r matches Some(p) ==> priority_value(p) == v,
    {
        match v {
            1 => Some(Priority::P1),
            2 => Some(Priority::P2),
            3 => Some(Priority::P3),
            4 => Some(Priority::P4),
            _ => None,
        }
    }

    /// The number this priority stands for.
    pub fn value(&self) -> (r: i32)
        ensures
            r == priority_value(*self),
    {
        match self {
            Priority::P1 => 1,
            Priority::P2 => 2,
            Priority::P3 => 3,
            Priority::P4 => 4,
        }
    }
}

/// A reminder attached to a node.
#[derive(Debug)]
pub struct ReminderConfig {
    pub time: Option<Timestamp>,
    pub offset_minutes: Option<i32>,
    pub reminder_type: String,
}

/// How a node repeats.
#[derive(Debug)]
pub struct RecurrenceConfig {
    pub pattern: String,
    pub interval: i32,
    pub days: Option<Vec<i32>>,
}

/// The modelled properties of a node.
#[derive(Debug)]
pub struct NodeProperties {
    pub due_date: Option<Timestamp>,
    pub start_date: Option<Timestamp>,
    pub priority: Option<i32>,
    pub reminders: Option<Vec<ReminderConfig>>,
    pub recurrence: Option<RecurrenceConfig>,
    pub estimated_duration_minutes: Option<i32>,
    pub custom: Option<Json>,
    pub icon: Option<String>,
    pub color: Option<String>,
    pub pinned: Option<bool>,
    pub favorite: Option<bool>,
}

/// Properties with no field set.
pub open spec fn properties_unset(p: NodeProperties) -> bool {
    &&& p.due_date is None
    &&& p.start_date is None
    &&& p.priority is None
    &&& p.reminders is None
    &&& p.recurrence is None
    &&& p.estimated_duration_minutes is None
    &&& p.custom is None
    &&& p.icon is None
    &&& p.color is None
    &&& p.pinned is None
    &&& p.favorite is None
}

impl NodeProperties {
    /// Properties with no field set.
    pub fn unset() -> (p: NodeProperties)
        ensures
            properties_unset(p),
    {
        NodeProperties {
            due_date: None,
            start_date: None,
            priority: None,
            reminders: None,
            recurrence: None,
            estimated_duration_minutes: None,
            custom: None,
            icon: None,
            color: None,
            pinned: None,
            favorite: None,
        }
    }
}

impl Default for NodeProperties {
    fn default() -> (p: NodeProperties)
        ensures
            properties_unset(p),
    {
        NodeProperties::unset()
    }
}

/// The sort position of a node among its siblings, held as the IEEE-754 bit
/// pattern of the stored floating-point value.
#[derive(Debug, Clone, Copy, PartialEq, Eq, Structural)]
pub struct Position(pub u64);

/// An entry of the hierarchy.
#[derive(Debug)]
pub struct Node {
    pub id: String,
    pub parent_id: Option<String>,
    pub position: Position,
    pub node_type: NodeType,
    pub title: String,
    pub body: String,
    pub properties: NodeProperties,
    pub is_collapsed: bool,
    pub is_completed: bool,
    pub completed_at: Option<Timestamp>,
    pub deleted_at: Option<Timestamp>,
    pub version: i32,
    pub clock: String,
    pub created_at: Timestamp,
    pub updated_at: Timestamp,
}

/// A node as the tree view shows it.
#[derive(Debug)]
pub struct NodeViewModel {
    pub id: String,
    pub parent_id: Option<String>,
    pub node_type: NodeType,
    pub title: String,
    pub depth: u32,
    pub has_children: bool,
    pub is_expanded: bool,
    pub is_completed: bool,
    pub priority: Option<i32>,
    pub due_date: Option<Timestamp>,
    pub tags: Vec<String>,
    pub child_count: u32,
    pub completed_child_count: u32,
}

/// What a new node is made of.
#[derive(Debug)]
pub struct CreateNodeInput {
    pub parent_id: Option<String>,
    pub node_type: NodeType,
    pub title: String,
    pub body: String,
    pub properties: NodeProperties,
    pub position: Option<Position>,
}

/// The fields of a node that an update changes; `None` leaves a field as it is.
#[derive(Debug)]
pub struct UpdateNodeInput {
    pub title: Option<String>,
    pub body: Option<String>,
    pub node_type: Option<NodeType>,
    pub is_collapsed: Option<bool>,
    pub properties: Option<NodeProperties>,
}

/// Restrictions on a search.
#[derive(Debug)]
pub struct SearchFilters {
    pub node_types: Option<Vec<NodeType>>,
    pub tags: Option<Vec<String>>,
    pub priority: Option<i32>,
    pub due_before: Option<Timestamp>,
    pub due_after: Option<Timestamp>,
    pub is_completed: Option<bool>,
    pub workspace_id: Option<String>,
}

} // verus!
