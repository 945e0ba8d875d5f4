use vstd::prelude::*;
use crate::error::{Error, is_validation, validation_error};
use crate::node::model::{NodeProperties, NodeType, properties_unset};

verus! {

/// The properties of a node of type `t` are acceptable: a task's priority,
/// when set, lies between 1 and 4; other types accept any properties.
pub open spec fn properties_valid_for(t: NodeType, p: NodeProperties) -> bool {
    t is Task ==> (p.priority matches Some(v) ==> 1 <= v <= 4)
}

/// The properties a new node of type `t` starts from: a task starts at
/// priority 4, any other node with nothing set.
pub open spec fn default_properties_for(t: NodeType, p: NodeProperties) -> bool {
    if t is Task {
        &&& p.priority == Some(4i32)
        &&& p.due_date is None
        &&& p.start_date is None
        &&& p.reminders is None
        &&& p.recurrence is None
        &&& p.estimated_duration_minutes is None
        &&& p.custom is None
        &&& p.icon is None
        &&& p.color is None
        &&& p.pinned is None
        &&& p.favorite is None
    } else {
        properties_unset(p)
    }
}

/// Type-specific rules for the properties of a node.
pub trait NodeHandler {
    /// The node type whose rules this handler applies.
    spec fn handled_type(&self) -> NodeType;

    fn node_type(&self) -> (t: NodeType)
        ensures
            t == self.handled_type(),
    ;

    fn validate_properties(&self, props: &NodeProperties) -> (r: Result<(), Error>)
        ensures
            r is Ok <==> properties_valid_for(self.handled_type(), *props),
            r matches Err(e) ==> is_validation(e, "Priority must be 1-4"@),
    ;

    fn default_properties(&self) -> (p: NodeProperties)
        ensures
            default_properties_for(self.handled_type(), p),
    ;
}

pub struct TaskHandler;

impl NodeHandler for TaskHandler {
    open spec fn handled_type(&self) -> NodeType {
        NodeType::Task
    }

    fn node_type(&self) -> (t: NodeType) {
        NodeType::Task
    }

    fn validate_properties(&self, props: &NodeProperties) -> (r: Result<(), Error>) {
        if let Some(priority) = props.priority {
            if !(1 <= priority && priority <= 4) {
                return Err(validation_error("Priority must be 1-4"));
            }
        }
        Ok(())
    }

    fn default_properties(&self) -> (p: NodeProperties) {
        let mut p = NodeProperties::unset();
        p.priority = Some(4);
        p
    }
}

pub struct GroupHandler;

impl NodeHandler for GroupHandler {
    open spec fn handled_type(&self) -> NodeType {
        NodeType::Group
    }

    fn node_type(&self) -> (t: NodeType) {
        NodeType::Group
    }

    fn validate_properties(&self, props: &NodeProperties) -> (r: Result<(), Error>) {
        Ok(())
    }

    fn default_properties(&self) -> (p: NodeProperties) {
        NodeProperties::unset()
    }
}

pub struct WorkspaceHandler;

impl NodeHandler for WorkspaceHandler {
    open spec fn handled_type(&self) -> NodeType {
        NodeType::Workspace
    }

    fn node_type(&self) -> (t: NodeType) {
        NodeType::Workspace
    }

    fn validate_properties(&self, props: &NodeProperties) -> (r: Result<(), Error>) {
        Ok(())
    }

    fn default_properties(&self) -> (p: NodeProperties) {
        NodeProperties::unset()
    }
}

pub struct NoteHandler;

impl NodeHandler for NoteHandler {
    open spec fn handled_type(&self) -> NodeType {
        NodeType::Note
    }

    fn node_type(&self) -> (t: NodeType) {
        NodeType::Note
    }

    fn validate_properties(&self, props: &NodeProperties) -> (r: Result<(), Error>) {
        Ok(())
    }

    fn default_properties(&self) -> (p: NodeProperties) {
        NodeProperties::unset()
    }
}

/// The type whose handler serves `t`: attachments and comments follow the
/// rules of notes.
pub open spec fn handler_type(t: NodeType) -> NodeType {
    match t {
        NodeType::Attachment | NodeType::Comment => NodeType::Note,
        _ => t,
    }
}

/// One of the four handlers, chosen at run time.
pub enum AnyHandler {
    Task(TaskHandler),
    Group(GroupHandler),
    Workspace(WorkspaceHandler),
    Note(NoteHandler),
}

impl NodeHandler for AnyHandler {
    open spec fn handled_type(&self) -> NodeType {
        match self {
            AnyHandler::Task(h) => h.handled_type(),
            AnyHandler::Group(h) => h.handled_type(),
            AnyHandler::Workspace(h) => h.handled_type(),
            AnyHandler::Note(h) => h.handled_type(),
        }
    }

    fn node_type(&self) -> (t: NodeType) {
        match self {
            AnyHandler::Task(h) => h.node_type(),
            AnyHandler::Group(h) => h.node_type(),
            AnyHandler::Workspace(h) => h.node_type(),
            AnyHandler::Note(h) => h.node_type(),
        }
    }

    fn validate_properties(&self, props: &NodeProperties) -> (r: Result<(), Error>) {
        match self {
            AnyHandler::Task(h) => h.validate_properties(props),
            AnyHandler::Group(h) => h.validate_properties(props),
            AnyHandler::Workspace(h) => h.validate_properties(props),
            AnyHandler::Note(h) => h.validate_properties(props),
        }
    }

    fn default_properties(&self) -> (p: NodeProperties) {
        match self {
            AnyHandler::Task(h) => h.default_properties(),
            AnyHandler::Group(h) => h.default_properties(),
            AnyHandler::Workspace(h) => h.default_properties(),
            AnyHandler::Note(h) => h.default_properties(),
        }
    }
}

/// The handler for nodes of type `t`, as a value whose rules the contract
/// names.
pub fn handler_for(node_type: &NodeType) -> (h: AnyHandler)
    ensures
        h.handled_type() == handler_type(*node_type),
{
    match node_type {
        NodeType::Task => AnyHandler::Task(TaskHandler),
        NodeType::Group => AnyHandler::Group(GroupHandler),
        NodeType::Workspace => AnyHandler::Workspace(WorkspaceHandler),
        NodeType::Note => AnyHandler::Note(NoteHandler),
        NodeType::Attachment => AnyHandler::Note(NoteHandler),
        NodeType::Comment => AnyHandler::Note(NoteHandler),
    }
}

/// The handler for nodes of type `t`, boxed as callers keep it: attachments
/// and comments are handled as notes.
pub fn get_handler(node_type: &NodeType) -> (h: Box<AnyHandler>)
    ensures
        h.handled_type() == handler_type(*node_type),
{
    Box::new(handler_for(node_type))
}

} // verus!
