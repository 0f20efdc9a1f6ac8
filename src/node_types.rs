use vstd::prelude::*;

verus! {

/// The kinds of node in a plan tree. Initiative, Project and SubProject are
/// containers; Job and AdjustmentBuffer are entities that hold entries.
#[derive(Clone, Copy, Debug, PartialEq, Eq, Structural)]
pub enum NodeType {
    Initiative,
    Project,
    SubProject,
    Job,
    AdjustmentBuffer,
}

/// The legal (parent, child) pairs of a plan tree.
pub open spec fn child_allowed(child: NodeType, parent: NodeType) -> bool {
    match (parent, child) {
        (NodeType::Initiative, NodeType::Project) => true,
        (NodeType::Project, NodeType::SubProject) => true,
        (NodeType::Project, NodeType::Job) => true,
        (NodeType::Project, NodeType::AdjustmentBuffer) => true,
        (NodeType::SubProject, NodeType::SubProject) => true,
        (NodeType::SubProject, NodeType::Job) => true,
        (NodeType::SubProject, NodeType::AdjustmentBuffer) => true,
        _ => false,
    }
}

/// Only an Initiative may stand at the root of a tree.
pub open spec fn root_allowed(t: NodeType) -> bool {
    t == NodeType::Initiative
}

/// Entity types hold entries directly and are bound to a service.
pub open spec fn entity_type(t: NodeType) -> bool {
    t == NodeType::Job || t == NodeType::AdjustmentBuffer
}

impl NodeType {
    /// Whether a node of this type may be a child of a node of `parent_type`.
    pub fn can_be_child_of(&self, parent_type: &NodeType) -> (r: bool)
        ensures
            r == child_allowed(*self, *parent_type),
    {
        match (parent_type, self) {
            (NodeType::Initiative, NodeType::Project) => true,
            (NodeType::Project, NodeType::SubProject) => true,
            (NodeType::Project, NodeType::Job) => true,
            (NodeType::Project, NodeType::AdjustmentBuffer) => true,
            (NodeType::SubProject, NodeType::SubProject) => true,
            (NodeType::SubProject, NodeType::Job) => true,
            (NodeType::SubProject, NodeType::AdjustmentBuffer) => true,
            _ => false,
        }
    }

    /// Whether a node of this type may have no parent.
    pub fn can_be_root(&self) -> (r: bool)
        ensures
            r == root_allowed(*self),
    {
        matches!(self, NodeType::Initiative)
    }

    /// Whether this type holds entries (and needs a service binding).
    pub fn is_entity(&self) -> (r: bool)
        ensures
            r == entity_type(*self),
    {
        matches!(self, NodeType::Job | NodeType::AdjustmentBuffer)
    }
}

/// No type may be a child of an entity, and a root type is never a child.
pub proof fn lemma_rules_shape(child: NodeType, parent: NodeType)
    ensures
        entity_type(parent) ==> !child_allowed(child, parent),
        root_allowed(child) ==> !child_allowed(child, parent),
{
}

} // verus!
