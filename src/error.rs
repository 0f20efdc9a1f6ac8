use vstd::prelude::*;

verus! {

/// The kinds of failure that the planning operations report.
#[derive(Clone, Copy, Debug, PartialEq, Eq, Structural)]
pub enum PlanError {
    /// A referenced scenario, node or entry does not exist.
    NotFound,
    /// A write was attempted against a scenario that is not current.
    ReadOnlyScenario,
    /// A node-type rule was broken: an illegal parent/child pair, a non-root
    /// type without a parent, or entries written to a container node.
    InvalidHierarchy,
    /// A service binding does not match the node type.
    InvalidServiceBinding,
    /// A parent node belongs to another scenario.
    CrossScenarioParent,
    /// A node with children or entries cannot be deleted.
    NonEmptyNode,
    /// A field-level constraint failed (blank name, start after end, ...).
    ValidationError,
    /// The storage layer refused a write (for instance a duplicate identifier).
    StorageError,
    /// The e-mail address and password do not match a user.
    InvalidCredentials,
}

} // verus!
