use vstd::prelude::*;
use crate::error::PlanError;
use crate::node_types::{NodeType, root_allowed, entity_type};
use crate::values::{Amount, CalendarDate, is_blank, blank, copy_text};
use crate::runtime::{new_id, now_micros};

verus! {

/// Whether an entry holds planned or actual figures.
#[derive(Clone, Copy, Debug, PartialEq, Eq, Structural)]
pub enum EntryCategory {
    Plan,
    Result,
}

/// The kind of change that an audit record describes.
#[derive(Clone, Copy, Debug, PartialEq, Eq, Structural)]
pub enum ChangeType {
    Create,
    Update,
    Delete,
}

/// A version of the plan: a master plan, a revision, actuals.
#[derive(Debug)]
pub struct Scenario {
    pub id: u128,
    pub name: String,
    pub description: Option<String>,
    pub start_date: CalendarDate,
    pub end_date: CalendarDate,
    /// Closed for edits for good.
    pub is_locked: bool,
    /// The one scenario open for writes.
    pub is_current: bool,
    pub created_at: i64,
    pub updated_at: i64,
    pub created_by: u128,
    pub updated_by: u128,
    pub deleted_at: Option<i64>,
    pub deleted_by: Option<u128>,
}

/// Why a new scenario with these fields would be refused, if it would be.
pub open spec fn scenario_fields_error(name: Seq<char>, start: CalendarDate, end: CalendarDate) -> Option<PlanError> {
    if is_blank(name) || !start.before_or_same(end) {
        Some(PlanError::ValidationError)
    } else {
        None
    }
}

/// Succeeds exactly when a scenario with these fields would be accepted.
pub fn check_scenario_fields(name: &String, start: &CalendarDate, end: &CalendarDate) -> (r: Result<(), PlanError>)
    ensures
        scenario_fields_error(name@, *start, *end) matches Some(e) ==> r == Err::<(), PlanError>(e),
        scenario_fields_error(name@, *start, *end) is None ==> r is Ok,
{
    if blank(name) || start.is_after(end) {
        Err(PlanError::ValidationError)
    } else {
        Ok(())
    }
}

impl Scenario {
    /// A new scenario: never current, never locked, with a fresh identifier.
    pub fn new(
        name: String,
        description: Option<String>,
        start_date: CalendarDate,
        end_date: CalendarDate,
        user_id: u128,
    ) -> (r: Result<Scenario, PlanError>)
        ensures
            scenario_fields_error(name@, start_date, end_date) matches Some(e) ==> r == Err::<Scenario, PlanError>(e),
            scenario_fields_error(name@, start_date, end_date) is None ==> (r matches Ok(s) && {
                &&& s.name == name
                &&& s.description == description
                &&& s.start_date == start_date
                &&& s.end_date == end_date
                &&& !s.is_locked
                &&& !s.is_current
                &&& s.created_by == user_id
                &&& s.updated_by == user_id
                &&& s.deleted_at is None
                &&& s.deleted_by is None
            }),
    {
        check_scenario_fields(&name, &start_date, &end_date)?;
        let now = now_micros();
        Ok(Scenario {
            id: new_id(),
            name,
            description,
            start_date,
            end_date,
            is_locked: false,
            is_current: false,
            created_at: now,
            updated_at: now,
            created_by: user_id,
            updated_by: user_id,
            deleted_at: None,
            deleted_by: None,
        })
    }

    /// A field-for-field copy.
    pub fn duplicate(&self) -> (r: Scenario)
        ensures
            r == *self,
    {
        Scenario {
            id: self.id,
            name: self.name.clone(),
            description: copy_text(&self.description),
            start_date: self.start_date,
            end_date: self.end_date,
            is_locked: self.is_locked,
            is_current: self.is_current,
            created_at: self.created_at,
            updated_at: self.updated_at,
            created_by: self.created_by,
            updated_by: self.updated_by,
            deleted_at: self.deleted_at,
            deleted_by: self.deleted_by,
        }
    }
}

/// A node of a plan tree, owned by one scenario.
#[derive(Debug)]
pub struct PlanNode {
    pub id: u128,
    pub scenario_id: u128,
    /// Absent exactly for root nodes.
    pub parent_id: Option<u128>,
    /// The identity of the same conceptual node across scenario generations.
    pub lineage_id: u128,
    pub title: String,
    pub description: Option<String>,
    pub node_type: NodeType,
    pub display_order: i32,
    /// Present exactly for entity nodes.
    pub service_id: Option<u128>,
    pub created_at: i64,
    pub updated_at: i64,
    pub created_by: u128,
    pub updated_by: u128,
    /// Set when the node is soft-deleted; reads skip such nodes.
    pub deleted_at: Option<i64>,
    pub deleted_by: Option<u128>,
}

/// The shape rules that every node obeys on its own: only a root type has no
/// parent, and only an entity type has a service.
pub open spec fn node_shape_ok(parent_id: Option<u128>, node_type: NodeType, service_id: Option<u128>) -> bool {
    &&& (parent_id is None <==> root_allowed(node_type))
    &&& (entity_type(node_type) <==> service_id is Some)
}

/// Why a node with these fields would be refused on its own, if it would be;
/// the checks run in this order.
pub open spec fn node_fields_error(
    title: Seq<char>,
    parent_id: Option<u128>,
    node_type: NodeType,
    service_id: Option<u128>,
) -> Option<PlanError> {
    if is_blank(title) {
        Some(PlanError::ValidationError)
    } else if parent_id is None && !root_allowed(node_type) {
        Some(PlanError::InvalidHierarchy)
    } else if entity_type(node_type) != (service_id is Some) {
        Some(PlanError::InvalidServiceBinding)
    } else {
        None
    }
}

impl PlanNode {
    /// This node obeys the shape rules.
    pub open spec fn shape_ok(self) -> bool {
        node_shape_ok(self.parent_id, self.node_type, self.service_id)
    }

    /// A new node with a fresh identifier; the lineage is the one given, or a
    /// fresh one.
    pub fn new(
        scenario_id: u128,
        parent_id: Option<u128>,
        lineage_id: Option<u128>,
        title: String,
        description: Option<String>,
        node_type: NodeType,
        display_order: i32,
        service_id: Option<u128>,
        user_id: u128,
    ) -> (r: Result<PlanNode, PlanError>)
        ensures
            node_fields_error(title@, parent_id, node_type, service_id) matches Some(e) ==> r == Err::<PlanNode, PlanError>(e),
            node_fields_error(title@, parent_id, node_type, service_id) is None ==> (r matches Ok(n) && {
                &&& n.scenario_id == scenario_id
                &&& n.parent_id == parent_id
                &&& (lineage_id matches Some(l) ==> n.lineage_id == l)
                &&& n.title == title
                &&& n.description == description
                &&& n.node_type == node_type
                &&& n.display_order == display_order
                &&& n.service_id == service_id
                &&& n.created_by == user_id
                &&& n.updated_by == user_id
                &&& n.deleted_at is None
            }),
    {
        if blank(&title) {
            return Err(PlanError::ValidationError);
        }
        if parent_id.is_none() && !node_type.can_be_root() {
            return Err(PlanError::InvalidHierarchy);
        }
        if node_type.is_entity() {
            if service_id.is_none() {
                return Err(PlanError::InvalidServiceBinding);
            }
        } else {
            if service_id.is_some() {
                return Err(PlanError::InvalidServiceBinding);
            }
        }
        let lineage = match lineage_id {
            Some(l) => l,
            None => new_id(),
        };
        let now = now_micros();
        Ok(PlanNode {
            id: new_id(),
            scenario_id,
            parent_id,
            lineage_id: lineage,
            title,
            description,
            node_type,
            display_order,
            service_id,
            created_at: now,
            updated_at: now,
            created_by: user_id,
            updated_by: user_id,
            deleted_at: None,
            deleted_by: None,
        })
    }

    /// A field-for-field copy.
    pub fn duplicate(&self) -> (r: PlanNode)
        ensures
            r == *self,
    {
        PlanNode {
            id: self.id,
            scenario_id: self.scenario_id,
            parent_id: self.parent_id,
            lineage_id: self.lineage_id,
            title: self.title.clone(),
            description: copy_text(&self.description),
            node_type: self.node_type,
            display_order: self.display_order,
            service_id: self.service_id,
            created_at: self.created_at,
            updated_at: self.updated_at,
            created_by: self.created_by,
            updated_by: self.updated_by,
            deleted_at: self.deleted_at,
            deleted_by: self.deleted_by,
        }
    }
}

/// A figure for one cell.
#[derive(Debug)]
pub struct PlEntry {
    pub id: u128,
    pub target_month: CalendarDate,
    pub entry_category: EntryCategory,
    pub node_id: u128,
    pub account_item_id: u128,
    pub amount: Amount,
    pub description: Option<String>,
    pub created_at: i64,
    pub updated_at: i64,
    pub created_by: u128,
    pub updated_by: u128,
}

impl PlEntry {
    /// The cell this entry occupies: node, account item, month, category.
    pub open spec fn cell(self) -> (u128, u128, CalendarDate, EntryCategory) {
        (self.node_id, self.account_item_id, self.target_month, self.entry_category)
    }

    /// A new entry with a fresh identifier.
    pub fn new(
        target_month: CalendarDate,
        entry_category: EntryCategory,
        node_id: u128,
        account_item_id: u128,
        amount: Amount,
        description: Option<String>,
        user_id: u128,
    ) -> (r: PlEntry)
        ensures
            r.target_month == target_month,
            r.entry_category == entry_category,
            r.node_id == node_id,
            r.account_item_id == account_item_id,
            r.amount == amount,
            r.description == description,
            r.created_by == user_id,
            r.updated_by == user_id,
    {
        let now = now_micros();
        PlEntry {
            id: new_id(),
            target_month,
            entry_category,
            node_id,
            account_item_id,
            amount,
            description,
            created_at: now,
            updated_at: now,
            created_by: user_id,
            updated_by: user_id,
        }
    }

    /// A field-for-field copy.
    pub fn duplicate(&self) -> (r: PlEntry)
        ensures
            r == *self,
    {
        PlEntry {
            id: self.id,
            target_month: self.target_month,
            entry_category: self.entry_category,
            node_id: self.node_id,
            account_item_id: self.account_item_id,
            amount: self.amount,
            description: copy_text(&self.description),
            created_at: self.created_at,
            updated_at: self.updated_at,
            created_by: self.created_by,
            updated_by: self.updated_by,
        }
    }
}

/// An append-only audit record of one write to a cell.
#[derive(Debug)]
pub struct PlEntryHistory {
    pub id: u128,
    pub entry_id: u128,
    pub change_type: ChangeType,
    /// Absent for a creation.
    pub previous_amount: Option<Amount>,
    pub new_amount: Amount,
    pub changed_at: i64,
    pub changed_by: u128,
    /// Where the change came from.
    pub operation_source: Option<String>,
}

impl PlEntryHistory {
    /// A new audit record with a fresh identifier.
    pub fn new(
        entry_id: u128,
        change_type: ChangeType,
        previous_amount: Option<Amount>,
        new_amount: Amount,
        user_id: u128,
        operation_source: Option<String>,
    ) -> (r: PlEntryHistory)
        ensures
            r.entry_id == entry_id,
            r.change_type == change_type,
            r.previous_amount == previous_amount,
            r.new_amount == new_amount,
            r.changed_by == user_id,
            r.operation_source == operation_source,
    {
        PlEntryHistory {
            id: new_id(),
            entry_id,
            change_type,
            previous_amount,
            new_amount,
            changed_at: now_micros(),
            changed_by: user_id,
            operation_source,
        }
    }

    /// A field-for-field copy.
    pub fn duplicate(&self) -> (r: PlEntryHistory)
        ensures
            r == *self,
    {
        PlEntryHistory {
            id: self.id,
            entry_id: self.entry_id,
            change_type: self.change_type,
            previous_amount: self.previous_amount,
            new_amount: self.new_amount,
            changed_at: self.changed_at,
            changed_by: self.changed_by,
            operation_source: copy_text(&self.operation_source),
        }
    }
}

} // verus!
