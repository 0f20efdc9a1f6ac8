use vstd::prelude::*;
use crate::model::{Scenario, PlanNode, PlEntry, PlEntryHistory, EntryCategory, scenario_fields_error};
use crate::node_types::child_allowed;
use crate::values::CalendarDate;

verus! {

/// The stored state of the ledger: scenarios, plan nodes, entries and the
/// audit trail. Every mutating operation takes it as `&mut`, and either
/// completes or leaves it as it was.
pub struct PlanStore {
    pub scenarios: Vec<Scenario>,
    pub nodes: Vec<PlanNode>,
    pub entries: Vec<PlEntry>,
    pub histories: Vec<PlEntryHistory>,
}

/// Node `j` is a legal parent of node `i`: it is not deleted, has the parent
/// identifier of `i`, lives in the same scenario and has a type that may
/// parent `i`'s.
pub open spec fn parent_link(nodes: Seq<PlanNode>, i: int, j: int) -> bool {
    &&& 0 <= j < nodes.len()
    &&& nodes[j].deleted_at is None
    &&& nodes[i].parent_id == Some(nodes[j].id)
    &&& nodes[j].scenario_id == nodes[i].scenario_id
    &&& child_allowed(nodes[i].node_type, nodes[j].node_type)
}

/// Every scenario has a name and does not end before it starts.
pub open spec fn scenario_fields_ok(s: Seq<Scenario>) -> bool {
    forall|i: int| 0 <= i < s.len() ==> scenario_fields_error((#[trigger] s[i]).name@, s[i].start_date, s[i].end_date) is None
}

/// No two scenarios share an identifier.
pub open spec fn scenario_ids_unique(s: Seq<Scenario>) -> bool {
    forall|i: int, j: int| 0 <= i < s.len() && 0 <= j < s.len() && i != j ==> s[i].id != s[j].id
}

/// At most one scenario is current.
pub open spec fn at_most_one_current(s: Seq<Scenario>) -> bool {
    forall|i: int, j: int|
        0 <= i < s.len() && 0 <= j < s.len() && #[trigger] s[i].is_current && #[trigger] s[j].is_current ==> i == j
}

/// No two nodes share an identifier.
pub open spec fn node_ids_unique(n: Seq<PlanNode>) -> bool {
    forall|i: int, j: int| 0 <= i < n.len() && 0 <= j < n.len() && i != j ==> n[i].id != n[j].id
}

/// Every node obeys the shape rules, and every parent reference of a node
/// that is not deleted names a legal parent in the same scenario.
pub open spec fn tree_ok(n: Seq<PlanNode>) -> bool {
    &&& forall|i: int| 0 <= i < n.len() ==> #[trigger] n[i].shape_ok()
    &&& forall|i: int| 0 <= i < n.len() && (#[trigger] n[i].parent_id) is Some && n[i].deleted_at is None
        ==> exists|j: int| parent_link(n, i, j)
}

/// No two entries share an identifier.
pub open spec fn entry_ids_unique(e: Seq<PlEntry>) -> bool {
    forall|i: int, j: int| 0 <= i < e.len() && 0 <= j < e.len() && i != j ==> e[i].id != e[j].id
}

/// At most one entry per cell.
pub open spec fn cells_unique(e: Seq<PlEntry>) -> bool {
    forall|i: int, j: int| 0 <= i < e.len() && 0 <= j < e.len() && i != j ==> e[i].cell() != e[j].cell()
}

/// Every stored amount is in the decimal range.
pub open spec fn amounts_ok(e: Seq<PlEntry>) -> bool {
    forall|i: int| 0 <= i < e.len() ==> (#[trigger] e[i]).amount.wf()
}

/// How many of the scenarios are current.
pub open spec fn count_current(s: Seq<Scenario>) -> nat
    decreases s.len(),
{
    if s.len() == 0 {
        0
    } else {
        count_current(s.drop_last()) + if s.last().is_current { 1nat } else { 0nat }
    }
}

impl PlanStore {
    /// The invariant that every operation keeps.
    pub open spec fn wf(self) -> bool {
        &&& scenario_ids_unique(self.scenarios@)
        &&& at_most_one_current(self.scenarios@)
        &&& scenario_fields_ok(self.scenarios@)
        &&& node_ids_unique(self.nodes@)
        &&& tree_ok(self.nodes@)
        &&& entry_ids_unique(self.entries@)
        &&& cells_unique(self.entries@)
        &&& amounts_ok(self.entries@)
    }

    /// The scenario at `i` has identifier `id`.
    pub open spec fn scenario_index(self, id: u128, i: int) -> bool {
        0 <= i < self.scenarios@.len() && self.scenarios@[i].id == id
    }

    /// Some scenario has identifier `id`.
    pub open spec fn has_scenario(self, id: u128) -> bool {
        exists|i: int| self.scenario_index(id, i)
    }

    /// The node at `i` has identifier `id` and is not deleted.
    pub open spec fn node_index(self, id: u128, i: int) -> bool {
        0 <= i < self.nodes@.len() && self.nodes@[i].id == id && self.nodes@[i].deleted_at is None
    }

    /// Some node, deleted or not, carries this lineage.
    pub open spec fn lineage_used(self, lineage_id: u128) -> bool {
        exists|i: int| 0 <= i < self.nodes@.len() && self.nodes@[i].lineage_id == lineage_id
    }

    /// Some node, deleted or not, carries this identifier.
    pub open spec fn node_id_used(self, id: u128) -> bool {
        exists|i: int| 0 <= i < self.nodes@.len() && self.nodes@[i].id == id
    }

    /// Some node that is not deleted has identifier `id`.
    pub open spec fn has_node(self, id: u128) -> bool {
        exists|i: int| self.node_index(id, i)
    }

    /// The node with this identifier (meaningful when `has_node(id)`).
    pub open spec fn node(self, id: u128) -> PlanNode {
        self.nodes@[choose|i: int| self.node_index(id, i)]
    }

    /// The nodes that belong to a scenario and are not deleted, in storage
    /// order.
    pub open spec fn nodes_of(self, scenario_id: u128) -> Seq<PlanNode> {
        self.nodes@.filter(|n: PlanNode| n.scenario_id == scenario_id && n.deleted_at is None)
    }

    /// The identifiers of a scenario's nodes, in storage order.
    pub open spec fn node_ids_of(self, scenario_id: u128) -> Seq<u128> {
        self.nodes_of(scenario_id).map_values(|n: PlanNode| n.id)
    }

    /// The entries attached to any of the given nodes, in storage order.
    pub open spec fn entries_of(self, node_ids: Seq<u128>) -> Seq<PlEntry> {
        self.entries@.filter(|e: PlEntry| node_ids.contains(e.node_id))
    }

    /// An empty store.
    pub fn new() -> (r: PlanStore)
        ensures
            r.wf(),
            r.scenarios@.len() == 0,
            r.nodes@.len() == 0,
            r.entries@.len() == 0,
            r.histories@.len() == 0,
    {
        PlanStore { scenarios: Vec::new(), nodes: Vec::new(), entries: Vec::new(), histories: Vec::new() }
    }

    /// Where the scenario with this identifier is stored.
    pub fn find_scenario(&self, id: u128) -> (r: Option<usize>)
        ensures
            r matches Some(i) ==> self.scenario_index(id, i as int),
            r is None ==> !self.has_scenario(id),
    {
        let mut i: usize = 0;
        while i < self.scenarios.len()
            invariant
                i <= self.scenarios@.len(),
                forall|k: int| 0 <= k < i ==> self.scenarios@[k].id != id,
            decreases self.scenarios@.len() - i,
        {
            if self.scenarios[i].id == id {
                return Some(i);
            }
            i += 1;
        }
        None
    }

    /// Where the node with this identifier is stored, unless it is deleted.
    pub fn find_node(&self, id: u128) -> (r: Option<usize>)
        ensures
            r matches Some(i) ==> self.node_index(id, i as int),
            r is None ==> !self.has_node(id),
    {
        let mut i: usize = 0;
        while i < self.nodes.len()
            invariant
                i <= self.nodes@.len(),
                forall|k: int| 0 <= k < i ==> !self.node_index(id, k),
            decreases self.nodes@.len() - i,
        {
            if self.nodes[i].id == id && self.nodes[i].deleted_at.is_none() {
                return Some(i);
            }
            i += 1;
        }
        None
    }

    /// Whether some node, deleted or not, carries this lineage.
    pub fn lineage_taken(&self, lineage_id: u128) -> (r: bool)
        ensures
            r == self.lineage_used(lineage_id),
    {
        let mut i: usize = 0;
        while i < self.nodes.len()
            invariant
                i <= self.nodes@.len(),
                forall|k: int| 0 <= k < i ==> self.nodes@[k].lineage_id != lineage_id,
            decreases self.nodes@.len() - i,
        {
            if self.nodes[i].lineage_id == lineage_id {
                return true;
            }
            i += 1;
        }
        false
    }

    /// Whether some node, deleted or not, carries this identifier.
    pub fn node_id_taken(&self, id: u128) -> (r: bool)
        ensures
            r == self.node_id_used(id),
    {
        let mut i: usize = 0;
        while i < self.nodes.len()
            invariant
                i <= self.nodes@.len(),
                forall|k: int| 0 <= k < i ==> self.nodes@[k].id != id,
            decreases self.nodes@.len() - i,
        {
            if self.nodes[i].id == id {
                return true;
            }
            i += 1;
        }
        false
    }

    /// Where the entry of this cell is stored.
    pub fn find_cell(
        &self,
        node_id: u128,
        account_item_id: u128,
        target_month: CalendarDate,
        entry_category: EntryCategory,
    ) -> (r: Option<usize>)
        ensures
            r matches Some(i) ==> i < self.entries@.len()
                && self.entries@[i as int].cell() == (node_id, account_item_id, target_month, entry_category),
            r is None ==> forall|k: int| 0 <= k < self.entries@.len()
                ==> #[trigger] self.entries@[k].cell() != (node_id, account_item_id, target_month, entry_category),
    {
        let mut i: usize = 0;
        while i < self.entries.len()
            invariant
                i <= self.entries@.len(),
                forall|k: int| 0 <= k < i
                    ==> #[trigger] self.entries@[k].cell() != (node_id, account_item_id, target_month, entry_category),
            decreases self.entries@.len() - i,
        {
            let e = &self.entries[i];
            if e.node_id == node_id && e.account_item_id == account_item_id && e.target_month == target_month
                && e.entry_category == entry_category {
                return Some(i);
            }
            i += 1;
        }
        None
    }

    /// Whether a scenario, or a node's owning scenario, carries this identifier.
    pub fn scenario_id_taken(&self, id: u128) -> (r: bool)
        ensures
            r == (self.has_scenario(id) || exists|k: int| 0 <= k < self.nodes@.len() && self.nodes@[k].scenario_id == id),
    {
        if self.find_scenario(id).is_some() {
            return true;
        }
        let mut i: usize = 0;
        while i < self.nodes.len()
            invariant
                i <= self.nodes@.len(),
                forall|k: int| 0 <= k < i ==> self.nodes@[k].scenario_id != id,
            decreases self.nodes@.len() - i,
        {
            if self.nodes[i].scenario_id == id {
                return true;
            }
            i += 1;
        }
        false
    }

    /// Whether an entry carries this identifier.
    pub fn entry_id_taken(&self, id: u128) -> (r: bool)
        ensures
            r == exists|k: int| 0 <= k < self.entries@.len() && self.entries@[k].id == id,
    {
        let mut i: usize = 0;
        while i < self.entries.len()
            invariant
                i <= self.entries@.len(),
                forall|k: int| 0 <= k < i ==> self.entries@[k].id != id,
            decreases self.entries@.len() - i,
        {
            if self.entries[i].id == id {
                return true;
            }
            i += 1;
        }
        false
    }

    /// Whether some node names this one as its parent.
    pub fn has_children(&self, id: u128) -> (r: bool)
        ensures
            r == exists|k: int| 0 <= k < self.nodes@.len() && self.nodes@[k].parent_id == Some(id),
    {
        let mut i: usize = 0;
        while i < self.nodes.len()
            invariant
                i <= self.nodes@.len(),
                forall|k: int| 0 <= k < i ==> self.nodes@[k].parent_id != Some(id),
            decreases self.nodes@.len() - i,
        {
            if self.nodes[i].parent_id == Some(id) {
                return true;
            }
            i += 1;
        }
        false
    }

    /// Whether some entry is attached to this node.
    pub fn has_entries(&self, id: u128) -> (r: bool)
        ensures
            r == exists|k: int| 0 <= k < self.entries@.len() && self.entries@[k].node_id == id,
    {
        let mut i: usize = 0;
        while i < self.entries.len()
            invariant
                i <= self.entries@.len(),
                forall|k: int| 0 <= k < i ==> self.entries@[k].node_id != id,
            decreases self.entries@.len() - i,
        {
            if self.entries[i].node_id == id {
                return true;
            }
            i += 1;
        }
        false
    }
}

} // verus!
