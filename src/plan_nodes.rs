use vstd::prelude::*;
use crate::error::PlanError;
use crate::model::{PlanNode, node_fields_error};
use crate::node_types::{NodeType, child_allowed, lemma_rules_shape};
use crate::scenarios::{ScenarioService, writability_error};
use crate::store::{PlanStore, parent_link, node_ids_unique, tree_ok};
use crate::values::blank;

verus! {

/// Why creating a node with these fields would be refused, if it would be;
/// the checks run in this order.
pub open spec fn node_create_error(
    store: PlanStore,
    scenario_id: u128,
    parent_id: Option<u128>,
    title: Seq<char>,
    node_type: NodeType,
    service_id: Option<u128>,
) -> Option<PlanError> {
    if writability_error(store, scenario_id) is Some {
        writability_error(store, scenario_id)
    } else if parent_id is Some && !store.has_node(parent_id->Some_0) {
        Some(PlanError::NotFound)
    } else if parent_id is Some && store.node(parent_id->Some_0).scenario_id != scenario_id {
        Some(PlanError::CrossScenarioParent)
    } else if parent_id is Some && !child_allowed(node_type, store.node(parent_id->Some_0).node_type) {
        Some(PlanError::InvalidHierarchy)
    } else {
        node_fields_error(title, parent_id, node_type, service_id)
    }
}

/// Why changing or deleting the node would be refused for want of a node or
/// of write access, if it would be.
pub open spec fn node_edit_error(store: PlanStore, id: u128) -> Option<PlanError> {
    if !store.has_node(id) {
        Some(PlanError::NotFound)
    } else {
        writability_error(store, store.node(id).scenario_id)
    }
}

/// A partial update: only the fields that are present change.
pub struct UpdatePlanNodeRequest {
    pub title: Option<String>,
    pub description: Option<String>,
    pub display_order: Option<i32>,
}

/// `post` is `pre` after the partial update `req` by `user_id`: identity,
/// place in the tree, type and service binding are kept.
pub open spec fn node_updated(pre: PlanNode, post: PlanNode, req: UpdatePlanNodeRequest, user_id: u128) -> bool {
    &&& post.id == pre.id
    &&& post.scenario_id == pre.scenario_id
    &&& post.parent_id == pre.parent_id
    &&& post.lineage_id == pre.lineage_id
    &&& post.node_type == pre.node_type
    &&& post.service_id == pre.service_id
    &&& post.created_at == pre.created_at
    &&& post.created_by == pre.created_by
    &&& post.deleted_at == pre.deleted_at
    &&& post.deleted_by == pre.deleted_by
    &&& post.updated_by == user_id
    &&& post.title == (match req.title { Some(t) => t, None => pre.title })
    &&& post.description == (if req.description is Some { req.description } else { pre.description })
    &&& post.display_order == (match req.display_order { Some(d) => d, None => pre.display_order })
}

/// Creation, partial update and deletion of plan nodes, gated by the
/// scenario's write access and the node-type rules.
pub struct PlanNodeService {}

impl PlanNodeService {
    pub fn new() -> (r: PlanNodeService) {
        PlanNodeService {}
    }

    /// Adds a node to a writable scenario, with a lineage that no stored node
    /// carries.
    pub fn create(
        &self,
        store: &mut PlanStore,
        scenario_id: u128,
        parent_id: Option<u128>,
        title: String,
        description: Option<String>,
        node_type: NodeType,
        display_order: i32,
        service_id: Option<u128>,
        user_id: u128,
    ) -> (r: Result<PlanNode, PlanError>)
        requires
            old(store).wf(),
        ensures
            final(store).wf(),
            node_create_error(*old(store), scenario_id, parent_id, title@, node_type, service_id) matches Some(e)
                ==> r == Err::<PlanNode, PlanError>(e),
            r is Err ==> *final(store) == *old(store),
            r is Err && node_create_error(*old(store), scenario_id, parent_id, title@, node_type, service_id) is None ==> {
                &&& r == Err::<PlanNode, PlanError>(PlanError::StorageError)
                &&& old(store).nodes@.len() > 0
            },
            r matches Ok(n) ==> {
                &&& final(store).nodes@ == old(store).nodes@.push(n)
                &&& final(store).scenarios == old(store).scenarios
                &&& final(store).entries == old(store).entries
                &&& final(store).histories == old(store).histories
                &&& !old(store).node_id_used(n.id)
                &&& !old(store).lineage_used(n.lineage_id)
                &&& n.deleted_at is None
                &&& n.scenario_id == scenario_id
                &&& n.parent_id == parent_id
                &&& n.title == title
                &&& n.description == description
                &&& n.node_type == node_type
                &&& n.display_order == display_order
                &&& n.service_id == service_id
                &&& n.created_by == user_id
            },
    {
        let id = crate::runtime::new_id();
        let lineage_id = crate::runtime::new_id();
        let now = crate::runtime::now_micros();
        self.create_with_ids(
            store,
            scenario_id,
            parent_id,
            title,
            description,
            node_type,
            display_order,
            service_id,
            user_id,
            id,
            lineage_id,
            now,
        )
    }

    /// Adds a node with the given identifier, lineage and time stamp; past
    /// the rule checks it fails exactly when a node already carries `id` or
    /// `lineage_id`.
    pub fn create_with_ids(
        &self,
        store: &mut PlanStore,
        scenario_id: u128,
        parent_id: Option<u128>,
        title: String,
        description: Option<String>,
        node_type: NodeType,
        display_order: i32,
        service_id: Option<u128>,
        user_id: u128,
        id: u128,
        lineage_id: u128,
        now: i64,
    ) -> (r: Result<PlanNode, PlanError>)
        requires
            old(store).wf(),
        ensures
            final(store).wf(),
            node_create_error(*old(store), scenario_id, parent_id, title@, node_type, service_id) matches Some(e)
                ==> r == Err::<PlanNode, PlanError>(e),
            r is Err ==> *final(store) == *old(store),
            node_create_error(*old(store), scenario_id, parent_id, title@, node_type, service_id) is None
                ==> (r is Err <==> (old(store).node_id_used(id) || old(store).lineage_used(lineage_id))),
            r is Err && node_create_error(*old(store), scenario_id, parent_id, title@, node_type, service_id) is None
                ==> r == Err::<PlanNode, PlanError>(PlanError::StorageError),
            r matches Ok(n) ==> {
                &&& final(store).nodes@ == old(store).nodes@.push(n)
                &&& final(store).scenarios == old(store).scenarios
                &&& final(store).entries == old(store).entries
                &&& final(store).histories == old(store).histories
                &&& !old(store).node_id_used(n.id)
                &&& !old(store).lineage_used(n.lineage_id)
                &&& n.deleted_at is None
                &&& n.scenario_id == scenario_id
                &&& n.parent_id == parent_id
                &&& n.title == title
                &&& n.description == description
                &&& n.node_type == node_type
                &&& n.display_order == display_order
                &&& n.service_id == service_id
                &&& n.created_by == user_id
                &&& n.id == id
                &&& n.lineage_id == lineage_id
                &&& n.created_at == now
            },
    {
        let scenarios = ScenarioService::new();
        scenarios.ensure_writable(store, scenario_id)?;
        let mut parent_pos: usize = 0;
        if let Some(pid) = parent_id {
            let j = match store.find_node(pid) {
                None => return Err(PlanError::NotFound),
                Some(j) => j,
            };
            assert(store.node(pid) == store.nodes@[j as int]);
            if store.nodes[j].scenario_id != scenario_id {
                return Err(PlanError::CrossScenarioParent);
            }
            if !node_type.can_be_child_of(&store.nodes[j].node_type) {
                return Err(PlanError::InvalidHierarchy);
            }
            parent_pos = j;
        }
        if blank(&title) {
            return Err(PlanError::ValidationError);
        }
        if parent_id.is_none() && !node_type.can_be_root() {
            return Err(PlanError::InvalidHierarchy);
        }
        if node_type.is_entity() != service_id.is_some() {
            return Err(PlanError::InvalidServiceBinding);
        }
        if store.node_id_taken(id) || store.lineage_taken(lineage_id) {
            return Err(PlanError::StorageError);
        }
        let node = PlanNode {
            id,
            scenario_id,
            parent_id,
            lineage_id,
            title,
            description,
            node_type,
            display_order,
            service_id,
            created_at: now,
            updated_at: now,
            created_by: user_id,
            updated_by: user_id,
            deleted_at: None,
            deleted_by: None,
        };
        let ghost pre = store.nodes@;
        proof {
            lemma_rules_shape(node_type, NodeType::Initiative);
            if parent_id is Some {
                lemma_rules_shape(node_type, pre[parent_pos as int].node_type);
            }
            assert forall|k: int| 0 <= k < pre.len() implies pre[k].id != node.id by {}
        }
        let stored = node.duplicate();
        store.nodes.push(stored);
        proof {
            let all = store.nodes@;
            assert(node_ids_unique(all));
            assert forall|i: int| 0 <= i < all.len() && (#[trigger] all[i].parent_id) is Some && all[i].deleted_at is None implies exists|j: int| parent_link(all, i, j) by {
                if i < pre.len() {
                    assert(pre[i].parent_id is Some && pre[i].deleted_at is None);
                    let j = choose|j: int| parent_link(pre, i, j);
                    assert(parent_link(all, i, j));
                } else {
                    assert(parent_link(all, i, parent_pos as int));
                }
            }
            assert(tree_ok(all));
        }
        Ok(node)
    }

    /// Changes the fields that `req` holds, in a writable scenario.
    pub fn update(
        &self,
        store: &mut PlanStore,
        id: u128,
        req: UpdatePlanNodeRequest,
        updated_by: u128,
    ) -> (r: Result<PlanNode, PlanError>)
        requires
            old(store).wf(),
        ensures
            final(store).wf(),
            node_edit_error(*old(store), id) matches Some(e) ==> r == Err::<PlanNode, PlanError>(e),
            node_edit_error(*old(store), id) is None ==> r is Ok,
            r is Err ==> *final(store) == *old(store),
            r matches Ok(n) ==> {
                &&& exists|i: int| old(store).node_index(id, i)
                    && final(store).nodes@ == old(store).nodes@.update(i, n)
                    && node_updated(old(store).nodes@[i], n, req, updated_by)
                &&& final(store).scenarios == old(store).scenarios
                &&& final(store).entries == old(store).entries
                &&& final(store).histories == old(store).histories
            },
    {
        let i = match store.find_node(id) {
            None => return Err(PlanError::NotFound),
            Some(i) => i,
        };
        assert(store.node(id) == store.nodes@[i as int]);
        let scenarios = ScenarioService::new();
        scenarios.ensure_writable(store, store.nodes[i].scenario_id)?;
        let ghost pre = store.nodes@;
        let now = crate::runtime::now_micros();
        let UpdatePlanNodeRequest { title, description, display_order } = req;
        if let Some(t) = title {
            store.nodes[i].title = t;
        }
        if description.is_some() {
            store.nodes[i].description = description;
        }
        if let Some(d) = display_order {
            store.nodes[i].display_order = d;
        }
        store.nodes[i].updated_at = now;
        store.nodes[i].updated_by = updated_by;
        proof {
            let all = store.nodes@;
            assert(all == pre.update(i as int, all[i as int]));
            assert(node_ids_unique(all));
            assert forall|k: int| 0 <= k < all.len() && (#[trigger] all[k].parent_id) is Some && all[k].deleted_at is None implies exists|j: int| parent_link(all, k, j) by {
                assert(pre[k].parent_id is Some && pre[k].deleted_at is None);
                let j = choose|j: int| parent_link(pre, k, j);
                assert(parent_link(all, k, j));
            }
            assert forall|k: int| 0 <= k < all.len() implies (#[trigger] all[k]).shape_ok() by {
                assert(pre[k].shape_ok());
            }
            assert(tree_ok(all));
        }
        Ok(store.nodes[i].duplicate())
    }

    /// Removes a node that has no children and no entries, in a writable
    /// scenario.
    pub fn delete(&self, store: &mut PlanStore, id: u128) -> (r: Result<(), PlanError>)
        requires
            old(store).wf(),
        ensures
            final(store).wf(),
            node_edit_error(*old(store), id) matches Some(e) ==> r == Err::<(), PlanError>(e),
            node_edit_error(*old(store), id) is None ==> (r is Ok <==> (
                !(exists|k: int| 0 <= k < old(store).nodes@.len() && old(store).nodes@[k].parent_id == Some(id))
                && !(exists|k: int| 0 <= k < old(store).entries@.len() && old(store).entries@[k].node_id == id))),
            r is Err ==> *final(store) == *old(store),
            r is Err && node_edit_error(*old(store), id) is None ==> r == Err::<(), PlanError>(PlanError::NonEmptyNode),
            r is Ok ==> {
                &&& exists|i: int| old(store).node_index(id, i) && final(store).nodes@ == old(store).nodes@.remove(i)
                &&& final(store).scenarios == old(store).scenarios
                &&& final(store).entries == old(store).entries
                &&& final(store).histories == old(store).histories
            },
    {
        let i = match store.find_node(id) {
            None => return Err(PlanError::NotFound),
            Some(i) => i,
        };
        assert(store.node(id) == store.nodes@[i as int]);
        let scenarios = ScenarioService::new();
        scenarios.ensure_writable(store, store.nodes[i].scenario_id)?;
        if store.has_children(id) || store.has_entries(id) {
            return Err(PlanError::NonEmptyNode);
        }
        let ghost pre = store.nodes@;
        let _removed = store.nodes.remove(i);
        proof {
            let all = store.nodes@;
            assert(all == pre.remove(i as int));
            assert forall|a: int, b: int| 0 <= a < all.len() && 0 <= b < all.len() && a != b implies all[a].id != all[b].id by {
                let pa = if a < i { a } else { a + 1 };
                let pb = if b < i { b } else { b + 1 };
                assert(all[a] == pre[pa] && all[b] == pre[pb]);
            }
            assert forall|k: int| 0 <= k < all.len() implies (#[trigger] all[k]).shape_ok() by {
                let pk = if k < i { k } else { k + 1 };
                assert(all[k] == pre[pk]);
                assert(pre[pk].shape_ok());
            }
            assert forall|k: int| 0 <= k < all.len() && (#[trigger] all[k].parent_id) is Some && all[k].deleted_at is None implies exists|j: int| parent_link(all, k, j) by {
                let pk = if k < i { k } else { k + 1 };
                assert(all[k] == pre[pk]);
                assert(pre[pk].parent_id is Some && pre[pk].deleted_at is None);
                let pj = choose|j: int| parent_link(pre, pk, j);
                assert(pre[pk].parent_id == Some(pre[pj].id));
                assert(pj != i);
                let j = if pj < i { pj } else { pj - 1 };
                assert(all[j] == pre[pj]);
                assert(parent_link(all, k, j));
            }
            assert(tree_ok(all));
        }
        Ok(())
    }
}

} // verus!
