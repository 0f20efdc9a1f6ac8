use vstd::prelude::*;
use crate::error::PlanError;
use crate::model::{PlanNode, PlEntry, Scenario, scenario_fields_error, check_scenario_fields};
use crate::scenarios::{ScenarioService, same_but_current, set_current};
use crate::store::{PlanStore, parent_link, node_ids_unique, tree_ok, entry_ids_unique, cells_unique, amounts_ok,
    scenario_ids_unique, at_most_one_current, scenario_fields_ok};
use crate::values::{CalendarDate, copy_text};

verus! {

broadcast use vstd::seq_lib::group_seq_properties;

/// The elements of `s` at the positions `pos`, in that order.
pub open spec fn nodes_at(s: Seq<PlanNode>, pos: Seq<usize>) -> Seq<PlanNode> {
    pos.map_values(|p: usize| s[p as int])
}

/// The entries of `s` at the positions `pos`, in that order.
pub open spec fn entries_at(s: Seq<PlEntry>, pos: Seq<usize>) -> Seq<PlEntry> {
    pos.map_values(|p: usize| s[p as int])
}

/// Strictly increasing positions below `n`.
pub open spec fn positions_ok(pos: Seq<usize>, n: int) -> bool {
    &&& forall|k: int| 0 <= k < pos.len() ==> (#[trigger] pos[k]) < n
    &&& forall|k: int, l: int| 0 <= k < l < pos.len() ==> pos[k] < pos[l]
}

/// The node belongs to the scenario and is not deleted.
pub open spec fn live_in(n: PlanNode, scenario_id: u128) -> bool {
    n.scenario_id == scenario_id && n.deleted_at is None
}

/// The positions hold exactly the nodes of the scenario that are not deleted.
pub open spec fn positions_cover(nodes: Seq<PlanNode>, pos: Seq<usize>, scenario_id: u128) -> bool {
    &&& forall|k: int| 0 <= k < pos.len() ==> live_in(nodes[#[trigger] pos[k] as int], scenario_id)
    &&& forall|q: int| 0 <= q < nodes.len() && live_in(nodes[q], scenario_id) ==> exists|k: int| 0 <= k < pos.len() && pos[k] == q
}

/// Where the nodes of a scenario that are not deleted are stored, in
/// storage order.
pub(crate) fn source_positions(store: &PlanStore, scenario_id: u128) -> (r: Vec<usize>)
    ensures
        positions_ok(r@, store.nodes@.len() as int),
        positions_cover(store.nodes@, r@, scenario_id),
        nodes_at(store.nodes@, r@) == store.nodes_of(scenario_id),
{
    let ghost pred = |n: PlanNode| n.scenario_id == scenario_id && n.deleted_at is None;
    let mut pos: Vec<usize> = Vec::new();
    let mut i: usize = 0;
    while i < store.nodes.len()
        invariant
            i <= store.nodes@.len(),
            positions_ok(pos@, i as int),
            pred == (|n: PlanNode| n.scenario_id == scenario_id && n.deleted_at is None),
            forall|k: int| 0 <= k < pos@.len() ==> live_in(store.nodes@[#[trigger] pos@[k] as int], scenario_id),
            forall|q: int| 0 <= q < i && live_in(store.nodes@[q], scenario_id) ==> exists|k: int| 0 <= k < pos@.len() && pos@[k] == q,
            nodes_at(store.nodes@, pos@) == store.nodes@.subrange(0, i as int).filter(pred),
        decreases store.nodes@.len() - i,
    {
        proof {
            let s = store.nodes@;
            assert(s.subrange(0, i + 1) == s.subrange(0, i as int).push(s[i as int]));
            s.subrange(0, i as int).lemma_filter_push(s[i as int], pred);
        }
        let ghost before = nodes_at(store.nodes@, pos@);
        let ghost old_pos = pos@;
        if store.nodes[i].scenario_id == scenario_id && store.nodes[i].deleted_at.is_none() {
            pos.push(i);
            assert(pos@[pos@.len() - 1] == i);
            assert forall|q: int| 0 <= q < i + 1 && live_in(store.nodes@[q], scenario_id) implies exists|k: int|
                0 <= k < pos@.len() && pos@[k] == q by {
                if q < i {
                    let k = choose|k: int| 0 <= k < old_pos.len() && old_pos[k] == q;
                    assert(pos@[k] == q);
                } else {
                    assert(pos@[pos@.len() - 1] == q);
                }
            }
            assert(nodes_at(store.nodes@, pos@) =~= before.push(store.nodes@[i as int]));
            assert(pred(store.nodes@[i as int]));
        } else {
            assert(!pred(store.nodes@[i as int]));
        }
        assert(store.nodes@.subrange(0, i + 1).filter(pred) == if pred(store.nodes@[i as int]) {
            store.nodes@.subrange(0, i as int).filter(pred).push(store.nodes@[i as int])
        } else {
            store.nodes@.subrange(0, i as int).filter(pred)
        });
        i += 1;
    }
    assert(store.nodes@.subrange(0, i as int) == store.nodes@);
    pos
}

/// No identifier occurs twice.
pub open spec fn distinct(v: Seq<u128>) -> bool {
    forall|k: int, l: int| 0 <= k < v.len() && 0 <= l < v.len() && k != l ==> v[k] != v[l]
}

/// An identifier that no node carries and no entry refers to.
pub open spec fn fresh_node_id(store: PlanStore, id: u128) -> bool {
    &&& !store.node_id_used(id)
    &&& forall|k: int| 0 <= k < store.entries@.len() ==> (#[trigger] store.entries@[k]).node_id != id
}

/// An identifier that no entry carries.
pub open spec fn fresh_entry_id(store: PlanStore, id: u128) -> bool {
    forall|k: int| 0 <= k < store.entries@.len() ==> (#[trigger] store.entries@[k]).id != id
}

/// Whether some identifier before position `k` equals `id`.
fn occurs_before(v: &Vec<u128>, k: usize, id: u128) -> (r: bool)
    requires
        k <= v@.len(),
    ensures
        r == exists|j: int| 0 <= j < k && v@[j] == id,
{
    let mut j: usize = 0;
    while j < k
        invariant
            k <= v@.len(),
            j <= k,
            forall|l: int| 0 <= l < j ==> v@[l] != id,
        decreases k - j,
    {
        if v[j] == id {
            return true;
        }
        j += 1;
    }
    false
}

/// Whether the identifiers are distinct and each fits a new node.
fn node_ids_fresh(store: &PlanStore, ids: &Vec<u128>) -> (r: bool)
    ensures
        r == (distinct(ids@) && forall|k: int| 0 <= k < ids@.len() ==> fresh_node_id(*store, #[trigger] ids@[k])),
{
    let mut k: usize = 0;
    while k < ids.len()
        invariant
            k <= ids@.len(),
            distinct(ids@.subrange(0, k as int)),
            forall|q: int| 0 <= q < k ==> fresh_node_id(*store, #[trigger] ids@[q]),
        decreases ids@.len() - k,
    {
        let id = ids[k];
        if store.node_id_taken(id) || store.has_entries(id) {
            assert(!fresh_node_id(*store, ids@[k as int]));
            return false;
        }
        if occurs_before(ids, k, id) {
            assert(!distinct(ids@));
            return false;
        }
        k += 1;
        assert forall|a: int, b: int| 0 <= a < k && 0 <= b < k && a != b implies ids@.subrange(0, k as int)[a] != ids@.subrange(0, k as int)[b] by {
            if a < k - 1 && b < k - 1 {
                assert(ids@.subrange(0, k - 1)[a] != ids@.subrange(0, k - 1)[b]);
            }
        }
    }
    assert(ids@.subrange(0, k as int) == ids@);
    true
}

/// Whether the identifiers are distinct and each fits a new entry.
fn entry_ids_fresh(store: &PlanStore, ids: &Vec<u128>) -> (r: bool)
    ensures
        r == (distinct(ids@) && forall|k: int| 0 <= k < ids@.len() ==> fresh_entry_id(*store, #[trigger] ids@[k])),
{
    let mut k: usize = 0;
    while k < ids.len()
        invariant
            k <= ids@.len(),
            distinct(ids@.subrange(0, k as int)),
            forall|q: int| 0 <= q < k ==> fresh_entry_id(*store, #[trigger] ids@[q]),
        decreases ids@.len() - k,
    {
        let id = ids[k];
        if store.entry_id_taken(id) {
            assert(!fresh_entry_id(*store, ids@[k as int]));
            return false;
        }
        if occurs_before(ids, k, id) {
            assert(!distinct(ids@));
            return false;
        }
        k += 1;
        assert forall|a: int, b: int| 0 <= a < k && 0 <= b < k && a != b implies ids@.subrange(0, k as int)[a] != ids@.subrange(0, k as int)[b] by {
            if a < k - 1 && b < k - 1 {
                assert(ids@.subrange(0, k - 1)[a] != ids@.subrange(0, k - 1)[b]);
            }
        }
    }
    assert(ids@.subrange(0, k as int) == ids@);
    true
}

/// `n` freshly drawn identifiers.
fn draw_ids(n: usize) -> (r: Vec<u128>)
    ensures
        r@.len() == n,
{
    let mut v: Vec<u128> = Vec::new();
    while v.len() < n
        invariant
            v@.len() <= n,
        decreases n - v@.len(),
    {
        v.push(crate::runtime::new_id());
    }
    v
}

/// `c` is a copy of `src` placed in another scenario: every planning field,
/// the lineage included, is kept; the audit stamps name `user_id`.
pub open spec fn node_cloned(src: PlanNode, c: PlanNode, scenario_id: u128, user_id: u128) -> bool {
    &&& c.scenario_id == scenario_id
    &&& c.lineage_id == src.lineage_id
    &&& c.title == src.title
    &&& c.description == src.description
    &&& c.node_type == src.node_type
    &&& c.display_order == src.display_order
    &&& c.service_id == src.service_id
    &&& c.created_by == user_id
    &&& c.updated_by == user_id
    &&& c.deleted_at is None
}

/// The copies have the shape of the originals: a copy is a root exactly when
/// its original is, and a copy's parent is the copy of its original's parent.
pub open spec fn tree_copied(src: Seq<PlanNode>, clones: Seq<PlanNode>) -> bool {
    &&& clones.len() == src.len()
    &&& forall|k: int| 0 <= k < src.len() ==> ((#[trigger] src[k]).parent_id is None <==> clones[k].parent_id is None)
    &&& forall|k: int, j: int|
        0 <= k < src.len() && 0 <= j < src.len() && (#[trigger] src[k]).parent_id == Some((#[trigger] src[j]).id)
            ==> clones[k].parent_id == Some(clones[j].id)
}

/// Where, among the positions, the node with this identifier is stored.
fn locate(store: &PlanStore, pos: &Vec<usize>, id: u128) -> (r: Option<usize>)
    requires
        positions_ok(pos@, store.nodes@.len() as int),
    ensures
        r matches Some(j) ==> j < pos@.len() && store.nodes@[pos@[j as int] as int].id == id,
        r is None ==> forall|j: int| 0 <= j < pos@.len() ==> store.nodes@[#[trigger] pos@[j] as int].id != id,
{
    let mut j: usize = 0;
    while j < pos.len()
        invariant
            j <= pos@.len(),
            positions_ok(pos@, store.nodes@.len() as int),
            forall|l: int| 0 <= l < j ==> store.nodes@[#[trigger] pos@[l] as int].id != id,
        decreases pos@.len() - j,
    {
        if store.nodes[pos[j]].id == id {
            return Some(j);
        }
        j += 1;
    }
    None
}

/// Every parent of a node of the scenario is itself a node of the scenario,
/// found among the positions, and may legally parent it.
proof fn lemma_parent_in_source(store: PlanStore, pos: Seq<usize>, scenario_id: u128, k: int)
    requires
        store.wf(),
        positions_ok(pos, store.nodes@.len() as int),
        positions_cover(store.nodes@, pos, scenario_id),
        0 <= k < pos.len(),
        store.nodes@[pos[k] as int].parent_id is Some,
    ensures
        exists|j: int| 0 <= j < pos.len() && parent_link(store.nodes@, pos[k] as int, #[trigger] pos[j] as int),
{
    let q = pos[k] as int;
    assert(store.nodes@[q].parent_id is Some);
    let jj = choose|jj: int| parent_link(store.nodes@, q, jj);
    assert(parent_link(store.nodes@, q, jj));
    assert(store.nodes@[q].scenario_id == scenario_id);
    let j = choose|j: int| 0 <= j < pos.len() && pos[j] == jj;
    assert(parent_link(store.nodes@, q, pos[j] as int));
}

/// Distinct positions of a store with unique node identifiers hold distinct
/// identifiers.
proof fn lemma_source_ids_distinct(store: PlanStore, pos: Seq<usize>, a: int, b: int)
    requires
        store.wf(),
        positions_ok(pos, store.nodes@.len() as int),
        0 <= a < pos.len(),
        0 <= b < pos.len(),
        store.nodes@[pos[a] as int].id == store.nodes@[pos[b] as int].id,
    ensures
        a == b,
{
    if a < b {
        assert(pos[a] < pos[b]);
    } else if b < a {
        assert(pos[b] < pos[a]);
    }
}

/// A copy of `n` with the given identifier, scenario and parent.
fn clone_node(n: &PlanNode, id: u128, scenario_id: u128, parent_id: Option<u128>, user_id: u128, now: i64) -> (r: PlanNode)
    ensures
        node_cloned(*n, r, scenario_id, user_id),
        r.id == id,
        r.parent_id == parent_id,
{
    PlanNode {
        id,
        scenario_id,
        parent_id,
        lineage_id: n.lineage_id,
        title: n.title.clone(),
        description: copy_text(&n.description),
        node_type: n.node_type,
        display_order: n.display_order,
        service_id: n.service_id,
        created_at: now,
        updated_at: now,
        created_by: user_id,
        updated_by: user_id,
        deleted_at: None,
        deleted_by: None,
    }
}

/// The parent that the copy of the node at `pos[k]` gets: the copy of its
/// parent.
fn cloned_parent(store: &PlanStore, pos: &Vec<usize>, ids: &Vec<u128>, source_id: u128, k: usize) -> (r: Option<u128>)
    requires
        store.wf(),
        positions_ok(pos@, store.nodes@.len() as int),
        positions_cover(store.nodes@, pos@, source_id),
        ids@.len() == pos@.len(),
        k < pos@.len(),
    ensures
        store.nodes@[pos@[k as int] as int].parent_id is None ==> r is None,
        store.nodes@[pos@[k as int] as int].parent_id is Some ==> exists|j: int|
            0 <= j < pos@.len() && parent_link(store.nodes@, pos@[k as int] as int, #[trigger] pos@[j] as int)
                && r == Some(ids@[j]),
{
    match store.nodes[pos[k]].parent_id {
        None => None,
        Some(p) => {
            proof {
                lemma_parent_in_source(*store, pos@, source_id, k as int);
            }
            match locate(store, pos, p) {
                Some(j) => {
                    proof {
                        let j0 = choose|j0: int| 0 <= j0 < pos@.len() && parent_link(store.nodes@, pos@[k as int] as int, #[trigger] pos@[j0] as int);
                        lemma_source_ids_distinct(*store, pos@, j0, j as int);
                    }
                    Some(ids[j])
                },
                None => {
                    proof {
                        let j0 = choose|j0: int| 0 <= j0 < pos@.len() && parent_link(store.nodes@, pos@[k as int] as int, #[trigger] pos@[j0] as int);
                        assert(store.nodes@[pos@[j0] as int].id == p);
                    }
                    None
                },
            }
        },
    }
}

/// Copies of the nodes at `pos` into scenario `scenario_id`, the k-th with
/// identifier `ids[k]`, parent references rewritten to the copies.
fn clone_nodes(
    store: &PlanStore,
    pos: &Vec<usize>,
    ids: &Vec<u128>,
    source_id: u128,
    scenario_id: u128,
    user_id: u128,
    now: i64,
) -> (r: Vec<PlanNode>)
    requires
        store.wf(),
        positions_ok(pos@, store.nodes@.len() as int),
        positions_cover(store.nodes@, pos@, source_id),
        ids@.len() == pos@.len(),
    ensures
        r@.len() == pos@.len(),
        forall|k: int| 0 <= k < r@.len() ==> (#[trigger] r@[k]).id == ids@[k],
        forall|k: int| 0 <= k < r@.len() ==> node_cloned(store.nodes@[pos@[k] as int], #[trigger] r@[k], scenario_id, user_id),
        forall|k: int| 0 <= k < r@.len() ==> (store.nodes@[pos@[k] as int].parent_id is None ==> (#[trigger] r@[k]).parent_id is None),
        forall|k: int| 0 <= k < r@.len() && store.nodes@[pos@[k] as int].parent_id is Some ==> exists|j: int|
            0 <= j < pos@.len() && parent_link(store.nodes@, pos@[k] as int, #[trigger] pos@[j] as int)
                && (#[trigger] r@[k]).parent_id == Some(ids@[j]),
        forall|k: int| 0 <= k < r@.len() ==> (#[trigger] r@[k]).shape_ok(),
        forall|k: int| 0 <= k < r@.len() && (#[trigger] r@[k]).parent_id is Some ==> exists|j: int| parent_link(r@, k, j),
        tree_copied(nodes_at(store.nodes@, pos@), r@),
{
    let mut out: Vec<PlanNode> = Vec::new();
    let mut k: usize = 0;
    while k < pos.len()
        invariant
            store.wf(),
            positions_ok(pos@, store.nodes@.len() as int),
            positions_cover(store.nodes@, pos@, source_id),
            ids@.len() == pos@.len(),
            k <= pos@.len(),
            out@.len() == k,
            forall|l: int| 0 <= l < k ==> (#[trigger] out@[l]).id == ids@[l],
            forall|l: int| 0 <= l < k ==> node_cloned(store.nodes@[pos@[l] as int], #[trigger] out@[l], scenario_id, user_id),
            forall|l: int| 0 <= l < k ==> (store.nodes@[pos@[l] as int].parent_id is None ==> (#[trigger] out@[l]).parent_id is None),
            forall|l: int| 0 <= l < k && store.nodes@[pos@[l] as int].parent_id is Some ==> exists|j: int|
                0 <= j < pos@.len() && parent_link(store.nodes@, pos@[l] as int, #[trigger] pos@[j] as int)
                    && (#[trigger] out@[l]).parent_id == Some(ids@[j]),
        decreases pos@.len() - k,
    {
        let parent = cloned_parent(store, pos, ids, source_id, k);
        let c = clone_node(&store.nodes[pos[k]], ids[k], scenario_id, parent, user_id, now);
        out.push(c);
        k += 1;
    }
    proof {
        assert forall|k: int| 0 <= k < out@.len() implies (#[trigger] out@[k]).shape_ok() by {
            assert(store.nodes@[pos@[k] as int].shape_ok());
            if store.nodes@[pos@[k] as int].parent_id is Some {
                let j = choose|j: int| 0 <= j < pos@.len() && parent_link(store.nodes@, pos@[k] as int, #[trigger] pos@[j] as int)
                    && out@[k].parent_id == Some(ids@[j]);
            }
        }
        assert forall|k: int| 0 <= k < out@.len() && (#[trigger] out@[k]).parent_id is Some implies exists|j: int| parent_link(out@, k, j) by {
            let j = choose|j: int| 0 <= j < pos@.len() && parent_link(store.nodes@, pos@[k] as int, #[trigger] pos@[j] as int)
                && out@[k].parent_id == Some(ids@[j]);
            assert(parent_link(out@, k, j));
        }
        let src = nodes_at(store.nodes@, pos@);
        assert forall|k: int, j: int|
            0 <= k < src.len() && 0 <= j < src.len() && (#[trigger] src[k]).parent_id == Some((#[trigger] src[j]).id)
            implies out@[k].parent_id == Some(out@[j].id) by {
            let j1 = choose|j1: int| 0 <= j1 < pos@.len() && parent_link(store.nodes@, pos@[k] as int, #[trigger] pos@[j1] as int)
                && out@[k].parent_id == Some(ids@[j1]);
            lemma_source_ids_distinct(*store, pos@, j1, j);
        }
    }
    out
}

/// The identifiers of the nodes at the positions.
pub open spec fn ids_at(nodes: Seq<PlanNode>, pos: Seq<usize>) -> Seq<u128> {
    nodes_at(nodes, pos).map_values(|n: PlanNode| n.id)
}

/// The node at `pos[j]` has identifier `id`.
pub open spec fn source_index(nodes: Seq<PlanNode>, pos: Seq<usize>, id: u128, j: int) -> bool {
    0 <= j < pos.len() && nodes[pos[j] as int].id == id
}

/// Some node at the positions has identifier `id`.
pub open spec fn attached(nodes: Seq<PlanNode>, pos: Seq<usize>, id: u128) -> bool {
    exists|j: int| source_index(nodes, pos, id, j)
}

/// `copy_id` is the new identifier of the node at the positions with
/// identifier `id`.
pub open spec fn copy_attached(nodes: Seq<PlanNode>, pos: Seq<usize>, new_ids: Seq<u128>, id: u128, copy_id: u128) -> bool {
    exists|j: int| source_index(nodes, pos, id, j) && copy_id == new_ids[j]
}

/// `c` is a copy of `src`: every financial field is kept; the audit stamps
/// name `user_id`.
pub open spec fn entry_cloned(src: PlEntry, c: PlEntry, user_id: u128) -> bool {
    &&& c.target_month == src.target_month
    &&& c.entry_category == src.entry_category
    &&& c.account_item_id == src.account_item_id
    &&& c.amount == src.amount
    &&& c.description == src.description
    &&& c.created_by == user_id
    &&& c.updated_by == user_id
}

/// Where the entries attached to the nodes at `pos` are stored, in storage
/// order.
pub(crate) fn entry_positions(store: &PlanStore, pos: &Vec<usize>) -> (r: Vec<usize>)
    requires
        positions_ok(pos@, store.nodes@.len() as int),
    ensures
        positions_ok(r@, store.entries@.len() as int),
        entries_at(store.entries@, r@) == store.entries_of(ids_at(store.nodes@, pos@)),
        forall|m: int| 0 <= m < r@.len() ==> attached(store.nodes@, pos@, store.entries@[#[trigger] r@[m] as int].node_id),
{
    let ghost ids = ids_at(store.nodes@, pos@);
    let ghost pred = |e: PlEntry| ids.contains(e.node_id);
    let mut out: Vec<usize> = Vec::new();
    let mut i: usize = 0;
    while i < store.entries.len()
        invariant
            i <= store.entries@.len(),
            positions_ok(pos@, store.nodes@.len() as int),
            positions_ok(out@, i as int),
            ids == ids_at(store.nodes@, pos@),
            pred == (|e: PlEntry| ids.contains(e.node_id)),
            entries_at(store.entries@, out@) == store.entries@.subrange(0, i as int).filter(pred),
            forall|m: int| 0 <= m < out@.len() ==> attached(store.nodes@, pos@, store.entries@[#[trigger] out@[m] as int].node_id),
        decreases store.entries@.len() - i,
    {
        proof {
            let s = store.entries@;
            assert(s.subrange(0, i + 1) == s.subrange(0, i as int).push(s[i as int]));
            s.subrange(0, i as int).lemma_filter_push(s[i as int], pred);
        }
        let ghost before = entries_at(store.entries@, out@);
        let ghost old_out = out@;
        match locate(store, pos, store.entries[i].node_id) {
            Some(j) => {
                assert(ids[j as int] == store.entries@[i as int].node_id);
                assert(pred(store.entries@[i as int]));
                out.push(i);
                assert(entries_at(store.entries@, out@) =~= before.push(store.entries@[i as int]));
                assert(source_index(store.nodes@, pos@, store.entries@[i as int].node_id, j as int));
                assert forall|m: int| 0 <= m < out@.len() implies attached(store.nodes@, pos@, store.entries@[#[trigger] out@[m] as int].node_id) by {
                    if m < old_out.len() {
                        assert(out@[m] == old_out[m]);
                    } else {
                        assert(out@[m] == i);
                    }
                }
            },
            None => {
                assert forall|j: int| 0 <= j < ids.len() implies ids[j] != store.entries@[i as int].node_id by {
                    assert(ids[j] == store.nodes@[pos@[j] as int].id);
                }
                assert(!pred(store.entries@[i as int]));
            },
        }
        i += 1;
    }
    assert(store.entries@.subrange(0, i as int) == store.entries@);
    out
}

/// Copies of the entries at `epos`, the m-th with identifier `entry_ids[m]`,
/// each attached to the copy of its node (the node at `pos[j]` is copied with
/// identifier `node_ids[j]`).
fn clone_entries(
    store: &PlanStore,
    epos: &Vec<usize>,
    pos: &Vec<usize>,
    node_ids: &Vec<u128>,
    entry_ids: &Vec<u128>,
    user_id: u128,
    now: i64,
) -> (r: Vec<PlEntry>)
    requires
        store.wf(),
        positions_ok(pos@, store.nodes@.len() as int),
        positions_ok(epos@, store.entries@.len() as int),
        node_ids@.len() == pos@.len(),
        entry_ids@.len() == epos@.len(),
        forall|m: int| 0 <= m < epos@.len() ==> attached(store.nodes@, pos@, store.entries@[#[trigger] epos@[m] as int].node_id),
    ensures
        r@.len() == epos@.len(),
        forall|m: int| 0 <= m < r@.len() ==> (#[trigger] r@[m]).id == entry_ids@[m],
        forall|m: int| 0 <= m < r@.len() ==> entry_cloned(store.entries@[epos@[m] as int], #[trigger] r@[m], user_id),
        forall|m: int| 0 <= m < r@.len() ==> copy_attached(store.nodes@, pos@, node_ids@, store.entries@[epos@[m] as int].node_id, (#[trigger] r@[m]).node_id),
{
    let mut out: Vec<PlEntry> = Vec::new();
    let mut m: usize = 0;
    while m < epos.len()
        invariant
            store.wf(),
            positions_ok(pos@, store.nodes@.len() as int),
            positions_ok(epos@, store.entries@.len() as int),
            node_ids@.len() == pos@.len(),
            entry_ids@.len() == epos@.len(),
            forall|q: int| 0 <= q < epos@.len() ==> attached(store.nodes@, pos@, store.entries@[#[trigger] epos@[q] as int].node_id),
            m <= epos@.len(),
            out@.len() == m,
            forall|q: int| 0 <= q < m ==> (#[trigger] out@[q]).id == entry_ids@[q],
            forall|q: int| 0 <= q < m ==> entry_cloned(store.entries@[epos@[q] as int], #[trigger] out@[q], user_id),
            forall|q: int| 0 <= q < m ==> copy_attached(store.nodes@, pos@, node_ids@, store.entries@[epos@[q] as int].node_id, (#[trigger] out@[q]).node_id),
        decreases epos@.len() - m,
    {
        let e = &store.entries[epos[m]];
        let j = match locate(store, pos, e.node_id) {
            Some(j) => j,
            None => {
                proof {
                    assert(attached(store.nodes@, pos@, store.entries@[epos@[m as int] as int].node_id));
                    let j0 = choose|j0: int| source_index(store.nodes@, pos@, e.node_id, j0);
                    assert(store.nodes@[pos@[j0] as int].id != e.node_id);
                }
                0
            },
        };
        let c = PlEntry {
            id: entry_ids[m],
            target_month: e.target_month,
            entry_category: e.entry_category,
            node_id: node_ids[j],
            account_item_id: e.account_item_id,
            amount: e.amount,
            description: copy_text(&e.description),
            created_at: now,
            updated_at: now,
            created_by: user_id,
            updated_by: user_id,
        };
        let ghost prev = out@;
        out.push(c);
        proof {
            assert(source_index(store.nodes@, pos@, e.node_id, j as int));
            assert forall|q: int| 0 <= q < m + 1 implies copy_attached(store.nodes@, pos@, node_ids@, store.entries@[epos@[q] as int].node_id, (#[trigger] out@[q]).node_id) by {
                if q < m {
                    assert(out@[q] == prev[q]);
                }
            }
        }
        m += 1;
    }
    out
}

/// Appending well-formed, freshly numbered nodes keeps the tree sound.
proof fn lemma_nodes_appended(pre: Seq<PlanNode>, extra: Seq<PlanNode>)
    requires
        node_ids_unique(pre),
        tree_ok(pre),
        forall|k: int, i: int| 0 <= k < extra.len() && 0 <= i < pre.len() ==> (#[trigger] extra[k]).id != (#[trigger] pre[i]).id,
        node_ids_unique(extra),
        forall|k: int| 0 <= k < extra.len() ==> (#[trigger] extra[k]).shape_ok(),
        forall|k: int| 0 <= k < extra.len() && (#[trigger] extra[k]).parent_id is Some ==> exists|j: int| parent_link(extra, k, j),
    ensures
        node_ids_unique(pre + extra),
        tree_ok(pre + extra),
{
    let all = pre + extra;
    let n = pre.len();
    assert forall|a: int, b: int| 0 <= a < all.len() && 0 <= b < all.len() && a != b implies all[a].id != all[b].id by {
        if a < n && b >= n {
            assert(extra[b - n].id != pre[a].id);
        } else if a >= n && b < n {
            assert(extra[a - n].id != pre[b].id);
        }
    }
    assert forall|i: int| 0 <= i < all.len() implies (#[trigger] all[i]).shape_ok() by {
        if i >= n {
            assert(extra[i - n].shape_ok());
        }
    }
    assert forall|i: int| 0 <= i < all.len() && (#[trigger] all[i].parent_id) is Some && all[i].deleted_at is None implies exists|j: int| parent_link(all, i, j) by {
        if i < n {
            assert(pre[i].parent_id is Some && pre[i].deleted_at is None);
            let j = choose|j: int| parent_link(pre, i, j);
            assert(parent_link(all, i, j));
        } else {
            let k = i - n;
            assert(extra[k].parent_id is Some);
            let j = choose|j: int| parent_link(extra, k, j);
            assert(parent_link(all, i, j + n));
        }
    }
}

/// `b` is the new identifier paired with the old identifier `a`.
pub open spec fn maps_to(old_ids: Seq<u128>, new_ids: Seq<u128>, a: u128, b: u128) -> bool {
    exists|j: int| 0 <= j < old_ids.len() && old_ids[j] == a && new_ids[j] == b
}

/// Appending copies of stored entries, each moved to a fresh node and given
/// a fresh identifier, keeps identifiers and cells unique.
proof fn lemma_entries_appended(
    pre: Seq<PlEntry>,
    extra: Seq<PlEntry>,
    epos: Seq<usize>,
    new_node_ids: Seq<u128>,
    old_node_ids: Seq<u128>,
)
    requires
        entry_ids_unique(pre),
        cells_unique(pre),
        amounts_ok(pre),
        positions_ok(epos, pre.len() as int),
        extra.len() == epos.len(),
        forall|k: int, i: int| 0 <= k < extra.len() && 0 <= i < pre.len() ==> (#[trigger] extra[k]).id != (#[trigger] pre[i]).id,
        entry_ids_unique(extra),
        distinct(new_node_ids),
        new_node_ids.len() == old_node_ids.len(),
        forall|k: int, i: int| 0 <= k < new_node_ids.len() && 0 <= i < pre.len() ==> (#[trigger] new_node_ids[k]) != (#[trigger] pre[i]).node_id,
        forall|m: int| 0 <= m < extra.len() ==> entry_cloned(pre[epos[m] as int], #[trigger] extra[m], extra[m].created_by),
        forall|m: int| 0 <= m < extra.len() ==> maps_to(old_node_ids, new_node_ids, pre[epos[m] as int].node_id, (#[trigger] extra[m]).node_id),
    ensures
        entry_ids_unique(pre + extra),
        cells_unique(pre + extra),
        amounts_ok(pre + extra),
{
    let all = pre + extra;
    let n = pre.len();
    assert forall|a: int, b: int| 0 <= a < all.len() && 0 <= b < all.len() && a != b implies all[a].id != all[b].id by {
        if a < n && b >= n {
            assert(extra[b - n].id != pre[a].id);
        } else if a >= n && b < n {
            assert(extra[a - n].id != pre[b].id);
        }
    }
    assert forall|a: int, b: int| 0 <= a < all.len() && 0 <= b < all.len() && a != b implies all[a].cell() != all[b].cell() by {
        if a >= n {
            let ka = a - n;
            assert(maps_to(old_node_ids, new_node_ids, pre[epos[ka] as int].node_id, extra[ka].node_id));
            let ja = choose|j: int| 0 <= j < old_node_ids.len() && old_node_ids[j] == pre[epos[ka] as int].node_id
                && new_node_ids[j] == extra[ka].node_id;
            if b < n {
                assert(new_node_ids[ja] != pre[b].node_id);
            } else {
                let kb = b - n;
                assert(maps_to(old_node_ids, new_node_ids, pre[epos[kb] as int].node_id, extra[kb].node_id));
                let jb = choose|j: int| 0 <= j < old_node_ids.len() && old_node_ids[j] == pre[epos[kb] as int].node_id
                    && new_node_ids[j] == extra[kb].node_id;
                if all[a].cell() == all[b].cell() {
                    assert(ja == jb);
                    assert(pre[epos[a - n] as int].cell() == pre[epos[b - n] as int].cell());
                    if a - n < b - n {
                        assert(epos[a - n] < epos[b - n]);
                    } else {
                        assert(epos[b - n] < epos[a - n]);
                    }
                }
            }
        } else if b >= n {
            let kb = b - n;
            assert(maps_to(old_node_ids, new_node_ids, pre[epos[kb] as int].node_id, extra[kb].node_id));
            let jb = choose|j: int| 0 <= j < old_node_ids.len() && old_node_ids[j] == pre[epos[kb] as int].node_id
                && new_node_ids[j] == extra[kb].node_id;
            assert(new_node_ids[jb] != pre[a].node_id);
        }
    }
    assert forall|i: int| 0 <= i < all.len() implies (#[trigger] all[i]).amount.wf() by {
        if i >= n {
            assert(extra[i - n].amount == pre[epos[i - n] as int].amount);
        }
    }
}

/// The start of the description of a rolled-over scenario; the source
/// scenario's name follows it.
pub const ROLLOVER_PREFIX: &'static str = "Rollover from ";

/// Why a rollover would be refused, if it would be; the checks run in this
/// order.
pub open spec fn rollover_error(
    store: PlanStore,
    source_id: u128,
    name: Seq<char>,
    start: CalendarDate,
    end: CalendarDate,
) -> Option<PlanError> {
    if !store.has_scenario(source_id) {
        Some(PlanError::NotFound)
    } else {
        scenario_fields_error(name, start, end)
    }
}

/// `post` is `pre` after a rollover of scenario `source_id` into the new
/// scenario `s`:
/// - `s` is appended and is the one current scenario; the others keep all
///   their fields but `is_current`;
/// - one copy of each node of the source is appended, in order, with the
///   source node's lineage and the tree shape kept; the copies carry fresh
///   identifiers, and no earlier node belongs to `s`;
/// - one copy of each entry attached to a source node is appended, in
///   order, attached to the copy of its node, with its amount kept;
/// - the audit trail is untouched.
pub open spec fn rolled_over(pre: PlanStore, post: PlanStore, source_id: u128, user_id: u128, s: Scenario) -> bool {
    let src = pre.nodes_of(source_id);
    let n0 = pre.nodes@.len() as int;
    let clones = post.nodes@.subrange(n0, post.nodes@.len() as int);
    let src_e = pre.entries_of(pre.node_ids_of(source_id));
    let e0 = pre.entries@.len() as int;
    let clones_e = post.entries@.subrange(e0, post.entries@.len() as int);
    &&& post.scenarios@.len() == pre.scenarios@.len() + 1
    &&& forall|i: int| 0 <= i < pre.scenarios@.len() ==> same_but_current(#[trigger] pre.scenarios@[i], post.scenarios@[i])
    &&& forall|i: int| 0 <= i < pre.scenarios@.len() ==> !(#[trigger] post.scenarios@[i]).is_current
    &&& forall|i: int| 0 <= i < pre.scenarios@.len() ==> (#[trigger] pre.scenarios@[i]).id != s.id
    &&& post.scenarios@.last() == s
    &&& s.is_current
    &&& post.nodes@.len() >= n0
    &&& post.nodes@.subrange(0, n0) == pre.nodes@
    &&& forall|i: int| 0 <= i < n0 ==> (#[trigger] pre.nodes@[i]).scenario_id != s.id
    &&& clones.len() == src.len()
    &&& forall|k: int| 0 <= k < clones.len() ==> node_cloned(src[k], #[trigger] clones[k], s.id, user_id)
    &&& forall|k: int| 0 <= k < clones.len() ==> fresh_node_id(pre, (#[trigger] clones[k]).id)
    &&& tree_copied(src, clones)
    &&& post.entries@.len() >= e0
    &&& post.entries@.subrange(0, e0) == pre.entries@
    &&& clones_e.len() == src_e.len()
    &&& forall|m: int| 0 <= m < clones_e.len() ==> entry_cloned(src_e[m], #[trigger] clones_e[m], user_id)
    &&& forall|m: int, j: int| 0 <= m < clones_e.len() && 0 <= j < src.len() && (#[trigger] src_e[m]).node_id == (#[trigger] src[j]).id
        ==> clones_e[m].node_id == clones[j].id
    &&& post.histories == pre.histories
}

/// Identifiers that a rollover of `source_id` can use: a scenario identifier
/// that no scenario or node carries, one fresh node identifier per source
/// node and one fresh entry identifier per source entry, all distinct.
pub open spec fn rollover_ids_ok(
    store: PlanStore,
    source_id: u128,
    scenario_id: u128,
    node_ids: Seq<u128>,
    entry_ids: Seq<u128>,
) -> bool {
    &&& !store.has_scenario(scenario_id)
    &&& forall|k: int| 0 <= k < store.nodes@.len() ==> (#[trigger] store.nodes@[k]).scenario_id != scenario_id
    &&& node_ids.len() == store.nodes_of(source_id).len()
    &&& distinct(node_ids)
    &&& forall|k: int| 0 <= k < node_ids.len() ==> fresh_node_id(store, #[trigger] node_ids[k])
    &&& entry_ids.len() == store.entries_of(store.node_ids_of(source_id)).len()
    &&& distinct(entry_ids)
    &&& forall|k: int| 0 <= k < entry_ids.len() ==> fresh_entry_id(store, #[trigger] entry_ids[k])
}

impl ScenarioService {
    /// Copies a scenario's whole tree and its entries into a new scenario,
    /// which then becomes the current one, as one unit. Node identities are
    /// re-mapped (every identifier is drawn before any parent reference is
    /// rewritten) while lineages are kept; no audit records are written. On
    /// failure the store is left as it was.
    pub fn rollover(
        &self,
        store: &mut PlanStore,
        source_scenario_id: u128,
        new_name: String,
        new_start_date: CalendarDate,
        new_end_date: CalendarDate,
        user_id: u128,
    ) -> (r: Result<Scenario, PlanError>)
        requires
            old(store).wf(),
        ensures
            final(store).wf(),
            rollover_error(*old(store), source_scenario_id, new_name@, new_start_date, new_end_date) matches Some(e)
                ==> r == Err::<Scenario, PlanError>(e),
            r is Err ==> *final(store) == *old(store),
            r is Err && rollover_error(*old(store), source_scenario_id, new_name@, new_start_date, new_end_date) is None
                ==> r == Err::<Scenario, PlanError>(PlanError::StorageError),
            r matches Ok(s) ==> {
                &&& rolled_over(*old(store), *final(store), source_scenario_id, user_id, s)
                &&& s.name == new_name
                &&& s.start_date == new_start_date
                &&& s.end_date == new_end_date
                &&& !s.is_locked
                &&& s.created_by == user_id
                &&& s.description matches Some(d) && exists|i: int| old(store).scenario_index(source_scenario_id, i)
                    && d@ == ROLLOVER_PREFIX@ + old(store).scenarios@[i].name@
            },
    {
        let pos = source_positions(store, source_scenario_id);
        let epos = entry_positions(store, &pos);
        assert(ids_at(store.nodes@, pos@) == store.node_ids_of(source_scenario_id));
        let scenario_id = crate::runtime::new_id();
        let node_ids = draw_ids(pos.len());
        let entry_ids = draw_ids(epos.len());
        let now = crate::runtime::now_micros();
        self.rollover_with_ids(
            store,
            source_scenario_id,
            new_name,
            new_start_date,
            new_end_date,
            user_id,
            scenario_id,
            node_ids,
            entry_ids,
            now,
        )
    }

    /// The rollover with given identifiers for the new scenario, the node
    /// copies (in the order of the source nodes) and the entry copies (in the
    /// order of the source entries), and a given time stamp. Past the source
    /// and field checks, it fails exactly when the identifiers do not fit.
    #[verifier::rlimit(60)]
    pub fn rollover_with_ids(
        &self,
        store: &mut PlanStore,
        source_scenario_id: u128,
        new_name: String,
        new_start_date: CalendarDate,
        new_end_date: CalendarDate,
        user_id: u128,
        scenario_id: u128,
        node_ids: Vec<u128>,
        entry_ids: Vec<u128>,
        now: i64,
    ) -> (r: Result<Scenario, PlanError>)
        requires
            old(store).wf(),
        ensures
            final(store).wf(),
            rollover_error(*old(store), source_scenario_id, new_name@, new_start_date, new_end_date) matches Some(e)
                ==> r == Err::<Scenario, PlanError>(e),
            rollover_error(*old(store), source_scenario_id, new_name@, new_start_date, new_end_date) is None
                ==> (r is Ok <==> rollover_ids_ok(*old(store), source_scenario_id, scenario_id, node_ids@, entry_ids@)),
            r is Err ==> *final(store) == *old(store),
            r is Err && rollover_error(*old(store), source_scenario_id, new_name@, new_start_date, new_end_date) is None
                ==> r == Err::<Scenario, PlanError>(PlanError::StorageError),
            r matches Ok(s) ==> {
                &&& rolled_over(*old(store), *final(store), source_scenario_id, user_id, s)
                &&& s.id == scenario_id
                &&& s.name == new_name
                &&& s.start_date == new_start_date
                &&& s.end_date == new_end_date
                &&& !s.is_locked
                &&& s.created_by == user_id
                &&& s.created_at == now
                &&& s.description matches Some(d) && exists|i: int| old(store).scenario_index(source_scenario_id, i)
                    && d@ == ROLLOVER_PREFIX@ + old(store).scenarios@[i].name@
                &&& forall|k: int| 0 <= k < node_ids@.len() ==> (#[trigger] final(store).nodes@[old(store).nodes@.len() + k]).id == node_ids@[k]
                &&& forall|m: int| 0 <= m < entry_ids@.len() ==> (#[trigger] final(store).entries@[old(store).entries@.len() + m]).id == entry_ids@[m]
            },
    {
        let si = match store.find_scenario(source_scenario_id) {
            None => return Err(PlanError::NotFound),
            Some(i) => i,
        };
        let mut description = ROLLOVER_PREFIX.to_owned();
        description.append(store.scenarios[si].name.as_str());
        check_scenario_fields(&new_name, &new_start_date, &new_end_date)?;
        let created = Scenario {
            id: scenario_id,
            name: new_name,
            description: Some(description),
            start_date: new_start_date,
            end_date: new_end_date,
            is_locked: false,
            is_current: false,
            created_at: now,
            updated_at: now,
            created_by: user_id,
            updated_by: user_id,
            deleted_at: None,
            deleted_by: None,
        };
        let pos = source_positions(store, source_scenario_id);
        let epos = entry_positions(store, &pos);
        assert(ids_at(store.nodes@, pos@) == store.node_ids_of(source_scenario_id));
        if store.scenario_id_taken(scenario_id) || node_ids.len() != pos.len() || entry_ids.len() != epos.len()
            || !node_ids_fresh(store, &node_ids) || !entry_ids_fresh(store, &entry_ids) {
            return Err(PlanError::StorageError);
        }
        let mut clones = clone_nodes(store, &pos, &node_ids, source_scenario_id, created.id, user_id, now);
        let mut entry_clones = clone_entries(store, &epos, &pos, &node_ids, &entry_ids, user_id, now);

        let ghost pre = *store;
        let ghost src = pre.nodes_of(source_scenario_id);
        let ghost cl = clones@;
        let ghost cl_e = entry_clones@;
        proof {
            assert(src == nodes_at(pre.nodes@, pos@));
            assert forall|k: int, i: int| 0 <= k < cl.len() && 0 <= i < pre.nodes@.len()
                implies (#[trigger] cl[k]).id != (#[trigger] pre.nodes@[i]).id by {
                assert(fresh_node_id(pre, node_ids@[k]));
                assert(!pre.node_index(node_ids@[k], i));
            }
            assert(node_ids_unique(cl));
            lemma_nodes_appended(pre.nodes@, cl);
            assert forall|k: int, i: int| 0 <= k < cl_e.len() && 0 <= i < pre.entries@.len()
                implies (#[trigger] cl_e[k]).id != (#[trigger] pre.entries@[i]).id by {
                assert(fresh_entry_id(pre, entry_ids@[k]));
            }
            assert(entry_ids_unique(cl_e));
            let old_ids = ids_at(pre.nodes@, pos@);
            assert forall|k: int, i: int| 0 <= k < node_ids@.len() && 0 <= i < pre.entries@.len()
                implies (#[trigger] node_ids@[k]) != (#[trigger] pre.entries@[i]).node_id by {
                assert(fresh_node_id(pre, node_ids@[k]));
            }
            assert forall|m: int| 0 <= m < cl_e.len() implies maps_to(old_ids, node_ids@, pre.entries@[epos@[m] as int].node_id, (#[trigger] cl_e[m]).node_id) by {
                assert(copy_attached(pre.nodes@, pos@, node_ids@, pre.entries@[epos@[m] as int].node_id, cl_e[m].node_id));
                let j = choose|j: int| source_index(pre.nodes@, pos@, pre.entries@[epos@[m] as int].node_id, j)
                    && cl_e[m].node_id == node_ids@[j];
                assert(old_ids[j] == pre.nodes@[pos@[j] as int].id);
                assert(old_ids[j] == pre.entries@[epos@[m] as int].node_id);
            }
            lemma_entries_appended(pre.entries@, cl_e, epos@, node_ids@, old_ids);
        }

        let stored = created.duplicate();
        let ghost pre_sc = store.scenarios@;
        assert forall|k: int| 0 <= k < pre_sc.len() implies pre_sc[k].id != created.id by {
            assert(!store.scenario_index(created.id, k));
        }
        store.scenarios.push(stored);
        store.nodes.append(&mut clones);
        store.entries.append(&mut entry_clones);
        assert(scenario_ids_unique(store.scenarios@));
        assert(at_most_one_current(store.scenarios@));
        assert(scenario_fields_ok(store.scenarios@));
        assert(store.scenario_index(created.id, pre_sc.len() as int));
        set_current(store, created.id);
        let last = store.scenarios.len() - 1;
        let result = store.scenarios[last].duplicate();
        proof {
            let post = *store;
            let n0 = pre.nodes@.len() as int;
            let e0 = pre.entries@.len() as int;
            assert(post.nodes@ == pre.nodes@ + cl);
            assert(post.nodes@.subrange(0, n0) =~= pre.nodes@);
            assert(post.nodes@.subrange(n0, post.nodes@.len() as int) =~= cl);
            assert(post.entries@ == pre.entries@ + cl_e);
            assert(post.entries@.subrange(0, e0) =~= pre.entries@);
            assert(post.entries@.subrange(e0, post.entries@.len() as int) =~= cl_e);
            assert(ids_at(pre.nodes@, pos@) == pre.node_ids_of(source_scenario_id));
            let src_e = pre.entries_of(pre.node_ids_of(source_scenario_id));
            assert(src_e == entries_at(pre.entries@, epos@));
            assert forall|k: int| 0 <= k < cl.len() implies node_cloned(src[k], #[trigger] cl[k], created.id, user_id) by {
                assert(src[k] == pre.nodes@[pos@[k] as int]);
            }
            assert forall|k: int| 0 <= k < cl.len() implies fresh_node_id(pre, (#[trigger] cl[k]).id) by {
                assert(cl[k].id == node_ids@[k]);
            }
            assert forall|m: int| 0 <= m < cl_e.len() implies entry_cloned(src_e[m], #[trigger] cl_e[m], user_id) by {
                assert(src_e[m] == pre.entries@[epos@[m] as int]);
            }
            assert forall|m: int, j: int| 0 <= m < cl_e.len() && 0 <= j < src.len() && (#[trigger] src_e[m]).node_id == (#[trigger] src[j]).id
                implies cl_e[m].node_id == cl[j].id by {
                assert(src_e[m] == pre.entries@[epos@[m] as int]);
                assert(copy_attached(pre.nodes@, pos@, node_ids@, pre.entries@[epos@[m] as int].node_id, cl_e[m].node_id));
                let j1 = choose|j1: int| source_index(pre.nodes@, pos@, pre.entries@[epos@[m] as int].node_id, j1)
                    && cl_e[m].node_id == node_ids@[j1];
                assert(src[j] == pre.nodes@[pos@[j] as int]);
                lemma_source_ids_distinct(pre, pos@, j1, j);
            }
            assert forall|i: int| 0 <= i < n0 implies (#[trigger] pre.nodes@[i]).scenario_id != created.id by {
                if pre.nodes@[i].scenario_id == created.id {
                    assert(exists|k: int| 0 <= k < pre.nodes@.len() && pre.nodes@[k].scenario_id == created.id);
                }
            }
            assert forall|i: int| 0 <= i < pre.scenarios@.len() implies !(#[trigger] post.scenarios@[i]).is_current by {
                assert(pre_sc[i].id != created.id);
            }
        }
        Ok(result)
    }
}

} // verus!