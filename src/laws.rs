use vstd::prelude::*;
use crate::model::{PlanNode, PlEntry, ChangeType, Scenario};
use crate::node_types::{root_allowed, entity_type};
use crate::pl_entries::{Cell, cell_pos, entry_saved};
use crate::rollover::{rolled_over, node_cloned, tree_copied, fresh_node_id, entry_cloned};
use crate::store::{PlanStore, cells_unique, count_current, at_most_one_current};
use crate::values::Amount;

verus! {

proof fn lemma_filter_none<A>(s: Seq<A>, pred: spec_fn(A) -> bool)
    requires
        forall|i: int| 0 <= i < s.len() ==> !pred(#[trigger] s[i]),
    ensures
        s.filter(pred) == Seq::<A>::empty(),
    decreases s.len(),
{
    reveal(Seq::filter);
    if s.len() > 0 {
        lemma_filter_none(s.drop_last(), pred);
        assert(!pred(s[s.len() - 1]));
    }
}

proof fn lemma_filter_all<A>(s: Seq<A>, pred: spec_fn(A) -> bool)
    requires
        forall|i: int| 0 <= i < s.len() ==> pred(#[trigger] s[i]),
    ensures
        s.filter(pred) == s,
    decreases s.len(),
{
    reveal(Seq::filter);
    if s.len() > 0 {
        lemma_filter_all(s.drop_last(), pred);
        assert(pred(s[s.len() - 1]));
        assert(s.drop_last().push(s.last()) =~= s);
    }
}

/// In a sound store every node obeys the shape rules: a node has no parent
/// exactly when its type may be a root, and has a service exactly when its
/// type is an entity type. Every operation keeps the store sound, so no
/// sequence of operations breaks these rules.
pub proof fn lemma_node_shape_rules(store: PlanStore, i: int)
    requires
        store.wf(),
        0 <= i < store.nodes@.len(),
    ensures
        store.nodes@[i].parent_id is None <==> root_allowed(store.nodes@[i].node_type),
        entity_type(store.nodes@[i].node_type) <==> store.nodes@[i].service_id is Some,
{
    assert(store.nodes@[i].shape_ok());
}

/// Writing the same amount and description to an empty cell twice leaves
/// exactly one new entry and exactly one audit record, the creation: the
/// second write changes nothing and returns the same entry.
pub proof fn lemma_save_entry_idempotent(
    s0: PlanStore,
    s1: PlanStore,
    s2: PlanStore,
    cell: Cell,
    amount: Amount,
    description: Option<String>,
    user_id: u128,
    source: Option<String>,
    e1: PlEntry,
    e2: PlEntry,
)
    requires
        s0.wf(),
        cell_pos(s0.entries@, cell) is None,
        entry_saved(s0, s1, cell, amount, description, user_id, source, e1),
        entry_saved(s1, s2, cell, amount, description, user_id, source, e2),
    ensures
        s2.entries == s1.entries,
        s2.histories == s1.histories,
        e2 == e1,
        s2.entries@.len() == s0.entries@.len() + 1,
        s2.histories@.len() == s0.histories@.len() + 1,
        s2.histories@.last().change_type == ChangeType::Create,
        s2.histories@.last().entry_id == e1.id,
        forall|i: int, j: int| 0 <= i < s2.entries@.len() && 0 <= j < s2.entries@.len()
            && (#[trigger] s2.entries@[i]).cell() == cell && (#[trigger] s2.entries@[j]).cell() == cell ==> i == j,
{
    let n = s0.entries@.len() as int;
    assert(s1.entries@[n] == e1);
    assert forall|i: int| 0 <= i < s1.entries@.len() && s1.entries@[i].cell() == cell implies i == n by {
        if i < n {
            assert(s1.entries@[i] == s0.entries@[i]);
        }
    }
    assert(exists|i: int| 0 <= i < s1.entries@.len() && s1.entries@[i].cell() == cell);
    assert(cell_pos(s1.entries@, cell) == Some(n));
    assert(e1.amount.same_value(amount));
    match description {
        Some(d) => assert(d@ == d@),
        None => {},
    }
}

/// Writing a different amount to an occupied cell changes the entry in place
/// and appends exactly one `Update` record, whose previous amount is the one
/// that was stored.
pub proof fn lemma_save_entry_update_records_previous(
    s0: PlanStore,
    s1: PlanStore,
    cell: Cell,
    amount: Amount,
    description: Option<String>,
    user_id: u128,
    source: Option<String>,
    e: PlEntry,
    i: int,
)
    requires
        s0.wf(),
        0 <= i < s0.entries@.len(),
        s0.entries@[i].cell() == cell,
        !s0.entries@[i].amount.same_value(amount),
        entry_saved(s0, s1, cell, amount, description, user_id, source, e),
    ensures
        s1.entries@.len() == s0.entries@.len(),
        s1.entries@[i] == e,
        e.id == s0.entries@[i].id,
        e.amount == amount,
        s1.histories@.len() == s0.histories@.len() + 1,
        s1.histories@.drop_last() == s0.histories@,
        s1.histories@.last().change_type == ChangeType::Update,
        s1.histories@.last().entry_id == e.id,
        s1.histories@.last().previous_amount == Some(s0.entries@[i].amount),
        s1.histories@.last().new_amount == amount,
{
    assert(exists|k: int| 0 <= k < s0.entries@.len() && s0.entries@[k].cell() == cell);
    let c = choose|k: int| 0 <= k < s0.entries@.len() && s0.entries@[k].cell() == cell;
    assert(c == i);
}

/// After any write to a cell of a sound store, each cell still holds at most
/// one entry.
pub proof fn lemma_save_entry_keeps_cells_unique(
    s0: PlanStore,
    s1: PlanStore,
    cell: Cell,
    amount: Amount,
    description: Option<String>,
    user_id: u128,
    source: Option<String>,
    e: PlEntry,
)
    requires
        s0.wf(),
        entry_saved(s0, s1, cell, amount, description, user_id, source, e),
    ensures
        cells_unique(s1.entries@),
{
    let pre = s0.entries@;
    let post = s1.entries@;
    match cell_pos(pre, cell) {
        None => {
            assert forall|a: int, b: int| 0 <= a < post.len() && 0 <= b < post.len() && a != b
                implies post[a].cell() != post[b].cell() by {
                if a == pre.len() {
                    assert(pre[b].cell() != cell);
                } else if b == pre.len() {
                    assert(pre[a].cell() != cell);
                }
            }
        },
        Some(i) => {
            assert(pre[i].cell() == cell);
        },
    }
}

/// After a rollover of a scenario of a sound store, the new scenario holds
/// exactly one copy of each source node: as many nodes as the source, each
/// with its original's lineage, the parent of each copy being the copy of
/// its original's parent. The new scenario is current and the source is not.
pub proof fn lemma_rollover_fidelity(pre: PlanStore, post: PlanStore, source_id: u128, user_id: u128, s: Scenario)
    requires
        pre.wf(),
        pre.has_scenario(source_id),
        rolled_over(pre, post, source_id, user_id, s),
    ensures
        post.nodes_of(s.id).len() == pre.nodes_of(source_id).len(),
        forall|k: int| 0 <= k < post.nodes_of(s.id).len()
            ==> (#[trigger] post.nodes_of(s.id)[k]).lineage_id == pre.nodes_of(source_id)[k].lineage_id,
        tree_copied(pre.nodes_of(source_id), post.nodes_of(s.id)),
        s.is_current,
        post.scenarios@.last() == s,
        forall|i: int| 0 <= i < post.scenarios@.len() && (#[trigger] post.scenarios@[i]).id == source_id ==> !post.scenarios@[i].is_current,
{
    lemma_rollover_new_nodes(pre, post, source_id, user_id, s);
    let n = pre.scenarios@.len();
    assert forall|i: int| 0 <= i < post.scenarios@.len() && (#[trigger] post.scenarios@[i]).id == source_id
        implies !post.scenarios@[i].is_current by {
        if i == n {
            let j = choose|j: int| pre.scenario_index(source_id, j);
            assert(pre.scenarios@[j].id != s.id);
        }
    }
}

/// The nodes of the new scenario are the appended copies.
proof fn lemma_rollover_new_nodes(pre: PlanStore, post: PlanStore, source_id: u128, user_id: u128, s: Scenario)
    requires
        rolled_over(pre, post, source_id, user_id, s),
    ensures
        post.nodes_of(s.id) == post.nodes@.subrange(pre.nodes@.len() as int, post.nodes@.len() as int),
{
    let n0 = pre.nodes@.len() as int;
    let clones = post.nodes@.subrange(n0, post.nodes@.len() as int);
    let src = pre.nodes_of(source_id);
    let pred = |n: PlanNode| n.scenario_id == s.id && n.deleted_at is None;
    assert(post.nodes@ == pre.nodes@ + clones);
    Seq::filter_distributes_over_add(pre.nodes@, clones, pred);
    lemma_filter_none(pre.nodes@, pred);
    assert forall|k: int| 0 <= k < clones.len() implies pred(#[trigger] clones[k]) by {
        assert(node_cloned(src[k], clones[k], s.id, user_id));
    }
    lemma_filter_all(clones, pred);
    assert(Seq::<PlanNode>::empty() + clones == clones);
}

/// After a rollover, the new scenario's nodes carry as many entries as the
/// source scenario's nodes did, with the same amounts, and no audit record
/// was written.
pub proof fn lemma_rollover_entry_fidelity(pre: PlanStore, post: PlanStore, source_id: u128, user_id: u128, s: Scenario)
    requires
        pre.wf(),
        rolled_over(pre, post, source_id, user_id, s),
    ensures
        post.entries_of(post.node_ids_of(s.id)).len() == pre.entries_of(pre.node_ids_of(source_id)).len(),
        forall|m: int| 0 <= m < post.entries_of(post.node_ids_of(s.id)).len()
            ==> (#[trigger] post.entries_of(post.node_ids_of(s.id))[m]).amount == pre.entries_of(pre.node_ids_of(source_id))[m].amount,
        post.histories == pre.histories,
{
    lemma_rollover_new_nodes(pre, post, source_id, user_id, s);
    let n0 = pre.nodes@.len() as int;
    let clones = post.nodes@.subrange(n0, post.nodes@.len() as int);
    let src = pre.nodes_of(source_id);
    let e0 = pre.entries@.len() as int;
    let clones_e = post.entries@.subrange(e0, post.entries@.len() as int);
    let src_ids = pre.node_ids_of(source_id);
    let src_e = pre.entries_of(src_ids);
    let new_ids = post.node_ids_of(s.id);
    assert(new_ids == clones.map_values(|n: PlanNode| n.id));
    let pred = |e: PlEntry| new_ids.contains(e.node_id);
    assert(post.entries@ == pre.entries@ + clones_e);
    Seq::filter_distributes_over_add(pre.entries@, clones_e, pred);
    assert forall|i: int| 0 <= i < pre.entries@.len() implies !pred(#[trigger] pre.entries@[i]) by {
        if pred(pre.entries@[i]) {
            let k = choose|k: int| 0 <= k < new_ids.len() && new_ids[k] == pre.entries@[i].node_id;
            assert(new_ids[k] == clones[k].id);
            assert(fresh_node_id(pre, clones[k].id));
        }
    }
    lemma_filter_none(pre.entries@, pred);
    assert forall|m: int| 0 <= m < clones_e.len() implies pred(#[trigger] clones_e[m]) by {
        let spred = |e: PlEntry| src_ids.contains(e.node_id);
        pre.entries@.lemma_filter_pred(spred, m);
        let j = choose|j: int| 0 <= j < src_ids.len() && src_ids[j] == src_e[m].node_id;
        assert(src_ids[j] == src[j].id);
        assert(clones_e[m].node_id == clones[j].id);
        assert(new_ids[j] == clones[j].id);
    }
    lemma_filter_all(clones_e, pred);
    assert(Seq::<PlEntry>::empty() + clones_e == clones_e);
    assert forall|m: int| 0 <= m < clones_e.len() implies (#[trigger] clones_e[m]).amount == src_e[m].amount by {
        assert(entry_cloned(src_e[m], clones_e[m], user_id));
    }
}

proof fn lemma_none_current_counts_zero(s: Seq<Scenario>)
    requires
        forall|i: int| 0 <= i < s.len() ==> !(#[trigger] s[i]).is_current,
    ensures
        count_current(s) == 0,
    decreases s.len(),
{
    if s.len() > 0 {
        lemma_none_current_counts_zero(s.drop_last());
    }
}

proof fn lemma_count_current_at_most_one(s: Seq<Scenario>)
    requires
        at_most_one_current(s),
    ensures
        count_current(s) <= 1,
    decreases s.len(),
{
    if s.len() > 0 {
        let rest = s.drop_last();
        assert(at_most_one_current(rest)) by {
            assert forall|i: int, j: int| 0 <= i < rest.len() && 0 <= j < rest.len() && #[trigger] rest[i].is_current
                && #[trigger] rest[j].is_current implies i == j by {
                assert(s[i] == rest[i] && s[j] == rest[j]);
            }
        }
        if s.last().is_current {
            assert forall|i: int| 0 <= i < rest.len() implies !(#[trigger] rest[i]).is_current by {
                assert(s[i] == rest[i]);
                if s[i].is_current {
                    assert(s[s.len() - 1].is_current);
                }
            }
            lemma_none_current_counts_zero(rest);
        } else {
            lemma_count_current_at_most_one(rest);
        }
    }
}

/// In a sound store at most one scenario is current. Every operation keeps
/// the store sound, so this holds at all times.
pub proof fn lemma_at_most_one_current(store: PlanStore)
    requires
        store.wf(),
    ensures
        count_current(store.scenarios@) <= 1,
{
    lemma_count_current_at_most_one(store.scenarios@);
}

} // verus!


