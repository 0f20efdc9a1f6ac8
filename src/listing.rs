use vstd::prelude::*;
use vstd::multiset::Multiset;
use crate::model::{Scenario, PlanNode, PlEntry, EntryCategory};
use crate::plan_nodes::PlanNodeService;
use crate::pl_entries::PlEntryService;
use crate::rollover::{source_positions, entry_positions, nodes_at, entries_at, ids_at, positions_ok};
use crate::scenarios::ScenarioService;
use crate::store::PlanStore;

verus! {

broadcast use vstd::seq_lib::group_to_multiset_ensures;

/// `le` is a total preorder.
pub open spec fn total_preorder<T>(le: spec_fn(T, T) -> bool) -> bool {
    &&& forall|a: T, b: T| #[trigger] le(a, b) || le(b, a)
    &&& forall|a: T, b: T, c: T| #[trigger] le(a, b) && #[trigger] le(b, c) ==> le(a, c)
}

/// Every element is `le` every later one.
pub open spec fn sorted_by<T>(s: Seq<T>, le: spec_fn(T, T) -> bool) -> bool {
    forall|i: int, j: int| 0 <= i < j < s.len() ==> le(#[trigger] s[i], #[trigger] s[j])
}

/// The elements of `v`, rearranged into the order `le`.
pub fn sort_by<T, F: Fn(&T, &T) -> bool>(v: Vec<T>, le: &F, Ghost(spec_le): Ghost<spec_fn(T, T) -> bool>) -> (r: Vec<T>)
    requires
        total_preorder(spec_le),
        forall|a: &T, b: &T| le.requires((a, b)),
        forall|a: &T, b: &T, x: bool| le.ensures((a, b), x) ==> x == spec_le(*a, *b),
    ensures
        sorted_by(r@, spec_le),
        r@.to_multiset() == v@.to_multiset(),
{
    let ghost input = v@;
    let mut rest = v;
    let mut out: Vec<T> = Vec::new();
    // rest is consumed from its end; `taken` is what has moved to `out`
    while rest.len() > 0
        invariant
            total_preorder(spec_le),
            forall|a: &T, b: &T| le.requires((a, b)),
            forall|a: &T, b: &T, x: bool| le.ensures((a, b), x) ==> x == spec_le(*a, *b),
            sorted_by(out@, spec_le),
            out@.to_multiset().add(rest@.to_multiset()) == input.to_multiset(),
        decreases rest@.len(),
    {
        let ghost rest_before = rest@;
        let x = rest.pop().unwrap();
        proof {
            assert(rest_before == rest@.push(x));
        }
        let mut p: usize = 0;
        while p < out.len()
            invariant
                total_preorder(spec_le),
                forall|a: &T, b: &T| le.requires((a, b)),
                forall|a: &T, b: &T, x: bool| le.ensures((a, b), x) ==> x == spec_le(*a, *b),
                p <= out@.len(),
                forall|q: int| 0 <= q < p ==> spec_le(#[trigger] out@[q], x),
            ensures
                p <= out@.len(),
                forall|q: int| 0 <= q < p ==> spec_le(#[trigger] out@[q], x),
                p < out@.len() ==> !spec_le(out@[p as int], x),
            decreases out@.len() - p,
        {
            if !le(&out[p], &x) {
                break;
            }
            p += 1;
        }
        let ghost before = out@;
        proof {
            if p < before.len() {
                assert(!spec_le(before[p as int], x));
                assert(spec_le(x, before[p as int]));
            }
            assert forall|q: int| p <= q < before.len() implies spec_le(x, #[trigger] before[q]) && !spec_le(before[q], x) by {
                if q > p {
                    assert(spec_le(before[p as int], before[q]));
                    if spec_le(before[q], x) {
                        assert(spec_le(before[p as int], x));
                    }
                }
            }
        }
        out.insert(p, x);
        proof {
            let s = out@;
            assert(s == before.insert(p as int, x));
            before.insert_ensures(p as int, x);
            assert forall|i: int, j: int| 0 <= i < j < s.len() implies spec_le(#[trigger] s[i], #[trigger] s[j]) by {
                if j < p {
                    assert(s[i] == before[i] && s[j] == before[j]);
                } else if j == p {
                    assert(s[i] == before[i]);
                } else if i < p {
                    assert(s[i] == before[i] && s[j] == before[j - 1]);
                    assert(spec_le(before[i], x));
                    assert(spec_le(x, before[j - 1]));
                } else if i == p {
                    assert(s[j] == before[j - 1]);
                } else {
                    assert(s[i] == before[i - 1] && s[j] == before[j - 1]);
                }
            }
            vstd::seq_lib::to_multiset_insert(before, p as int, x);
            assert(out@.to_multiset() == before.to_multiset().insert(x));
            assert(rest_before.to_multiset() == rest@.to_multiset().insert(x));
            assert(out@.to_multiset().add(rest@.to_multiset()) =~= before.to_multiset().add(rest_before.to_multiset()));
        }
    }
    proof {
        assert(rest@.to_multiset() =~= Multiset::<T>::empty());
        assert(out@.to_multiset().add(Multiset::<T>::empty()) =~= out@.to_multiset());
    }
    out
}

/// Display order: by `display_order`, then by creation time.
pub open spec fn display_le(a: PlanNode, b: PlanNode) -> bool {
    a.display_order < b.display_order || (a.display_order == b.display_order && a.created_at <= b.created_at)
}

/// Most recently created first.
pub open spec fn newer_first(a: PlanNode, b: PlanNode) -> bool {
    a.created_at >= b.created_at
}

/// By month, then by account item.
pub open spec fn month_account_le(a: PlEntry, b: PlEntry) -> bool {
    if a.target_month == b.target_month {
        a.account_item_id <= b.account_item_id
    } else {
        a.target_month.before_or_same(b.target_month)
    }
}

/// By node, then by month.
pub open spec fn node_month_le(a: PlEntry, b: PlEntry) -> bool {
    if a.node_id == b.node_id {
        a.target_month.before_or_same(b.target_month)
    } else {
        a.node_id < b.node_id
    }
}

/// Latest start date first.
pub open spec fn later_start_first(a: Scenario, b: Scenario) -> bool {
    b.start_date.before_or_same(a.start_date)
}

/// The entries of one node in one category, in storage order.
pub open spec fn entries_of_node(entries: Seq<PlEntry>, node_id: u128, category: EntryCategory) -> Seq<PlEntry> {
    entries.filter(|e: PlEntry| e.node_id == node_id && e.entry_category == category)
}

/// The scenarios that are not soft-deleted, in storage order.
pub open spec fn live_scenarios(s: Seq<Scenario>) -> Seq<Scenario> {
    s.filter(|x: Scenario| x.deleted_at is None)
}

fn copy_nodes_at(store: &PlanStore, pos: &Vec<usize>) -> (r: Vec<PlanNode>)
    requires
        positions_ok(pos@, store.nodes@.len() as int),
    ensures
        r@ == nodes_at(store.nodes@, pos@),
{
    let mut out: Vec<PlanNode> = Vec::new();
    let mut k: usize = 0;
    while k < pos.len()
        invariant
            positions_ok(pos@, store.nodes@.len() as int),
            k <= pos@.len(),
            out@ == nodes_at(store.nodes@, pos@.subrange(0, k as int)),
        decreases pos@.len() - k,
    {
        out.push(store.nodes[pos[k]].duplicate());
        k += 1;
        assert(out@ =~= nodes_at(store.nodes@, pos@.subrange(0, k as int)));
    }
    assert(pos@.subrange(0, k as int) =~= pos@);
    out
}

fn copy_entries_at(store: &PlanStore, pos: &Vec<usize>) -> (r: Vec<PlEntry>)
    requires
        positions_ok(pos@, store.entries@.len() as int),
    ensures
        r@ == entries_at(store.entries@, pos@),
{
    let mut out: Vec<PlEntry> = Vec::new();
    let mut k: usize = 0;
    while k < pos.len()
        invariant
            positions_ok(pos@, store.entries@.len() as int),
            k <= pos@.len(),
            out@ == entries_at(store.entries@, pos@.subrange(0, k as int)),
        decreases pos@.len() - k,
    {
        out.push(store.entries[pos[k]].duplicate());
        k += 1;
        assert(out@ =~= entries_at(store.entries@, pos@.subrange(0, k as int)));
    }
    assert(pos@.subrange(0, k as int) =~= pos@);
    out
}

fn copy_all_nodes(store: &PlanStore) -> (r: Vec<PlanNode>)
    ensures
        r@ == store.nodes@,
{
    let mut out: Vec<PlanNode> = Vec::new();
    let mut k: usize = 0;
    while k < store.nodes.len()
        invariant
            k <= store.nodes@.len(),
            out@ == store.nodes@.subrange(0, k as int),
        decreases store.nodes@.len() - k,
    {
        out.push(store.nodes[k].duplicate());
        k += 1;
        assert(out@ =~= store.nodes@.subrange(0, k as int));
    }
    assert(store.nodes@.subrange(0, k as int) =~= store.nodes@);
    out
}

impl PlanNodeService {
    /// The nodes of a scenario, in display order.
    pub fn list_by_scenario(&self, store: &PlanStore, scenario_id: u128) -> (r: Vec<PlanNode>)
        ensures
            sorted_by(r@, |a: PlanNode, b: PlanNode| display_le(a, b)),
            r@.to_multiset() == store.nodes_of(scenario_id).to_multiset(),
    {
        let pos = source_positions(store, scenario_id);
        let nodes = copy_nodes_at(store, &pos);
        let le = |a: &PlanNode, b: &PlanNode| -> (r: bool)
            ensures
                r == display_le(*a, *b),
            { a.display_order < b.display_order || (a.display_order == b.display_order && a.created_at <= b.created_at) };
        sort_by(nodes, &le, Ghost(|a: PlanNode, b: PlanNode| display_le(a, b)))
    }

    /// The `limit` most recently created nodes, newest first (none for a
    /// limit below one).
    pub fn list_recent(&self, store: &PlanStore, limit: i64) -> (r: Vec<PlanNode>)
        ensures
            exists|s: Seq<PlanNode>| {
                &&& sorted_by(s, |a: PlanNode, b: PlanNode| newer_first(a, b))
                &&& s.to_multiset() == store.nodes@.to_multiset()
                &&& r@ == s.take(if limit <= 0 { 0 } else if limit >= s.len() { s.len() as int } else { limit as int })
            },
    {
        let all = copy_all_nodes(store);
        let le = |a: &PlanNode, b: &PlanNode| -> (r: bool)
            ensures
                r == newer_first(*a, *b),
            { a.created_at >= b.created_at };
        let mut sorted = sort_by(all, &le, Ghost(|a: PlanNode, b: PlanNode| newer_first(a, b)));
        let ghost s = sorted@;
        let n: usize = if limit <= 0 {
            0
        } else if limit as u64 >= sorted.len() as u64 {
            sorted.len()
        } else {
            limit as usize
        };
        sorted.truncate(n);
        assert(sorted@ =~= s.take(n as int));
        sorted
    }
}

impl PlEntryService {
    /// The entries of one node in one category, by month then account item.
    pub fn list_by_node(&self, store: &PlanStore, node_id: u128, category: EntryCategory) -> (r: Vec<PlEntry>)
        ensures
            sorted_by(r@, |a: PlEntry, b: PlEntry| month_account_le(a, b)),
            r@.to_multiset() == entries_of_node(store.entries@, node_id, category).to_multiset(),
    {
        let ghost pred = |e: PlEntry| e.node_id == node_id && e.entry_category == category;
        let mut out: Vec<PlEntry> = Vec::new();
        let mut i: usize = 0;
        while i < store.entries.len()
            invariant
                i <= store.entries@.len(),
                pred == (|e: PlEntry| e.node_id == node_id && e.entry_category == category),
                out@ == store.entries@.subrange(0, i as int).filter(pred),
            decreases store.entries@.len() - i,
        {
            proof {
                let s = store.entries@;
                assert(s.subrange(0, i + 1) == s.subrange(0, i as int).push(s[i as int]));
                s.subrange(0, i as int).lemma_filter_push(s[i as int], pred);
            }
            if store.entries[i].node_id == node_id && store.entries[i].entry_category == category {
                out.push(store.entries[i].duplicate());
            }
            i += 1;
        }
        assert(store.entries@.subrange(0, i as int) == store.entries@);
        let le = |a: &PlEntry, b: &PlEntry| -> (r: bool)
            ensures
                r == month_account_le(*a, *b),
            {
                if a.target_month == b.target_month {
                    a.account_item_id <= b.account_item_id
                } else {
                    !a.target_month.is_after(&b.target_month)
                }
            };
        sort_by(out, &le, Ghost(|a: PlEntry, b: PlEntry| month_account_le(a, b)))
    }

    /// The entries attached to the nodes of a scenario, by node then month.
    pub fn list_by_scenario(&self, store: &PlanStore, scenario_id: u128) -> (r: Vec<PlEntry>)
        ensures
            sorted_by(r@, |a: PlEntry, b: PlEntry| node_month_le(a, b)),
            r@.to_multiset() == store.entries_of(store.node_ids_of(scenario_id)).to_multiset(),
    {
        let pos = source_positions(store, scenario_id);
        let epos = entry_positions(store, &pos);
        assert(ids_at(store.nodes@, pos@) == store.node_ids_of(scenario_id));
        let entries = copy_entries_at(store, &epos);
        let le = |a: &PlEntry, b: &PlEntry| -> (r: bool)
            ensures
                r == node_month_le(*a, *b),
            {
                if a.node_id == b.node_id {
                    !a.target_month.is_after(&b.target_month)
                } else {
                    a.node_id < b.node_id
                }
            };
        sort_by(entries, &le, Ghost(|a: PlEntry, b: PlEntry| node_month_le(a, b)))
    }
}

impl ScenarioService {
    /// The scenarios that are not soft-deleted, latest start date first.
    pub fn list_all(&self, store: &PlanStore) -> (r: Vec<Scenario>)
        ensures
            sorted_by(r@, |a: Scenario, b: Scenario| later_start_first(a, b)),
            r@.to_multiset() == live_scenarios(store.scenarios@).to_multiset(),
    {
        let ghost pred = |x: Scenario| x.deleted_at is None;
        let mut out: Vec<Scenario> = Vec::new();
        let mut i: usize = 0;
        while i < store.scenarios.len()
            invariant
                i <= store.scenarios@.len(),
                pred == (|x: Scenario| x.deleted_at is None),
                out@ == store.scenarios@.subrange(0, i as int).filter(pred),
            decreases store.scenarios@.len() - i,
        {
            proof {
                let s = store.scenarios@;
                assert(s.subrange(0, i + 1) == s.subrange(0, i as int).push(s[i as int]));
                s.subrange(0, i as int).lemma_filter_push(s[i as int], pred);
            }
            if store.scenarios[i].deleted_at.is_none() {
                out.push(store.scenarios[i].duplicate());
            }
            i += 1;
        }
        assert(store.scenarios@.subrange(0, i as int) == store.scenarios@);
        let le = |a: &Scenario, b: &Scenario| -> (r: bool)
            ensures
                r == later_start_first(*a, *b),
            { !b.start_date.is_after(&a.start_date) };
        sort_by(out, &le, Ghost(|a: Scenario, b: Scenario| later_start_first(a, b)))
    }
}

} // verus!
