use vstd::prelude::*;
use crate::error::PlanError;
use crate::model::{PlEntry, PlEntryHistory, ChangeType, EntryCategory};
use crate::node_types::entity_type;
use crate::scenarios::{ScenarioService, writability_error};
use crate::store::{PlanStore, entry_ids_unique, cells_unique, amounts_ok};
use crate::values::{Amount, CalendarDate, same_text, text_eq, copy_text};

verus! {

/// The cell that an entry occupies: node, account item, month and category.
pub type Cell = (u128, u128, CalendarDate, EntryCategory);

/// Where the entry of a cell is stored, if any entry occupies it.
pub open spec fn cell_pos(entries: Seq<PlEntry>, cell: Cell) -> Option<int> {
    if exists|i: int| 0 <= i < entries.len() && entries[i].cell() == cell {
        Some(choose|i: int| 0 <= i < entries.len() && entries[i].cell() == cell)
    } else {
        None
    }
}

/// Why writing an entry of this amount to this node would be refused, if it
/// would be; the checks run in this order.
pub open spec fn entry_write_error(store: PlanStore, node_id: u128, amount: Amount) -> Option<PlanError> {
    if !amount.wf() {
        Some(PlanError::ValidationError)
    } else {
        node_write_error(store, node_id)
    }
}

/// Why a node would refuse entries, if it would: it must exist, be an entity
/// and live in the current scenario.
pub open spec fn node_write_error(store: PlanStore, node_id: u128) -> Option<PlanError> {
    if !store.has_node(node_id) {
        Some(PlanError::NotFound)
    } else if !entity_type(store.node(node_id).node_type) {
        Some(PlanError::InvalidHierarchy)
    } else {
        writability_error(store, store.node(node_id).scenario_id)
    }
}

/// The effect of a successful write of `amount` and `description` to `cell`,
/// returning `e`:
/// - an empty cell gets a new entry and one `Create` record;
/// - a cell whose entry already has this value and description is left as it
///   is, with no record;
/// - otherwise the entry is changed in place and one `Update` record, holding
///   the previous amount, is appended.
pub open spec fn entry_saved(
    pre: PlanStore,
    post: PlanStore,
    cell: Cell,
    amount: Amount,
    description: Option<String>,
    user_id: u128,
    source: Option<String>,
    e: PlEntry,
) -> bool {
    &&& post.scenarios == pre.scenarios
    &&& post.nodes == pre.nodes
    &&& match cell_pos(pre.entries@, cell) {
        None => {
            &&& post.entries@ == pre.entries@.push(e)
            &&& e.cell() == cell
            &&& e.amount == amount
            &&& e.description == description
            &&& e.created_by == user_id
            &&& e.updated_by == user_id
            &&& post.histories@.len() == pre.histories@.len() + 1
            &&& post.histories@.drop_last() == pre.histories@
            &&& recorded(post.histories@.last(), e.id, ChangeType::Create, None, amount, user_id, source)
        },
        Some(i) => {
            let old_e = pre.entries@[i];
            if old_e.amount.same_value(amount) && same_text(old_e.description, description) {
                &&& post.entries == pre.entries
                &&& post.histories == pre.histories
                &&& e == old_e
            } else {
                &&& post.entries@ == pre.entries@.update(i, e)
                &&& e.id == old_e.id
                &&& e.cell() == cell
                &&& e.amount == amount
                &&& e.description == description
                &&& e.created_at == old_e.created_at
                &&& e.created_by == old_e.created_by
                &&& e.updated_by == user_id
                &&& post.histories@.len() == pre.histories@.len() + 1
                &&& post.histories@.drop_last() == pre.histories@
                &&& recorded(
                    post.histories@.last(),
                    old_e.id,
                    ChangeType::Update,
                    Some(old_e.amount),
                    amount,
                    user_id,
                    source,
                )
            }
        },
    }
}

/// The audit record `h` describes this change.
pub open spec fn recorded(
    h: PlEntryHistory,
    entry_id: u128,
    change_type: ChangeType,
    previous_amount: Option<Amount>,
    new_amount: Amount,
    user_id: u128,
    source: Option<String>,
) -> bool {
    &&& h.entry_id == entry_id
    &&& h.change_type == change_type
    &&& h.previous_amount == previous_amount
    &&& h.new_amount == new_amount
    &&& h.changed_by == user_id
    &&& h.operation_source == source
}

/// Why a batch of writes would be refused, if it would be: the error of the
/// first request that would be refused.
pub open spec fn bulk_error(store: PlanStore, reqs: Seq<SavePlEntryRequest>) -> Option<PlanError>
    decreases reqs.len(),
{
    if reqs.len() == 0 {
        None
    } else if entry_write_error(store, reqs[0].node_id, reqs[0].amount) is Some {
        entry_write_error(store, reqs[0].node_id, reqs[0].amount)
    } else {
        bulk_error(store, reqs.subrange(1, reqs.len() as int))
    }
}

/// The cell that a request writes to.
pub open spec fn request_cell(req: SavePlEntryRequest) -> Cell {
    (req.node_id, req.account_item_id, req.target_month, req.entry_category)
}

/// `states` runs from the first store to the last through one write per
/// request, in order.
pub open spec fn writes_chained(
    states: Seq<PlanStore>,
    reqs: Seq<SavePlEntryRequest>,
    user_id: u128,
    source: Option<String>,
) -> bool {
    &&& states.len() == reqs.len() + 1
    &&& forall|k: int| 0 <= k < reqs.len() ==> #[trigger] request_saved(states[k], states[k + 1], reqs[k], user_id, source)
}

/// `post` is `pre` after a successful write of the request.
pub open spec fn request_saved(
    pre: PlanStore,
    post: PlanStore,
    req: SavePlEntryRequest,
    user_id: u128,
    source: Option<String>,
) -> bool {
    exists|e: PlEntry| entry_saved(pre, post, request_cell(req), req.amount, req.description, user_id, source, e)
}

/// The same tables, element for element.
pub open spec fn same_tables(a: PlanStore, b: PlanStore) -> bool {
    &&& a.scenarios@ == b.scenarios@
    &&& a.nodes@ == b.nodes@
    &&& a.entries@ == b.entries@
    &&& a.histories@ == b.histories@
}

fn copy_entries(v: &Vec<PlEntry>) -> (r: Vec<PlEntry>)
    ensures
        r@ == v@,
{
    let mut out: Vec<PlEntry> = Vec::new();
    let mut i: usize = 0;
    while i < v.len()
        invariant
            i <= v@.len(),
            out@ == v@.subrange(0, i as int),
        decreases v@.len() - i,
    {
        out.push(v[i].duplicate());
        i += 1;
        assert(out@ =~= v@.subrange(0, i as int));
    }
    assert(v@.subrange(0, i as int) =~= v@);
    out
}

fn copy_histories(v: &Vec<PlEntryHistory>) -> (r: Vec<PlEntryHistory>)
    ensures
        r@ == v@,
{
    let mut out: Vec<PlEntryHistory> = Vec::new();
    let mut i: usize = 0;
    while i < v.len()
        invariant
            i <= v@.len(),
            out@ == v@.subrange(0, i as int),
        decreases v@.len() - i,
    {
        out.push(v[i].duplicate());
        i += 1;
        assert(out@ =~= v@.subrange(0, i as int));
    }
    assert(v@.subrange(0, i as int) =~= v@);
    out
}

/// The one request of a batch write.
pub struct SavePlEntryRequest {
    pub node_id: u128,
    pub account_item_id: u128,
    pub target_month: CalendarDate,
    pub entry_category: EntryCategory,
    pub amount: Amount,
    pub description: Option<String>,
}

/// The provenance tag of writes made through this service.
pub const API_SOURCE: &'static str = "Bulk/API";

/// Writes to entry cells, each with its audit record.
pub struct PlEntryService {
    /// The provenance tag written into every audit record.
    pub operation_source: String,
}

impl PlEntryService {
    pub fn new() -> (r: PlEntryService)
        ensures
            r.operation_source@ == API_SOURCE@,
    {
        PlEntryService { operation_source: API_SOURCE.to_owned() }
    }

    /// The provenance tag as audit records hold it.
    pub open spec fn source(self) -> Option<String> {
        Some(self.operation_source)
    }

    /// The node must exist, be an entity and live in the current scenario.
    fn ensure_writable(&self, store: &PlanStore, node_id: u128) -> (r: Result<(), PlanError>)
        requires
            store.wf(),
        ensures
            r is Ok <==> node_write_error(*store, node_id) is None,
            node_write_error(*store, node_id) matches Some(e) ==> r == Err::<(), PlanError>(e),
    {
        let i = match store.find_node(node_id) {
            None => return Err(PlanError::NotFound),
            Some(i) => i,
        };
        assert(store.node(node_id) == store.nodes@[i as int]);
        if !store.nodes[i].node_type.is_entity() {
            return Err(PlanError::InvalidHierarchy);
        }
        let scenarios = ScenarioService::new();
        scenarios.ensure_writable(store, store.nodes[i].scenario_id)
    }

    /// Writes `amount` and `description` to the cell (node, account item,
    /// month, category) as one unit: a new entry with a `Create` record, no
    /// change at all when the entry already holds them, or an in-place update
    /// with an `Update` record. On failure the store is left as it was.
    pub fn save_entry(
        &self,
        store: &mut PlanStore,
        node_id: u128,
        account_item_id: u128,
        target_month: CalendarDate,
        entry_category: EntryCategory,
        amount: Amount,
        description: Option<String>,
        user_id: u128,
    ) -> (r: Result<PlEntry, PlanError>)
        requires
            old(store).wf(),
        ensures
            final(store).wf(),
            entry_write_error(*old(store), node_id, amount) matches Some(e) ==> r == Err::<PlEntry, PlanError>(e),
            r is Err ==> *final(store) == *old(store),
            r is Err && entry_write_error(*old(store), node_id, amount) is None ==> {
                &&& r == Err::<PlEntry, PlanError>(PlanError::StorageError)
                &&& cell_pos(old(store).entries@, (node_id, account_item_id, target_month, entry_category)) is None
                &&& old(store).entries@.len() > 0
            },
            r matches Ok(e) ==> entry_saved(
                *old(store),
                *final(store),
                (node_id, account_item_id, target_month, entry_category),
                amount,
                description,
                user_id,
                self.source(),
                e,
            ),
    {
        if !amount.in_range() {
            return Err(PlanError::ValidationError);
        }
        self.ensure_writable(store, node_id)?;
        self.save_entry_logic(store, node_id, account_item_id, target_month, entry_category, amount, description, user_id)
    }

    /// The write itself, once the node has been found writable; identifiers
    /// and the time stamp are drawn here.
    pub fn save_entry_logic(
        &self,
        store: &mut PlanStore,
        node_id: u128,
        account_item_id: u128,
        target_month: CalendarDate,
        entry_category: EntryCategory,
        amount: Amount,
        description: Option<String>,
        user_id: u128,
    ) -> (r: Result<PlEntry, PlanError>)
        requires
            old(store).wf(),
            amount.wf(),
        ensures
            final(store).wf(),
            r is Err ==> r == Err::<PlEntry, PlanError>(PlanError::StorageError) && *final(store) == *old(store),
            r is Err ==> cell_pos(old(store).entries@, (node_id, account_item_id, target_month, entry_category)) is None,
            r is Err ==> old(store).entries@.len() > 0,
            r matches Ok(e) ==> entry_saved(
                *old(store),
                *final(store),
                (node_id, account_item_id, target_month, entry_category),
                amount,
                description,
                user_id,
                self.source(),
                e,
            ),
    {
        let entry_id = crate::runtime::new_id();
        let history_id = crate::runtime::new_id();
        let now = crate::runtime::now_micros();
        self.write_cell(
            store,
            node_id,
            account_item_id,
            target_month,
            entry_category,
            amount,
            description,
            user_id,
            entry_id,
            history_id,
            now,
        )
    }

    /// The write with given identifiers for a new entry and for the audit
    /// record, and a given time stamp. It fails only when the cell is empty
    /// and an entry already carries `entry_id`.
    pub fn write_cell(
        &self,
        store: &mut PlanStore,
        node_id: u128,
        account_item_id: u128,
        target_month: CalendarDate,
        entry_category: EntryCategory,
        amount: Amount,
        description: Option<String>,
        user_id: u128,
        entry_id: u128,
        history_id: u128,
        now: i64,
    ) -> (r: Result<PlEntry, PlanError>)
        requires
            old(store).wf(),
            amount.wf(),
        ensures
            final(store).wf(),
            r is Err <==> (cell_pos(old(store).entries@, (node_id, account_item_id, target_month, entry_category)) is None
                && exists|k: int| 0 <= k < old(store).entries@.len() && old(store).entries@[k].id == entry_id),
            r is Err ==> r == Err::<PlEntry, PlanError>(PlanError::StorageError) && *final(store) == *old(store),
            r matches Ok(e) ==> entry_saved(
                *old(store),
                *final(store),
                (node_id, account_item_id, target_month, entry_category),
                amount,
                description,
                user_id,
                self.source(),
                e,
            ),
            r matches Ok(e) ==> final(store).histories@.len() > old(store).histories@.len() ==> {
                &&& final(store).histories@.last().id == history_id
                &&& final(store).histories@.last().changed_at == now
                &&& e.updated_at == now
            },
            r matches Ok(e) ==> cell_pos(old(store).entries@, (node_id, account_item_id, target_month, entry_category)) is None
                ==> e.id == entry_id && e.created_at == now,
    {
        let ghost cell: Cell = (node_id, account_item_id, target_month, entry_category);
        let ghost pre = *store;
        match store.find_cell(node_id, account_item_id, target_month, entry_category) {
            Some(i) => {
                proof {
                    let c = choose|k: int| 0 <= k < pre.entries@.len() && pre.entries@[k].cell() == cell;
                    assert(pre.entries@[i as int].cell() == cell);
                    assert(c == i as int);
                }
                let old_amount = store.entries[i].amount;
                if store.entries[i].amount.value_eq(&amount) && text_eq(&store.entries[i].description, &description) {
                    return Ok(store.entries[i].duplicate());
                }
                let history = PlEntryHistory {
                    id: history_id,
                    entry_id: store.entries[i].id,
                    change_type: ChangeType::Update,
                    previous_amount: Some(old_amount),
                    new_amount: amount,
                    changed_at: now,
                    changed_by: user_id,
                    operation_source: Some(self.operation_source.clone()),
                };
                store.entries[i].amount = amount;
                store.entries[i].description = description;
                store.entries[i].updated_at = now;
                store.entries[i].updated_by = user_id;
                store.histories.push(history);
                proof {
                    assert(store.entries@ == pre.entries@.update(i as int, store.entries@[i as int]));
                    assert(store.histories@.drop_last() == pre.histories@);
                    assert(cells_unique(store.entries@));
                    assert(entry_ids_unique(store.entries@));
                    assert(amounts_ok(store.entries@));
                }
                Ok(store.entries[i].duplicate())
            },
            None => {
                if store.entry_id_taken(entry_id) {
                    return Err(PlanError::StorageError);
                }
                let entry = PlEntry {
                    id: entry_id,
                    target_month,
                    entry_category,
                    node_id,
                    account_item_id,
                    amount,
                    description,
                    created_at: now,
                    updated_at: now,
                    created_by: user_id,
                    updated_by: user_id,
                };
                let history = PlEntryHistory {
                    id: history_id,
                    entry_id,
                    change_type: ChangeType::Create,
                    previous_amount: None,
                    new_amount: amount,
                    changed_at: now,
                    changed_by: user_id,
                    operation_source: Some(self.operation_source.clone()),
                };
                let stored = entry.duplicate();
                store.entries.push(stored);
                store.histories.push(history);
                proof {
                    assert(store.histories@.drop_last() == pre.histories@);
                    assert(cells_unique(store.entries@));
                    assert(entry_ids_unique(store.entries@));
                    assert(amounts_ok(store.entries@));
                }
                Ok(entry)
            },
        }
    }

    /// Applies the requests in order as one unit: either every write is
    /// made, each as `save_entry` would make it, or none is.
    pub fn save_bulk(
        &self,
        store: &mut PlanStore,
        requests: Vec<SavePlEntryRequest>,
        user_id: u128,
    ) -> (r: Result<(), PlanError>)
        requires
            old(store).wf(),
        ensures
            final(store).wf(),
            bulk_error(*old(store), requests@) matches Some(e) ==> r == Err::<(), PlanError>(e),
            r is Err ==> same_tables(*final(store), *old(store)),
            r is Err && bulk_error(*old(store), requests@) is None ==> {
                &&& r == Err::<(), PlanError>(PlanError::StorageError)
                &&& exists|q: int| 0 <= q < requests@.len() && cell_pos(old(store).entries@, request_cell(requests@[q])) is None
            },
            requests@.len() == 0 ==> r is Ok && *final(store) == *old(store),
            r is Ok ==> exists|states: Seq<PlanStore>| {
                &&& writes_chained(states, requests@, user_id, self.source())
                &&& states[0] == *old(store)
                &&& states.last() == *final(store)
            },
    {
        let mut k: usize = 0;
        assert(requests@.subrange(0, requests@.len() as int) == requests@);
        while k < requests.len()
            invariant
                store.wf(),
                *store == *old(store),
                k <= requests@.len(),
                bulk_error(*store, requests@) == bulk_error(*store, requests@.subrange(k as int, requests@.len() as int)),
                forall|q: int| 0 <= q < k ==> entry_write_error(*store, (#[trigger] requests@[q]).node_id, requests@[q].amount) is None,
            decreases requests@.len() - k,
        {
            let req = &requests[k];
            proof {
                lemma_bulk_error_step(*store, requests@, k as int);
            }
            if !req.amount.in_range() {
                return Err(PlanError::ValidationError);
            }
            self.ensure_writable(store, req.node_id)?;
            k += 1;
        }
        proof {
            lemma_bulk_error_none(*store, requests@);
        }
        let saved_entries = copy_entries(&store.entries);
        let saved_histories = copy_histories(&store.histories);
        let ghost pre = *store;
        let ghost mut states: Seq<PlanStore> = seq![*store];
        let mut i: usize = 0;
        while i < requests.len()
            invariant
                store.wf(),
                i <= requests@.len(),
                forall|q: int| 0 <= q < requests@.len() ==> (#[trigger] requests@[q]).amount.wf(),
                pre.wf(),
                pre == *old(store),
                bulk_error(pre, requests@) is None,
                store.scenarios == pre.scenarios,
                store.nodes == pre.nodes,
                saved_entries@ == pre.entries@,
                saved_histories@ == pre.histories@,
                states.len() == i + 1,
                states[0] == pre,
                states.last() == *store,
                writes_chained(states, requests@.subrange(0, i as int), user_id, self.source()),
                store.entries@.len() >= pre.entries@.len(),
                forall|k: int| 0 <= k < pre.entries@.len() ==> (#[trigger] store.entries@[k]).cell() == pre.entries@[k].cell(),
            decreases requests@.len() - i,
        {
            let req = &requests[i];
            let ghost before = *store;
            let result = self.save_entry_logic(
                store,
                req.node_id,
                req.account_item_id,
                req.target_month,
                req.entry_category,
                req.amount,
                copy_text(&req.description),
                user_id,
            );
            match result {
                Ok(e) => {
                    proof {
                        let c = request_cell(requests@[i as int]);
                        match cell_pos(before.entries@, c) {
                            None => {
                                assert forall|k: int| 0 <= k < pre.entries@.len() implies (#[trigger] store.entries@[k]).cell() == pre.entries@[k].cell() by {
                                    assert(store.entries@[k] == before.entries@[k]);
                                }
                            },
                            Some(j) => {
                                assert forall|k: int| 0 <= k < pre.entries@.len() implies (#[trigger] store.entries@[k]).cell() == pre.entries@[k].cell() by {
                                    if k == j {
                                        assert(before.entries@[j].cell() == c);
                                    } else {
                                        assert(store.entries@[k] == before.entries@[k]);
                                    }
                                }
                            },
                        }
                        let old_states = states;
                        states = states.push(*store);
                        let reqs_i = requests@.subrange(0, i + 1);
                        assert forall|q: int| 0 <= q < reqs_i.len() implies #[trigger] request_saved(states[q], states[q + 1], reqs_i[q], user_id, self.source()) by {
                            if q < i {
                                assert(states[q] == old_states[q]);
                                assert(states[q + 1] == old_states[q + 1]);
                                assert(reqs_i[q] == requests@.subrange(0, i as int)[q]);
                                assert(request_saved(old_states[q], old_states[q + 1], requests@.subrange(0, i as int)[q], user_id, self.source()));
                            } else {
                                assert(states[q] == before);
                                assert(entry_saved(before, *store, request_cell(reqs_i[q]), reqs_i[q].amount, reqs_i[q].description,
                                    user_id, self.source(), e));
                            }
                        }
                    }
                },
                Err(e) => {
                    proof {
                        let c = request_cell(requests@[i as int]);
                        assert forall|k: int| 0 <= k < pre.entries@.len() implies pre.entries@[k].cell() != c by {
                            assert(before.entries@[k].cell() == pre.entries@[k].cell());
                        }
                        assert(cell_pos(pre.entries@, c) is None);
                    }
                    store.entries = saved_entries;
                    store.histories = saved_histories;
                    assert(same_tables(*store, pre));
                    assert(store.wf());
                    return Err(e);
                },
            }
            i += 1;
        }
        assert(requests@.subrange(0, i as int) == requests@);
        proof {
            if requests@.len() == 0 {
                assert(*store == pre);
            }
        }
        Ok(())
    }
}

/// A request without error, followed by the rest, has the rest's error.
proof fn lemma_bulk_error_step(store: PlanStore, reqs: Seq<SavePlEntryRequest>, k: int)
    requires
        0 <= k < reqs.len(),
    ensures
        entry_write_error(store, reqs[k].node_id, reqs[k].amount) is Some ==>
            bulk_error(store, reqs.subrange(k, reqs.len() as int)) == entry_write_error(store, reqs[k].node_id, reqs[k].amount),
        entry_write_error(store, reqs[k].node_id, reqs[k].amount) is None ==>
            bulk_error(store, reqs.subrange(k, reqs.len() as int)) == bulk_error(store, reqs.subrange(k + 1, reqs.len() as int)),
{
    let rest = reqs.subrange(k, reqs.len() as int);
    assert(rest[0] == reqs[k]);
    assert(rest.subrange(1, rest.len() as int) =~= reqs.subrange(k + 1, reqs.len() as int));
}

/// Requests that are all free of errors make a batch free of errors.
proof fn lemma_bulk_error_none(store: PlanStore, reqs: Seq<SavePlEntryRequest>)
    requires
        forall|q: int| 0 <= q < reqs.len() ==> entry_write_error(store, (#[trigger] reqs[q]).node_id, reqs[q].amount) is None,
    ensures
        bulk_error(store, reqs) is None,
    decreases reqs.len(),
{
    if reqs.len() > 0 {
        let rest = reqs.subrange(1, reqs.len() as int);
        assert forall|q: int| 0 <= q < rest.len() implies entry_write_error(store, (#[trigger] rest[q]).node_id, rest[q].amount) is None by {
            assert(rest[q] == reqs[q + 1]);
        }
        lemma_bulk_error_none(store, rest);
    }
}

} // verus!
