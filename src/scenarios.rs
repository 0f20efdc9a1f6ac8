use vstd::prelude::*;
use crate::error::PlanError;
use crate::model::{Scenario, scenario_fields_error};
use crate::store::{PlanStore, scenario_ids_unique, at_most_one_current, scenario_fields_ok};
use crate::values::CalendarDate;

verus! {

/// Why a write to this scenario would be refused, if it would be.
pub open spec fn writability_error(store: PlanStore, scenario_id: u128) -> Option<PlanError> {
    if !store.has_scenario(scenario_id) {
        Some(PlanError::NotFound)
    } else if !(exists|i: int| store.scenario_index(scenario_id, i) && store.scenarios@[i].is_current) {
        Some(PlanError::ReadOnlyScenario)
    } else {
        None
    }
}

/// `post` is `pre` with every field kept but `is_current`, which now holds
/// exactly for the scenario `id`.
pub open spec fn activated(pre: Seq<Scenario>, post: Seq<Scenario>, id: u128) -> bool {
    &&& post.len() == pre.len()
    &&& forall|i: int| 0 <= i < pre.len() ==> same_but_current(#[trigger] pre[i], post[i])
    &&& forall|i: int| 0 <= i < pre.len() ==> (#[trigger] post[i]).is_current == (pre[i].id == id)
}

/// `b` is `a` with, at most, another `is_current`.
pub open spec fn same_but_current(a: Scenario, b: Scenario) -> bool {
    &&& b.id == a.id
    &&& b.name == a.name
    &&& b.description == a.description
    &&& b.start_date == a.start_date
    &&& b.end_date == a.end_date
    &&& b.is_locked == a.is_locked
    &&& b.created_at == a.created_at
    &&& b.updated_at == a.updated_at
    &&& b.created_by == a.created_by
    &&& b.updated_by == a.updated_by
    &&& b.deleted_at == a.deleted_at
    &&& b.deleted_by == a.deleted_by
}

/// Scenario creation, activation, the write gate and rollover.
pub struct ScenarioService {}

impl ScenarioService {
    pub fn new() -> (r: ScenarioService) {
        ScenarioService {}
    }

    /// Succeeds exactly when the scenario exists and is current.
    pub fn ensure_writable(&self, store: &PlanStore, scenario_id: u128) -> (r: Result<(), PlanError>)
        requires
            store.wf(),
        ensures
            writability_error(*store, scenario_id) matches Some(e) ==> r == Err::<(), PlanError>(e),
            writability_error(*store, scenario_id) is None ==> r is Ok,
    {
        match store.find_scenario(scenario_id) {
            None => Err(PlanError::NotFound),
            Some(i) => {
                if store.scenarios[i].is_current {
                    Ok(())
                } else {
                    assert(forall|k: int| store.scenario_index(scenario_id, k) ==> k == i as int);
                    Err(PlanError::ReadOnlyScenario)
                }
            }
        }
    }

    /// Stores a new scenario, which is neither current nor locked.
    pub fn create(
        &self,
        store: &mut PlanStore,
        name: String,
        description: Option<String>,
        start_date: CalendarDate,
        end_date: CalendarDate,
        user_id: u128,
    ) -> (r: Result<Scenario, PlanError>)
        requires
            old(store).wf(),
        ensures
            final(store).wf(),
            scenario_fields_error(name@, start_date, end_date) matches Some(e) ==> r == Err::<Scenario, PlanError>(e),
            r is Err ==> *final(store) == *old(store),
            r is Err && scenario_fields_error(name@, start_date, end_date) is None ==> {
                &&& r == Err::<Scenario, PlanError>(PlanError::StorageError)
                &&& old(store).scenarios@.len() > 0 || old(store).nodes@.len() > 0
            },
            r matches Ok(s) ==> {
                &&& final(store).scenarios@ == old(store).scenarios@.push(s)
                &&& final(store).nodes == old(store).nodes
                &&& final(store).entries == old(store).entries
                &&& final(store).histories == old(store).histories
                &&& s.name == name
                &&& s.description == description
                &&& s.start_date == start_date
                &&& s.end_date == end_date
                &&& !s.is_current
                &&& !s.is_locked
                &&& s.created_by == user_id
                &&& s.deleted_at is None
            },
    {
        let scenario = Scenario::new(name, description, start_date, end_date, user_id)?;
        self.store_scenario(store, scenario)
    }

    /// Stores a new scenario (not current, with a name and an end that does
    /// not come before its start) under its identifier; fails exactly when a
    /// scenario, or a node's owning scenario, already carries that identifier.
    pub fn store_scenario(&self, store: &mut PlanStore, scenario: Scenario) -> (r: Result<Scenario, PlanError>)
        requires
            old(store).wf(),
            !scenario.is_current,
            scenario_fields_error(scenario.name@, scenario.start_date, scenario.end_date) is None,
        ensures
            final(store).wf(),
            r is Err <==> (old(store).has_scenario(scenario.id)
                || exists|k: int| 0 <= k < old(store).nodes@.len() && old(store).nodes@[k].scenario_id == scenario.id),
            r is Err ==> r == Err::<Scenario, PlanError>(PlanError::StorageError) && *final(store) == *old(store),
            r matches Ok(s) ==> {
                &&& s == scenario
                &&& final(store).scenarios@ == old(store).scenarios@.push(s)
                &&& final(store).nodes == old(store).nodes
                &&& final(store).entries == old(store).entries
                &&& final(store).histories == old(store).histories
            },
    {
        if store.scenario_id_taken(scenario.id) {
            return Err(PlanError::StorageError);
        }
        let stored = scenario.duplicate();
        let ghost pre = store.scenarios@;
        assert forall|k: int| 0 <= k < pre.len() implies pre[k].id != scenario.id by {
            assert(!store.scenario_index(scenario.id, k));
        }
        store.scenarios.push(stored);
        assert(scenario_ids_unique(store.scenarios@));
        assert(at_most_one_current(store.scenarios@));
        assert(scenario_fields_ok(store.scenarios@));
        Ok(scenario)
    }

    /// Makes `id` the one current scenario, demoting every other, as one step.
    pub fn activate(&self, store: &mut PlanStore, id: u128) -> (r: Result<(), PlanError>)
        requires
            old(store).wf(),
        ensures
            final(store).wf(),
            r is Err <==> !old(store).has_scenario(id),
            r is Err ==> r == Err::<(), PlanError>(PlanError::NotFound) && *final(store) == *old(store),
            r is Ok ==> {
                &&& activated(old(store).scenarios@, final(store).scenarios@, id)
                &&& final(store).nodes == old(store).nodes
                &&& final(store).entries == old(store).entries
                &&& final(store).histories == old(store).histories
            },
    {
        if store.find_scenario(id).is_none() {
            return Err(PlanError::NotFound);
        }
        set_current(store, id);
        Ok(())
    }
}

/// Sets `is_current` to whether the scenario is `id`, for every scenario.
pub(crate) fn set_current(store: &mut PlanStore, id: u128)
    requires
        old(store).wf(),
        old(store).has_scenario(id),
    ensures
        final(store).wf(),
        activated(old(store).scenarios@, final(store).scenarios@, id),
        final(store).nodes == old(store).nodes,
        final(store).entries == old(store).entries,
        final(store).histories == old(store).histories,
{
    let ghost pre = store.scenarios@;
    let mut i: usize = 0;
    while i < store.scenarios.len()
        invariant
            0 <= i <= store.scenarios@.len(),
            store.scenarios@.len() == pre.len(),
            forall|k: int| 0 <= k < pre.len() ==> same_but_current(#[trigger] pre[k], store.scenarios@[k]),
            forall|k: int| 0 <= k < i ==> (#[trigger] store.scenarios@[k]).is_current == (pre[k].id == id),
            forall|k: int| i <= k < pre.len() ==> (#[trigger] store.scenarios@[k]) == pre[k],
            store.nodes == old(store).nodes,
            store.entries == old(store).entries,
            store.histories == old(store).histories,
            pre == old(store).scenarios@,
        decreases pre.len() - i,
    {
        let is_target = store.scenarios[i].id == id;
        store.scenarios[i].is_current = is_target;
        i += 1;
    }
    assert(scenario_ids_unique(store.scenarios@));
    assert(at_most_one_current(store.scenarios@));
    assert(scenario_fields_ok(store.scenarios@));
}

} // verus!
