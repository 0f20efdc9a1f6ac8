use ghost_api::error::PlanError;
use ghost_api::model::{EntryCategory, ChangeType};
use ghost_api::node_types::NodeType;
use ghost_api::pl_entries::PlEntryService;
use ghost_api::plan_nodes::PlanNodeService;
use ghost_api::scenarios::ScenarioService;
use ghost_api::store::PlanStore;
use ghost_api::values::{Amount, CalendarDate};

const ACTOR: u128 = 11;
const RENT: u128 = 3001;

fn date(y: i32, m: u32, d: u32) -> CalendarDate {
    CalendarDate::from_ymd(y, m, d).unwrap()
}

#[test]
fn example_plan_through_rollover() {
    let mut store = PlanStore::new();
    let scenarios = ScenarioService::new();
    let nodes = PlanNodeService::new();
    let entries = PlEntryService::new();

    let a = scenarios.create(&mut store, "A".to_string(), None, date(2025, 1, 1), date(2025, 12, 31), ACTOR).unwrap();
    assert!(!a.is_current);
    scenarios.activate(&mut store, a.id).unwrap();
    assert!(store.scenarios[0].is_current);

    let i = nodes.create(&mut store, a.id, None, "I".to_string(), None, NodeType::Initiative, 0, None, ACTOR).unwrap();
    let p = nodes.create(&mut store, a.id, Some(i.id), "P".to_string(), None, NodeType::Project, 0, None, ACTOR).unwrap();
    let j = nodes
        .create(&mut store, a.id, Some(p.id), "J".to_string(), None, NodeType::Job, 0, Some(55), ACTOR)
        .unwrap();

    let month = date(2025, 1, 1);
    let e = entries
        .save_entry(&mut store, j.id, RENT, month, EntryCategory::Plan, Amount::new(100000, 2).unwrap(), None, ACTOR)
        .unwrap();
    assert_eq!(e.amount, Amount::new(100000, 2).unwrap());
    assert_eq!(store.histories.len(), 1);
    assert_eq!(store.histories[0].change_type, ChangeType::Create);

    let e = entries
        .save_entry(&mut store, j.id, RENT, month, EntryCategory::Plan, Amount::new(120000, 2).unwrap(), None, ACTOR)
        .unwrap();
    assert_eq!(e.amount, Amount::new(120000, 2).unwrap());
    assert_eq!(store.histories.len(), 2);
    assert_eq!(store.histories[1].change_type, ChangeType::Update);

    let a2 = scenarios.rollover(&mut store, a.id, "A-v2".to_string(), date(2025, 4, 1), date(2026, 3, 31), ACTOR).unwrap();
    assert!(a2.is_current);
    assert_eq!(a2.name, "A-v2");
    assert_eq!(a2.description, Some("Rollover from A".to_string()));
    assert!(!store.scenarios[0].is_current);
    assert!(store.scenarios[1].is_current);
    assert_eq!(store.scenarios[1].id, a2.id);

    let new_nodes: Vec<_> = store.nodes.iter().filter(|n| n.scenario_id == a2.id).collect();
    assert_eq!(new_nodes.len(), 3);
    let jobs: Vec<_> = new_nodes.iter().filter(|n| n.node_type == NodeType::Job).collect();
    assert_eq!(jobs.len(), 1);
    assert_eq!(jobs[0].lineage_id, j.lineage_id);
    assert_ne!(jobs[0].id, j.id);

    let new_entries: Vec<_> = store.entries.iter().filter(|x| x.node_id == jobs[0].id).collect();
    assert_eq!(new_entries.len(), 1);
    assert_eq!(new_entries[0].amount, Amount::new(120000, 2).unwrap());
    assert_eq!(store.entries.len(), 2);
    assert_eq!(store.histories.len(), 2);
}

#[test]
fn rollover_keeps_tree_shape_and_lineage() {
    let mut store = PlanStore::new();
    let scenarios = ScenarioService::new();
    let nodes = PlanNodeService::new();
    let a = scenarios.create(&mut store, "A".to_string(), None, date(2025, 1, 1), date(2025, 12, 31), ACTOR).unwrap();
    scenarios.activate(&mut store, a.id).unwrap();
    let i = nodes.create(&mut store, a.id, None, "I".to_string(), None, NodeType::Initiative, 1, None, ACTOR).unwrap();
    let p = nodes.create(&mut store, a.id, Some(i.id), "P".to_string(), Some("d".to_string()), NodeType::Project, 2, None, ACTOR).unwrap();
    let sp = nodes.create(&mut store, a.id, Some(p.id), "S".to_string(), None, NodeType::SubProject, 3, None, ACTOR).unwrap();
    nodes.create(&mut store, a.id, Some(sp.id), "B".to_string(), None, NodeType::AdjustmentBuffer, 4, Some(8), ACTOR).unwrap();
    nodes.create(&mut store, a.id, Some(p.id), "J".to_string(), None, NodeType::Job, 5, Some(9), ACTOR).unwrap();
    let i2 = nodes.create(&mut store, a.id, None, "I2".to_string(), None, NodeType::Initiative, 6, None, ACTOR).unwrap();

    let b = scenarios.rollover(&mut store, a.id, "B".to_string(), date(2026, 1, 1), date(2026, 12, 31), 12).unwrap();
    let old: Vec<_> = store.nodes.iter().filter(|n| n.scenario_id == a.id).collect();
    let new: Vec<_> = store.nodes.iter().filter(|n| n.scenario_id == b.id).collect();
    assert_eq!(old.len(), 6);
    assert_eq!(new.len(), 6);
    for (o, n) in old.iter().zip(new.iter()) {
        assert_eq!(o.lineage_id, n.lineage_id);
        assert_eq!(o.title, n.title);
        assert_eq!(o.description, n.description);
        assert_eq!(o.node_type, n.node_type);
        assert_eq!(o.display_order, n.display_order);
        assert_eq!(o.service_id, n.service_id);
        assert_eq!(n.created_by, 12);
        assert!(old.iter().all(|x| x.id != n.id));
        match o.parent_id {
            None => assert_eq!(n.parent_id, None),
            Some(op) => {
                let k = old.iter().position(|x| x.id == op).unwrap();
                assert_eq!(n.parent_id, Some(new[k].id));
            }
        }
    }
    assert_eq!(i2.parent_id, None);
    // the new scenario is writable, the source is not
    let r = nodes.create(&mut store, a.id, None, "X".to_string(), None, NodeType::Initiative, 0, None, ACTOR);
    assert!(matches!(r, Err(PlanError::ReadOnlyScenario)));
    assert!(nodes.create(&mut store, b.id, None, "X".to_string(), None, NodeType::Initiative, 0, None, ACTOR).is_ok());
}

#[test]
fn rollover_copies_every_entry_without_history() {
    let mut store = PlanStore::new();
    let scenarios = ScenarioService::new();
    let nodes = PlanNodeService::new();
    let entries = PlEntryService::new();
    let a = scenarios.create(&mut store, "A".to_string(), None, date(2025, 1, 1), date(2025, 12, 31), ACTOR).unwrap();
    scenarios.activate(&mut store, a.id).unwrap();
    let i = nodes.create(&mut store, a.id, None, "I".to_string(), None, NodeType::Initiative, 0, None, ACTOR).unwrap();
    let p = nodes.create(&mut store, a.id, Some(i.id), "P".to_string(), None, NodeType::Project, 0, None, ACTOR).unwrap();
    let j1 = nodes.create(&mut store, a.id, Some(p.id), "J1".to_string(), None, NodeType::Job, 0, Some(1), ACTOR).unwrap();
    let j2 = nodes.create(&mut store, a.id, Some(p.id), "J2".to_string(), None, NodeType::Job, 0, Some(2), ACTOR).unwrap();
    for (node, m, v) in [(j1.id, 1, 10), (j1.id, 2, 20), (j2.id, 1, 30)] {
        entries
            .save_entry(&mut store, node, RENT, date(2025, m, 1), EntryCategory::Result, Amount::new(v, 0).unwrap(), Some("n".to_string()), ACTOR)
            .unwrap();
    }
    let histories_before = store.histories.len();
    let b = scenarios.rollover(&mut store, a.id, "B".to_string(), date(2026, 1, 1), date(2026, 12, 31), ACTOR).unwrap();
    assert_eq!(store.histories.len(), histories_before);
    let new_ids: Vec<u128> = store.nodes.iter().filter(|n| n.scenario_id == b.id).map(|n| n.id).collect();
    let copied: Vec<_> = store.entries.iter().filter(|e| new_ids.contains(&e.node_id)).collect();
    assert_eq!(copied.len(), 3);
    let mut amounts: Vec<i128> = copied.iter().map(|e| e.amount.mantissa).collect();
    amounts.sort();
    assert_eq!(amounts, vec![10, 20, 30]);
    assert!(copied.iter().all(|e| e.entry_category == EntryCategory::Result && e.description == Some("n".to_string())));
}

#[test]
fn rollover_errors_leave_the_store_alone() {
    let mut store = PlanStore::new();
    let scenarios = ScenarioService::new();
    let a = scenarios.create(&mut store, "A".to_string(), None, date(2025, 1, 1), date(2025, 12, 31), ACTOR).unwrap();
    let r = scenarios.rollover(&mut store, a.id ^ 1, "B".to_string(), date(2026, 1, 1), date(2026, 12, 31), ACTOR);
    assert!(matches!(r, Err(PlanError::NotFound)));
    let r = scenarios.rollover(&mut store, a.id, " ".to_string(), date(2026, 1, 1), date(2026, 12, 31), ACTOR);
    assert!(matches!(r, Err(PlanError::ValidationError)));
    let r = scenarios.rollover(&mut store, a.id, "B".to_string(), date(2027, 1, 1), date(2026, 12, 31), ACTOR);
    assert!(matches!(r, Err(PlanError::ValidationError)));
    assert_eq!(store.scenarios.len(), 1);
}

#[test]
fn rollover_of_an_empty_scenario() {
    let mut store = PlanStore::new();
    let scenarios = ScenarioService::new();
    let a = scenarios.create(&mut store, "A".to_string(), None, date(2025, 1, 1), date(2025, 12, 31), ACTOR).unwrap();
    let b = scenarios.rollover(&mut store, a.id, "B".to_string(), date(2026, 1, 1), date(2026, 12, 31), ACTOR).unwrap();
    assert!(b.is_current);
    assert!(store.nodes.is_empty());
    assert_eq!(store.scenarios.iter().filter(|s| s.is_current).count(), 1);
}
