use ghost_api::error::PlanError;
use ghost_api::model::{ChangeType, EntryCategory};
use ghost_api::node_types::NodeType;
use ghost_api::pl_entries::{PlEntryService, SavePlEntryRequest};
use ghost_api::plan_nodes::PlanNodeService;
use ghost_api::scenarios::ScenarioService;
use ghost_api::store::PlanStore;
use ghost_api::values::{Amount, CalendarDate};

const ACTOR: u128 = 5;
const RENT: u128 = 1001;
const TRAVEL: u128 = 1002;

fn date(y: i32, m: u32, d: u32) -> CalendarDate {
    CalendarDate::from_ymd(y, m, d).unwrap()
}

fn amount(mantissa: i128, scale: u32) -> Amount {
    Amount::new(mantissa, scale).unwrap()
}

/// A current scenario with Initiative > Project > Job; returns (scenario, project, job).
fn setup(store: &mut PlanStore) -> (u128, u128, u128) {
    let svc = ScenarioService::new();
    let s = svc.create(store, "A".to_string(), None, date(2025, 1, 1), date(2025, 12, 31), ACTOR).unwrap();
    svc.activate(store, s.id).unwrap();
    let nodes = PlanNodeService::new();
    let i = nodes.create(store, s.id, None, "I".to_string(), None, NodeType::Initiative, 0, None, ACTOR).unwrap();
    let p = nodes.create(store, s.id, Some(i.id), "P".to_string(), None, NodeType::Project, 0, None, ACTOR).unwrap();
    let j = nodes.create(store, s.id, Some(p.id), "J".to_string(), None, NodeType::Job, 0, Some(77), ACTOR).unwrap();
    (s.id, p.id, j.id)
}

#[test]
fn first_write_creates_entry_and_create_record() {
    let mut store = PlanStore::new();
    let (_, _, job) = setup(&mut store);
    let svc = PlEntryService::new();
    let e = svc
        .save_entry(&mut store, job, RENT, date(2025, 1, 1), EntryCategory::Plan, amount(100000, 2), Some("rent".to_string()), ACTOR)
        .unwrap();
    assert_eq!(e.amount, amount(100000, 2));
    assert_eq!(e.node_id, job);
    assert_eq!(store.entries.len(), 1);
    assert_eq!(store.histories.len(), 1);
    let h = &store.histories[0];
    assert_eq!(h.change_type, ChangeType::Create);
    assert_eq!(h.previous_amount, None);
    assert_eq!(h.new_amount, amount(100000, 2));
    assert_eq!(h.entry_id, e.id);
    assert_eq!(h.changed_by, ACTOR);
    assert_eq!(h.operation_source, Some("Bulk/API".to_string()));
}

#[test]
fn identical_write_is_idempotent() {
    let mut store = PlanStore::new();
    let (_, _, job) = setup(&mut store);
    let svc = PlEntryService::new();
    let first = svc
        .save_entry(&mut store, job, RENT, date(2025, 1, 1), EntryCategory::Plan, amount(100000, 2), None, ACTOR)
        .unwrap();
    let second = svc
        .save_entry(&mut store, job, RENT, date(2025, 1, 1), EntryCategory::Plan, amount(100000, 2), None, ACTOR)
        .unwrap();
    assert_eq!(first.id, second.id);
    assert_eq!(store.entries.len(), 1);
    assert_eq!(store.histories.len(), 1);
    assert_eq!(store.histories[0].change_type, ChangeType::Create);
}

#[test]
fn equal_value_with_other_scale_is_no_change() {
    let mut store = PlanStore::new();
    let (_, _, job) = setup(&mut store);
    let svc = PlEntryService::new();
    svc.save_entry(&mut store, job, RENT, date(2025, 1, 1), EntryCategory::Plan, amount(10, 1), None, ACTOR).unwrap();
    let again = svc
        .save_entry(&mut store, job, RENT, date(2025, 1, 1), EntryCategory::Plan, amount(100, 2), None, ACTOR)
        .unwrap();
    assert_eq!(again.amount, amount(10, 1));
    assert_eq!(store.histories.len(), 1);
}

#[test]
fn changed_amount_appends_update_record() {
    let mut store = PlanStore::new();
    let (_, _, job) = setup(&mut store);
    let svc = PlEntryService::new();
    let e1 = svc
        .save_entry(&mut store, job, RENT, date(2025, 1, 1), EntryCategory::Plan, amount(100000, 2), None, ACTOR)
        .unwrap();
    let e2 = svc
        .save_entry(&mut store, job, RENT, date(2025, 1, 1), EntryCategory::Plan, amount(120000, 2), None, 6)
        .unwrap();
    assert_eq!(e2.id, e1.id);
    assert_eq!(e2.amount, amount(120000, 2));
    assert_eq!(e2.updated_by, 6);
    assert_eq!(e2.created_by, ACTOR);
    assert_eq!(store.entries.len(), 1);
    assert_eq!(store.entries[0].amount, amount(120000, 2));
    assert_eq!(store.histories.len(), 2);
    let h = &store.histories[1];
    assert_eq!(h.change_type, ChangeType::Update);
    assert_eq!(h.previous_amount, Some(amount(100000, 2)));
    assert_eq!(h.new_amount, amount(120000, 2));
    assert_eq!(h.entry_id, e1.id);
}

#[test]
fn changed_description_alone_is_an_update() {
    let mut store = PlanStore::new();
    let (_, _, job) = setup(&mut store);
    let svc = PlEntryService::new();
    svc.save_entry(&mut store, job, RENT, date(2025, 1, 1), EntryCategory::Plan, amount(5, 0), None, ACTOR).unwrap();
    let e = svc
        .save_entry(&mut store, job, RENT, date(2025, 1, 1), EntryCategory::Plan, amount(5, 0), Some("memo".to_string()), ACTOR)
        .unwrap();
    assert_eq!(e.description, Some("memo".to_string()));
    assert_eq!(store.histories.len(), 2);
    assert_eq!(store.histories[1].previous_amount, Some(amount(5, 0)));
}

#[test]
fn each_cell_holds_one_entry() {
    let mut store = PlanStore::new();
    let (_, _, job) = setup(&mut store);
    let svc = PlEntryService::new();
    let cells = [
        (RENT, date(2025, 1, 1), EntryCategory::Plan),
        (RENT, date(2025, 1, 1), EntryCategory::Result),
        (RENT, date(2025, 2, 1), EntryCategory::Plan),
        (TRAVEL, date(2025, 1, 1), EntryCategory::Plan),
    ];
    for round in 0..3 {
        for (acct, month, cat) in cells {
            svc.save_entry(&mut store, job, acct, month, cat, amount(round, 0), None, ACTOR).unwrap();
        }
    }
    assert_eq!(store.entries.len(), 4);
    for a in 0..store.entries.len() {
        for b in 0..store.entries.len() {
            let (x, y) = (&store.entries[a], &store.entries[b]);
            let same = x.node_id == y.node_id
                && x.account_item_id == y.account_item_id
                && x.target_month == y.target_month
                && x.entry_category == y.entry_category;
            assert_eq!(same, a == b);
        }
    }
    assert_eq!(store.histories.len(), 12);
}

#[test]
fn container_nodes_take_no_entries() {
    let mut store = PlanStore::new();
    let (_, project, job) = setup(&mut store);
    let svc = PlEntryService::new();
    let r = svc.save_entry(&mut store, project, RENT, date(2025, 1, 1), EntryCategory::Plan, amount(1, 0), None, ACTOR);
    assert!(matches!(r, Err(PlanError::InvalidHierarchy)));
    let r = svc.save_entry(&mut store, job ^ 1, RENT, date(2025, 1, 1), EntryCategory::Plan, amount(1, 0), None, ACTOR);
    assert!(matches!(r, Err(PlanError::NotFound)));
    let r = svc.save_entry(&mut store, job, RENT, date(2025, 1, 1), EntryCategory::Plan, Amount { mantissa: 1, scale: 40 }, None, ACTOR);
    assert!(matches!(r, Err(PlanError::ValidationError)));
    assert!(store.entries.is_empty() && store.histories.is_empty());
}

#[test]
fn past_scenarios_are_read_only() {
    let mut store = PlanStore::new();
    let (_, _, job) = setup(&mut store);
    let scenarios = ScenarioService::new();
    let other = scenarios.create(&mut store, "B".to_string(), None, date(2026, 1, 1), date(2026, 12, 31), ACTOR).unwrap();
    scenarios.activate(&mut store, other.id).unwrap();
    let r = PlEntryService::new().save_entry(&mut store, job, RENT, date(2025, 1, 1), EntryCategory::Plan, amount(1, 0), None, ACTOR);
    assert!(matches!(r, Err(PlanError::ReadOnlyScenario)));
    assert!(store.entries.is_empty());
}

fn request(node: u128, acct: u128, m: u32, value: i128) -> SavePlEntryRequest {
    SavePlEntryRequest {
        node_id: node,
        account_item_id: acct,
        target_month: date(2025, m, 1),
        entry_category: EntryCategory::Plan,
        amount: amount(value, 0),
        description: None,
    }
}

#[test]
fn bulk_applies_every_request_in_order() {
    let mut store = PlanStore::new();
    let (_, _, job) = setup(&mut store);
    let svc = PlEntryService::new();
    let reqs = vec![request(job, RENT, 1, 10), request(job, RENT, 2, 20), request(job, RENT, 1, 15)];
    svc.save_bulk(&mut store, reqs, ACTOR).unwrap();
    assert_eq!(store.entries.len(), 2);
    assert_eq!(store.entries[0].amount, amount(15, 0));
    assert_eq!(store.histories.len(), 3);
    assert_eq!(store.histories[2].change_type, ChangeType::Update);
}

#[test]
fn bulk_is_all_or_nothing() {
    let mut store = PlanStore::new();
    let (_, project, job) = setup(&mut store);
    let svc = PlEntryService::new();
    svc.save_entry(&mut store, job, RENT, date(2025, 1, 1), EntryCategory::Plan, amount(1, 0), None, ACTOR).unwrap();
    let reqs = vec![request(job, RENT, 1, 99), request(job, TRAVEL, 3, 5), request(project, RENT, 1, 7)];
    let r = svc.save_bulk(&mut store, reqs, ACTOR);
    assert!(matches!(r, Err(PlanError::InvalidHierarchy)));
    assert_eq!(store.entries.len(), 1);
    assert_eq!(store.entries[0].amount, amount(1, 0));
    assert_eq!(store.histories.len(), 1);
}

#[test]
fn listing_entries() {
    let mut store = PlanStore::new();
    let (sid, _, job) = setup(&mut store);
    let svc = PlEntryService::new();
    svc.save_entry(&mut store, job, TRAVEL, date(2025, 2, 1), EntryCategory::Plan, amount(1, 0), None, ACTOR).unwrap();
    svc.save_entry(&mut store, job, TRAVEL, date(2025, 1, 1), EntryCategory::Plan, amount(2, 0), None, ACTOR).unwrap();
    svc.save_entry(&mut store, job, RENT, date(2025, 1, 1), EntryCategory::Plan, amount(3, 0), None, ACTOR).unwrap();
    svc.save_entry(&mut store, job, RENT, date(2025, 1, 1), EntryCategory::Result, amount(4, 0), None, ACTOR).unwrap();
    let plan: Vec<i128> = svc.list_by_node(&store, job, EntryCategory::Plan).iter().map(|e| e.amount.mantissa).collect();
    assert_eq!(plan, vec![3, 2, 1]);
    let result: Vec<i128> = svc.list_by_node(&store, job, EntryCategory::Result).iter().map(|e| e.amount.mantissa).collect();
    assert_eq!(result, vec![4]);
    let all = svc.list_by_scenario(&store, sid);
    assert_eq!(all.len(), 4);
    assert!(all.windows(2).all(|w| !w[0].target_month.is_after(&w[1].target_month)));
    assert!(svc.list_by_scenario(&store, sid ^ 1).is_empty());
}

#[test]
fn empty_bulk_changes_nothing() {
    let mut store = PlanStore::new();
    setup(&mut store);
    PlEntryService::new().save_bulk(&mut store, Vec::new(), ACTOR).unwrap();
    assert!(store.entries.is_empty() && store.histories.is_empty());
}
