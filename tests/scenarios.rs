use ghost_api::error::PlanError;
use ghost_api::scenarios::ScenarioService;
use ghost_api::store::PlanStore;
use ghost_api::values::CalendarDate;

fn date(y: i32, m: u32, d: u32) -> CalendarDate {
    CalendarDate::from_ymd(y, m, d).unwrap()
}

const ACTOR: u128 = 7;

#[test]
fn new_scenario_is_neither_current_nor_locked() {
    let svc = ScenarioService::new();
    let mut store = PlanStore::new();
    let s = svc.create(&mut store, "Plan 2025".to_string(), None, date(2025, 1, 1), date(2025, 12, 31), ACTOR).unwrap();
    assert!(!s.is_current);
    assert!(!s.is_locked);
    assert_eq!(s.name, "Plan 2025");
    assert_eq!(s.created_by, ACTOR);
    assert_eq!(store.scenarios.len(), 1);
    assert_eq!(store.scenarios[0].id, s.id);
}

#[test]
fn scenario_validation() {
    let svc = ScenarioService::new();
    let mut store = PlanStore::new();
    let blank = svc.create(&mut store, "   ".to_string(), None, date(2025, 1, 1), date(2025, 12, 31), ACTOR);
    assert!(matches!(blank, Err(PlanError::ValidationError)));
    let reversed = svc.create(&mut store, "P".to_string(), None, date(2025, 12, 31), date(2025, 1, 1), ACTOR);
    assert!(matches!(reversed, Err(PlanError::ValidationError)));
    assert!(store.scenarios.is_empty());
    let single_day = svc.create(&mut store, "P".to_string(), None, date(2025, 3, 1), date(2025, 3, 1), ACTOR);
    assert!(single_day.is_ok());
}

#[test]
fn activate_makes_exactly_one_current() {
    let svc = ScenarioService::new();
    let mut store = PlanStore::new();
    let a = svc.create(&mut store, "A".to_string(), None, date(2025, 1, 1), date(2025, 12, 31), ACTOR).unwrap();
    let b = svc.create(&mut store, "B".to_string(), None, date(2026, 1, 1), date(2026, 12, 31), ACTOR).unwrap();
    assert_eq!(store.scenarios.iter().filter(|s| s.is_current).count(), 0);
    svc.activate(&mut store, a.id).unwrap();
    assert!(store.scenarios[0].is_current && !store.scenarios[1].is_current);
    svc.activate(&mut store, b.id).unwrap();
    assert!(!store.scenarios[0].is_current && store.scenarios[1].is_current);
    svc.activate(&mut store, b.id).unwrap();
    assert_eq!(store.scenarios.iter().filter(|s| s.is_current).count(), 1);
}

#[test]
fn activate_unknown_scenario_changes_nothing() {
    let svc = ScenarioService::new();
    let mut store = PlanStore::new();
    let a = svc.create(&mut store, "A".to_string(), None, date(2025, 1, 1), date(2025, 12, 31), ACTOR).unwrap();
    svc.activate(&mut store, a.id).unwrap();
    assert!(matches!(svc.activate(&mut store, a.id.wrapping_add(1)), Err(PlanError::NotFound)));
    assert!(store.scenarios[0].is_current);
}

#[test]
fn ensure_writable_gate() {
    let svc = ScenarioService::new();
    let mut store = PlanStore::new();
    let a = svc.create(&mut store, "A".to_string(), None, date(2025, 1, 1), date(2025, 12, 31), ACTOR).unwrap();
    assert!(matches!(svc.ensure_writable(&store, a.id), Err(PlanError::ReadOnlyScenario)));
    assert!(matches!(svc.ensure_writable(&store, a.id ^ 1), Err(PlanError::NotFound)));
    svc.activate(&mut store, a.id).unwrap();
    assert!(svc.ensure_writable(&store, a.id).is_ok());
}

#[test]
fn list_all_orders_by_start_date_descending() {
    let svc = ScenarioService::new();
    let mut store = PlanStore::new();
    svc.create(&mut store, "Mid".to_string(), None, date(2025, 1, 1), date(2025, 12, 31), ACTOR).unwrap();
    svc.create(&mut store, "Late".to_string(), None, date(2026, 1, 1), date(2026, 12, 31), ACTOR).unwrap();
    svc.create(&mut store, "Early".to_string(), None, date(2024, 1, 1), date(2024, 12, 31), ACTOR).unwrap();
    store.scenarios[0].deleted_at = Some(1);
    let names: Vec<String> = svc.list_all(&store).into_iter().map(|s| s.name).collect();
    assert_eq!(names, vec!["Late".to_string(), "Early".to_string()]);
}
