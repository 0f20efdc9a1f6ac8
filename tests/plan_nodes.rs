use ghost_api::error::PlanError;
use ghost_api::node_types::NodeType;
use ghost_api::plan_nodes::{PlanNodeService, UpdatePlanNodeRequest};
use ghost_api::scenarios::ScenarioService;
use ghost_api::store::PlanStore;
use ghost_api::values::CalendarDate;

const ACTOR: u128 = 42;
const SERVICE: u128 = 900;

fn date(y: i32, m: u32, d: u32) -> CalendarDate {
    CalendarDate::from_ymd(y, m, d).unwrap()
}

fn current_scenario(store: &mut PlanStore, name: &str) -> u128 {
    let svc = ScenarioService::new();
    let s = svc.create(store, name.to_string(), None, date(2025, 1, 1), date(2025, 12, 31), ACTOR).unwrap();
    svc.activate(store, s.id).unwrap();
    s.id
}

fn add(store: &mut PlanStore, sid: u128, parent: Option<u128>, t: NodeType, service: Option<u128>) -> Result<u128, PlanError> {
    PlanNodeService::new()
        .create(store, sid, parent, "node".to_string(), None, t, 0, service, ACTOR)
        .map(|n| n.id)
}

#[test]
fn builds_a_legal_tree() {
    let mut store = PlanStore::new();
    let sid = current_scenario(&mut store, "A");
    let i = add(&mut store, sid, None, NodeType::Initiative, None).unwrap();
    let p = add(&mut store, sid, Some(i), NodeType::Project, None).unwrap();
    let sp = add(&mut store, sid, Some(p), NodeType::SubProject, None).unwrap();
    let sp2 = add(&mut store, sid, Some(sp), NodeType::SubProject, None).unwrap();
    add(&mut store, sid, Some(sp2), NodeType::Job, Some(SERVICE)).unwrap();
    add(&mut store, sid, Some(p), NodeType::AdjustmentBuffer, Some(SERVICE)).unwrap();
    assert_eq!(store.nodes.len(), 6);
    let node = &store.nodes[1];
    assert_eq!(node.parent_id, Some(i));
    assert_eq!(node.scenario_id, sid);
    assert_eq!(node.created_by, ACTOR);
    assert_ne!(store.nodes[0].lineage_id, store.nodes[1].lineage_id);
}

#[test]
fn root_rule_is_enforced() {
    let mut store = PlanStore::new();
    let sid = current_scenario(&mut store, "A");
    assert!(matches!(add(&mut store, sid, None, NodeType::Project, None), Err(PlanError::InvalidHierarchy)));
    assert!(matches!(add(&mut store, sid, None, NodeType::Job, Some(SERVICE)), Err(PlanError::InvalidHierarchy)));
    let i = add(&mut store, sid, None, NodeType::Initiative, None).unwrap();
    let p = add(&mut store, sid, Some(i), NodeType::Project, None).unwrap();
    assert!(matches!(add(&mut store, sid, Some(p), NodeType::Initiative, None), Err(PlanError::InvalidHierarchy)));
    assert_eq!(store.nodes.len(), 2);
    for n in &store.nodes {
        assert_eq!(n.parent_id.is_none(), n.node_type.can_be_root());
    }
}

#[test]
fn illegal_pairs_are_refused() {
    let mut store = PlanStore::new();
    let sid = current_scenario(&mut store, "A");
    let i = add(&mut store, sid, None, NodeType::Initiative, None).unwrap();
    assert!(matches!(add(&mut store, sid, Some(i), NodeType::Job, Some(SERVICE)), Err(PlanError::InvalidHierarchy)));
    assert!(matches!(add(&mut store, sid, Some(i), NodeType::SubProject, None), Err(PlanError::InvalidHierarchy)));
    let p = add(&mut store, sid, Some(i), NodeType::Project, None).unwrap();
    let j = add(&mut store, sid, Some(p), NodeType::Job, Some(SERVICE)).unwrap();
    assert!(matches!(add(&mut store, sid, Some(j), NodeType::Job, Some(SERVICE)), Err(PlanError::InvalidHierarchy)));
}

#[test]
fn service_binding_matches_type() {
    let mut store = PlanStore::new();
    let sid = current_scenario(&mut store, "A");
    assert!(matches!(add(&mut store, sid, None, NodeType::Initiative, Some(SERVICE)), Err(PlanError::InvalidServiceBinding)));
    let i = add(&mut store, sid, None, NodeType::Initiative, None).unwrap();
    let p = add(&mut store, sid, Some(i), NodeType::Project, None).unwrap();
    assert!(matches!(add(&mut store, sid, Some(p), NodeType::Job, None), Err(PlanError::InvalidServiceBinding)));
    assert!(matches!(add(&mut store, sid, Some(p), NodeType::AdjustmentBuffer, None), Err(PlanError::InvalidServiceBinding)));
    add(&mut store, sid, Some(p), NodeType::Job, Some(SERVICE)).unwrap();
    for n in &store.nodes {
        assert_eq!(n.service_id.is_some(), n.node_type.is_entity());
    }
}

#[test]
fn parent_must_exist_and_share_the_scenario() {
    let mut store = PlanStore::new();
    let a = current_scenario(&mut store, "A");
    let i = add(&mut store, a, None, NodeType::Initiative, None).unwrap();
    assert!(matches!(add(&mut store, a, Some(i ^ 1), NodeType::Project, None), Err(PlanError::NotFound)));
    let b = current_scenario(&mut store, "B");
    assert!(matches!(add(&mut store, b, Some(i), NodeType::Project, None), Err(PlanError::CrossScenarioParent)));
}

#[test]
fn writes_need_the_current_scenario() {
    let mut store = PlanStore::new();
    let a = current_scenario(&mut store, "A");
    let i = add(&mut store, a, None, NodeType::Initiative, None).unwrap();
    current_scenario(&mut store, "B");
    assert!(matches!(add(&mut store, a, None, NodeType::Initiative, None), Err(PlanError::ReadOnlyScenario)));
    let req = UpdatePlanNodeRequest { title: Some("x".to_string()), description: None, display_order: None };
    assert!(matches!(PlanNodeService::new().update(&mut store, i, req, ACTOR), Err(PlanError::ReadOnlyScenario)));
    assert!(matches!(PlanNodeService::new().delete(&mut store, i), Err(PlanError::ReadOnlyScenario)));
    assert!(matches!(add(&mut store, a ^ 1, None, NodeType::Initiative, None), Err(PlanError::NotFound)));
}

#[test]
fn blank_title_is_refused() {
    let mut store = PlanStore::new();
    let a = current_scenario(&mut store, "A");
    let r = PlanNodeService::new().create(&mut store, a, None, " ".to_string(), None, NodeType::Initiative, 0, None, ACTOR);
    assert!(matches!(r, Err(PlanError::ValidationError)));
}

#[test]
fn update_changes_only_supplied_fields() {
    let mut store = PlanStore::new();
    let a = current_scenario(&mut store, "A");
    let svc = PlanNodeService::new();
    let n = svc
        .create(&mut store, a, None, "Old".to_string(), Some("keep".to_string()), NodeType::Initiative, 3, None, ACTOR)
        .unwrap();
    let req = UpdatePlanNodeRequest { title: Some("New".to_string()), description: None, display_order: None };
    let u = svc.update(&mut store, n.id, req, 99).unwrap();
    assert_eq!(u.title, "New");
    assert_eq!(u.description, Some("keep".to_string()));
    assert_eq!(u.display_order, 3);
    assert_eq!(u.updated_by, 99);
    assert_eq!(u.lineage_id, n.lineage_id);
    let req = UpdatePlanNodeRequest { title: None, description: Some("d".to_string()), display_order: Some(5) };
    let u = svc.update(&mut store, n.id, req, 99).unwrap();
    assert_eq!(u.title, "New");
    assert_eq!(u.description, Some("d".to_string()));
    assert_eq!(u.display_order, 5);
    assert_eq!(store.nodes[0].display_order, 5);
    let req = UpdatePlanNodeRequest { title: None, description: None, display_order: None };
    assert!(matches!(svc.update(&mut store, n.id ^ 1, req, 99), Err(PlanError::NotFound)));
}

#[test]
fn delete_needs_an_empty_node() {
    let mut store = PlanStore::new();
    let a = current_scenario(&mut store, "A");
    let svc = PlanNodeService::new();
    let i = add(&mut store, a, None, NodeType::Initiative, None).unwrap();
    let p = add(&mut store, a, Some(i), NodeType::Project, None).unwrap();
    assert!(matches!(svc.delete(&mut store, i), Err(PlanError::NonEmptyNode)));
    assert_eq!(store.nodes.len(), 2);
    svc.delete(&mut store, p).unwrap();
    svc.delete(&mut store, i).unwrap();
    assert!(store.nodes.is_empty());
    assert!(matches!(svc.delete(&mut store, i), Err(PlanError::NotFound)));
}

#[test]
fn list_by_scenario_is_in_display_order() {
    let mut store = PlanStore::new();
    let a = current_scenario(&mut store, "A");
    let b = current_scenario(&mut store, "B");
    let svc = PlanNodeService::new();
    for (title, order) in [("c", 3), ("a", 1), ("b", 2)] {
        svc.create(&mut store, b, None, title.to_string(), None, NodeType::Initiative, order, None, ACTOR).unwrap();
    }
    let titles: Vec<String> = svc.list_by_scenario(&store, b).into_iter().map(|n| n.title).collect();
    assert_eq!(titles, vec!["a".to_string(), "b".to_string(), "c".to_string()]);
    assert!(svc.list_by_scenario(&store, a).is_empty());
}

#[test]
fn list_recent_is_newest_first_and_limited() {
    let mut store = PlanStore::new();
    let a = current_scenario(&mut store, "A");
    let svc = PlanNodeService::new();
    for title in ["x", "y", "z"] {
        svc.create(&mut store, a, None, title.to_string(), None, NodeType::Initiative, 0, None, ACTOR).unwrap();
    }
    store.nodes[0].created_at = 10;
    store.nodes[1].created_at = 30;
    store.nodes[2].created_at = 20;
    let titles: Vec<String> = svc.list_recent(&store, 2).into_iter().map(|n| n.title).collect();
    assert_eq!(titles, vec!["y".to_string(), "z".to_string()]);
    assert_eq!(svc.list_recent(&store, 10).len(), 3);
    assert!(svc.list_recent(&store, 0).is_empty());
    assert!(svc.list_recent(&store, -1).is_empty());
}

#[test]
fn soft_deleted_nodes_are_not_read() {
    let mut store = PlanStore::new();
    let a = current_scenario(&mut store, "A");
    let svc = PlanNodeService::new();
    let i = add(&mut store, a, None, NodeType::Initiative, None).unwrap();
    let p = add(&mut store, a, Some(i), NodeType::Project, None).unwrap();
    store.nodes[1].deleted_at = Some(1);
    store.nodes[1].deleted_by = Some(ACTOR);
    assert_eq!(svc.list_by_scenario(&store, a).len(), 1);
    let req = UpdatePlanNodeRequest { title: Some("x".to_string()), description: None, display_order: None };
    assert!(matches!(svc.update(&mut store, p, req, ACTOR), Err(PlanError::NotFound)));
    assert!(matches!(add(&mut store, a, Some(p), NodeType::Job, Some(SERVICE)), Err(PlanError::NotFound)));
    // a deleted child still blocks the hard delete of its parent
    assert!(matches!(svc.delete(&mut store, i), Err(PlanError::NonEmptyNode)));
    let b = ScenarioService::new()
        .rollover(&mut store, a, "B".to_string(), date(2026, 1, 1), date(2026, 12, 31), ACTOR)
        .unwrap();
    assert_eq!(store.nodes.iter().filter(|n| n.scenario_id == b.id).count(), 1);
}
