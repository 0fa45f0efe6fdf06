use dummysite_controller::resources::{build, ChildKind, DesiredManifest};
use dummysite_controller::crd::DummySiteSpec;
use dummysite_controller::store::{AppliedState, ObjectStore};

fn store_plan(url: &str) -> Vec<DesiredManifest> {
    build(&DummySiteSpec { website_url: url.to_string() }, "default", "demo")
}

#[test]
fn apply_twice_is_idempotent() {
    let plan = store_plan("https://example.com");
    let mut store = ObjectStore::new();
    let first = store.apply(&plan[0]);
    let second = store.apply(&plan[0]);
    assert!(first.changed);
    assert!(!second.changed);
    assert_eq!(first.state, second.state);
    assert_eq!(first.state, AppliedState { generation: 1 });
    assert_eq!(store.len(), 1);
}

#[test]
fn apply_overwrites_drift() {
    let plan = store_plan("https://example.com");
    let drifted = store_plan("https://drift.example");
    let mut store = ObjectStore::new();
    store.apply(&plan[0]);
    let name = "site-demo".to_string();
    let ns = "default".to_string();
    let i = store.find(ChildKind::Workload, &ns, &name).unwrap();
    store.overwrite(i, &drifted[0]);
    assert_eq!(store.object(i).1, 2);
    let report = store.apply(&plan[0]);
    assert!(report.changed);
    assert_eq!(report.state.generation, 3);
    assert!(store.object(i).0.same_as(&plan[0]));
}

#[test]
fn objects_are_keyed_by_kind_namespace_and_name() {
    let plan = store_plan("https://example.com");
    let mut store = ObjectStore::new();
    store.apply(&plan[0]);
    store.apply(&plan[1]);
    assert_eq!(store.len(), 2);
    let name = "site-demo".to_string();
    let ns = "default".to_string();
    assert_eq!(store.find(ChildKind::Workload, &ns, &name), Some(0));
    assert_eq!(store.find(ChildKind::Exposure, &ns, &name), Some(1));
    assert_eq!(store.find(ChildKind::Exposure, &"other".to_string(), &name), None);
}
