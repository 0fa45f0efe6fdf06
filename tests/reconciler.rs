use dummysite_controller::crd::{DummySite, DummySiteSpec, ObjectMeta, ObjectRef};
use dummysite_controller::error::{Error, StoreError};
use dummysite_controller::policy::{classify, outcome_of_error, ReconcileOutcome};
use dummysite_controller::reconciler::{Command, PassPhase, ReconcilePass, Reconciler};
use dummysite_controller::resources::DesiredManifest;
use dummysite_controller::store::{AppliedState, ObjectStore};

fn demo_site() -> DummySite {
    DummySite {
        metadata: ObjectMeta {
            name: Some("demo".to_string()),
            namespace: Some("default".to_string()),
            resource_version: Some("1".to_string()),
        },
        spec: DummySiteSpec { website_url: "https://example.com".to_string() },
    }
}

/// Runs one pass against the in-memory store; returns the outcome and
/// whether each apply changed something.
fn run_pass(store: &mut ObjectStore, fetched: Option<DummySite>) -> (ReconcileOutcome, Vec<bool>) {
    let (mut pass, mut cmd) = ReconcilePass::new(ObjectRef::new("default", "demo"));
    let mut changes = Vec::new();
    let mut fetched = Some(Ok(fetched));
    loop {
        match cmd {
            Command::Fetch => cmd = pass.on_fetched(fetched.take().unwrap()),
            Command::Apply { index } => {
                let report = store.apply(pass.manifest(index));
                changes.push(report.changed);
                cmd = pass.on_applied(Ok(report.state));
            }
            Command::Finish(o) => return (o, changes),
        }
    }
}

#[test]
fn first_pass_builds_both_children_and_converges() {
    let (mut pass, cmd) = ReconcilePass::new(ObjectRef::new("default", "demo"));
    assert_eq!(cmd, Command::Fetch);
    assert_eq!(pass.phase(), PassPhase::Fetching);
    assert_eq!(pass.target().name, "demo");
    let cmd = pass.on_fetched(Ok(Some(demo_site())));
    assert_eq!(cmd, Command::Apply { index: 0 });
    assert_eq!(pass.plan_len(), 2);
    match pass.manifest(0) {
        DesiredManifest::Workload(w) => {
            assert_eq!(w.name, "site-demo");
            assert!(w.container.args[1].contains("https://example.com"));
        }
        _ => panic!("workload first"),
    }
    let cmd = pass.on_applied(Ok(AppliedState { generation: 1 }));
    assert_eq!(cmd, Command::Apply { index: 1 });
    match pass.manifest(1) {
        DesiredManifest::Exposure(e) => {
            assert_eq!(e.name, "site-demo");
            assert_eq!((e.port, e.target_port), (80, 80));
        }
        _ => panic!("exposure second"),
    }
    let cmd = pass.on_applied(Ok(AppliedState { generation: 1 }));
    let converged = ReconcileOutcome::Converged { requeue_after: Some(300) };
    assert_eq!(cmd, Command::Finish(converged));
    assert_eq!(pass.phase(), PassPhase::Done);
    assert_eq!(pass.outcome(), Some(converged));
}

#[test]
fn second_pass_without_change_applies_nothing_new() {
    let mut store = ObjectStore::new();
    let (first, changes) = run_pass(&mut store, Some(demo_site()));
    assert_eq!(first, ReconcileOutcome::Converged { requeue_after: Some(300) });
    assert_eq!(changes, vec![true, true]);
    assert_eq!(store.len(), 2);
    let (second, changes) = run_pass(&mut store, Some(demo_site()));
    assert_eq!(second, ReconcileOutcome::Converged { requeue_after: Some(300) });
    assert_eq!(changes, vec![false, false]);
    assert_eq!(store.len(), 2);
}

#[test]
fn changed_spec_is_applied_to_the_workload_only() {
    let mut store = ObjectStore::new();
    run_pass(&mut store, Some(demo_site()));
    let mut changed = demo_site();
    changed.spec.website_url = "https://example.org".to_string();
    let (outcome, changes) = run_pass(&mut store, Some(changed));
    assert_eq!(outcome, ReconcileOutcome::Converged { requeue_after: Some(300) });
    assert_eq!(changes, vec![true, false]);
}

#[test]
fn deleted_object_ends_pass_without_applies() {
    let mut store = ObjectStore::new();
    let (outcome, changes) = run_pass(&mut store, None);
    assert_eq!(outcome, ReconcileOutcome::Converged { requeue_after: None });
    assert!(changes.is_empty());
    assert_eq!(store.len(), 0);

    let (mut pass, _) = ReconcilePass::new(ObjectRef::new("default", "demo"));
    let cmd = pass.on_fetched(Err(StoreError::NotFound));
    assert_eq!(cmd, Command::Finish(ReconcileOutcome::Converged { requeue_after: None }));
    assert_eq!(classify(&ReconcileOutcome::Converged { requeue_after: None }), None);
}

#[test]
fn conflict_on_exposure_is_transient_and_next_pass_reapplies_both() {
    let mut store = ObjectStore::new();
    let (mut pass, _) = ReconcilePass::new(ObjectRef::new("default", "demo"));
    assert_eq!(pass.on_fetched(Ok(Some(demo_site()))), Command::Apply { index: 0 });
    let report = store.apply(pass.manifest(0));
    assert!(report.changed);
    assert_eq!(pass.on_applied(Ok(report.state)), Command::Apply { index: 1 });
    let cmd = pass.on_applied(Err(StoreError::Conflict));
    let transient = ReconcileOutcome::Transient {
        error: Error::Kube(StoreError::Conflict),
        requeue_after: 60,
    };
    assert_eq!(cmd, Command::Finish(transient));
    assert_eq!(classify(&transient), Some(60));

    let (outcome, changes) = run_pass(&mut store, Some(demo_site()));
    assert_eq!(outcome, ReconcileOutcome::Converged { requeue_after: Some(300) });
    assert_eq!(changes, vec![false, true]);
}

#[test]
fn failed_fetch_is_transient() {
    let (mut pass, _) = ReconcilePass::new(ObjectRef::new("default", "demo"));
    let cmd = pass.on_fetched(Err(StoreError::Transport));
    assert_eq!(
        cmd,
        Command::Finish(ReconcileOutcome::Transient {
            error: Error::Kube(StoreError::Transport),
            requeue_after: 60
        })
    );
}

#[test]
fn missing_name_is_terminal() {
    let mut s = demo_site();
    s.metadata.name = None;
    s.metadata.namespace = None;
    assert!(matches!(s.name(), Err(Error::MissingName)));
    let (mut pass, _) = ReconcilePass::new(ObjectRef::new("default", "demo"));
    let cmd = pass.on_fetched(Ok(Some(s)));
    let terminal = ReconcileOutcome::Terminal { error: Error::MissingName };
    assert_eq!(cmd, Command::Finish(terminal));
    assert_eq!(classify(&terminal), None);
}

#[test]
fn missing_namespace_is_terminal() {
    let mut s = demo_site();
    s.metadata.namespace = None;
    assert_eq!(s.name().unwrap(), "demo");
    assert!(matches!(s.namespace(), Err(Error::MissingNamespace)));
    assert!(matches!(Reconciler::reconcile(&s), Err(Error::MissingNamespace)));
    let (mut pass, _) = ReconcilePass::new(ObjectRef::new("default", "demo"));
    let cmd = pass.on_fetched(Ok(Some(s)));
    assert_eq!(
        cmd,
        Command::Finish(ReconcileOutcome::Terminal { error: Error::MissingNamespace })
    );
}

#[test]
fn backoff_selection() {
    assert_eq!(classify(&ReconcileOutcome::Converged { requeue_after: Some(300) }), Some(300));
    let t = ReconcileOutcome::Transient { error: Error::Serialization, requeue_after: 60 };
    assert_eq!(classify(&t), Some(60));
    let t = ReconcileOutcome::Terminal { error: Error::MissingName };
    assert_eq!(classify(&t), None);
    assert_eq!(outcome_of_error(Error::Serialization), ReconcileOutcome::Transient {
        error: Error::Serialization,
        requeue_after: 60
    });
}

#[test]
fn error_policy_retries_transient_errors_only() {
    assert_eq!(Reconciler::error_policy(&Error::Kube(StoreError::Conflict)), Some(60));
    assert_eq!(Reconciler::error_policy(&Error::Kube(StoreError::Status { code: 500 })), Some(60));
    assert_eq!(Reconciler::error_policy(&Error::Serialization), Some(60));
    assert_eq!(Reconciler::error_policy(&Error::MissingName), None);
    assert_eq!(Reconciler::error_policy(&Error::MissingNamespace), None);
    assert!(Error::MissingName.is_terminal());
    assert!(!Error::Serialization.is_terminal());
}

#[test]
fn status_codes_map_to_store_errors() {
    assert_eq!(StoreError::from_status(404), StoreError::NotFound);
    assert_eq!(StoreError::from_status(409), StoreError::Conflict);
    assert_eq!(StoreError::from_status(503), StoreError::Status { code: 503 });
}

#[test]
fn reconcile_plans_two_children() {
    let plan = Reconciler::reconcile(&demo_site()).unwrap();
    assert_eq!(plan.len(), 2);
    assert_eq!(plan[0].name(), "site-demo");
    assert_eq!(plan[1].namespace(), "default");
}
