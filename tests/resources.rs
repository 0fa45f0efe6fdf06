use dummysite_controller::crd::{DummySite, DummySiteSpec, ObjectMeta};
use dummysite_controller::resources::{
    build, build_deployment, build_pod_spec, build_service, create_labels, DesiredManifest,
};

fn site(namespace: &str, name: &str, url: &str) -> DummySite {
    DummySite {
        metadata: ObjectMeta {
            name: Some(name.to_string()),
            namespace: Some(namespace.to_string()),
            resource_version: None,
        },
        spec: DummySiteSpec { website_url: url.to_string() },
    }
}

#[test]
fn test_create_labels() {
    let labels = create_labels("example");
    assert_eq!(labels.get("app"), Some(&"dummysite-example".to_string()));
    assert_eq!(labels.get("dummysite"), Some(&"example".to_string()));
    assert_eq!(
        labels.get("managed-by"),
        Some(&"dummysite-controller".to_string())
    );
}

#[test]
fn labels_have_three_entries_in_order() {
    let labels = create_labels("example");
    assert_eq!(labels.len(), 3);
    let (k, v) = labels.entry(0);
    assert_eq!((k.as_str(), v.as_str()), ("app", "dummysite-example"));
    let (k, v) = labels.entry(2);
    assert_eq!((k.as_str(), v.as_str()), ("managed-by", "dummysite-controller"));
    assert_eq!(labels.get("missing"), None);
}

#[test]
fn pod_spec_fetches_then_serves() {
    let c = build_pod_spec("https://example.com");
    assert_eq!(c.name, "nginx");
    assert_eq!(c.image, "nginx:alpine");
    assert_eq!(c.port, 80);
    assert_eq!(c.command, vec!["/bin/sh".to_string()]);
    assert_eq!(
        c.args,
        vec![
            "-c".to_string(),
            "wget -O /usr/share/nginx/html/index.html 'https://example.com' && nginx -g 'daemon off;'"
                .to_string()
        ]
    );
}

#[test]
fn deployment_is_named_and_labelled_after_owner() {
    let s = site("default", "demo", "https://example.com");
    let d = build_deployment(&s, "default", "demo");
    assert_eq!(d.name, "site-demo");
    assert_eq!(d.namespace, "default");
    assert_eq!(d.replicas, 1);
    assert!(d.labels.same_as(&create_labels("demo")));
    assert!(d.selector.same_as(&create_labels("demo")));
    assert!(d.template_labels.same_as(&create_labels("demo")));
    assert!(d.container.args[1].contains("https://example.com"));
}

#[test]
fn service_exposes_port_80_to_80() {
    let svc = build_service("default", "demo");
    assert_eq!(svc.name, "site-demo");
    assert_eq!(svc.namespace, "default");
    assert_eq!(svc.port, 80);
    assert_eq!(svc.target_port, 80);
    assert_eq!(svc.service_type, "ClusterIP");
    assert_eq!(svc.selector.get("dummysite"), Some(&"demo".to_string()));
}

#[test]
fn build_is_deterministic() {
    let spec = DummySiteSpec { website_url: "https://example.com".to_string() };
    let a = build(&spec, "default", "demo");
    let b = build(&spec, "default", "demo");
    assert_eq!(a.len(), 2);
    assert_eq!(a.len(), b.len());
    for i in 0..a.len() {
        assert!(a[i].same_as(&b[i]));
    }
    let other = DummySiteSpec { website_url: "https://example.org".to_string() };
    let c = build(&other, "default", "demo");
    assert!(!a[0].same_as(&c[0]));
    assert!(a[1].same_as(&c[1]));
}

#[test]
fn exposure_selector_equals_workload_template_labels() {
    let spec = DummySiteSpec { website_url: "https://example.com".to_string() };
    let plan = build(&spec, "prod", "blog");
    match (&plan[0], &plan[1]) {
        (DesiredManifest::Workload(w), DesiredManifest::Exposure(e)) => {
            assert!(e.selector.same_as(&w.template_labels));
            assert!(w.selector.same_as(&w.template_labels));
            assert_eq!(w.namespace, "prod");
            assert_eq!(e.namespace, "prod");
        }
        _ => panic!("the workload comes first, then the exposure"),
    }
}

#[test]
fn manifest_copies_compare_equal() {
    let spec = DummySiteSpec { website_url: "https://example.com".to_string() };
    let plan = build(&spec, "default", "demo");
    let copy = plan[0].duplicate();
    assert!(copy.same_as(&plan[0]));
    assert!(!copy.same_as(&plan[1]));
    assert_eq!(copy.name(), "site-demo");
}
