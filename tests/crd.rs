use dummysite_controller::crd::{DummySite, ObjectRef};

#[test]
fn descriptor_names_the_kind() {
    let d = DummySite::descriptor();
    assert_eq!(d.group, "stable.dwk");
    assert_eq!(d.version, "v1");
    assert_eq!(d.kind, "DummySite");
    assert_eq!(d.plural, "dummysites");
    assert!(d.namespaced);
    assert_eq!(d.printer_columns.len(), 2);
    assert_eq!(d.printer_columns[0].json_path, ".spec.website_url");
    assert_eq!(d.printer_columns[1].column_type, "date");
}

#[test]
fn object_refs_compare_by_namespace_and_name() {
    let a = ObjectRef::new("default", "demo");
    assert!(a.same_as(&a.duplicate()));
    assert!(!a.same_as(&ObjectRef::new("other", "demo")));
    assert!(!a.same_as(&ObjectRef::new("default", "other")));
}
