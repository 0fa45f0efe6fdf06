use vstd::prelude::*;
use vstd::string::*;

use crate::crd::{DummySite, DummySiteSpec};

verus! {

/// Prefix of the name of every child object: `site-<owner name>`.
pub const CHILD_NAME_PREFIX: &'static str = "site-";

/// Prefix of the `app` label value: `dummysite-<owner name>`.
pub const APP_LABEL_PREFIX: &'static str = "dummysite-";

pub const APP_LABEL_KEY: &'static str = "app";

pub const OWNER_LABEL_KEY: &'static str = "dummysite";

pub const MANAGED_BY_LABEL_KEY: &'static str = "managed-by";

/// The field-manager identity under which every patch is applied.
pub const FIELD_MANAGER: &'static str = "dummysite-controller";

pub const CONTAINER_NAME: &'static str = "nginx";

pub const CONTAINER_IMAGE: &'static str = "nginx:alpine";

pub const SHELL: &'static str = "/bin/sh";

pub const SHELL_COMMAND_FLAG: &'static str = "-c";

/// Start of the shell line that fetches the site into nginx's static root.
pub const FETCH_PREFIX: &'static str = "wget -O /usr/share/nginx/html/index.html '";

/// End of the shell line: after the fetch, nginx serves in the foreground.
pub const FETCH_SUFFIX: &'static str = "' && nginx -g 'daemon off;'";

pub const SERVICE_TYPE: &'static str = "ClusterIP";

/// The port the site container listens on.
pub const SITE_PORT: i32 = 80;

/// The port the exposure offers inside the cluster.
pub const EXPOSURE_PORT: i32 = 80;

pub const WORKLOAD_REPLICAS: i32 = 1;

/// A label set as an ordered list of (key, value) pairs.
pub type LabelsView = Seq<(Seq<char>, Seq<char>)>;

/// The value that a label set gives to `key`: its first entry under that key.
pub open spec fn label_lookup(s: LabelsView, key: Seq<char>) -> Option<Seq<char>>
    decreases s.len(),
{
    if s.len() == 0 {
        None
    } else if s[0].0 == key {
        Some(s[0].1)
    } else {
        label_lookup(s.drop_first(), key)
    }
}

/// Derived name of both child objects of the owner `name`.
pub open spec fn derived_name(name: Seq<char>) -> Seq<char> {
    CHILD_NAME_PREFIX@ + name
}

/// The labels that mark an object as belonging to the owner `name`.
pub open spec fn owner_labels(name: Seq<char>) -> LabelsView {
    seq![
        (APP_LABEL_KEY@, APP_LABEL_PREFIX@ + name),
        (OWNER_LABEL_KEY@, name),
        (MANAGED_BY_LABEL_KEY@, FIELD_MANAGER@),
    ]
}

/// The shell line that fetches `url` into the static root and then serves it.
pub open spec fn fetch_command(url: Seq<char>) -> Seq<char> {
    FETCH_PREFIX@ + url + FETCH_SUFFIX@
}

/// A set of labels, kept in the order in which they were added.
pub struct Labels {
    entries: Vec<(String, String)>,
}

impl View for Labels {
    type V = LabelsView;

    closed spec fn view(&self) -> LabelsView {
        self.entries@.map_values(|e: (String, String)| (e.0@, e.1@))
    }
}

impl Labels {
    pub fn new() -> (r: Labels)
        ensures
            r@ == Seq::<(Seq<char>, Seq<char>)>::empty(),
    {
        let r = Labels { entries: Vec::new() };
        assert(r@ =~= Seq::<(Seq<char>, Seq<char>)>::empty());
        r
    }

    /// Adds an entry after those already present.
    pub fn push(&mut self, key: String, value: String)
        ensures
            final(self)@ == old(self)@.push((key@, value@)),
    {
        self.entries.push((key, value));
        assert(self@ =~= old(self)@.push((key@, value@)));
    }

    pub fn len(&self) -> (r: usize)
        ensures
            r == self@.len(),
    {
        self.entries.len()
    }

    /// The key and value of the entry at `index`.
    pub fn entry(&self, index: usize) -> (r: (&String, &String))
        requires
            index < self@.len(),
        ensures
            (r.0@, r.1@) == self@[index as int],
    {
        let e = &self.entries[index];
        (&e.0, &e.1)
    }

    /// The value of `key`, if the set has it.
    pub fn get(&self, key: &str) -> (r: Option<&String>)
        ensures
            match r {
                Some(v) => label_lookup(self@, key@) == Some(v@),
                None => label_lookup(self@, key@) is None,
            },
    {
        let k = String::from_str(key);
        let mut i: usize = 0;
        assert(self@.skip(0) =~= self@);
        while i < self.entries.len()
            invariant
                i <= self@.len(),
                k@ == key@,
                label_lookup(self@, key@) == label_lookup(self@.skip(i as int), key@),
            decreases self@.len() - i,
        {
            assert(self@.skip(i as int)[0] == self@[i as int]);
            if self.entries[i].0 == k {
                return Some(&self.entries[i].1);
            }
            assert(self@.skip(i as int).drop_first() =~= self@.skip(i + 1));
            i = i + 1;
        }
        assert(self@.skip(i as int).len() == 0);
        None
    }

    /// A copy of the label set.
    pub fn duplicate(&self) -> (r: Labels)
        ensures
            r@ == self@,
    {
        let mut r = Labels::new();
        let mut i: usize = 0;
        while i < self.entries.len()
            invariant
                i <= self@.len(),
                r@ == self@.subrange(0, i as int),
            decreases self@.len() - i,
        {
            r.push(self.entries[i].0.clone(), self.entries[i].1.clone());
            assert(self@.subrange(0, i + 1) =~= self@.subrange(0, i as int).push(self@[i as int]));
            i = i + 1;
        }
        assert(self@ =~= self@.subrange(0, i as int));
        r
    }

    /// Whether two label sets hold the same entries in the same order.
    pub fn same_as(&self, other: &Labels) -> (r: bool)
        ensures
            r == (self@ == other@),
    {
        if self.entries.len() != other.entries.len() {
            return false;
        }
        let mut i: usize = 0;
        while i < self.entries.len()
            invariant
                i <= self@.len(),
                self@.len() == other@.len(),
                self@.subrange(0, i as int) == other@.subrange(0, i as int),
            decreases self@.len() - i,
        {
            if self.entries[i].0 != other.entries[i].0 || self.entries[i].1 != other.entries[i].1 {
                assert(self@[i as int] != other@[i as int]);
                return false;
            }
            assert(self@.subrange(0, i + 1) =~= self@.subrange(0, i as int).push(self@[i as int]));
            assert(other@.subrange(0, i + 1) =~= other@.subrange(0, i as int).push(
                other@[i as int],
            ));
            i = i + 1;
        }
        assert(self@ =~= self@.subrange(0, i as int));
        assert(other@ =~= other@.subrange(0, i as int));
        true
    }
}

/// The owner labels of `name`: `app`, `dummysite` and `managed-by`.
pub fn create_labels(name: &str) -> (r: Labels)
    ensures
        r@ == owner_labels(name@),
{
    let mut labels = Labels::new();
    let mut app = String::from_str(APP_LABEL_PREFIX);
    app.append(name);
    labels.push(String::from_str(APP_LABEL_KEY), app);
    labels.push(String::from_str(OWNER_LABEL_KEY), String::from_str(name));
    labels.push(String::from_str(MANAGED_BY_LABEL_KEY), String::from_str(FIELD_MANAGER));
    assert(labels@ =~= owner_labels(name@));
    labels
}

/// The text of each string of a list.
pub open spec fn texts(v: Seq<String>) -> Seq<Seq<char>> {
    v.map_values(|s: String| s@)
}

/// Whether two lists of strings hold the same texts in the same order.
pub fn same_texts(a: &Vec<String>, b: &Vec<String>) -> (r: bool)
    ensures
        r == (texts(a@) == texts(b@)),
{
    if a.len() != b.len() {
        return false;
    }
    let mut i: usize = 0;
    while i < a.len()
        invariant
            i <= a@.len(),
            a@.len() == b@.len(),
            texts(a@).subrange(0, i as int) == texts(b@).subrange(0, i as int),
        decreases a@.len() - i,
    {
        if a[i] != b[i] {
            assert(texts(a@)[i as int] != texts(b@)[i as int]);
            return false;
        }
        assert(texts(a@).subrange(0, i + 1) =~= texts(a@).subrange(0, i as int).push(
            texts(a@)[i as int],
        ));
        assert(texts(b@).subrange(0, i + 1) =~= texts(b@).subrange(0, i as int).push(
            texts(b@)[i as int],
        ));
        i = i + 1;
    }
    assert(texts(a@) =~= texts(a@).subrange(0, i as int));
    assert(texts(b@) =~= texts(b@).subrange(0, i as int));
    true
}

/// A copy of a list of strings.
pub fn copy_texts(v: &Vec<String>) -> (r: Vec<String>)
    ensures
        texts(r@) == texts(v@),
{
    let mut r: Vec<String> = Vec::new();
    let mut i: usize = 0;
    while i < v.len()
        invariant
            i <= v@.len(),
            r@.len() == i,
            texts(r@) == texts(v@).subrange(0, i as int),
        decreases v@.len() - i,
    {
        let c = v[i].clone();
        let ghost before = r@;
        r.push(c);
        assert(r@ == before.push(c));
        assert(texts(r@)[i as int] == c@);
        assert(texts(r@) =~= texts(v@).subrange(0, i + 1));
        i = i + 1;
    }
    assert(texts(v@) =~= texts(v@).subrange(0, i as int));
    r
}

/// What a container of the workload runs.
pub struct ContainerView {
    pub name: Seq<char>,
    pub image: Seq<char>,
    pub port: i32,
    pub command: Seq<Seq<char>>,
    pub args: Seq<Seq<char>>,
}

/// The single container of a site: fetch `url`, then serve it on the site port.
pub open spec fn site_container(url: Seq<char>) -> ContainerView {
    ContainerView {
        name: CONTAINER_NAME@,
        image: CONTAINER_IMAGE@,
        port: SITE_PORT,
        command: seq![SHELL@],
        args: seq![SHELL_COMMAND_FLAG@, fetch_command(url)],
    }
}

/// The container of the workload that serves a site.
pub struct ContainerSpec {
    pub name: String,
    pub image: String,
    pub port: i32,
    pub command: Vec<String>,
    pub args: Vec<String>,
}

impl View for ContainerSpec {
    type V = ContainerView;

    open spec fn view(&self) -> ContainerView {
        ContainerView {
            name: self.name@,
            image: self.image@,
            port: self.port,
            command: texts(self.command@),
            args: texts(self.args@),
        }
    }
}

impl ContainerSpec {
    pub fn duplicate(&self) -> (r: ContainerSpec)
        ensures
            r@ == self@,
    {
        ContainerSpec {
            name: self.name.clone(),
            image: self.image.clone(),
            port: self.port,
            command: copy_texts(&self.command),
            args: copy_texts(&self.args),
        }
    }

    pub fn same_as(&self, other: &ContainerSpec) -> (r: bool)
        ensures
            r == (self@ == other@),
    {
        self.name == other.name && self.image == other.image && self.port == other.port
            && same_texts(&self.command, &other.command) && same_texts(&self.args, &other.args)
    }
}

/// The workload child of a site, as this controller declares it.
pub struct WorkloadView {
    pub name: Seq<char>,
    pub namespace: Seq<char>,
    pub labels: LabelsView,
    pub replicas: i32,
    pub selector: LabelsView,
    pub template_labels: LabelsView,
    pub container: ContainerView,
}

/// The exposure child of a site, as this controller declares it.
pub struct ExposureView {
    pub name: Seq<char>,
    pub namespace: Seq<char>,
    pub labels: LabelsView,
    pub selector: LabelsView,
    pub port: i32,
    pub target_port: i32,
    pub service_type: Seq<char>,
}

pub enum ManifestView {
    Workload(WorkloadView),
    Exposure(ExposureView),
}

impl ManifestView {
    pub open spec fn name(self) -> Seq<char> {
        match self {
            ManifestView::Workload(w) => w.name,
            ManifestView::Exposure(e) => e.name,
        }
    }

    pub open spec fn namespace(self) -> Seq<char> {
        match self {
            ManifestView::Workload(w) => w.namespace,
            ManifestView::Exposure(e) => e.namespace,
        }
    }

    pub open spec fn kind(self) -> ChildKind {
        match self {
            ManifestView::Workload(_) => ChildKind::Workload,
            ManifestView::Exposure(_) => ChildKind::Exposure,
        }
    }
}

/// The workload that serves the site at `url` for the owner `name`.
pub open spec fn desired_workload(url: Seq<char>, namespace: Seq<char>, name: Seq<char>) -> WorkloadView {
    WorkloadView {
        name: derived_name(name),
        namespace,
        labels: owner_labels(name),
        replicas: WORKLOAD_REPLICAS,
        selector: owner_labels(name),
        template_labels: owner_labels(name),
        container: site_container(url),
    }
}

/// The cluster-internal exposure of the owner `name`'s workload.
pub open spec fn desired_exposure(namespace: Seq<char>, name: Seq<char>) -> ExposureView {
    ExposureView {
        name: derived_name(name),
        namespace,
        labels: owner_labels(name),
        selector: owner_labels(name),
        port: EXPOSURE_PORT,
        target_port: SITE_PORT,
        service_type: SERVICE_TYPE@,
    }
}

/// The child manifests of a site, in the order in which they are applied.
pub open spec fn desired_manifests(url: Seq<char>, namespace: Seq<char>, name: Seq<char>) -> Seq<
    ManifestView,
> {
    seq![
        ManifestView::Workload(desired_workload(url, namespace, name)),
        ManifestView::Exposure(desired_exposure(namespace, name)),
    ]
}

/// The two kinds of child object.
#[derive(Debug, Clone, Copy, PartialEq, Eq, Structural)]
pub enum ChildKind {
    Workload,
    Exposure,
}

/// The workload child: one replica of the site container.
pub struct WorkloadManifest {
    pub name: String,
    pub namespace: String,
    pub labels: Labels,
    pub replicas: i32,
    pub selector: Labels,
    pub template_labels: Labels,
    pub container: ContainerSpec,
}

impl View for WorkloadManifest {
    type V = WorkloadView;

    open spec fn view(&self) -> WorkloadView {
        WorkloadView {
            name: self.name@,
            namespace: self.namespace@,
            labels: self.labels@,
            replicas: self.replicas,
            selector: self.selector@,
            template_labels: self.template_labels@,
            container: self.container@,
        }
    }
}

/// The exposure child: a cluster-internal port that selects the workload.
pub struct ExposureManifest {
    pub name: String,
    pub namespace: String,
    pub labels: Labels,
    pub selector: Labels,
    pub port: i32,
    pub target_port: i32,
    pub service_type: String,
}

impl View for ExposureManifest {
    type V = ExposureView;

    open spec fn view(&self) -> ExposureView {
        ExposureView {
            name: self.name@,
            namespace: self.namespace@,
            labels: self.labels@,
            selector: self.selector@,
            port: self.port,
            target_port: self.target_port,
            service_type: self.service_type@,
        }
    }
}

/// One child manifest.
pub enum DesiredManifest {
    Workload(WorkloadManifest),
    Exposure(ExposureManifest),
}

impl View for DesiredManifest {
    type V = ManifestView;

    open spec fn view(&self) -> ManifestView {
        match self {
            DesiredManifest::Workload(w) => ManifestView::Workload(w@),
            DesiredManifest::Exposure(e) => ManifestView::Exposure(e@),
        }
    }
}

/// The view of each manifest of a list.
pub open spec fn manifests_view(v: Seq<DesiredManifest>) -> Seq<ManifestView> {
    v.map_values(|m: DesiredManifest| m@)
}

impl DesiredManifest {
    /// A copy of the manifest.
    pub fn duplicate(&self) -> (r: DesiredManifest)
        ensures
            r@ == self@,
    {
        match self {
            DesiredManifest::Workload(w) => DesiredManifest::Workload(
                WorkloadManifest {
                    name: w.name.clone(),
                    namespace: w.namespace.clone(),
                    labels: w.labels.duplicate(),
                    replicas: w.replicas,
                    selector: w.selector.duplicate(),
                    template_labels: w.template_labels.duplicate(),
                    container: w.container.duplicate(),
                },
            ),
            DesiredManifest::Exposure(e) => DesiredManifest::Exposure(
                ExposureManifest {
                    name: e.name.clone(),
                    namespace: e.namespace.clone(),
                    labels: e.labels.duplicate(),
                    selector: e.selector.duplicate(),
                    port: e.port,
                    target_port: e.target_port,
                    service_type: e.service_type.clone(),
                },
            ),
        }
    }

    pub fn kind(&self) -> (r: ChildKind)
        ensures
            r == self@.kind(),
    {
        match self {
            DesiredManifest::Workload(_) => ChildKind::Workload,
            DesiredManifest::Exposure(_) => ChildKind::Exposure,
        }
    }

    pub fn name(&self) -> (r: &String)
        ensures
            r@ == self@.name(),
    {
        match self {
            DesiredManifest::Workload(w) => &w.name,
            DesiredManifest::Exposure(e) => &e.name,
        }
    }

    pub fn namespace(&self) -> (r: &String)
        ensures
            r@ == self@.namespace(),
    {
        match self {
            DesiredManifest::Workload(w) => &w.namespace,
            DesiredManifest::Exposure(e) => &e.namespace,
        }
    }

    /// Whether two manifests declare exactly the same fields.
    pub fn same_as(&self, other: &DesiredManifest) -> (r: bool)
        ensures
            r == (self@ == other@),
    {
        match (self, other) {
            (DesiredManifest::Workload(a), DesiredManifest::Workload(b)) => {
                a.name == b.name && a.namespace == b.namespace && a.labels.same_as(&b.labels)
                    && a.replicas == b.replicas && a.selector.same_as(&b.selector)
                    && a.template_labels.same_as(&b.template_labels) && a.container.same_as(
                    &b.container,
                )
            },
            (DesiredManifest::Exposure(a), DesiredManifest::Exposure(b)) => {
                a.name == b.name && a.namespace == b.namespace && a.labels.same_as(&b.labels)
                    && a.selector.same_as(&b.selector) && a.port == b.port && a.target_port
                    == b.target_port && a.service_type == b.service_type
            },
            _ => false,
        }
    }
}

/// The name shared by both children of the owner `name`.
pub fn child_name(name: &str) -> (r: String)
    ensures
        r@ == derived_name(name@),
{
    let mut r = String::from_str(CHILD_NAME_PREFIX);
    r.append(name);
    r
}

/// The container that fetches `website_url` into the static root and serves it.
pub fn build_pod_spec(website_url: &str) -> (r: ContainerSpec)
    ensures
        r@ == site_container(website_url@),
{
    let mut line = String::from_str(FETCH_PREFIX);
    line.append(website_url);
    line.append(FETCH_SUFFIX);
    let mut command: Vec<String> = Vec::new();
    command.push(String::from_str(SHELL));
    let mut args: Vec<String> = Vec::new();
    args.push(String::from_str(SHELL_COMMAND_FLAG));
    args.push(line);
    let r = ContainerSpec {
        name: String::from_str(CONTAINER_NAME),
        image: String::from_str(CONTAINER_IMAGE),
        port: SITE_PORT,
        command,
        args,
    };
    assert(r@.command =~= site_container(website_url@).command);
    assert(r@.args =~= site_container(website_url@).args);
    r
}

/// The workload that serves `website_url` for the owner `name` in `namespace`.
fn build_workload(website_url: &str, namespace: &str, name: &str) -> (r: WorkloadManifest)
    ensures
        r@ == desired_workload(website_url@, namespace@, name@),
{
    WorkloadManifest {
        name: child_name(name),
        namespace: String::from_str(namespace),
        labels: create_labels(name),
        replicas: WORKLOAD_REPLICAS,
        selector: create_labels(name),
        template_labels: create_labels(name),
        container: build_pod_spec(website_url),
    }
}

/// The workload manifest of `dummysite`, named after `name` in `namespace`.
pub fn build_deployment(dummysite: &DummySite, namespace: &str, name: &str) -> (r: WorkloadManifest)
    ensures
        r@ == desired_workload(dummysite.spec.website_url@, namespace@, name@),
{
    build_workload(dummysite.spec.website_url.as_str(), namespace, name)
}

/// The exposure manifest of the owner `name` in `namespace`.
pub fn build_service(namespace: &str, name: &str) -> (r: ExposureManifest)
    ensures
        r@ == desired_exposure(namespace@, name@),
{
    ExposureManifest {
        name: child_name(name),
        namespace: String::from_str(namespace),
        labels: create_labels(name),
        selector: create_labels(name),
        port: EXPOSURE_PORT,
        target_port: SITE_PORT,
        service_type: String::from_str(SERVICE_TYPE),
    }
}

/// All child manifests of a site with `spec`, in the order of application:
/// the workload first, then its exposure.
pub fn build(spec: &DummySiteSpec, namespace: &str, name: &str) -> (r: Vec<DesiredManifest>)
    ensures
        manifests_view(r@) == desired_manifests(spec.website_url@, namespace@, name@),
{
    let workload = build_workload(spec.website_url.as_str(), namespace, name);
    let mut r: Vec<DesiredManifest> = Vec::new();
    r.push(DesiredManifest::Workload(workload));
    r.push(DesiredManifest::Exposure(build_service(namespace, name)));
    assert(manifests_view(r@) =~= desired_manifests(spec.website_url@, namespace@, name@));
    r
}

/// Building is deterministic: two builds from the same spec, namespace and
/// name yield manifests that are equal field for field.
pub proof fn lemma_build_deterministic(
    url: Seq<char>,
    namespace: Seq<char>,
    name: Seq<char>,
    first: Seq<DesiredManifest>,
    second: Seq<DesiredManifest>,
)
    requires
        manifests_view(first) == desired_manifests(url, namespace, name),
        manifests_view(second) == desired_manifests(url, namespace, name),
    ensures
        first.len() == second.len(),
        forall|i: int| 0 <= i < first.len() ==> #[trigger] first[i]@ == second[i]@,
{
    assert(manifests_view(first).len() == first.len());
    assert(manifests_view(second).len() == second.len());
    assert forall|i: int| 0 <= i < first.len() implies #[trigger] first[i]@ == second[i]@ by {
        assert(manifests_view(first)[i] == first[i]@);
        assert(manifests_view(second)[i] == second[i]@);
    }
}

/// The exposure selects exactly the labels stamped on the workload's pod
/// template, and the workload's own selector is that same set, so traffic
/// reaches the pods that the workload runs.
pub proof fn lemma_selector_matches_template(url: Seq<char>, namespace: Seq<char>, name: Seq<char>)
    ensures
        ({
            let m = desired_manifests(url, namespace, name);
            &&& m.len() == 2
            &&& m[0] is Workload
            &&& m[1] is Exposure
            &&& m[1]->Exposure_0.selector == m[0]->Workload_0.template_labels
            &&& m[0]->Workload_0.selector == m[0]->Workload_0.template_labels
        }),
{
}

/// The owner of a child can be read back from its labels alone.
pub proof fn lemma_owner_from_labels(name: Seq<char>)
    ensures
        label_lookup(owner_labels(name), OWNER_LABEL_KEY@) == Some(name),
        label_lookup(owner_labels(name), MANAGED_BY_LABEL_KEY@) == Some(FIELD_MANAGER@),
{
    reveal_strlit("app");
    reveal_strlit("dummysite");
    reveal_strlit("managed-by");
    reveal_with_fuel(label_lookup, 3);
    let l = owner_labels(name);
    assert(l[0].0 != OWNER_LABEL_KEY@) by {
        assert(l[0].0[0] != OWNER_LABEL_KEY@[0]);
    }
    assert(l[0].0 != MANAGED_BY_LABEL_KEY@) by {
        assert(l[0].0[0] != MANAGED_BY_LABEL_KEY@[0]);
    }
    assert(l[1].0 != MANAGED_BY_LABEL_KEY@) by {
        assert(l[1].0[0] != MANAGED_BY_LABEL_KEY@[0]);
    }
    assert(l.drop_first()[0] == l[1]);
    assert(l.drop_first().drop_first()[0] == l[2]);
}

} // verus!
