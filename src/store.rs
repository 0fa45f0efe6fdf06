use vstd::prelude::*;

use crate::resources::{desired_manifests, ChildKind, DesiredManifest, ManifestView};

verus! {

/// Identity of a child object in the store: kind, namespace and name.
pub type ObjectKey = (ChildKind, Seq<char>, Seq<char>);

pub open spec fn key_of(m: ManifestView) -> ObjectKey {
    (m.kind(), m.namespace(), m.name())
}

/// What the store reports of an object after a patch.
#[derive(Debug, Clone, Copy, PartialEq, Eq, Structural)]
pub struct AppliedState {
    /// Counts the changes made to the object's declared fields; a patch that
    /// changes nothing leaves it as it was.
    pub generation: i64,
}

/// The outcome of one apply: the object's state and whether the patch changed it.
#[derive(Debug, Clone, Copy, PartialEq, Eq, Structural)]
pub struct PatchReport {
    pub state: AppliedState,
    pub changed: bool,
}

/// One stored object: the fields last applied under the controller's field
/// manager, and its generation.
pub struct StoredView {
    pub manifest: ManifestView,
    pub generation: i64,
}

pub open spec fn holds_key(s: Seq<StoredView>, k: ObjectKey, i: int) -> bool {
    0 <= i < s.len() && key_of(s[i].manifest) == k
}

/// No two stored objects share an identity.
pub open spec fn keys_unique(s: Seq<StoredView>) -> bool {
    forall|i: int, j: int|
        holds_key(s, key_of(s[i].manifest), i) && #[trigger] holds_key(s, key_of(s[i].manifest), j)
            ==> i == j
}

pub open spec fn stored(s: Seq<StoredView>, k: ObjectKey) -> bool {
    exists|i: int| holds_key(s, k, i)
}

/// Position of the object with identity `k`, when it is stored.
pub open spec fn index_of(s: Seq<StoredView>, k: ObjectKey) -> int {
    choose|i: int| holds_key(s, k, i)
}

/// The generation that follows `g`; it stays at the largest value once there.
pub open spec fn next_generation(g: i64) -> i64 {
    if g < i64::MAX {
        (g + 1) as i64
    } else {
        g
    }
}

/// The generation of an object when it is first created.
pub const FIRST_GENERATION: i64 = 1;

/// Server-side apply of `m` to the store `s`: the declared fields replace
/// those last applied, other objects are left as they are, and the object
/// changes (and its generation advances) only where the fields differ.
pub open spec fn apply_spec(s: Seq<StoredView>, m: ManifestView) -> (
    Seq<StoredView>,
    PatchReport,
) {
    let k = key_of(m);
    if stored(s, k) {
        let i = index_of(s, k);
        if s[i].manifest == m {
            (s, PatchReport { state: AppliedState { generation: s[i].generation }, changed: false })
        } else {
            let g = next_generation(s[i].generation);
            (
                s.update(i, StoredView { manifest: m, generation: g }),
                PatchReport { state: AppliedState { generation: g }, changed: true },
            )
        }
    } else {
        (
            s.push(StoredView { manifest: m, generation: FIRST_GENERATION }),
            PatchReport { state: AppliedState { generation: FIRST_GENERATION }, changed: true },
        )
    }
}

struct LiveObject {
    manifest: DesiredManifest,
    generation: i64,
}

/// An in-memory cluster store with server-side apply semantics, keyed by
/// kind, namespace and name.
pub struct ObjectStore {
    objects: Vec<LiveObject>,
}

impl View for ObjectStore {
    type V = Seq<StoredView>;

    closed spec fn view(&self) -> Seq<StoredView> {
        self.objects@.map_values(|o: LiveObject| StoredView { manifest: o.manifest@, generation: o.generation })
    }
}

impl ObjectStore {
    pub open spec fn wf(&self) -> bool {
        keys_unique(self@)
    }

    pub fn new() -> (r: ObjectStore)
        ensures
            r.wf(),
            r@ == Seq::<StoredView>::empty(),
    {
        let r = ObjectStore { objects: Vec::new() };
        assert(r@ =~= Seq::<StoredView>::empty());
        r
    }

    pub fn len(&self) -> (r: usize)
        ensures
            r == self@.len(),
    {
        self.objects.len()
    }

    /// Position of the object with the given identity.
    pub fn find(&self, kind: ChildKind, namespace: &String, name: &String) -> (r: Option<usize>)
        requires
            self.wf(),
        ensures
            match r {
                Some(i) => holds_key(self@, (kind, namespace@, name@), i as int) && i as int
                    == index_of(self@, (kind, namespace@, name@)),
                None => !stored(self@, (kind, namespace@, name@)),
            },
    {
        let ghost k = (kind, namespace@, name@);
        let mut i: usize = 0;
        while i < self.objects.len()
            invariant
                i <= self@.len(),
                k == (kind, namespace@, name@),
                keys_unique(self@),
                forall|j: int| 0 <= j < i ==> !holds_key(self@, k, j),
            decreases self@.len() - i,
        {
            let m = &self.objects[i].manifest;
            assert(self@[i as int].manifest == m@);
            if m.kind() == kind && m.namespace().eq(namespace) && m.name().eq(name) {
                assert(holds_key(self@, k, i as int));
                let ghost c = index_of(self@, k);
                assert(holds_key(self@, k, c));
                assert(holds_key(self@, key_of(self@[i as int].manifest), c));
                return Some(i);
            }
            i = i + 1;
        }
        None
    }

    /// The fields last applied to the object at `index`, and its generation.
    pub fn object(&self, index: usize) -> (r: (&DesiredManifest, i64))
        requires
            index < self@.len(),
        ensures
            r.0@ == self@[index as int].manifest,
            r.1 == self@[index as int].generation,
    {
        let o = &self.objects[index];
        (&o.manifest, o.generation)
    }

    /// Applies `m` under the controller's field manager.
    pub fn apply(&mut self, m: &DesiredManifest) -> (r: PatchReport)
        requires
            old(self).wf(),
        ensures
            final(self).wf(),
            (final(self)@, r) == apply_spec(old(self)@, m@),
    {
        let ghost k = key_of(m@);
        let found = self.find(m.kind(), m.namespace(), m.name());
        match found {
            Some(i) => {
                let g = self.objects[i].generation;
                assert(self@[i as int].generation == g);
                if self.objects[i].manifest.same_as(m) {
                    PatchReport { state: AppliedState { generation: g }, changed: false }
                } else {
                    let next = if g < i64::MAX {
                        g + 1
                    } else {
                        g
                    };
                    let ghost before = self@;
                    self.objects.set(i, LiveObject { manifest: m.duplicate(), generation: next });
                    assert(self@ =~= before.update(
                        i as int,
                        StoredView { manifest: m@, generation: next },
                    ));
                    assert forall|a: int, b: int|
                        holds_key(self@, key_of(self@[a].manifest), a) && #[trigger] holds_key(
                            self@,
                            key_of(self@[a].manifest),
                            b,
                        ) implies a == b by {
                        assert(key_of(self@[a].manifest) == key_of(before[a].manifest));
                        assert(holds_key(before, key_of(before[a].manifest), a));
                        assert(key_of(self@[b].manifest) == key_of(before[b].manifest));
                    }
                    PatchReport { state: AppliedState { generation: next }, changed: true }
                }
            },
            None => {
                let ghost before = self@;
                self.objects.push(LiveObject { manifest: m.duplicate(), generation: FIRST_GENERATION });
                assert(self@ =~= before.push(
                    StoredView { manifest: m@, generation: FIRST_GENERATION },
                ));
                assert forall|a: int, b: int|
                    holds_key(self@, key_of(self@[a].manifest), a) && #[trigger] holds_key(
                        self@,
                        key_of(self@[a].manifest),
                        b,
                    ) implies a == b by {
                    if a < before.len() && b < before.len() {
                        assert(holds_key(before, key_of(before[a].manifest), a));
                    } else if a < before.len() {
                        assert(holds_key(before, k, a));
                    } else if b < before.len() {
                        assert(holds_key(before, k, b));
                    }
                }
                PatchReport { state: AppliedState { generation: FIRST_GENERATION }, changed: true }
            },
        }
    }

    /// Overwrites the fields of an object as another actor would, outside
    /// the controller's field manager: the object drifts from what was applied.
    pub fn overwrite(&mut self, index: usize, m: &DesiredManifest)
        requires
            old(self).wf(),
            index < old(self)@.len(),
            key_of(m@) == key_of(old(self)@[index as int].manifest),
        ensures
            final(self).wf(),
            final(self)@ == old(self)@.update(
                index as int,
                StoredView {
                    manifest: m@,
                    generation: next_generation(old(self)@[index as int].generation),
                },
            ),
    {
        let g = self.objects[index].generation;
        let next = if g < i64::MAX {
            g + 1
        } else {
            g
        };
        let ghost before = self@;
        self.objects.set(index, LiveObject { manifest: m.duplicate(), generation: next });
        assert(self@ =~= before.update(
            index as int,
            StoredView { manifest: m@, generation: next_generation(before[index as int].generation) },
        ));
        assert forall|a: int, b: int|
            holds_key(self@, key_of(self@[a].manifest), a) && #[trigger] holds_key(
                self@,
                key_of(self@[a].manifest),
                b,
            ) implies a == b by {
            assert(key_of(self@[a].manifest) == key_of(before[a].manifest));
            assert(holds_key(before, key_of(before[a].manifest), a));
            assert(key_of(self@[b].manifest) == key_of(before[b].manifest));
        }
    }
}

/// Applying keeps the identities of the stored objects distinct.
pub proof fn lemma_apply_keeps_keys_unique(s: Seq<StoredView>, m: ManifestView)
    requires
        keys_unique(s),
    ensures
        keys_unique(apply_spec(s, m).0),
{
    let k = key_of(m);
    let s1 = apply_spec(s, m).0;
    if stored(s, k) {
        let i = index_of(s, k);
        assert(holds_key(s, k, i));
        assert forall|a: int, b: int|
            holds_key(s1, key_of(s1[a].manifest), a) && #[trigger] holds_key(
                s1,
                key_of(s1[a].manifest),
                b,
            ) implies a == b by {
            assert(key_of(s1[a].manifest) == key_of(s[a].manifest));
            assert(holds_key(s, key_of(s[a].manifest), a));
            assert(key_of(s1[b].manifest) == key_of(s[b].manifest));
        }
    } else {
        assert forall|a: int, b: int|
            holds_key(s1, key_of(s1[a].manifest), a) && #[trigger] holds_key(
                s1,
                key_of(s1[a].manifest),
                b,
            ) implies a == b by {
            if a < s.len() && b < s.len() {
                assert(holds_key(s, key_of(s[a].manifest), a));
            } else if a < s.len() {
                assert(holds_key(s, k, a));
            } else if b < s.len() {
                assert(holds_key(s, k, b));
            }
        }
    }
}

/// Applying the same manifest twice in a row: the second patch changes
/// nothing, in the store or in the state it reports.
pub proof fn lemma_apply_idempotent(s: Seq<StoredView>, m: ManifestView)
    requires
        keys_unique(s),
    ensures
        ({
            let (s1, r1) = apply_spec(s, m);
            let (s2, r2) = apply_spec(s1, m);
            &&& s2 == s1
            &&& r2.state == r1.state
            &&& !r2.changed
        }),
{
    let k = key_of(m);
    let (s1, r1) = apply_spec(s, m);
    lemma_apply_keeps_keys_unique(s, m);
    let i = if stored(s, k) {
        index_of(s, k)
    } else {
        s.len() as int
    };
    assert(holds_key(s1, k, i));
    assert(stored(s1, k));
    let j = index_of(s1, k);
    assert(holds_key(s1, key_of(s1[i].manifest), j));
    assert(j == i);
    assert(s1[i].manifest == m);
}

/// The store holds exactly the fields of `m` for `m`'s object.
pub open spec fn holds(s: Seq<StoredView>, m: ManifestView) -> bool {
    stored(s, key_of(m)) && s[index_of(s, key_of(m))].manifest == m
}

/// Applies each manifest of `ms` in order; the store after all of them and
/// the report of each.
pub open spec fn apply_all(s: Seq<StoredView>, ms: Seq<ManifestView>) -> (
    Seq<StoredView>,
    Seq<PatchReport>,
)
    decreases ms.len(),
{
    if ms.len() == 0 {
        (s, Seq::empty())
    } else {
        let (s1, r) = apply_spec(s, ms[0]);
        let (s2, rs) = apply_all(s1, ms.drop_first());
        (s2, seq![r] + rs)
    }
}

/// No two manifests of `ms` address the same object.
pub open spec fn distinct_targets(ms: Seq<ManifestView>) -> bool {
    forall|i: int, j: int|
        0 <= i < ms.len() && 0 <= j < ms.len() && i != j ==> key_of(#[trigger] ms[i]) != key_of(
            #[trigger] ms[j],
        )
}

proof fn lemma_index_is_unique(s: Seq<StoredView>, k: ObjectKey, i: int)
    requires
        keys_unique(s),
        holds_key(s, k, i),
    ensures
        stored(s, k),
        index_of(s, k) == i,
{
    let j = index_of(s, k);
    assert(holds_key(s, key_of(s[i].manifest), j));
}

/// After applying `m`, the store holds `m`; an object that the store held
/// under another identity is still held.
proof fn lemma_apply_holds(s: Seq<StoredView>, m: ManifestView, other: ManifestView)
    requires
        keys_unique(s),
    ensures
        holds(apply_spec(s, m).0, m),
        holds(s, other) && key_of(other) != key_of(m) ==> holds(apply_spec(s, m).0, other),
{
    let k = key_of(m);
    let s1 = apply_spec(s, m).0;
    lemma_apply_keeps_keys_unique(s, m);
    let i = if stored(s, k) {
        index_of(s, k)
    } else {
        s.len() as int
    };
    assert(holds_key(s1, k, i));
    lemma_index_is_unique(s1, k, i);
    if holds(s, other) && key_of(other) != k {
        let j = index_of(s, key_of(other));
        assert(holds_key(s, key_of(other), j));
        assert(s1[j] == s[j]);
        assert(holds_key(s1, key_of(other), j));
        lemma_index_is_unique(s1, key_of(other), j);
    }
}

/// Applying manifests that the store already holds changes nothing.
proof fn lemma_apply_all_held(s: Seq<StoredView>, ms: Seq<ManifestView>)
    requires
        keys_unique(s),
        forall|i: int| 0 <= i < ms.len() ==> holds(s, #[trigger] ms[i]),
    ensures
        apply_all(s, ms).0 == s,
        apply_all(s, ms).1.len() == ms.len(),
        forall|i: int| 0 <= i < ms.len() ==> !(#[trigger] apply_all(s, ms).1[i]).changed,
    decreases ms.len(),
{
    if ms.len() > 0 {
        assert(holds(s, ms[0]));
        let rest = ms.drop_first();
        assert forall|i: int| 0 <= i < rest.len() implies holds(s, #[trigger] rest[i]) by {
            assert(rest[i] == ms[i + 1]);
        }
        lemma_apply_all_held(s, rest);
        let rs = apply_all(s, ms).1;
        assert forall|i: int| 0 <= i < ms.len() implies !(#[trigger] rs[i]).changed by {
            if i > 0 {
                assert(rs[i] == apply_all(s, rest).1[i - 1]);
            }
        }
    }
}

/// After applying manifests with distinct targets, the store holds each of
/// them, and still holds what it held under other identities.
proof fn lemma_apply_all_holds(s: Seq<StoredView>, ms: Seq<ManifestView>)
    requires
        keys_unique(s),
        distinct_targets(ms),
    ensures
        keys_unique(apply_all(s, ms).0),
        forall|i: int| 0 <= i < ms.len() ==> holds(apply_all(s, ms).0, #[trigger] ms[i]),
    decreases ms.len(),
{
    if ms.len() > 0 {
        let s1 = apply_spec(s, ms[0]).0;
        let rest = ms.drop_first();
        lemma_apply_keeps_keys_unique(s, ms[0]);
        assert(distinct_targets(rest)) by {
            assert forall|i: int, j: int|
                0 <= i < rest.len() && 0 <= j < rest.len() && i != j implies key_of(
                #[trigger] rest[i],
            ) != key_of(#[trigger] rest[j]) by {
                assert(rest[i] == ms[i + 1]);
                assert(rest[j] == ms[j + 1]);
            }
        }
        lemma_apply_all_holds(s1, rest);
        lemma_apply_holds(s, ms[0], ms[0]);
        assert forall|i: int| 0 <= i < ms.len() implies holds(
            apply_all(s, ms).0,
            #[trigger] ms[i],
        ) by {
            if i > 0 {
                assert(ms[i] == rest[i - 1]);
            } else {
                lemma_apply_all_keeps(s1, rest, ms[0]);
            }
        }
    }
}

/// Applying manifests for other identities keeps what the store holds.
proof fn lemma_apply_all_keeps(s: Seq<StoredView>, ms: Seq<ManifestView>, m: ManifestView)
    requires
        keys_unique(s),
        holds(s, m),
        forall|i: int| 0 <= i < ms.len() ==> key_of(#[trigger] ms[i]) != key_of(m),
    ensures
        holds(apply_all(s, ms).0, m),
    decreases ms.len(),
{
    if ms.len() > 0 {
        let s1 = apply_spec(s, ms[0]).0;
        let rest = ms.drop_first();
        lemma_apply_keeps_keys_unique(s, ms[0]);
        lemma_apply_holds(s, ms[0], m);
        assert forall|i: int| 0 <= i < rest.len() implies key_of(#[trigger] rest[i]) != key_of(m) by {
            assert(rest[i] == ms[i + 1]);
        }
        lemma_apply_all_keeps(s1, rest, m);
    }
}

/// Reconciling a site a second time with no change in between: applying
/// its plan again changes no object and every patch reports no change.
pub proof fn lemma_second_plan_apply_is_noop(
    s: Seq<StoredView>,
    url: Seq<char>,
    namespace: Seq<char>,
    name: Seq<char>,
)
    requires
        keys_unique(s),
    ensures
        ({
            let plan = desired_manifests(url, namespace, name);
            let s1 = apply_all(s, plan).0;
            let (s2, reports) = apply_all(s1, plan);
            &&& s2 == s1
            &&& reports.len() == plan.len()
            &&& forall|i: int| 0 <= i < reports.len() ==> !(#[trigger] reports[i]).changed
        }),
{
    let plan = desired_manifests(url, namespace, name);
    assert(distinct_targets(plan)) by {
        assert(key_of(plan[0]).0 != key_of(plan[1]).0);
    }
    lemma_apply_all_holds(s, plan);
    lemma_apply_all_held(apply_all(s, plan).0, plan);
}

} // verus!
