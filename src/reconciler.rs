use vstd::prelude::*;

use crate::crd::{DummySite, ObjectRef};
use crate::error::{Error, StoreError};
use crate::policy::{
    classify, converged_outcome, failure_outcome, outcome_of_error, requeue_delay,
    ReconcileOutcome, STEADY_REQUEUE_SECS,
};
use crate::resources::{build, desired_manifests, manifests_view, DesiredManifest, ManifestView};
use crate::store::AppliedState;

verus! {

/// The children that the site `s` should have, or the error that makes it
/// malformed: a missing name first, then a missing namespace.
pub open spec fn plan_of(s: DummySite) -> Result<Seq<ManifestView>, Error> {
    if s.metadata.name is None {
        Err(Error::MissingName)
    } else if s.metadata.namespace is None {
        Err(Error::MissingNamespace)
    } else {
        Ok(
            desired_manifests(
                s.spec.website_url@,
                s.metadata.namespace->Some_0@,
                s.metadata.name->Some_0@,
            ),
        )
    }
}

/// How a pass ends right after its fetch, or `None` when it goes on to apply.
/// An object that is gone ends the pass quietly; a failed read is transient.
pub open spec fn outcome_after_fetch(fetched: Result<Option<DummySite>, StoreError>) -> Option<
    ReconcileOutcome,
> {
    match fetched {
        Ok(None) => Some(ReconcileOutcome::Converged { requeue_after: None }),
        Err(StoreError::NotFound) => Some(ReconcileOutcome::Converged { requeue_after: None }),
        Err(e) => Some(failure_outcome(Error::Kube(e))),
        Ok(Some(s)) => match plan_of(s) {
            Err(e) => Some(failure_outcome(e)),
            Ok(_) => None,
        },
    }
}

/// Where a reconciliation pass stands.
#[derive(Debug, Clone, Copy, PartialEq, Eq, Structural)]
pub enum PassPhase {
    /// Waiting for the read of the custom resource.
    Fetching,
    /// Waiting for the result of applying manifest `next` of the plan.
    Applying { next: usize },
    /// The pass has emitted its outcome.
    Done,
}

/// What the caller must do next for the pass.
#[derive(Debug, Clone, Copy, PartialEq, Eq)]
pub enum Command {
    /// Read the custom resource named by the pass's target.
    Fetch,
    /// Apply manifest `index` of the pass's plan.
    Apply { index: usize },
    /// The pass is over with this outcome.
    Finish(ReconcileOutcome),
}

/// The controller's decisions for one `DummySite` object.
pub struct Reconciler;

impl Reconciler {
    /// The child manifests of `dummysite`, in the order of application, or
    /// the error that marks it malformed.
    pub fn reconcile(dummysite: &DummySite) -> (r: Result<Vec<DesiredManifest>, Error>)
        ensures
            match r {
                Ok(plan) => plan_of(*dummysite) == Ok::<Seq<ManifestView>, Error>(
                    manifests_view(plan@),
                ),
                Err(e) => plan_of(*dummysite) == Err::<Seq<ManifestView>, Error>(e),
            },
    {
        let name = match dummysite.name() {
            Ok(n) => n,
            Err(e) => return Err(e),
        };
        let namespace = match dummysite.namespace() {
            Ok(n) => n,
            Err(e) => return Err(e),
        };
        Ok(build(&dummysite.spec, namespace.as_str(), name.as_str()))
    }

    /// When to retry after a pass failed on `error`, in seconds; `None` for
    /// an error that retrying cannot cure.
    pub fn error_policy(error: &Error) -> (r: Option<u64>)
        ensures
            r == requeue_delay(failure_outcome(*error)),
    {
        classify(&outcome_of_error(*error))
    }
}

/// One reconciliation pass of one object: fetch, build, then apply each
/// child in order, stopping at the first failure.
pub struct ReconcilePass {
    target: ObjectRef,
    phase: PassPhase,
    plan: Vec<DesiredManifest>,
    outcome: Option<ReconcileOutcome>,
    /// How many manifests of the plan were applied successfully in this pass.
    applied: Ghost<nat>,
}

impl ReconcilePass {
    pub closed spec fn target_view(&self) -> (Seq<char>, Seq<char>) {
        self.target@
    }

    pub closed spec fn phase_view(&self) -> PassPhase {
        self.phase
    }

    pub closed spec fn plan_view(&self) -> Seq<ManifestView> {
        manifests_view(self.plan@)
    }

    pub closed spec fn outcome_view(&self) -> Option<ReconcileOutcome> {
        self.outcome
    }

    /// How many manifests of the plan this pass has applied successfully.
    pub closed spec fn applied_view(&self) -> nat {
        self.applied@
    }

    /// A pass that has not yet fetched holds no plan; one that applies has
    /// the position of a manifest of its plan.
    pub closed spec fn wf(&self) -> bool {
        &&& self.phase is Fetching ==> self.plan@.len() == 0
        &&& self.phase matches PassPhase::Applying { next } ==> next < self.plan@.len()
        &&& self.phase is Done <==> self.outcome is Some
        &&& self.plan@.len() == 0 || self.plan@.len() == 2
        &&& self.phase is Fetching ==> self.applied@ == 0
        &&& self.phase matches PassPhase::Applying { next } ==> self.applied@ == next
        &&& self.outcome == Some(converged_outcome()) ==> self.applied@ == self.plan@.len()
            && self.plan@.len() > 0
    }

    /// A new pass for `target`; the caller's first task is to fetch it.
    pub fn new(target: ObjectRef) -> (r: (ReconcilePass, Command))
        ensures
            r.0.wf(),
            r.0.target_view() == target@,
            r.0.phase_view() == PassPhase::Fetching,
            r.0.outcome_view() is None,
            r.0.applied_view() == 0,
            r.1 == Command::Fetch,
    {
        (
            ReconcilePass {
                target,
                phase: PassPhase::Fetching,
                plan: Vec::new(),
                outcome: None,
                applied: Ghost(0),
            },
            Command::Fetch,
        )
    }

    pub fn target(&self) -> (r: &ObjectRef)
        ensures
            r@ == self.target_view(),
    {
        &self.target
    }

    pub fn phase(&self) -> (r: PassPhase)
        ensures
            r == self.phase_view(),
    {
        self.phase
    }

    pub fn outcome(&self) -> (r: Option<ReconcileOutcome>)
        ensures
            r == self.outcome_view(),
    {
        self.outcome
    }

    pub fn plan_len(&self) -> (r: usize)
        ensures
            r == self.plan_view().len(),
    {
        self.plan.len()
    }

    /// Manifest `index` of the plan.
    pub fn manifest(&self, index: usize) -> (r: &DesiredManifest)
        requires
            index < self.plan_view().len(),
        ensures
            r@ == self.plan_view()[index as int],
    {
        &self.plan[index]
    }

    fn finish(&mut self, o: ReconcileOutcome) -> (r: Command)
        ensures
            final(self).target == old(self).target,
            final(self).applied == old(self).applied,
            final(self).plan@ == old(self).plan@,
            final(self).phase == PassPhase::Done,
            final(self).outcome == Some(o),
            r == Command::Finish(o),
    {
        self.phase = PassPhase::Done;
        self.outcome = Some(o);
        Command::Finish(o)
    }

    /// Takes the result of reading the target and decides the next step.
    pub fn on_fetched(&mut self, fetched: Result<Option<DummySite>, StoreError>) -> (r: Command)
        requires
            old(self).wf(),
            old(self).phase_view() == PassPhase::Fetching,
        ensures
            final(self).wf(),
            final(self).target_view() == old(self).target_view(),
            final(self).applied_view() == 0,
            match outcome_after_fetch(fetched) {
                Some(o) => {
                    &&& r == Command::Finish(o)
                    &&& final(self).phase_view() == PassPhase::Done
                    &&& final(self).outcome_view() == Some(o)
                },
                None => {
                    &&& r == (Command::Apply { index: 0 })
                    &&& final(self).phase_view() == (PassPhase::Applying { next: 0 })
                    &&& fetched matches Ok(Some(s)) && plan_of(s) == Ok::<
                        Seq<ManifestView>,
                        Error,
                    >(final(self).plan_view())
                },
            },
    {
        match fetched {
            Ok(Some(site)) => {
                match Reconciler::reconcile(&site) {
                    Ok(plan) => {
                        assert(manifests_view(plan@).len() == plan@.len());
                        self.plan = plan;
                        self.phase = PassPhase::Applying { next: 0 };
                        Command::Apply { index: 0 }
                    },
                    Err(e) => self.finish(outcome_of_error(e)),
                }
            },
            Ok(None) => self.finish(ReconcileOutcome::Converged { requeue_after: None }),
            Err(StoreError::NotFound) => self.finish(
                ReconcileOutcome::Converged { requeue_after: None },
            ),
            Err(e) => self.finish(outcome_of_error(Error::Kube(e))),
        }
    }

    /// Takes the result of applying the current manifest and decides the
    /// next step: the next manifest, or the end of the pass.
    pub fn on_applied(&mut self, applied: Result<AppliedState, StoreError>) -> (r: Command)
        requires
            old(self).wf(),
            old(self).phase_view() is Applying,
        ensures
            final(self).wf(),
            final(self).target_view() == old(self).target_view(),
            final(self).plan_view() == old(self).plan_view(),
            final(self).applied_view() == old(self).applied_view() + if applied is Ok {
                1nat
            } else {
                0nat
            },
            ({
                let next = old(self).phase_view()->Applying_next;
                match applied {
                    Err(e) => {
                        &&& r == Command::Finish(failure_outcome(Error::Kube(e)))
                        &&& final(self).phase_view() == PassPhase::Done
                        &&& final(self).outcome_view() == Some(failure_outcome(Error::Kube(e)))
                    },
                    Ok(_) => if next + 1 < old(self).plan_view().len() {
                        &&& r == (Command::Apply { index: (next + 1) as usize })
                        &&& final(self).phase_view() == (PassPhase::Applying {
                            next: (next + 1) as usize,
                        })
                        &&& final(self).outcome_view() is None
                    } else {
                        &&& r == Command::Finish(converged_outcome())
                        &&& final(self).phase_view() == PassPhase::Done
                        &&& final(self).outcome_view() == Some(converged_outcome())
                    },
                }
            }),
    {
        let next = match self.phase {
            PassPhase::Applying { next } => next,
            _ => 0,
        };
        match applied {
            Err(e) => self.finish(outcome_of_error(Error::Kube(e))),
            Ok(_) => {
                let len = self.plan.len();
                self.applied = Ghost(self.applied@ + 1);
                if next + 1 < len {
                    self.phase = PassPhase::Applying { next: next + 1 };
                    Command::Apply { index: next + 1 }
                } else {
                    self.finish(
                        ReconcileOutcome::Converged { requeue_after: Some(STEADY_REQUEUE_SECS) },
                    )
                }
            },
        }
    }
}

/// A pass that ends converged has applied every manifest of its plan, the
/// workload and the exposure, in that pass.
pub proof fn lemma_converged_pass_applied_every_child(pass: ReconcilePass)
    requires
        pass.wf(),
        pass.outcome_view() == Some(converged_outcome()),
    ensures
        pass.plan_view().len() == 2,
        pass.applied_view() == pass.plan_view().len(),
{
    assert(manifests_view(pass.plan@).len() == pass.plan@.len());
}

} // verus!
