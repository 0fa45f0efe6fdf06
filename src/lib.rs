//! A level-triggered controller that keeps a web-site workload and its
//! network exposure converged with a `DummySite` custom resource.
//!
//! The library holds the controller's decisions: the desired-state builder,
//! the reconciliation state machine, the backoff policy, the work queue and a
//! model of server-side apply. Talking to the cluster is left to the caller.
//!
//! Module `todo` holds the rules of the companion todo application: which
//! todo texts are accepted, how todos render as HTML, and how changes are
//! announced.

pub mod crd;
pub mod error;
pub mod policy;
pub mod queue;
pub mod reconciler;
pub mod resources;
pub mod store;
pub mod todo;

pub use crd::{DummySite, DummySiteSpec, ObjectMeta, ObjectRef};
pub use error::{Error, StoreError};
pub use policy::{classify, ReconcileOutcome};
pub use queue::WorkQueue;
pub use reconciler::{Command, PassPhase, ReconcilePass, Reconciler};
pub use resources::{build, build_deployment, build_service, create_labels, DesiredManifest};
pub use store::{AppliedState, ObjectStore, PatchReport};
pub use todo::{CreateTodo, Todo};
