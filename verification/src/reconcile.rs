//! The pure decisions of the Existence Reconciler and of the lifecycle
//! operations: what follows from a catalog fetch, from a backend probe, and
//! from a reconciliation outcome. Whoever performs the store calls — the
//! executable model in this crate or an HTTP layer around it — acts on these
//! deciders between the calls.

use vstd::prelude::*;

use crate::catalog::contains_name;
use crate::catalog::distinct_names;
use crate::catalog::insert_name;
use crate::catalog::name_set;
use crate::errors::ApiError;

verus! {

/// What reconciliation found. The found cases carry the owner's current list
/// so the caller can mutate and re-save it without a second read.
pub enum Outcome {
    /// The owner has no catalog document.
    OwnerNotFound,
    /// The owner exists and the resource is in neither catalog nor backend.
    ResourceNotFound(Vec<String>),
    /// The resource is listed in the catalog or present in the backend.
    ResourceExists(Vec<String>),
}

/// The decision after the catalog fetch alone: settled, or the backend must
/// be probed for the qualified name.
pub enum ReconcileStep {
    Settled(Outcome),
    Probe(Vec<String>),
}

/// First reconciliation phase. A missing document settles `OwnerNotFound`
/// with no backend call; a list that already holds the resource settles
/// `ResourceExists` from the catalog alone (the fast path); otherwise the
/// backend must be probed.
pub fn classify_catalog(catalog: Option<Vec<String>>, resource: &String) -> (r: ReconcileStep)
    ensures
        (catalog is None <==> r matches ReconcileStep::Settled(Outcome::OwnerNotFound)),
        (catalog matches Some(l) ==> ({
            if name_set(l@).contains(resource@) {
                r matches ReconcileStep::Settled(Outcome::ResourceExists(l2)) && l2 == l
            } else {
                r matches ReconcileStep::Probe(l2) && l2 == l
            }
        })),
{
    match catalog {
        None => ReconcileStep::Settled(Outcome::OwnerNotFound),
        Some(l) => {
            if contains_name(&l, resource) {
                ReconcileStep::Settled(Outcome::ResourceExists(l))
            } else {
                ReconcileStep::Probe(l)
            }
        },
    }
}

/// Second reconciliation phase: the backend's answer for the qualified name
/// — the ground truth — decides between existence and absence.
pub fn classify_probe(resources: Vec<String>, present: bool) -> (r: Outcome)
    ensures
        (present ==> (r matches Outcome::ResourceExists(l) && l == resources)),
        (!present ==> (r matches Outcome::ResourceNotFound(l) && l == resources)),
{
    if present {
        Outcome::ResourceExists(resources)
    } else {
        Outcome::ResourceNotFound(resources)
    }
}

/// What a create does next: reject with the exact error, or commit the
/// carried list with the resource inserted.
pub enum CreatePlan {
    Reject(ApiError),
    Commit(Vec<String>),
}

/// The create decision on a reconciliation outcome: an existing resource is
/// a conflict, a missing owner cannot receive resources, and only a clear
/// `ResourceNotFound` commits.
pub fn plan_create(outcome: Outcome, owner: &String, resource: &String) -> (r: CreatePlan)
    requires
        (outcome matches Outcome::ResourceNotFound(l) ==> distinct_names(l@)),
    ensures
        (outcome matches Outcome::OwnerNotFound ==> (r matches CreatePlan::Reject(e) && e matches
        ApiError::OwnerNotFound(n) && n@ == owner@)),
        (outcome matches Outcome::ResourceExists(_) ==> (r matches CreatePlan::Reject(e)
            && e matches ApiError::ResourceExists(n) && n@ == resource@)),
        (outcome matches Outcome::ResourceNotFound(l) ==> (r matches CreatePlan::Commit(l2)
            && name_set(l2@) == name_set(l@).insert(resource@) && distinct_names(l2@))),
{
    match outcome {
        Outcome::OwnerNotFound => CreatePlan::Reject(ApiError::OwnerNotFound(owner.clone())),
        Outcome::ResourceExists(_) => CreatePlan::Reject(
            ApiError::ResourceExists(resource.clone()),
        ),
        Outcome::ResourceNotFound(mut l) => {
            insert_name(&mut l, resource.clone());
            CreatePlan::Commit(l)
        },
    }
}

/// What a delete does next: reject with the exact error, or carry the list
/// on towards the backend delete.
pub enum DeletePlan {
    Reject(ApiError),
    Commit(Vec<String>),
}

/// The delete decision on a reconciliation outcome: deleting what exists
/// nowhere is always rejected, never silently accepted.
pub fn plan_delete(outcome: Outcome, owner: &String, resource: &String) -> (r: DeletePlan)
    ensures
        (outcome matches Outcome::OwnerNotFound ==> (r matches DeletePlan::Reject(e) && e matches
        ApiError::OwnerNotFound(n) && n@ == owner@)),
        (outcome matches Outcome::ResourceNotFound(_) ==> (r matches DeletePlan::Reject(e)
            && e matches ApiError::ResourceNotFound(n) && n@ == resource@)),
        (outcome matches Outcome::ResourceExists(l) ==> (r matches DeletePlan::Commit(l2) && l2
            == l)),
{
    match outcome {
        Outcome::OwnerNotFound => DeletePlan::Reject(ApiError::OwnerNotFound(owner.clone())),
        Outcome::ResourceNotFound(_) => DeletePlan::Reject(
            ApiError::ResourceNotFound(resource.clone()),
        ),
        Outcome::ResourceExists(l) => DeletePlan::Commit(l),
    }
}

} // verus!
