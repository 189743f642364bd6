//! The Existence Reconciler and the Resource Lifecycle Operations over a
//! `System`: classification of the joint catalog/backend state, and the
//! create/delete operations whose write ordering keeps any divergence
//! between the two stores detectable and repairable.

use vstd::prelude::*;

use crate::catalog::distinct_names;
use crate::catalog::name_set;
use crate::catalog::remove_name;
use crate::errors::ApiError;
use crate::model::System;
use crate::reconcile::classify_catalog;
use crate::reconcile::classify_probe;
use crate::reconcile::plan_create;
use crate::reconcile::plan_delete;
use crate::reconcile::CreatePlan;
use crate::reconcile::DeletePlan;
use crate::reconcile::Outcome;
use crate::reconcile::ReconcileStep;
use crate::resolver::normalize;
use crate::resolver::normalize_genre;
use crate::resolver::normalize_spec;
use crate::resolver::qualify;
use crate::resolver::qualify_spec;

verus! {

/// The joint state of a resource, at specification level.
pub enum Class {
    /// The owner has no catalog document.
    OwnerMissing,
    /// The owner exists; the resource is in neither catalog nor backend.
    Missing,
    /// The catalog lists the resource, or the backend holds its qualified
    /// name.
    Exists,
}

/// How reconciliation classifies an (owner, normalized resource) pair. The
/// catalog fast path is trusted even when the backend disagrees: a name the
/// catalog lists counts as existing — the one asymmetry in ground-truth
/// trust.
pub open spec fn classify(sys: System, owner: Seq<char>, resource: Seq<char>) -> Class {
    if !sys.has_owner(owner) {
        Class::OwnerMissing
    } else if sys.catalog_of(owner).contains(resource) || sys.backend_has(
        qualify_spec(owner, resource),
    ) {
        Class::Exists
    } else {
        Class::Missing
    }
}

/// Law: the catalog fast path wins. When the catalog lists a resource that
/// the backend does not hold (a divergence), reconciliation still classifies
/// it as existing — the catalog is trusted on the fast path even though the
/// backend is the ground truth everywhere else.
pub proof fn law_catalog_fast_path(sys: System, owner: Seq<char>, resource: Seq<char>)
    requires
        sys.has_owner(owner),
        sys.catalog_of(owner).contains(resource),
        !sys.backend_has(qualify_spec(owner, resource)),
    ensures
        classify(sys, owner, resource) is Exists,
{
}

/// The Existence Reconciler. Fetches the catalog first (a missing owner ends
/// it, with no backend call); a listed name is answered from the catalog
/// alone; otherwise the backend is probed for the qualified name and its
/// answer decides. The carried list is the owner's current catalog.
pub fn reconcile(sys: &System, owner: &String, resource: &String) -> (r: Outcome)
    requires
        sys.wf(),
    ensures
        match r {
            Outcome::OwnerNotFound => classify(*sys, owner@, resource@) is OwnerMissing,
            Outcome::ResourceExists(l) => classify(*sys, owner@, resource@) is Exists && name_set(
                l@,
            ) == sys.catalog_of(owner@) && distinct_names(l@),
            Outcome::ResourceNotFound(l) => classify(*sys, owner@, resource@) is Missing
                && name_set(l@) == sys.catalog_of(owner@) && distinct_names(l@),
        },
{
    let cat = sys.get_catalog(owner);
    match classify_catalog(cat, resource) {
        ReconcileStep::Settled(o) => o,
        ReconcileStep::Probe(l) => {
            let q = qualify(owner.as_str(), resource.as_str());
            let present = sys.resource_exists(&q);
            classify_probe(l, present)
        },
    }
}

/// Resource Lifecycle — Create. Requires the backend to answer a liveness
/// probe before any state is touched; normalizes the name (`wide` selects
/// the genre variant of normalization); reconciles; and on a clear state
/// writes the catalog first and creates the backend resource second, so that
/// a crash between the writes leaves a catalog entry ahead of the backend —
/// a detectable, repairable divergence — never an untracked backend
/// resource. On success, reconciling the same pair afterwards finds it
/// present; a conflict is reported whenever catalog or backend already has
/// the resource.
pub fn create(
    sys: &mut System,
    owner: &String,
    resource: &String,
    wide: bool,
    shards: Option<u32>,
    replicas: Option<u32>,
) -> (r: Result<(), ApiError>)
    requires
        old(sys).wf(),
    ensures
        final(sys).wf(),
        ({
            let norm = normalize_spec(resource@, wide);
            let q = qualify_spec(owner@, norm);
            if !old(sys).live {
                (r matches Err(ApiError::ServerDown)) && *final(sys) == *old(sys)
            } else {
                match classify(*old(sys), owner@, norm) {
                    Class::OwnerMissing => (r matches Err(ApiError::OwnerNotFound(n)) && n@
                        == owner@) && *final(sys) == *old(sys),
                    Class::Exists => (r matches Err(ApiError::ResourceExists(n)) && n@ == norm)
                        && *final(sys) == *old(sys),
                    Class::Missing => {
                        &&& r is Ok
                        &&& final(sys).live == old(sys).live
                        &&& forall|o: Seq<char>|
                            final(sys).has_owner(o) == old(sys).has_owner(o)
                        &&& final(sys).catalog_of(owner@) == old(sys).catalog_of(owner@).insert(
                            norm,
                        )
                        &&& forall|o: Seq<char>|
                            o != owner@ && old(sys).has_owner(o) ==> final(sys).catalog_of(o)
                                == old(sys).catalog_of(o)
                        &&& forall|x: Seq<char>|
                            final(sys).backend_has(x) == (old(sys).backend_has(x) || x == q)
                        &&& classify(*final(sys), owner@, norm) is Exists
                    },
                }
            }
        }),
{
    if !sys.liveness() {
        return Err(ApiError::ServerDown);
    }
    let norm = if wide {
        normalize_genre(resource.as_str())
    } else {
        normalize(resource.as_str())
    };
    let out = reconcile(sys, owner, &norm);
    match plan_create(out, owner, &norm) {
        CreatePlan::Reject(e) => Err(e),
        CreatePlan::Commit(list) => {
            sys.put_catalog(owner, list);
            let q = qualify(owner.as_str(), norm.as_str());
            sys.create_resource(q, shards, replicas);
            Ok(())
        },
    }
}

/// Resource Lifecycle — Delete. Reconciles first (deleting what exists
/// nowhere is rejected); then deletes the backend resource, and only after
/// the backend confirmed removes the name from the carried list and writes
/// the catalog — the reverse order from create, so a crash leaves the
/// catalog over-listing, never a live backend resource the catalog has
/// forgotten. A backend that reports the name already gone surfaces
/// not-found and leaves the catalog untouched. On success, reconciling the
/// same pair afterwards finds it absent.
pub fn delete(sys: &mut System, owner: &String, resource: &String, wide: bool) -> (r: Result<
    (),
    ApiError,
>)
    requires
        old(sys).wf(),
    ensures
        final(sys).wf(),
        ({
            let norm = normalize_spec(resource@, wide);
            let q = qualify_spec(owner@, norm);
            if !old(sys).live {
                (r matches Err(ApiError::ServerDown)) && *final(sys) == *old(sys)
            } else if !old(sys).has_owner(owner@) {
                (r matches Err(ApiError::OwnerNotFound(n)) && n@ == owner@) && *final(sys) == *old(
                    sys,
                )
            } else if !old(sys).backend_has(q) {
                &&& r matches Err(ApiError::ResourceNotFound(n)) && n@ == norm
                &&& final(sys).live == old(sys).live
                &&& final(sys).catalogs@ == old(sys).catalogs@
                &&& forall|x: Seq<char>|
                    final(sys).backend_has(x) == old(sys).backend_has(x)
            } else {
                &&& r is Ok
                &&& final(sys).live == old(sys).live
                &&& forall|o: Seq<char>|
                    final(sys).has_owner(o) == old(sys).has_owner(o)
                &&& final(sys).catalog_of(owner@) == old(sys).catalog_of(owner@).remove(norm)
                &&& forall|o: Seq<char>|
                    o != owner@ && old(sys).has_owner(o) ==> final(sys).catalog_of(o) == old(
                        sys,
                    ).catalog_of(o)
                &&& forall|x: Seq<char>|
                    final(sys).backend_has(x) == (old(sys).backend_has(x) && x != q)
                &&& classify(*final(sys), owner@, norm) is Missing
            }
        }),
{
    if !sys.liveness() {
        return Err(ApiError::ServerDown);
    }
    let norm = if wide {
        normalize_genre(resource.as_str())
    } else {
        normalize(resource.as_str())
    };
    let out = reconcile(sys, owner, &norm);
    match plan_delete(out, owner, &norm) {
        DeletePlan::Reject(e) => Err(e),
        DeletePlan::Commit(mut list) => {
            let q = qualify(owner.as_str(), norm.as_str());
            let deleted = sys.delete_resource(&q);
            if deleted {
                remove_name(&mut list, &norm);
                sys.put_catalog(owner, list);
                Ok(())
            } else {
                Err(ApiError::ResourceNotFound(norm))
            }
        },
    }
}

} // verus!
