use index_catalog::errors::ApiError;
use index_catalog::reconcile::{
    classify_catalog, classify_probe, plan_create, plan_delete, CreatePlan, DeletePlan, Outcome,
    ReconcileStep,
};

fn owned(s: &str) -> String {
    s.to_string()
}

#[test]
fn missing_catalog_settles_owner_not_found() {
    let r = classify_catalog(None, &owned("movies"));
    assert!(matches!(
        r,
        ReconcileStep::Settled(Outcome::OwnerNotFound)
    ));
}

#[test]
fn listed_name_settles_from_the_catalog_alone() {
    let r = classify_catalog(Some(vec![owned("movies")]), &owned("movies"));
    match r {
        ReconcileStep::Settled(Outcome::ResourceExists(l)) => {
            assert_eq!(l, vec![owned("movies")])
        }
        _ => panic!("a listed name must settle as existing"),
    }
}

#[test]
fn unlisted_name_asks_for_a_probe() {
    let r = classify_catalog(Some(vec![owned("books")]), &owned("movies"));
    match r {
        ReconcileStep::Probe(l) => assert_eq!(l, vec![owned("books")]),
        _ => panic!("an unlisted name must probe the backend"),
    }
}

#[test]
fn probe_answer_decides() {
    match classify_probe(vec![owned("books")], true) {
        Outcome::ResourceExists(l) => assert_eq!(l, vec![owned("books")]),
        _ => panic!("a present probe must report existence"),
    }
    match classify_probe(vec![owned("books")], false) {
        Outcome::ResourceNotFound(l) => assert_eq!(l, vec![owned("books")]),
        _ => panic!("an absent probe must report absence"),
    }
}

#[test]
fn create_plans() {
    let r = plan_create(Outcome::OwnerNotFound, &owned("ghost"), &owned("x"));
    assert!(matches!(
        r,
        CreatePlan::Reject(ApiError::OwnerNotFound(o)) if o == "ghost"
    ));
    let r = plan_create(
        Outcome::ResourceExists(vec![owned("x")]),
        &owned("app1"),
        &owned("x"),
    );
    assert!(matches!(
        r,
        CreatePlan::Reject(ApiError::ResourceExists(n)) if n == "x"
    ));
    let r = plan_create(
        Outcome::ResourceNotFound(vec![owned("a")]),
        &owned("app1"),
        &owned("b"),
    );
    match r {
        CreatePlan::Commit(l) => {
            assert_eq!(l.len(), 2);
            assert!(l.contains(&owned("a")));
            assert!(l.contains(&owned("b")));
        }
        _ => panic!("a clear state must commit"),
    }
}

#[test]
fn delete_plans() {
    let r = plan_delete(Outcome::OwnerNotFound, &owned("ghost"), &owned("x"));
    assert!(matches!(
        r,
        DeletePlan::Reject(ApiError::OwnerNotFound(o)) if o == "ghost"
    ));
    let r = plan_delete(
        Outcome::ResourceNotFound(vec![]),
        &owned("app1"),
        &owned("x"),
    );
    assert!(matches!(
        r,
        DeletePlan::Reject(ApiError::ResourceNotFound(n)) if n == "x"
    ));
    let r = plan_delete(
        Outcome::ResourceExists(vec![owned("x")]),
        &owned("app1"),
        &owned("x"),
    );
    assert!(matches!(r, DeletePlan::Commit(l) if l == vec![owned("x")]));
}
