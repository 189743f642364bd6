use index_catalog::errors::ApiError;
use index_catalog::lifecycle::{create, delete, reconcile};
use index_catalog::model::System;
use index_catalog::reconcile::Outcome;

fn owned(s: &str) -> String {
    s.to_string()
}

fn catalog_names(sys: &System, owner: &str) -> Vec<String> {
    sys.get_catalog(&owned(owner)).expect("owner should have a catalog")
}

#[test]
fn scenario_app1_movies_full_round() {
    let mut sys = System::new();
    assert!(sys.register_owner(owned("app1")));
    assert!(catalog_names(&sys, "app1").is_empty());

    let r = create(&mut sys, &owned("app1"), &owned("movies"), false, None, None);
    assert!(r.is_ok());
    assert_eq!(catalog_names(&sys, "app1"), vec![owned("movies")]);
    assert!(sys.resource_exists(&owned("app1.movies")));

    let again = create(&mut sys, &owned("app1"), &owned("movies"), false, None, None);
    match again {
        Err(ApiError::ResourceExists(n)) => {
            assert_eq!(n, "movies");
            assert_eq!(ApiError::ResourceExists(n).status_code(), 409);
        }
        other => panic!("expected a conflict, got {:?}", other.is_ok()),
    }

    let d = delete(&mut sys, &owned("app1"), &owned("movies"), false);
    assert!(d.is_ok());
    assert!(catalog_names(&sys, "app1").is_empty());
    assert!(!sys.resource_exists(&owned("app1.movies")));

    let d2 = delete(&mut sys, &owned("app1"), &owned("movies"), false);
    match d2 {
        Err(ApiError::ResourceNotFound(n)) => {
            assert_eq!(n, "movies");
            assert_eq!(ApiError::ResourceNotFound(n).status_code(), 404);
        }
        other => panic!("expected not-found, got {:?}", other.is_ok()),
    }
}

#[test]
fn scenario_ghost_owner_is_rejected() {
    let mut sys = System::new();
    let r = create(&mut sys, &owned("ghost"), &owned("x"), false, None, None);
    match r {
        Err(ApiError::OwnerNotFound(o)) => {
            assert_eq!(o, "ghost");
            assert_eq!(ApiError::OwnerNotFound(o).status_code(), 404);
        }
        other => panic!("expected owner-not-found, got {:?}", other.is_ok()),
    }
    // No resource may appear anywhere as a side effect.
    assert!(!sys.resource_exists(&owned("ghost.x")));
    assert!(sys.get_catalog(&owned("ghost")).is_none());
}

#[test]
fn create_conflicts_on_catalog_entry() {
    let mut sys = System::new();
    sys.register_owner(owned("app1"));
    sys.put_catalog(&owned("app1"), vec![owned("movies")]);
    let r = create(&mut sys, &owned("app1"), &owned("movies"), false, None, None);
    assert!(matches!(r, Err(ApiError::ResourceExists(n)) if n == "movies"));
}

#[test]
fn create_conflicts_on_backend_resource_alone() {
    let mut sys = System::new();
    sys.register_owner(owned("app1"));
    // Divergence: the backend holds the resource, the catalog forgot it.
    sys.create_resource(owned("app1.movies"), None, None);
    let r = create(&mut sys, &owned("app1"), &owned("movies"), false, None, None);
    assert!(matches!(r, Err(ApiError::ResourceExists(n)) if n == "movies"));
}

#[test]
fn delete_rejected_when_absent_from_both() {
    let mut sys = System::new();
    sys.register_owner(owned("app1"));
    let r = delete(&mut sys, &owned("app1"), &owned("movies"), false);
    assert!(matches!(r, Err(ApiError::ResourceNotFound(n)) if n == "movies"));
}

#[test]
fn reconcile_trusts_catalog_fast_path_on_divergence() {
    let mut sys = System::new();
    sys.register_owner(owned("app1"));
    // Divergence: the catalog lists a resource the backend has no trace of.
    sys.put_catalog(&owned("app1"), vec![owned("movies")]);
    assert!(!sys.resource_exists(&owned("app1.movies")));
    let out = reconcile(&sys, &owned("app1"), &owned("movies"));
    match out {
        Outcome::ResourceExists(l) => assert_eq!(l, vec![owned("movies")]),
        _ => panic!("the catalog fast path must report the resource as existing"),
    }
}

#[test]
fn delete_on_divergence_surfaces_not_found_and_keeps_catalog() {
    let mut sys = System::new();
    sys.register_owner(owned("app1"));
    sys.put_catalog(&owned("app1"), vec![owned("movies")]);
    let r = delete(&mut sys, &owned("app1"), &owned("movies"), false);
    assert!(matches!(r, Err(ApiError::ResourceNotFound(_))));
    // The catalog entry stays: a resource that could not be deleted remains listed.
    assert_eq!(catalog_names(&sys, "app1"), vec![owned("movies")]);
}

#[test]
fn operations_fail_fast_when_backend_is_down() {
    let mut sys = System::new();
    sys.register_owner(owned("app1"));
    sys.set_live(false);
    let c = create(&mut sys, &owned("app1"), &owned("movies"), false, None, None);
    assert!(matches!(c, Err(ApiError::ServerDown)));
    let d = delete(&mut sys, &owned("app1"), &owned("movies"), false);
    assert!(matches!(d, Err(ApiError::ServerDown)));
    assert_eq!(ApiError::ServerDown.status_code(), 503);
}

#[test]
fn round_trip_create_then_reconcile_then_delete() {
    let mut sys = System::new();
    sys.register_owner(owned("app1"));
    create(&mut sys, &owned("app1"), &owned("books"), false, Some(3), Some(2)).unwrap();
    let norm = index_catalog::resolver::normalize("books");
    match reconcile(&sys, &owned("app1"), &norm) {
        Outcome::ResourceExists(_) => {}
        _ => panic!("a created resource must reconcile as existing"),
    }
    delete(&mut sys, &owned("app1"), &owned("books"), false).unwrap();
    match reconcile(&sys, &owned("app1"), &norm) {
        Outcome::ResourceNotFound(l) => assert!(l.is_empty()),
        _ => panic!("a deleted resource must reconcile as absent"),
    }
}

#[test]
fn genre_variant_normalizes_wide() {
    let mut sys = System::new();
    sys.register_owner(owned("user1"));
    let r = create(&mut sys, &owned("user1"), &owned("Caf\u{e9} Rock"), true, None, None);
    assert!(r.is_ok());
    assert_eq!(catalog_names(&sys, "user1"), vec![owned("caf_rock")]);
    assert!(sys.resource_exists(&owned("user1.caf_rock")));
    let d = delete(&mut sys, &owned("user1"), &owned("Caf\u{e9} Rock"), true);
    assert!(d.is_ok());
    assert!(!sys.resource_exists(&owned("user1.caf_rock")));
}

#[test]
fn owners_are_isolated() {
    let mut sys = System::new();
    sys.register_owner(owned("a"));
    sys.register_owner(owned("b"));
    create(&mut sys, &owned("a"), &owned("movies"), false, None, None).unwrap();
    // The same plain name is free for another owner: qualified names differ.
    let r = create(&mut sys, &owned("b"), &owned("movies"), false, None, None);
    assert!(r.is_ok());
    assert!(sys.resource_exists(&owned("a.movies")));
    assert!(sys.resource_exists(&owned("b.movies")));
    delete(&mut sys, &owned("a"), &owned("movies"), false).unwrap();
    assert!(!sys.resource_exists(&owned("a.movies")));
    assert!(sys.resource_exists(&owned("b.movies")));
    assert_eq!(catalog_names(&sys, "b"), vec![owned("movies")]);
}

#[test]
fn register_owner_is_idempotent() {
    let mut sys = System::new();
    assert!(sys.register_owner(owned("app1")));
    sys.put_catalog(&owned("app1"), vec![owned("movies")]);
    // A second registration must not wipe the catalog.
    assert!(!sys.register_owner(owned("app1")));
    assert_eq!(catalog_names(&sys, "app1"), vec![owned("movies")]);
}
