use index_catalog::resolver::{normalize, normalize_genre, qualify, resolve, resolve_genre};

#[test]
fn normalize_trims_and_lowercases() {
    assert_eq!(normalize("  My  Movies "), "my_movies");
}

#[test]
fn normalize_collapses_whitespace_runs() {
    assert_eq!(normalize("a \t\n b"), "a_b");
}

#[test]
fn normalize_all_whitespace_is_empty() {
    assert_eq!(normalize("   "), "");
}

#[test]
fn normalize_keeps_plain_names() {
    assert_eq!(normalize("movies"), "movies");
    assert_eq!(normalize("my_movies"), "my_movies");
}

#[test]
fn normalize_genre_folds_non_ascii() {
    assert_eq!(normalize_genre("Caf\u{e9} Rock"), "caf_rock");
    assert_eq!(normalize_genre("Rock"), "rock");
}

#[test]
fn normalize_keeps_non_ascii_in_index_variant() {
    assert_eq!(normalize("caf\u{e9}"), "caf\u{e9}");
}

#[test]
fn qualify_joins_with_dot() {
    assert_eq!(qualify("App1", "movies"), "app1.movies");
}

#[test]
fn resolve_normalizes_then_qualifies() {
    assert_eq!(resolve("App1", " My Movies "), "app1.my_movies");
    assert_eq!(resolve_genre("User", "Caf\u{e9} Rock"), "user.caf_rock");
}

#[test]
fn resolve_idempotent_on_normalized_input() {
    let raw = "  My  Movies ";
    let n = normalize(raw);
    assert_eq!(resolve("App1", &n), resolve("App1", raw));
    let raw_g = "Caf\u{e9} Rock";
    let n_g = normalize_genre(raw_g);
    assert_eq!(resolve_genre("User", &n_g), resolve_genre("User", raw_g));
}
