use dove::slug::{slugify, unique_slug};

#[test]
fn slugify_basic() {
    assert_eq!(slugify("Hello World"), "hello-world");
    assert_eq!(slugify("GitHub"), "github");
    assert_eq!(slugify("a--b"), "a-b");
}

#[test]
fn slugify_collapses_runs_and_strips_edges() {
    assert_eq!(slugify("  Rust & Verus!  "), "rust-verus");
    assert_eq!(slugify("--a--"), "a");
    assert_eq!(slugify("a...b"), "a-b");
}

#[test]
fn slugify_punctuation_only_falls_back_to_link() {
    assert_eq!(slugify("!!!"), "link");
    assert_eq!(slugify(""), "link");
    assert_eq!(slugify("---"), "link");
}

#[test]
fn slugify_keeps_digits() {
    assert_eq!(slugify("Port 8080"), "port-8080");
}

#[test]
fn slugify_non_ascii_becomes_dashes() {
    assert_eq!(slugify("导航 Home"), "home");
}

#[test]
fn slugify_idempotent_on_samples() {
    for s in [
        "Hello World",
        "!!!",
        "a--b--",
        "导航 Home",
        "UPPER lower 42",
        "",
        "x",
        "trailing-",
    ] {
        let once = slugify(s);
        let twice = slugify(&once);
        assert_eq!(once, twice);
    }
}

#[test]
fn unique_slug_returns_base_when_free() {
    let mut used: Vec<String> = Vec::new();
    assert_eq!(unique_slug("example", &mut used), "example");
    assert_eq!(used, vec!["example".to_string()]);
}

#[test]
fn unique_slug_probes_numeric_suffixes() {
    let mut used: Vec<String> = Vec::new();
    assert_eq!(unique_slug("example", &mut used), "example");
    assert_eq!(unique_slug("example", &mut used), "example-2");
    assert_eq!(unique_slug("example", &mut used), "example-3");
    assert_eq!(
        used,
        vec![
            "example".to_string(),
            "example-2".to_string(),
            "example-3".to_string()
        ]
    );
}

#[test]
fn unique_slug_skips_taken_suffixes() {
    let mut used: Vec<String> = vec!["a".to_string(), "a-2".to_string(), "a-4".to_string()];
    assert_eq!(unique_slug("a", &mut used), "a-3");
    assert_eq!(unique_slug("a", &mut used), "a-5");
}

#[test]
fn unique_slug_never_repeats() {
    let mut used: Vec<String> = Vec::new();
    let mut seen: Vec<String> = Vec::new();
    for _ in 0..20 {
        let s = unique_slug("link", &mut used);
        assert!(!seen.contains(&s));
        seen.push(s);
    }
}

#[test]
fn slug_allocation_stable_across_runs() {
    let names = ["Example", "Example", "Other", "!!!", "!!!"];
    let run = || {
        let mut used: Vec<String> = Vec::new();
        names
            .iter()
            .map(|n| {
                let base = slugify(n);
                unique_slug(&base, &mut used)
            })
            .collect::<Vec<_>>()
    };
    assert_eq!(run(), run());
}
