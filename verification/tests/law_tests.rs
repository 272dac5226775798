use slinky::cli::RunMode;
use slinky::filter::FilterSet;
use slinky::link::{classify, containing_dir, LinkEntry};
use slinky::normalized::{normalize, resolve_lexically, NormalizedPath};
use slinky::path::{is_absolute_path, join_paths, split_components};
use slinky::relative::relativize;
use slinky::tidy_path;
use slinky::transform::{edit_outcome, TransformResult};

fn texts(alphabet: &[&str], max_len: usize) -> Vec<Vec<String>> {
    let mut all: Vec<Vec<String>> = vec![Vec::new()];
    let mut layer: Vec<Vec<String>> = vec![Vec::new()];
    for _ in 0..max_len {
        let mut next = Vec::new();
        for prefix in &layer {
            for piece in alphabet {
                let mut longer = prefix.clone();
                longer.push(piece.to_string());
                next.push(longer);
            }
        }
        all.extend(next.iter().cloned());
        layer = next;
    }
    all
}

fn absolute_paths() -> Vec<String> {
    texts(&["a", "b", "..", ".", ""], 4).iter().map(|p| format!("/{}", p.join("/"))).collect()
}

fn any_paths() -> Vec<String> {
    let mut paths: Vec<String> =
        texts(&["a", "bc", "..", ".", ""], 4).iter().map(|p| p.join("/")).collect();
    let rooted: Vec<String> = paths.iter().map(|p| format!("/{p}")).collect();
    paths.extend(rooted);
    paths
}

fn expected_relative(from_dir: &str, to_target: &str) -> Option<String> {
    let from = split_components(from_dir);
    let to = split_components(to_target);
    let mut shared = 0;
    while shared < from.len() && shared < to.len() && from[shared] == to[shared] {
        shared += 1;
    }
    if shared < from.len() && shared < to.len() && from[shared] == ".." {
        return None;
    }
    let mut way: Vec<String> = vec!["..".to_string(); from.len() - shared];
    way.extend(to[shared..].iter().cloned());
    Some(way.join("/"))
}

#[test]
fn relativize_agrees_with_its_statement_on_absolute_paths() {
    let paths = absolute_paths();
    for from_dir in &paths {
        for to_target in &paths {
            assert_eq!(
                relativize(from_dir, to_target),
                expected_relative(from_dir, to_target),
                "from {from_dir:?} to {to_target:?}"
            );
        }
    }
}

#[test]
fn relativize_round_trip_law() {
    let paths = absolute_paths();
    for from_dir in paths.iter().filter(|p| !split_components(p).contains(&"..".to_string())) {
        for to_target in &paths {
            let rel = relativize(from_dir, to_target).expect("a relative path exists");
            assert_eq!(
                resolve_lexically(from_dir, &rel),
                tidy_path(to_target),
                "from {from_dir:?} to {to_target:?} by {rel:?}"
            );
        }
    }
}

#[test]
fn relativize_has_nothing_for_relative_paths() {
    for p in any_paths().iter().filter(|p| !is_absolute_path(p)) {
        assert_eq!(relativize(p, "/a"), None);
        assert_eq!(relativize("/a", p), None);
        assert_eq!(relativize(p, p), None);
    }
}

#[test]
fn tidy_path_is_idempotent() {
    for p in any_paths() {
        let once = tidy_path(&p);
        assert_eq!(tidy_path(&once), once, "path {p:?}");
    }
}

#[test]
fn tidy_path_fixes_paths_without_dots() {
    for names in texts(&["a", "bc", "d.e", "...", ".f"], 4) {
        let relative = names.join("/");
        assert_eq!(tidy_path(&relative), relative);
        let absolute = format!("/{relative}");
        assert_eq!(tidy_path(&absolute), absolute);
    }
}

#[test]
fn tidy_path_keeps_components_of_paths_without_parent() {
    for p in any_paths() {
        let comps = split_components(&p);
        if !comps.contains(&"..".to_string()) {
            let tidy = tidy_path(&p);
            assert_eq!(split_components(&tidy), comps, "path {p:?}");
            assert_eq!(is_absolute_path(&tidy), is_absolute_path(&p));
        }
    }
}

#[test]
fn tidy_path_output_is_reduced() {
    for p in any_paths() {
        let tidy = tidy_path(&p);
        let comps = split_components(&tidy);
        let first_name = comps.iter().position(|c| c != "..").unwrap_or(comps.len());
        assert!(comps[first_name..].iter().all(|c| c != ".."), "path {p:?} gave {tidy:?}");
        if is_absolute_path(&p) {
            assert_eq!(first_name, 0, "path {p:?} gave {tidy:?}");
        }
        assert!(!tidy.contains("//") && !tidy.contains("/./"));
    }
}

#[test]
fn normalized_path_holds_reduced_components() {
    let np = NormalizedPath::new("/usr/local/../bin/./slinky");
    assert!(np.is_rooted());
    assert_eq!(np.components(), &vec!["usr".to_string(), "bin".to_string(), "slinky".to_string()]);
    assert_eq!(np.to_text(), "/usr/bin/slinky");
    let np = NormalizedPath::new("a/../../b");
    assert!(!np.is_rooted());
    assert_eq!(np.components(), &vec!["..".to_string(), "b".to_string()]);
    assert_eq!(np.to_text(), "../b");
    let np = NormalizedPath::new("");
    assert!(!np.is_rooted());
    assert!(np.components().is_empty());
    assert_eq!(np.to_text(), "");
}

#[test]
fn normalized_path_reads_its_own_text_back() {
    for p in any_paths() {
        let np = NormalizedPath::new(&p);
        let again = NormalizedPath::new(&np.to_text());
        assert_eq!(again.is_rooted(), np.is_rooted());
        assert_eq!(again.components(), np.components());
    }
}

#[test]
fn resolve_lexically_joins_and_tidies() {
    assert_eq!(resolve_lexically("/a/b", "../c"), "/a/c");
    assert_eq!(resolve_lexically("/a/b", "/x/./y"), "/x/y");
    assert_eq!(resolve_lexically("a", "../../b"), "../b");
    assert_eq!(resolve_lexically("", "x/.."), "");
    for base in ["/a/b", "a", "", "/"] {
        for rel in ["c", "../c", "/c", ""] {
            assert_eq!(resolve_lexically(base, rel), tidy_path(&join_paths(base, rel)));
        }
    }
}

fn run(dry_run: bool) -> RunMode {
    RunMode { dry_run, verbose: false }
}

fn entry(origin: &str, target: &str, exists: bool) -> LinkEntry {
    classify(origin, &containing_dir(origin), target, exists)
}

#[test]
fn admits_given_counts_only_patterns_that_are_set() {
    let e = entry("l", "/t", true);
    let mut f = FilterSet::new();
    assert!(f.admits_given(&e, false, false));
    f.origin_pattern = Some("x".to_string());
    assert!(!f.admits_given(&e, false, true));
    assert!(f.admits_given(&e, true, false));
    f.target_pattern = Some("y".to_string());
    assert!(!f.admits_given(&e, true, false));
    assert!(f.admits_given(&e, true, true));
    f.only_dangling = true;
    assert!(!f.admits_given(&e, true, true));
    assert!(!f.status_admits(&e));
    f.only_dangling = false;
    f.only_absolute = true;
    f.only_attached = true;
    assert!(f.status_admits(&e));
    assert!(f.admits_given(&e, true, true));
    f.only_relative = true;
    assert!(!f.status_admits(&e));
}

#[test]
fn status_predicates_on_all_kinds_of_links() {
    for dangling in [false, true] {
        for absolute in [false, true] {
            let e = entry("l", if absolute { "/t" } else { "t" }, !dangling);
            for bits in 0..16u8 {
                let mut f = FilterSet::new();
                f.only_dangling = bits & 1 != 0;
                f.only_attached = bits & 2 != 0;
                f.only_absolute = bits & 4 != 0;
                f.only_relative = bits & 8 != 0;
                let expected = (!f.only_dangling || dangling)
                    && (!f.only_attached || !dangling)
                    && (!f.only_absolute || absolute)
                    && (!f.only_relative || !absolute);
                assert_eq!(f.status_admits(&e), expected);
                assert_eq!(f.admits(&e).unwrap(), expected);
                if (f.only_dangling && f.only_attached) || (f.only_absolute && f.only_relative) {
                    assert!(!f.status_admits(&e));
                }
            }
        }
    }
}

#[test]
fn edit_outcome_from_the_answer_of_the_pattern() {
    let e = entry("l", "old", true);
    let plan = edit_outcome(&e, None, run(false));
    assert!(matches!(plan.result, TransformResult::Unchanged));
    assert!(plan.steps.is_empty());
    let plan = edit_outcome(&e, Some("old".to_string()), run(false));
    assert!(matches!(plan.result, TransformResult::Unchanged));
    assert!(plan.steps.is_empty());
    let plan = edit_outcome(&e, Some("new".to_string()), run(false));
    match &plan.result {
        TransformResult::Transformed { old, new } => {
            assert_eq!(old, "old");
            assert_eq!(new, "new");
        }
        other => panic!("unexpected result {other:?}"),
    }
    assert_eq!(plan.steps.len(), 2);
    let plan = edit_outcome(&e, Some("new".to_string()), run(true));
    assert!(matches!(plan.result, TransformResult::Transformed { .. }));
    assert!(plan.steps.is_empty());
}

#[test]
fn normalize_gives_the_reduced_components() {
    let np = normalize("/a/./b/../../../c//d/");
    assert!(np.is_rooted());
    assert_eq!(np.components(), &vec!["c".to_string(), "d".to_string()]);
    assert_eq!(np.to_text(), tidy_path("/a/./b/../../../c//d/"));
    let np = normalize("../x/../../y");
    assert!(!np.is_rooted());
    assert_eq!(np.components(), &vec!["..".to_string(), "..".to_string(), "y".to_string()]);
}
