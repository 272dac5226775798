use slinky::cli::{RunMode, SlinkyCli, SlinkyCommand, SlinkyLnCli};
use slinky::create::{follow_link, link_origin, origin_dir, plan_link, CreateError, CreateFacts};
use slinky::filter::FilterSet;
use slinky::link::LinkEntry;
use slinky::mirror::{mirror_tree, TreeEntry};
use slinky::relative::relativize;
use slinky::steps::{FsStep, LinkKind};
use slinky::transform::{
    plan_command, FailureReason, Notice, TargetFacts, TransformPlan, TransformResult,
};
use slinky::walk::{begin_run, classify_found, yield_link, SetupError};

const DIR: &str = "/tmp/work";

/// A link in the working directory: its name, what it stores, and whether
/// that is there.
fn link(name: &str, target: &str, exists: bool) -> LinkEntry {
    classify_found(&format!("{DIR}/{name}"), target, exists)
}

fn listed(filters: &FilterSet, links: Vec<LinkEntry>) -> Vec<String> {
    let mut names = Vec::new();
    for found in links {
        if let Some(entry) = yield_link(filters, found).unwrap() {
            names.push(entry.origin_path[DIR.len() + 1..].to_string());
        }
    }
    names
}

fn go() -> RunMode {
    RunMode { dry_run: false, verbose: false }
}

fn dry() -> RunMode {
    RunMode { dry_run: true, verbose: false }
}

fn facts(is_dir: bool, target: Option<&str>) -> TargetFacts {
    TargetFacts {
        target_is_dir: is_dir,
        canonical_target: target.map(str::to_string),
        canonical_dir: Some(DIR.to_string()),
    }
}

/// What the link stores once the plan is carried out.
fn stored_after(entry: &LinkEntry, plan: &TransformPlan) -> Option<String> {
    let mut stored = Some(entry.raw_target.clone());
    for step in &plan.steps {
        match step {
            FsStep::Remove { path } if *path == entry.origin_path => stored = None,
            FsStep::Symlink { target, link } if *link == entry.origin_path => {
                stored = Some(target.clone())
            }
            other => panic!("unexpected step {other:?}"),
        }
    }
    stored
}

fn ln(target: &str, origin: Option<&str>) -> SlinkyLnCli {
    SlinkyLnCli {
        target: Some(target.to_string()),
        origin: origin.map(str::to_string),
        force: false,
        absolute: false,
        relative: false,
        dereference: false,
        allow_dangling: false,
        hard: false,
        tree: false,
        verbose: false,
        dry_run: false,
    }
}

fn there() -> CreateFacts {
    CreateFacts {
        target_exists: true,
        target_is_dir: false,
        origin_exists: false,
        canonical_target: None,
        canonical_origin_dir: None,
    }
}

fn created(opts: &SlinkyLnCli, target: &str, origin: &str, facts: &CreateFacts) -> Vec<FsStep> {
    plan_link(opts, target, origin, facts).unwrap().steps
}

#[test]
fn test_filter_target() {
    let mut cli = SlinkyCli::new(SlinkyCommand::List { status: false });
    cli.filter_target = Some("foo".to_string());
    let names = listed(
        &cli.filters(),
        vec![
            link("link1.txt", "target_foo.txt", false),
            link("link2.txt", "target_bar.txt", false),
            link("link3.txt", "another_target_foo.txt", false),
        ],
    );
    assert!(names.contains(&"link1.txt".to_string()));
    assert!(names.contains(&"link3.txt".to_string()));
    assert!(!names.contains(&"link2.txt".to_string()));
}

#[test]
fn test_list_no_dangling_flag() {
    let mut cli = SlinkyCli::new(SlinkyCommand::List { status: true });
    cli.only_attached = true;
    let names = listed(
        &cli.filters(),
        vec![link("broken.txt", "non_existent.txt", false), link("valid.txt", "real.txt", true)],
    );
    assert!(names.contains(&"valid.txt".to_string()));
    assert!(!names.contains(&"broken.txt".to_string()));
}

#[test]
fn test_list_only_regular_files() {
    let cli = SlinkyCli::new(SlinkyCommand::List { status: false });
    assert!(listed(&cli.filters(), Vec::new()).is_empty());
    assert!(cli.filters().select(&Vec::new()).unwrap().is_empty());
}

#[test]
fn test_list_empty_directory() {
    let cli = SlinkyCli::new(SlinkyCommand::List { status: false });
    assert!(cli.filters().validate().is_ok());
    assert!(listed(&cli.filters(), Vec::new()).is_empty());
}

#[test]
fn slinky_tests_test_list_default() {
    let cli = SlinkyCli::new(SlinkyCommand::List { status: true });
    let found = link("link.txt", "real.txt", true);
    let entry = yield_link(&cli.filters(), found).unwrap().unwrap();
    assert!(!entry.is_dangling);
    assert_eq!(entry.raw_target, "real.txt");
    assert!(entry.origin_path.ends_with("link.txt"));
    let plan = plan_command(&cli.command, &entry, &facts(false, None), go());
    assert!(matches!(plan.result, TransformResult::Unchanged));
    assert!(plan.steps.is_empty());
}

#[test]
fn slinky_tests_test_filter_dangling() {
    let mut cli = SlinkyCli::new(SlinkyCommand::List { status: true });
    cli.only_dangling = true;
    let names = listed(
        &cli.filters(),
        vec![link("broken.txt", "non_existent.txt", false), link("valid.txt", "real.txt", true)],
    );
    assert_eq!(names, vec!["broken.txt"]);
}

#[test]
fn slinky_tests_test_filter_origin() {
    let mut cli = SlinkyCli::new(SlinkyCommand::List { status: false });
    cli.filter_origin = Some("match".to_string());
    let names = listed(
        &cli.filters(),
        vec![link("match_this.txt", "target.txt", false), link("ignore_this.txt", "target.txt", false)],
    );
    assert!(names.contains(&"match_this.txt".to_string()));
    assert!(!names.contains(&"ignore_this.txt".to_string()));
}

#[test]
fn slinky_tests_test_filter_relative_absolute() {
    let links = || vec![link("rel.txt", "target.txt", false), link("abs.txt", "/tmp/target.txt", false)];
    let mut cli = SlinkyCli::new(SlinkyCommand::List { status: false });
    cli.only_relative = true;
    assert_eq!(listed(&cli.filters(), links()), vec!["rel.txt"]);
    cli.only_relative = false;
    cli.only_absolute = true;
    assert_eq!(listed(&cli.filters(), links()), vec!["abs.txt"]);
}

#[test]
fn test_to_absolute_dangling_symlink() {
    let entry = link("dangling.txt", "non_existent.txt", false);
    let plan = plan_command(&SlinkyCommand::ToAbsolute, &entry, &facts(false, None), go());
    assert!(matches!(plan.result, TransformResult::Failed(FailureReason::Dangling)));
    assert_eq!(stored_after(&entry, &plan).unwrap(), "non_existent.txt");
}

#[test]
fn test_to_absolute_already_absolute() {
    let real = format!("{DIR}/real.txt");
    let entry = link("absolute_link.txt", &real, true);
    let plan = plan_command(&SlinkyCommand::ToAbsolute, &entry, &facts(false, Some(&real)), go());
    let target = stored_after(&entry, &plan).unwrap();
    assert!(target.starts_with('/'));
    assert_eq!(target, real);
}

#[test]
fn slinky_tests_test_to_absolute() {
    let entry = link("link.txt", "real.txt", true);
    let real = format!("{DIR}/real.txt");
    let plan = plan_command(&SlinkyCommand::ToAbsolute, &entry, &facts(false, Some(&real)), go());
    let target = stored_after(&entry, &plan).unwrap();
    assert!(target.starts_with('/'));
}

fn edit(pattern: &str, replace: &str, replace_all: bool) -> SlinkyCommand {
    SlinkyCommand::EditTarget {
        pattern: pattern.to_string(),
        replace: replace.to_string(),
        replace_all,
    }
}

#[test]
fn test_edit_target_make_valid() {
    let entry = link("link.txt", "broken.txt", false);
    let plan = plan_command(&edit("broken", "real", false), &entry, &facts(false, None), go());
    assert_eq!(stored_after(&entry, &plan).unwrap(), "real.txt");
}

#[test]
fn test_edit_target_make_dangling() {
    let entry = link("link.txt", "real.txt", true);
    let plan = plan_command(&edit("real", "non_existent", false), &entry, &facts(false, None), go());
    assert_eq!(stored_after(&entry, &plan).unwrap(), "non_existent.txt");
}

#[test]
fn test_edit_target_no_match() {
    let entry = link("link.txt", "original-target.txt", false);
    let cmd = edit("non_matching_pattern", "new_value", false);
    let plan = plan_command(&cmd, &entry, &facts(false, None), go());
    assert_eq!(stored_after(&entry, &plan).unwrap(), "original-target.txt");
    assert!(plan.steps.is_empty());
    assert_eq!(plan.notice, None);
}

#[test]
fn slinky_tests_test_edit_target_regex() {
    let entry = link("link.txt", "version-1.0.txt", true);
    let plan = plan_command(&edit(r"1\.0", "2.0", false), &entry, &facts(false, None), go());
    assert_eq!(stored_after(&entry, &plan).unwrap(), "version-2.0.txt");
}

#[test]
fn slinky_tests_test_edit_target_replace_all() {
    let entry = link("link.txt", "a-a.txt", true);
    let plan = plan_command(&edit("a", "b", false), &entry, &facts(false, None), go());
    assert_eq!(stored_after(&entry, &plan).unwrap(), "b-a.txt");
    let plan = plan_command(&edit("a", "b", true), &entry, &facts(false, None), go());
    assert_eq!(stored_after(&entry, &plan).unwrap(), "b-b.txt");
}

#[test]
fn slinky_tests_test_edit_target_dangling() {
    let entry = link("link.txt", "broken-1.0.txt", false);
    let plan = plan_command(&edit("1.0", "2.0", false), &entry, &facts(false, None), go());
    assert_eq!(stored_after(&entry, &plan).unwrap(), "broken-2.0.txt");
}

#[test]
fn test_to_tree_hard_dangling_dir_symlink() {
    let entry = link("dangling_dir", "non_existent_dir", false);
    let plan = plan_command(&SlinkyCommand::ToHardlinkTree, &entry, &facts(false, None), go());
    assert!(matches!(plan.result, TransformResult::Failed(FailureReason::Dangling)));
    assert_eq!(stored_after(&entry, &plan).unwrap(), "non_existent_dir");
}

#[test]
fn test_to_tree_hard_symlinks_to_files() {
    let entry = link("link_to_file.txt", "real.txt", true);
    let plan = plan_command(&SlinkyCommand::ToHardlinkTree, &entry, &facts(false, None), go());
    assert!(matches!(plan.result, TransformResult::Failed(FailureReason::TargetNotDirectory)));
    assert_eq!(stored_after(&entry, &plan).unwrap(), "real.txt");
}

fn mirrored(entry: &LinkEntry, plan: &TransformPlan, walk: Vec<TreeEntry>) -> Vec<FsStep> {
    assert!(matches!(&plan.steps[0], FsStep::Remove { path } if *path == entry.origin_path));
    match &plan.steps[1] {
        FsStep::MirrorTree { source, dest, kind } => {
            assert_eq!(*dest, entry.origin_path);
            let mirror = mirror_tree(source, dest, *kind, true, &walk);
            assert!(mirror.failure.is_none());
            mirror.steps
        }
        other => panic!("unexpected step {other:?}"),
    }
}

fn at(path: &str, is_dir: bool) -> TreeEntry {
    TreeEntry { path: format!("{DIR}/{path}"), is_dir }
}

#[test]
fn test_to_tree_hard() {
    let entry = link("link_to_dir", "source", true);
    let plan = plan_command(&SlinkyCommand::ToHardlinkTree, &entry, &facts(true, None), go());
    let steps = mirrored(&entry, &plan, vec![at("source", true), at("source/data.txt", false)]);
    assert!(matches!(&steps[0], FsStep::CreateDir { path } if *path == entry.origin_path));
    match &steps[1] {
        FsStep::HardLink { source, link } => {
            assert_eq!(*source, format!("{DIR}/source/data.txt"));
            assert_eq!(*link, format!("{DIR}/link_to_dir/data.txt"));
        }
        other => panic!("unexpected step {other:?}"),
    }
    assert_eq!(steps.len(), 2);
}

#[test]
fn test_to_tree() {
    let entry = link("link_to_dir", "source", true);
    let plan = plan_command(&SlinkyCommand::ToTree, &entry, &facts(true, None), go());
    let walk = vec![
        at("source", true),
        at("source/file1.txt", false),
        at("source/subdir", true),
        at("source/subdir/file2.txt", false),
    ];
    let steps = mirrored(&entry, &plan, walk);
    assert_eq!(steps.len(), 4);
    assert!(matches!(&steps[0], FsStep::CreateDir { path } if *path == entry.origin_path));
    match &steps[1] {
        FsStep::ResolvedSymlink { source, link } => {
            assert_eq!(*source, format!("{DIR}/source/file1.txt"));
            assert_eq!(*link, format!("{DIR}/link_to_dir/file1.txt"));
        }
        other => panic!("unexpected step {other:?}"),
    }
    match &steps[2] {
        FsStep::CreateDir { path } => assert_eq!(*path, format!("{DIR}/link_to_dir/subdir")),
        other => panic!("unexpected step {other:?}"),
    }
    match &steps[3] {
        FsStep::ResolvedSymlink { source, link } => {
            assert_eq!(*source, format!("{DIR}/source/subdir/file2.txt"));
            assert_eq!(*link, format!("{DIR}/link_to_dir/subdir/file2.txt"));
        }
        other => panic!("unexpected step {other:?}"),
    }
}

#[test]
fn test_to_tree_dangling() {
    let entry = link("dangling_dir", "non_existent_dir", false);
    let plan = plan_command(&SlinkyCommand::ToTree, &entry, &facts(false, None), go());
    assert!(matches!(plan.result, TransformResult::Failed(FailureReason::Dangling)));
    assert_eq!(plan.notice, Some(Notice::Failure));
    assert_eq!(stored_after(&entry, &plan).unwrap(), "non_existent_dir");
}

#[test]
fn test_to_tree_file_symlink() {
    let entry = link("link_to_file.txt", "real.txt", true);
    let plan = plan_command(&SlinkyCommand::ToTree, &entry, &facts(false, None), go());
    assert!(matches!(plan.result, TransformResult::Failed(FailureReason::TargetNotDirectory)));
    assert_eq!(stored_after(&entry, &plan).unwrap(), "real.txt");
}

#[test]
fn test_tidy_dangling_symlink() {
    let entry = link("dangling.txt", "non_existent/foo/../bar", false);
    let plan = plan_command(&SlinkyCommand::Tidy, &entry, &facts(false, None), go());
    assert_eq!(stored_after(&entry, &plan).unwrap(), "non_existent/bar");
}

#[test]
fn test_tidy_already_tidy() {
    let entry = link("link.txt", "target.txt", false);
    let plan = plan_command(&SlinkyCommand::Tidy, &entry, &facts(false, None), go());
    assert_eq!(stored_after(&entry, &plan).unwrap(), "target.txt");
    assert_eq!(plan.notice, Some(Notice::AlreadyTidy));
}

#[test]
fn slinky_tests_test_tidy() {
    let tidy = |name: &str, target: &str| {
        let entry = link(name, target, false);
        let plan = plan_command(&SlinkyCommand::Tidy, &entry, &facts(false, None), go());
        stored_after(&entry, &plan).unwrap()
    };
    assert_eq!(tidy("rel_link.txt", "foo/bar/../baz/./qux"), "foo/baz/qux");
    assert_eq!(tidy("abs_link.txt", "/usr/local/../bin/./slinky"), "/usr/bin/slinky");
    assert_eq!(tidy("leading_link.txt", "../../foo/bar"), "../../foo/bar");
}

#[test]
fn test_remove() {
    let entry = link("link.txt", "target.txt", false);
    let plan = plan_command(&SlinkyCommand::Delete, &entry, &facts(false, None), go());
    assert_eq!(stored_after(&entry, &plan), None);
}

#[test]
fn test_slinky_dry_run_delete() {
    let entry = link("link.txt", "target.txt", false);
    let plan = plan_command(&SlinkyCommand::Delete, &entry, &facts(false, None), dry());
    assert!(plan.steps.is_empty());
    assert!(stored_after(&entry, &plan).is_some());
}

#[test]
fn test_slinky_dry_run_tidy() {
    let entry = link("link.txt", "foo/../bar", false);
    let plan = plan_command(&SlinkyCommand::Tidy, &entry, &facts(false, None), dry());
    assert_eq!(stored_after(&entry, &plan).unwrap(), "foo/../bar");
    assert!(matches!(plan.result, TransformResult::Transformed { .. }));
}

#[test]
fn test_slinky_ln_dry_run() {
    let target = format!("{DIR}/target.txt");
    let origin = format!("{DIR}/link.txt");
    let mut opts = ln(&target, Some(&origin));
    opts.dry_run = true;
    assert!(created(&opts, &target, &origin, &there()).is_empty());
}

#[test]
fn test_slinky_ln_dry_run_force() {
    let mut opts = ln("target.txt", Some("existing.txt"));
    opts.force = true;
    opts.dry_run = true;
    let mut facts = there();
    facts.origin_exists = true;
    assert!(created(&opts, "target.txt", "existing.txt", &facts).is_empty());
}

#[test]
fn test_create_link_force_overwrite_symlink() {
    let mut opts = ln("target2.txt", Some("existing_link.txt"));
    opts.force = true;
    let mut facts = there();
    facts.origin_exists = true;
    let steps = created(&opts, "target2.txt", "existing_link.txt", &facts);
    assert!(matches!(&steps[0], FsStep::Remove { path } if path == "existing_link.txt"));
    assert!(matches!(&steps[1], FsStep::Symlink { target, link }
        if target == "target2.txt" && link == "existing_link.txt"));
}

#[test]
fn test_create_link_force_overwrite_file() {
    let mut opts = ln("target.txt", Some("existing.txt"));
    opts.force = true;
    let mut facts = there();
    facts.origin_exists = true;
    let steps = created(&opts, "target.txt", "existing.txt", &facts);
    assert!(matches!(&steps[0], FsStep::Remove { path } if path == "existing.txt"));
    assert!(matches!(&steps[1], FsStep::Symlink { target, link }
        if target == "target.txt" && link == "existing.txt"));
}

#[test]
fn test_create_link_destination_exists_symlink() {
    let opts = ln("target.txt", Some("existing_link.txt"));
    let mut facts = there();
    facts.origin_exists = true;
    let steps = created(&opts, "target.txt", "existing_link.txt", &facts);
    assert_eq!(steps.len(), 1);
    assert!(matches!(&steps[0], FsStep::Symlink { .. }));
}

#[test]
fn slinky_ln_tests_test_create_link() {
    let origin = format!("{DIR}/new_link.txt");
    let mut opts = ln("some_target", Some(&origin));
    opts.allow_dangling = true;
    let mut facts = there();
    facts.target_exists = false;
    let steps = created(&opts, "some_target", &origin, &facts);
    assert!(matches!(&steps[0], FsStep::Symlink { target, link }
        if target == "some_target" && *link == origin));
}

#[test]
fn slinky_ln_tests_test_create_link_in_dir() {
    let target = format!("{DIR}/target.txt");
    let dest = format!("{DIR}/dest");
    let opts = ln(&target, Some(&dest));
    let origin = link_origin(&opts.origin, true, &target, true, &Some(target.clone())).unwrap();
    assert_eq!(origin, format!("{DIR}/dest/target.txt"));
    let steps = created(&opts, &target, &origin, &there());
    assert!(matches!(&steps[0], FsStep::Symlink { target: stored, link }
        if *stored == target && *link == origin));
}

#[test]
fn slinky_ln_tests_test_create_to_file() {
    let target = format!("{DIR}/target.txt");
    let given = format!("{DIR}/link.txt");
    let opts = ln(&target, Some(&given));
    let origin = link_origin(&opts.origin, false, &target, true, &None).unwrap();
    assert_eq!(origin, given);
    let steps = created(&opts, &target, &origin, &there());
    assert!(matches!(&steps[0], FsStep::Symlink { target: stored, .. } if *stored == target));
}

#[test]
fn slinky_ln_tests_test_create_missing_target() {
    let missing = format!("{DIR}/missing.txt");
    let opts = ln(&missing, None);
    let mut facts = there();
    facts.target_exists = false;
    let err = plan_link(&opts, &missing, "./missing.txt", &facts).unwrap_err();
    assert!(err.message().contains("refusing to create dangling symlink"));
}

#[test]
fn slinky_ln_tests_test_create_implicit_origin_remote() {
    let opts = ln("subdir/file.txt", None);
    let resolved = Some(format!("{DIR}/subdir/file.txt"));
    let origin = link_origin(&opts.origin, true, "subdir/file.txt", true, &resolved).unwrap();
    assert_eq!(origin, "./file.txt");
    let steps = created(&opts, "subdir/file.txt", &origin, &there());
    assert!(matches!(&steps[0], FsStep::Symlink { target, link }
        if target == "subdir/file.txt" && link == "./file.txt"));
}

#[test]
fn slinky_ln_tests_test_create_absolute_flag() {
    let mut opts = ln("target.txt", Some("link.txt"));
    opts.absolute = true;
    let mut facts = there();
    let canonical = format!("{DIR}/target.txt");
    facts.canonical_target = Some(canonical.clone());
    let plan = plan_link(&opts, "target.txt", "link.txt", &facts).unwrap();
    assert!(plan.stored.starts_with('/'));
    assert_eq!(plan.stored, canonical);
}

#[test]
fn slinky_ln_tests_test_create_relative_flag() {
    let mut opts = ln("subdir/target.txt", Some("link.txt"));
    opts.relative = true;
    let mut facts = there();
    facts.canonical_target = Some(format!("{DIR}/subdir/target.txt"));
    assert_eq!(origin_dir("link.txt"), ".");
    facts.canonical_origin_dir = Some(DIR.to_string());
    let plan = plan_link(&opts, "subdir/target.txt", "link.txt", &facts).unwrap();
    assert_eq!(plan.stored, "subdir/target.txt");

    assert_eq!(origin_dir("a/b/c/link.txt"), "a/b/c");
    facts.canonical_origin_dir = Some(format!("{DIR}/a/b/c"));
    let plan = plan_link(&opts, "subdir/target.txt", "a/b/c/link.txt", &facts).unwrap();
    assert_eq!(plan.stored, "../../../subdir/target.txt");
    assert_eq!(
        relativize(&format!("{DIR}/a/b/c"), &format!("{DIR}/subdir/target.txt")).unwrap(),
        "../../../subdir/target.txt"
    );
}

#[test]
fn test_create_link_dereference_relative() {
    let mut opts = ln("link1.txt", Some("link2.txt"));
    opts.dereference = true;
    opts.relative = true;
    let followed = format!("{DIR}/subdir/target.txt");
    let mut facts = there();
    facts.canonical_target = Some(followed.clone());
    facts.canonical_origin_dir = Some(DIR.to_string());
    let plan = plan_link(&opts, &followed, "link2.txt", &facts).unwrap();
    assert_eq!(plan.stored, "subdir/target.txt");
}

#[test]
fn test_create_link_dereference_dangling() {
    let next = follow_link("link1.txt", "missing.txt");
    assert!(next.ends_with("missing.txt"));
    let mut opts = ln("link1.txt", Some("link2.txt"));
    opts.dereference = true;
    opts.allow_dangling = true;
    let mut facts = there();
    facts.target_exists = false;
    let plan = plan_link(&opts, &next, "link2.txt", &facts).unwrap();
    assert!(plan.stored.ends_with("missing.txt"));
}

#[test]
fn test_slinky_ln_verbose() {
    let origin = format!("{DIR}/link.txt");
    let mut opts = ln("target.txt", Some(&origin));
    opts.verbose = true;
    let plan = plan_link(&opts, "target.txt", &origin, &there()).unwrap();
    assert!(plan.kind.label().contains("create symlink"));
    assert!(matches!(&plan.steps[0], FsStep::Symlink { target, .. } if target == "target.txt"));
}

fn conflicts(set: fn(&mut SlinkyLnCli)) -> bool {
    let mut opts = ln("target", None);
    set(&mut opts);
    !opts.consistent()
        && plan_link(&opts, "target", "./target", &there())
            .is_err_and(|e| e == CreateError::ConflictingOptions)
}

#[test]
fn slinky_ln_tests_test_create_conflict_flags() {
    assert!(conflicts(|o| { o.absolute = true; o.allow_dangling = true; }));
    assert!(conflicts(|o| { o.relative = true; o.allow_dangling = true; }));
    assert!(conflicts(|o| { o.absolute = true; o.relative = true; }));
}

#[test]
fn test_create_tree_conflict() {
    assert!(conflicts(|o| { o.tree = true; o.absolute = true; }));
    assert!(conflicts(|o| { o.tree = true; o.relative = true; }));
    assert!(conflicts(|o| { o.tree = true; o.allow_dangling = true; }));
}

fn tree_steps(hard: bool) -> Vec<FsStep> {
    let mut opts = ln("source", Some("dest"));
    opts.tree = true;
    opts.hard = hard;
    let mut facts = there();
    facts.target_is_dir = true;
    let plan = plan_link(&opts, "source", "dest", &facts).unwrap();
    assert_eq!(plan.steps.len(), 1);
    let walk = vec![
        TreeEntry { path: "source".to_string(), is_dir: true },
        TreeEntry { path: "source/file1.txt".to_string(), is_dir: false },
        TreeEntry { path: "source/subdir".to_string(), is_dir: true },
        TreeEntry { path: "source/subdir/file2.txt".to_string(), is_dir: false },
    ];
    match &plan.steps[0] {
        FsStep::MirrorTree { source, dest, kind } => {
            assert_eq!(*kind, if hard { LinkKind::Hard } else { LinkKind::Symbolic });
            mirror_tree(source, dest, *kind, true, &walk).steps
        }
        other => panic!("unexpected step {other:?}"),
    }
}

#[test]
fn test_create_symlink_tree() {
    let steps = tree_steps(false);
    assert!(matches!(&steps[0], FsStep::CreateDir { path } if path == "dest"));
    assert!(matches!(&steps[1], FsStep::ResolvedSymlink { source, link }
        if source == "source/file1.txt" && link == "dest/file1.txt"));
    assert!(matches!(&steps[2], FsStep::CreateDir { path } if path == "dest/subdir"));
    assert!(matches!(&steps[3], FsStep::ResolvedSymlink { source, link }
        if source == "source/subdir/file2.txt" && link == "dest/subdir/file2.txt"));
}

#[test]
fn test_create_hardlink_tree() {
    let steps = tree_steps(true);
    assert!(matches!(&steps[0], FsStep::CreateDir { path } if path == "dest"));
    assert!(matches!(&steps[1], FsStep::HardLink { source, link }
        if source == "source/file1.txt" && link == "dest/file1.txt"));
    assert!(matches!(&steps[2], FsStep::CreateDir { path } if path == "dest/subdir"));
    assert!(matches!(&steps[3], FsStep::HardLink { source, link }
        if source == "source/subdir/file2.txt" && link == "dest/subdir/file2.txt"));
    assert_eq!(steps.len(), 4);
}

fn missing_root(command: SlinkyCommand) {
    let mut cli = SlinkyCli::new(command);
    cli.path = format!("{DIR}/non_existent");
    let err = begin_run(&cli, false).unwrap_err();
    assert!(matches!(&err, SetupError::MissingRoot { path } if *path == cli.path));
    assert!(err.message().contains("No such file or directory"));
    assert_eq!(err.message(), format!("{DIR}/non_existent: No such file or directory"));
}

fn nothing_to_do(command: SlinkyCommand) {
    let cli = SlinkyCli::new(command);
    let run = begin_run(&cli, true).unwrap();
    assert!(listed(&run.filters, Vec::new()).is_empty());
    assert_eq!(run.mode, go());
}

#[test]
fn test_list_non_existent_directory() {
    missing_root(SlinkyCommand::List { status: false });
}

#[test]
fn test_to_absolute_non_existent_directory() {
    missing_root(SlinkyCommand::ToAbsolute);
}

#[test]
fn test_edit_target_non_existent_directory() {
    missing_root(edit("pattern", "replacement", false));
}

#[test]
fn test_to_tree_hard_non_existent_directory() {
    missing_root(SlinkyCommand::ToHardlinkTree);
}

#[test]
fn test_tidy_non_existent_directory() {
    missing_root(SlinkyCommand::Tidy);
}

#[test]
fn test_remove_non_existent_directory() {
    missing_root(SlinkyCommand::Delete);
}

#[test]
fn test_to_absolute_no_symlinks() {
    nothing_to_do(SlinkyCommand::ToAbsolute);
}

#[test]
fn test_edit_target_no_symlinks() {
    nothing_to_do(edit("pattern", "replacement", false));
}

#[test]
fn test_to_tree_hard_no_symlinks() {
    nothing_to_do(SlinkyCommand::ToHardlinkTree);
}

#[test]
fn test_tidy_no_symlinks() {
    nothing_to_do(SlinkyCommand::Tidy);
}

#[test]
fn test_remove_no_symlinks() {
    nothing_to_do(SlinkyCommand::Delete);
}

#[test]
fn test_remove_regular_file() {
    nothing_to_do(SlinkyCommand::Delete);
}

#[test]
fn test_remove_non_existent_symlink() {
    nothing_to_do(SlinkyCommand::Delete);
}

#[test]
fn setup_finds_patterns_that_do_not_compile() {
    let mut cli = SlinkyCli::new(edit("(", "x", false));
    let err = begin_run(&cli, true).unwrap_err();
    assert!(matches!(&err, SetupError::BadPattern(e) if e.pattern == "("));
    assert!(err.message().starts_with("invalid pattern `(`: "));
    cli.filter_target = Some("[".to_string());
    assert!(matches!(begin_run(&cli, true).unwrap_err(), SetupError::BadPattern(e) if e.pattern == "["));
    cli.filter_origin = Some("{1".to_string());
    let err = begin_run(&cli, true).unwrap_err();
    assert!(matches!(&err, SetupError::BadPattern(e) if e.pattern == "{1"));
    assert!(matches!(begin_run(&cli, false).unwrap_err(), SetupError::MissingRoot { .. }));
    cli.dry_run = true;
    cli.verbose = true;
    cli.filter_origin = None;
    cli.filter_target = Some("t".to_string());
    cli.command = edit("a", "b", true);
    let run = begin_run(&cli, true).unwrap();
    assert_eq!(run.mode, RunMode { dry_run: true, verbose: true });
    assert_eq!(run.filters.target_pattern.as_deref(), Some("t"));
}
