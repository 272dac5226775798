use slinky::cli::RunMode;
use slinky::link::LinkEntry;
use slinky::report::{
    line_text, log_exec, log_listing, report, Line, Span, Stream, Tint,
};
use slinky::transform::{delete, edit_target, tidy, to_absolute, to_hardlink};
use slinky::walk::classify_found;
use slinky::{log_dangling_link, log_link, log_link_err, log_transformation};

fn tints(line: &Line) -> Vec<(Tint, String)> {
    line.spans.iter().map(|s| (s.tint, s.text.clone())).collect()
}

fn entry(origin: &str, target: &str, exists: bool) -> LinkEntry {
    classify_found(origin, target, exists)
}

fn quiet() -> RunMode {
    RunMode { dry_run: false, verbose: false }
}

fn telling() -> RunMode {
    RunMode { dry_run: false, verbose: true }
}

#[test]
fn link_line_without_prefix() {
    let line = log_link(None, "link.txt", "real.txt");
    assert_eq!(line.stream, Stream::Stdout);
    assert_eq!(line_text(&line), "link.txt -> real.txt");
    assert_eq!(
        tints(&line),
        vec![
            (Tint::Cyan, "link.txt".to_string()),
            (Tint::Plain, " -> ".to_string()),
            (Tint::Yellow, "real.txt".to_string()),
        ]
    );
}

#[test]
fn link_line_with_prefix() {
    let line = log_link(Some(Span::new(Tint::Bold, "create symlink")), "l", "t");
    assert_eq!(line_text(&line), "create symlink: l -> t");
    assert_eq!(line.spans[0].tint, Tint::Bold);
    assert_eq!(line.spans[1].tint, Tint::Plain);
}

#[test]
fn link_err_line_goes_to_stderr() {
    let line = log_link_err(
        Some(Span::new(Tint::Bold, "to-hardlink")),
        Some(Span::new(Tint::Red, "skipping directory")),
        "l",
        "d",
    );
    assert_eq!(line.stream, Stream::Stderr);
    assert_eq!(line_text(&line), "to-hardlink: skipping directory: l -> d");
    let line = log_link_err(None, Some(Span::new(Tint::Red, "oops")), "l", "d");
    assert_eq!(line_text(&line), "oops: l -> d");
    let line = log_link_err(None, None, "l", "d");
    assert_eq!(line_text(&line), "l -> d");
}

#[test]
fn dangling_link_line() {
    let line = log_dangling_link("to-absolute", "dangling.txt", "non_existent.txt");
    assert_eq!(line.stream, Stream::Stderr);
    assert_eq!(
        line_text(&line),
        "to-absolute: skipping dangling symlink: dangling.txt -> non_existent.txt"
    );
    assert_eq!(line.spans[0].tint, Tint::Bold);
    assert_eq!(line.spans[2].tint, Tint::Red);
}

#[test]
fn transformation_line() {
    let line = log_transformation("tidy", "link.txt", "foo/../bar", "bar");
    assert_eq!(line.stream, Stream::Stdout);
    assert_eq!(line_text(&line), "tidy: link.txt -> (foo/../bar => bar)");
    assert_eq!(
        tints(&line).iter().map(|(t, _)| *t).collect::<Vec<_>>(),
        vec![
            Tint::Bold,
            Tint::Plain,
            Tint::Cyan,
            Tint::Plain,
            Tint::Dimmed,
            Tint::Plain,
            Tint::BrightWhite,
            Tint::Plain,
            Tint::Yellow,
            Tint::Plain,
        ]
    );
}

#[test]
fn cli_tests_test_list_default() {
    let line = log_listing(&entry("link.txt", "real.txt", true), true);
    let text = line_text(&line);
    assert!(text.contains("attached"));
    assert!(text.contains("link.txt -> real.txt"));
    assert_eq!(line.spans[0].tint, Tint::Green);
}

#[test]
fn cli_tests_test_filter_dangling() {
    let line = log_listing(&entry("broken.txt", "non_existent.txt", false), true);
    let text = line_text(&line);
    assert!(text.contains("dangling"));
    assert!(!text.contains("valid.txt"));
    assert_eq!(text, "dangling: broken.txt -> non_existent.txt");
    assert_eq!(line.spans[0].tint, Tint::Red);
}

#[test]
fn test_list_alias() {
    let line = log_listing(&entry("link.txt", "real.txt", false), false);
    assert_eq!(line.stream, Stream::Stdout);
    assert_eq!(line_text(&line), "link.txt -> real.txt");
}

#[test]
fn exec_line() {
    let line = log_exec("exec", "echo $1", &entry("l", "t", true));
    assert_eq!(line_text(&line), "exec: echo $1 l t");
    assert_eq!(line.spans[2].tint, Tint::Blue);
}

#[test]
fn report_tells_failures() {
    let e = entry("d/dangling", "gone", false);
    let plan = to_absolute(&e, &None, quiet());
    let line = report("to-absolute", &e, &plan).unwrap();
    assert_eq!(line.stream, Stream::Stderr);
    assert_eq!(line_text(&line), "to-absolute: skipping dangling symlink: d/dangling -> gone");
    let e = entry("d/link", "dir", true);
    let plan = to_hardlink(&e, true, quiet());
    let line = report("to-hardlink", &e, &plan).unwrap();
    assert_eq!(line_text(&line), "to-hardlink: skipping directory: d/link -> dir");
}

#[test]
fn report_tells_unchanged_links() {
    let e = entry("l", "tidy/already", true);
    let line = report("tidy", &e, &tidy(&e, quiet())).unwrap();
    assert_eq!(line.stream, Stream::Stderr);
    assert_eq!(line_text(&line), "tidy: target is already tidy: l -> tidy/already");
    assert_eq!(line.spans[2].tint, Tint::Green);
    let plan = edit_target(&e, "tidy", "tidy", false, quiet());
    let line = report("edit-target", &e, &plan).unwrap();
    assert_eq!(
        line_text(&line),
        "edit-target: new target is identical to old target: l -> tidy/already"
    );
    assert_eq!(line.spans[2].tint, Tint::Red);
    let plan = edit_target(&e, "no match", "x", false, telling());
    assert!(report("edit-target", &e, &plan).is_none());
}

#[test]
fn report_tells_what_is_done_in_verbose_runs() {
    let e = entry("d/l", "a/../b", true);
    assert!(report("tidy", &e, &tidy(&e, quiet())).is_none());
    let line = report("tidy", &e, &tidy(&e, telling())).unwrap();
    assert_eq!(line.stream, Stream::Stdout);
    assert_eq!(line_text(&line), "tidy: d/l -> (a/../b => b)");
    let line = report("to-hardlink", &e, &to_hardlink(&e, false, telling())).unwrap();
    assert_eq!(line_text(&line), "to-hardlink: d/l -> d/a/../b");
    assert_eq!(line.spans[0].tint, Tint::Bold);
    let line = report("delete", &e, &delete(&e, telling())).unwrap();
    assert_eq!(line_text(&line), "delete: d/l -> a/../b");
    assert_eq!(line.spans[0].tint, Tint::BoldRed);
    assert!(report("delete", &e, &delete(&e, quiet())).is_none());
}

#[test]
fn failed_operation_is_told() {
    assert!(slinky::handle_operation(Ok(())).is_none());
    let line = slinky::handle_operation(Err("No such file or directory".to_string())).unwrap();
    assert_eq!(line.stream, Stream::Stderr);
    assert_eq!(line_text(&line), "Error: No such file or directory");
    assert_eq!(line.spans[0].tint, Tint::Red);
    assert_eq!(line.spans[2].tint, Tint::Plain);
}
