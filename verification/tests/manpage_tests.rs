use slinky::manpage::{
    demote_headings, fold_page, split_lines, starts_with, subcommand_section,
    subcommand_section_titled,
};

const PAGE: &str = ".ie \\n(.g .ds Aq \\(aq\n.el .ds Aq '\n.TH tidy 1  \"tidy \" \n.SH NAME\ntidy \\- Lexically tidy the target path\n.SH SYNOPSIS\n\\fBtidy\\fR [\\fB\\-h\\fR|\\fB\\-\\-help\\fR] \n.SH DESCRIPTION\nLexically tidy the target path (e.g., remove redundant `..` or `.`)\n.SH OPTIONS\n.TP\n\\fB\\-h\\fR, \\fB\\-\\-help\\fR\nPrint help\n";

fn fold_with_std(page: &str) -> String {
    let mut out = String::new();
    let mut passed_name = false;
    for line in page.lines() {
        if line.starts_with(".TH") || line.starts_with(".SH NAME") {
            continue;
        }
        if !passed_name && !line.starts_with('.') && !line.is_empty() {
            passed_name = true;
            continue;
        }
        if line.starts_with(".SH") {
            passed_name = true;
            out.push_str(&line.replace(".SH", ".SS"));
        } else if passed_name {
            out.push_str(line);
        } else {
            continue;
        }
        out.push('\n');
    }
    out
}

fn sample_texts() -> Vec<String> {
    let pieces = [".SH", ".TH x", "text", "", ".", ".SH NAME", "\r", ".S", "H", " .SH tail", ".br"];
    let mut texts = vec![String::new()];
    let mut layer = vec![String::new()];
    for _ in 0..3 {
        let mut next = Vec::new();
        for prefix in &layer {
            for piece in pieces {
                for end in ["\n", "\r\n", ""] {
                    next.push(format!("{prefix}{piece}{end}"));
                }
            }
        }
        texts.extend(next.iter().cloned());
        layer = next;
    }
    texts
}

#[test]
fn split_lines_like_std() {
    assert_eq!(split_lines("a\nb\n"), vec!["a", "b"]);
    assert_eq!(split_lines("a\nb"), vec!["a", "b"]);
    assert_eq!(split_lines("a\r\nb\r"), vec!["a", "b\r"]);
    assert_eq!(split_lines("\n\n"), vec!["", ""]);
    assert_eq!(split_lines("a\r\r\n"), vec!["a\r"]);
    assert!(split_lines("").is_empty());
    for text in sample_texts() {
        let expected: Vec<&str> = text.lines().collect();
        assert_eq!(split_lines(&text), expected, "text {text:?}");
    }
}

#[test]
fn starts_with_compares_leading_characters() {
    assert!(starts_with(".SH NAME", ".SH"));
    assert!(starts_with(".SH", ".SH"));
    assert!(starts_with("anything", ""));
    assert!(!starts_with(".S", ".SH"));
    assert!(!starts_with(" .SH", ".SH"));
    assert!(!starts_with("", "."));
    assert!(starts_with("époque", "ép"));
}

#[test]
fn demote_headings_replaces_every_heading_request() {
    assert_eq!(demote_headings(".SH OPTIONS"), ".SS OPTIONS");
    assert_eq!(demote_headings(".SH .SH"), ".SS .SS");
    assert_eq!(demote_headings("..SH"), "..SS");
    assert_eq!(demote_headings(".S.SH"), ".S.SS");
    assert_eq!(demote_headings(".SHH"), ".SSH");
    assert_eq!(demote_headings("SH .S H"), "SH .S H");
    assert_eq!(demote_headings(""), "");
    for text in sample_texts() {
        for line in text.lines() {
            assert_eq!(demote_headings(line), line.replace(".SH", ".SS"), "line {line:?}");
        }
    }
}

#[test]
fn fold_page_drops_title_and_name() {
    assert_eq!(
        fold_page(PAGE),
        ".SS SYNOPSIS\n\\fBtidy\\fR [\\fB\\-h\\fR|\\fB\\-\\-help\\fR] \n.SS DESCRIPTION\nLexically tidy the target path (e.g., remove redundant `..` or `.`)\n.SS OPTIONS\n.TP\n\\fB\\-h\\fR, \\fB\\-\\-help\\fR\nPrint help\n"
    );
}

#[test]
fn fold_page_like_the_line_loop() {
    assert_eq!(fold_page(PAGE), fold_with_std(PAGE));
    for text in sample_texts() {
        assert_eq!(fold_page(&text), fold_with_std(&text), "text {text:?}");
    }
}

#[test]
fn fold_page_edge_pages() {
    assert_eq!(fold_page(""), "");
    assert_eq!(fold_page(".TH a\n.SH NAME\n"), "");
    assert_eq!(fold_page("name line\nkept\n"), "kept\n");
    assert_eq!(fold_page(".br\nname line\n.br\n"), ".br\n");
    assert_eq!(fold_page(".SH A\nfirst text stays\n"), ".SS A\nfirst text stays\n");
    assert_eq!(fold_page("\n\nname\n\nafter"), "\nafter\n");
}

#[test]
fn subcommand_section_has_upper_case_heading() {
    assert_eq!(
        subcommand_section("to-relative", ".TH x\n.SH NAME\nx \\- y\n.SH SYNOPSIS\nz\n"),
        "\n.SH SUBCOMMAND: TO-RELATIVE\n.SS SYNOPSIS\nz\n"
    );
    assert_eq!(subcommand_section("straße", ""), "\n.SH SUBCOMMAND: STRASSE\n");
    assert_eq!(subcommand_section_titled("As Given", "n\nbody"), "\n.SH SUBCOMMAND: As Given\nbody\n");
}
