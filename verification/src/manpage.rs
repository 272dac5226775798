//! Man pages of subcommands, folded into the page of the main command.
//!
//! The page of a subcommand is rendered on its own, as a full page.  To
//! stand inside another page it loses its title and name section, and its
//! section headings become subsection headings below one heading that names
//! the subcommand.

use crate::text::{lemma_pieces_nonempty, lemma_pieces_push, pieces};
use vstd::prelude::*;

verus! {

/// The pieces of `t` between newlines, empty pieces included.  There is
/// always at least one piece.
pub open spec fn newline_pieces(t: Seq<char>) -> Seq<Seq<char>> {
    pieces(t, '\n')
}

/// The piece without the carriage return at its end, if it has one.
pub open spec fn without_return(piece: Seq<char>) -> Seq<char> {
    if piece.len() > 0 && piece.last() == '\r' {
        piece.drop_last()
    } else {
        piece
    }
}

/// The lines that pieces ended by a newline make.
pub open spec fn ended_lines(pieces: Seq<Seq<char>>) -> Seq<Seq<char>> {
    pieces.map_values(|p: Seq<char>| without_return(p))
}

/// The lines of a text.  A line ends at a newline, which is not part of it,
/// nor is a carriage return just before the newline.  What follows the last
/// newline is a line as it stands, unless it is empty.
pub open spec fn lines_of(t: Seq<char>) -> Seq<Seq<char>> {
    let pieces = newline_pieces(t);
    let ended = ended_lines(pieces.drop_last());
    if pieces.last().len() == 0 {
        ended
    } else {
        ended.push(pieces.last())
    }
}

/// The line with every `.SH` turned into `.SS`.
pub open spec fn demoted(line: Seq<char>) -> Seq<char> {
    Seq::new(
        line.len(),
        |i: int|
            if i >= 2 && line[i - 2] == '.' && line[i - 1] == 'S' && line[i] == 'H' {
                'S'
            } else {
                line[i]
            },
    )
}

/// What becomes of one line of a subcommand's page.  `passed` says whether
/// the name of the page has been passed before this line; the result says
/// whether it has been after it, and gives the line to write, if any.
///
/// The title line and the heading of the name section go.  So does the
/// first line of text, which is the name itself.  A section heading becomes
/// a subsection heading.  Any other line stays once the name is passed.
pub open spec fn line_step(passed: bool, line: Seq<char>) -> (bool, Option<Seq<char>>) {
    if ".TH"@.is_prefix_of(line) || ".SH NAME"@.is_prefix_of(line) {
        (passed, None)
    } else if !passed && !"."@.is_prefix_of(line) && line.len() > 0 {
        (true, None)
    } else if ".SH"@.is_prefix_of(line) {
        (true, Some(demoted(line)))
    } else if passed {
        (passed, Some(line))
    } else {
        (passed, None)
    }
}

/// The lines folded one after another: whether the name is passed, and the
/// text written so far, each line with a newline behind it.
pub open spec fn folded(lines: Seq<Seq<char>>) -> (bool, Seq<char>)
    decreases lines.len(),
{
    if lines.len() == 0 {
        (false, Seq::<char>::empty())
    } else {
        let (passed, written) = folded(lines.drop_last());
        let (now, line) = line_step(passed, lines.last());
        (
            now,
            match line {
                Some(l) => written + l + "\n"@,
                None => written,
            },
        )
    }
}

/// The section that stands for a subcommand in the page of the main
/// command: a heading with the given title, then the subcommand's own page
/// folded.
pub open spec fn section(title: Seq<char>, page: Seq<char>) -> Seq<char> {
    "\n.SH SUBCOMMAND: "@ + title + "\n"@ + folded(lines_of(page)).1
}

/// The text in upper case, as `str::to_uppercase` gives it.
pub uninterp spec fn uppercased(s: Seq<char>) -> Seq<char>;

/// Calls `str::to_uppercase`.
///
/// Trusted: the result is the text named `uppercased`.
#[verifier::external_body]
fn to_uppercase(s: &str) -> (r: String)
    ensures
        r@ == uppercased(s@),
{
    s.to_uppercase()
}

/// Whether `line` starts with `prefix`.
pub fn starts_with(line: &str, prefix: &str) -> (b: bool)
    ensures
        b == prefix@.is_prefix_of(line@),
{
    let n = prefix.unicode_len();
    let m = line.unicode_len();
    if n > m {
        return false;
    }
    let mut k: usize = 0;
    while k < n
        invariant
            k <= n <= m,
            n == prefix@.len(),
            m == line@.len(),
            forall|j: int| 0 <= j < k ==> prefix@[j] == line@[j],
        decreases n - k,
    {
        if prefix.get_char(k) != line.get_char(k) {
            assert(line@.subrange(0, n as int)[k as int] == line@[k as int]);
            return false;
        }
        k = k + 1;
    }
    assert(prefix@ =~= line@.subrange(0, n as int));
    true
}

/// The lines of `text`.
pub fn split_lines(text: &str) -> (lines: Vec<String>)
    ensures
        lines.deep_view() == lines_of(text@),
{
    let n = text.unicode_len();
    let mut lines: Vec<String> = Vec::new();
    let mut start: usize = 0;
    let mut ends_in_return = false;
    let mut i: usize = 0;
    proof {
        assert(text@.take(0) =~= Seq::<char>::empty());
        assert(newline_pieces(text@.take(0)).drop_last() =~= Seq::<Seq<char>>::empty());
        assert(text@.subrange(0, 0) =~= Seq::<char>::empty());
        assert(lines.deep_view() =~= ended_lines(Seq::<Seq<char>>::empty()));
    }
    for c in it: text.chars()
        invariant
            it.seq() == text@,
            i == it.index(),
            n == text@.len(),
            start <= i,
            newline_pieces(text@.take(i as int)).len() >= 1,
            newline_pieces(text@.take(i as int)).last() == text@.subrange(start as int, i as int),
            ends_in_return == (i > start && text@[i - 1] == '\r'),
            lines.deep_view() == ended_lines(newline_pieces(text@.take(i as int)).drop_last()),
    {
        let ghost before = text@.take(i as int);
        let ghost open = text@.subrange(start as int, i as int);
        let ghost closed = newline_pieces(before).drop_last();
        proof {
            assert(text@.take(i + 1) =~= before.push(c));
            lemma_pieces_push(before, '\n', c);
            lemma_pieces_nonempty(before.push(c), '\n');
        }
        if c == '\n' {
            let end = if ends_in_return {
                i - 1
            } else {
                i
            };
            let line = text.substring_char(start, end).to_owned();
            let ghost old_lines = lines.deep_view();
            lines.push(line);
            proof {
                assert(text@.subrange(start as int, end as int) =~= without_return(open));
                assert(lines.deep_view() =~= old_lines.push(without_return(open)));
                assert(closed.push(open) =~= newline_pieces(before));
                assert(ended_lines(closed.push(open)) =~= ended_lines(closed).push(
                    without_return(open),
                ));
                assert(newline_pieces(before.push(c)).drop_last() =~= newline_pieces(before));
                assert(text@.subrange(i + 1, i + 1) =~= Seq::<char>::empty());
            }
            start = i + 1;
            ends_in_return = false;
        } else {
            proof {
                assert(newline_pieces(before.push(c)).drop_last() =~= closed);
                assert(text@.subrange(start as int, i + 1) =~= open.push(c));
            }
            ends_in_return = c == '\r';
        }
        i = i + 1;
    }
    proof {
        assert(text@.take(i as int) =~= text@);
    }
    if i > start {
        let line = text.substring_char(start, i).to_owned();
        let ghost old_lines = lines.deep_view();
        lines.push(line);
        assert(lines.deep_view() =~= old_lines.push(text@.subrange(start as int, i as int)));
    }
    lines
}

/// The line with every `.SH` turned into `.SS`.
pub fn demote_headings(line: &str) -> (out: String)
    ensures
        out@ == demoted(line@),
{
    let n = line.unicode_len();
    let mut out = String::new();
    // What of the line is written: everything before `copied`.
    let mut copied: usize = 0;
    // How much of `.S` the characters just read make up.
    let mut seen: u8 = 0;
    let mut i: usize = 0;
    proof {
        assert(out@ =~= demoted(line@).subrange(0, 0));
    }
    for c in it: line.chars()
        invariant
            it.seq() == line@,
            i == it.index(),
            n == line@.len(),
            copied <= i,
            seen <= 2,
            seen == 1 <==> (i >= 1 && line@[i - 1] == '.'),
            seen == 2 <==> (i >= 2 && line@[i - 2] == '.' && line@[i - 1] == 'S'),
            out@ == demoted(line@).subrange(0, copied as int),
            forall|j: int| copied <= j < i ==> demoted(line@)[j] == line@[j],
    {
        if seen == 2 && c == 'H' {
            let ghost before = out@;
            out.append(line.substring_char(copied, i));
            proof {
                reveal_strlit("S");
            }
            out.append("S");
            proof {
                assert("S"@ =~= seq!['S']);
                assert(line@.subrange(copied as int, i as int) =~= demoted(line@).subrange(
                    copied as int,
                    i as int,
                ));
                assert(out@ =~= demoted(line@).subrange(0, i + 1));
            }
            copied = i + 1;
        }
        seen = if c == '.' {
            1
        } else if seen == 1 && c == 'S' {
            2
        } else {
            0
        };
        i = i + 1;
    }
    out.append(line.substring_char(copied, n));
    proof {
        assert(line@.subrange(copied as int, n as int) =~= demoted(line@).subrange(
            copied as int,
            n as int,
        ));
        assert(out@ =~= demoted(line@));
    }
    out
}

/// Folds the page of a subcommand: drops its title and name section and
/// turns its sections into subsections.  Every line written ends in a
/// newline.
pub fn fold_page(page: &str) -> (out: String)
    ensures
        out@ == folded(lines_of(page@)).1,
{
    let lines = split_lines(page);
    let mut out = String::new();
    let mut passed = false;
    let mut k: usize = 0;
    proof {
        assert(lines.deep_view().take(0) =~= Seq::<Seq<char>>::empty());
    }
    while k < lines.len()
        invariant
            k <= lines.len(),
            folded(lines.deep_view().take(k as int)) == (passed, out@),
        decreases lines.len() - k,
    {
        let line = lines[k].as_str();
        proof {
            assert(lines.deep_view().take(k + 1).drop_last() =~= lines.deep_view().take(k as int));
            assert(lines.deep_view().take(k + 1).last() == line@);
        }
        if starts_with(line, ".TH") || starts_with(line, ".SH NAME") {
        } else if !passed && !starts_with(line, ".") && !line.is_empty() {
            passed = true;
        } else if starts_with(line, ".SH") {
            passed = true;
            let heading = demote_headings(line);
            out.append(heading.as_str());
            out.append("\n");
        } else if passed {
            out.append(line);
            out.append("\n");
        }
        k = k + 1;
    }
    proof {
        assert(lines.deep_view().take(k as int) =~= lines.deep_view());
    }
    out
}

/// The section that stands for a subcommand in the page of the main
/// command, under a heading with the given title.
pub fn subcommand_section_titled(title: &str, page: &str) -> (out: String)
    ensures
        out@ == section(title@, page@),
{
    let mut out = "\n.SH SUBCOMMAND: ".to_owned();
    out.append(title);
    out.append("\n");
    out.append(fold_page(page).as_str());
    out
}

/// The section that stands for the subcommand `name` in the page of the
/// main command: its heading gives the name in upper case.
pub fn subcommand_section(name: &str, page: &str) -> (out: String)
    ensures
        out@ == section(uppercased(name@), page@),
{
    let title = to_uppercase(name);
    subcommand_section_titled(title.as_str(), page)
}

} // verus!
