//! Lexical path model.
//!
//! A path is a sequence of characters.  It is *absolute* when it starts with
//! the separator `/`; its *components* are the pieces between separators that
//! are neither empty nor `.`.  Everything here is computed from the text
//! alone: nothing touches the filesystem.

use crate::text::{lemma_pieces_nonempty, lemma_pieces_push, pieces};
use vstd::prelude::*;

verus! {

/// The text of the parent-directory component, `..`.
pub open spec fn parent_name() -> Seq<char> {
    seq!['.', '.']
}

/// The text of the current-directory component, `.`.
pub open spec fn current_name() -> Seq<char> {
    seq!['.']
}

/// The text of one separator.
pub open spec fn separator() -> Seq<char> {
    seq!['/']
}

/// A path is absolute when it starts at the root.
pub open spec fn is_absolute(p: Seq<char>) -> bool {
    p.len() > 0 && p[0] == '/'
}

/// The pieces of `p` between separators, empty pieces included.  There is
/// always at least one piece.
pub open spec fn segments(p: Seq<char>) -> Seq<Seq<char>> {
    pieces(p, '/')
}

/// A segment names something: it is neither empty nor `.`.
pub open spec fn is_component(s: Seq<char>) -> bool {
    s.len() > 0 && s != current_name()
}

/// The segments in `segs` that are components, in order.
pub open spec fn only_components(segs: Seq<Seq<char>>) -> Seq<Seq<char>>
    decreases segs.len(),
{
    if segs.len() == 0 {
        Seq::<Seq<char>>::empty()
    } else if is_component(segs.last()) {
        only_components(segs.drop_last()).push(segs.last())
    } else {
        only_components(segs.drop_last())
    }
}

/// The components of a path: what is left of its segments once empty pieces
/// and `.` are dropped.
pub open spec fn components(p: Seq<char>) -> Seq<Seq<char>> {
    only_components(segments(p))
}

/// What one more component does to the components kept so far.
///
/// A name is appended.  A `..` cancels the name before it; with nothing to
/// cancel it is kept, unless the path is rooted and stands at the root, which
/// has no parent.
pub open spec fn reduce_step(rooted: bool, kept: Seq<Seq<char>>, c: Seq<char>) -> Seq<Seq<char>> {
    if c != parent_name() {
        kept.push(c)
    } else if kept.len() > 0 && kept.last() != parent_name() {
        kept.drop_last()
    } else if kept.len() == 0 && rooted {
        kept
    } else {
        kept.push(c)
    }
}

/// The components `comps` reduced one after another onto `kept`.
pub open spec fn reduce_onto(
    rooted: bool,
    kept: Seq<Seq<char>>,
    comps: Seq<Seq<char>>,
) -> Seq<Seq<char>>
    decreases comps.len(),
{
    if comps.len() == 0 {
        kept
    } else {
        reduce_step(rooted, reduce_onto(rooted, kept, comps.drop_last()), comps.last())
    }
}

/// The lexical reduction of a sequence of components.
pub open spec fn reduce(rooted: bool, comps: Seq<Seq<char>>) -> Seq<Seq<char>> {
    reduce_onto(rooted, Seq::empty(), comps)
}

/// Components written out with one separator between neighbours.
pub open spec fn join_components(comps: Seq<Seq<char>>) -> Seq<char>
    decreases comps.len(),
{
    if comps.len() == 0 {
        Seq::<char>::empty()
    } else if comps.len() == 1 {
        comps[0]
    } else {
        join_components(comps.drop_last()) + separator() + comps.last()
    }
}

/// The text of a path with the given root flag and components.
pub open spec fn render(rooted: bool, comps: Seq<Seq<char>>) -> Seq<char> {
    if rooted {
        separator() + join_components(comps)
    } else {
        join_components(comps)
    }
}

/// The lexical normal form of a path: its root, if it has one, followed by its
/// reduced components.
pub open spec fn normalized(p: Seq<char>) -> Seq<char> {
    render(is_absolute(p), reduce(is_absolute(p), components(p)))
}

/// `rel` resolved against the directory `base`: an absolute `rel` stands for
/// itself, anything else is appended to `base` with a separator in between
/// where `base` does not already end in one.
pub open spec fn joined(base: Seq<char>, rel: Seq<char>) -> Seq<char> {
    if is_absolute(rel) || base.len() == 0 {
        rel
    } else if base.last() == '/' {
        base + rel
    } else {
        base + separator() + rel
    }
}

/// The last component of a path, where it is a name: `None` for a path
/// without components and for one that ends in `..`.
pub open spec fn final_name(p: Seq<char>) -> Option<Seq<char>> {
    let comps = components(p);
    if comps.len() > 0 && comps.last() != parent_name() {
        Some(comps.last())
    } else {
        None
    }
}

/// `prefix` is a leading part of `comps`.
pub open spec fn is_component_prefix(prefix: Seq<Seq<char>>, comps: Seq<Seq<char>>) -> bool {
    prefix.len() <= comps.len() && comps.take(prefix.len() as int) == prefix
}

/// The components of `p` below the directory `base`: `None` unless both are
/// rooted alike and the components of `base` lead those of `p`.
pub open spec fn components_below(p: Seq<char>, base: Seq<char>) -> Option<Seq<Seq<char>>> {
    let pc = components(p);
    let bc = components(base);
    if is_absolute(p) == is_absolute(base) && is_component_prefix(bc, pc) {
        Some(pc.skip(bc.len() as int))
    } else {
        None
    }
}

/// How much of a path stands before its body: one character for the root,
/// one for a leading `.` that stands for the current directory, else none.
pub open spec fn lead_len(p: Seq<char>) -> nat {
    if is_absolute(p) {
        1
    } else if p.len() >= 1 && p[0] == '.' && (p.len() == 1 || p[1] == '/') {
        1
    } else {
        0
    }
}

/// The segments without those at the end that are no components.
pub open spec fn without_trailing(segs: Seq<Seq<char>>) -> Seq<Seq<char>>
    decreases segs.len(),
{
    if segs.len() > 0 && !is_component(segs.last()) {
        without_trailing(segs.drop_last())
    } else {
        segs
    }
}

/// The path without its last component: the text of the path up to the
/// end of the component before the last one, or up to its root or leading
/// `.` where there is no such component.  What stands before is kept as it
/// is written.
///
/// A path that is nothing but a root has no parent, nor has the empty path.
/// The parent of a path with a single component and no root is the empty
/// path, and so is the parent of `.`.
pub open spec fn parent_of(p: Seq<char>) -> Option<Seq<char>> {
    let lead = lead_len(p) as int;
    let body = without_trailing(segments(p.skip(lead)));
    if body.len() > 0 {
        Some(p.take(lead) + join_components(without_trailing(body.drop_last())))
    } else if lead == 1 && !is_absolute(p) {
        Some(Seq::<char>::empty())
    } else {
        None
    }
}

/// The text that an optional string holds.
pub open spec fn option_text(o: Option<String>) -> Option<Seq<char>> {
    match o {
        Some(s) => Some(s@),
        None => None,
    }
}

/// There is always at least one segment.
pub proof fn lemma_segments_nonempty(p: Seq<char>)
    ensures
        segments(p).len() >= 1,
{
    lemma_pieces_nonempty(p, '/');
}

/// Reading one more character either opens a new segment or lengthens the
/// last one.
pub proof fn lemma_segments_push(p: Seq<char>, c: char)
    ensures
        c == '/' ==> segments(p.push(c)) == segments(p).push(Seq::<char>::empty()),
        c != '/' ==> segments(p.push(c)) == segments(p).drop_last().push(
            segments(p).last().push(c),
        ),
{
    lemma_pieces_push(p, '/', c);
}

/// Closing a segment keeps it exactly when it is a component.
pub proof fn lemma_only_components_push(segs: Seq<Seq<char>>, s: Seq<char>)
    ensures
        only_components(segs.push(s)) == if is_component(s) {
            only_components(segs).push(s)
        } else {
            only_components(segs)
        },
{
    assert(segs.push(s).drop_last() == segs);
}

/// Whether the text is exactly `..`.
pub fn is_parent_name(s: &str) -> (b: bool)
    ensures
        b == (s@ == parent_name()),
{
    if s.unicode_len() != 2 {
        false
    } else {
        let b = s.get_char(0) == '.' && s.get_char(1) == '.';
        assert(b ==> s@ =~= parent_name());
        b
    }
}

/// The path of the current directory, `.`.
pub fn current_dir() -> (dir: String)
    ensures
        dir@ == current_name(),
{
    proof {
        reveal_strlit(".");
    }
    let dir = ".".to_owned();
    assert(dir@ =~= current_name());
    dir
}

/// Whether the path starts at the root.
pub fn is_absolute_path(path: &str) -> (b: bool)
    ensures
        b == is_absolute(path@),
{
    if path.is_empty() {
        false
    } else {
        path.get_char(0) == '/'
    }
}

/// The components of `path`, in order.
pub fn split_components(path: &str) -> (parts: Vec<String>)
    ensures
        parts.deep_view() == components(path@),
{
    let n = path.unicode_len();
    let mut parts: Vec<String> = Vec::new();
    let mut start: usize = 0;
    let mut lone_dot = false;
    let mut i: usize = 0;
    proof {
        assert(path@.take(0) =~= Seq::<char>::empty());
        assert(segments(path@.take(0)).drop_last() =~= Seq::<Seq<char>>::empty());
        assert(path@.subrange(0, 0) =~= Seq::<char>::empty());
        assert(parts.deep_view() =~= Seq::<Seq<char>>::empty());
    }
    for c in it: path.chars()
        invariant
            it.seq() == path@,
            i == it.index(),
            n == path@.len(),
            start <= i,
            segments(path@.take(i as int)).len() >= 1,
            segments(path@.take(i as int)).last() == path@.subrange(start as int, i as int),
            lone_dot == (path@.subrange(start as int, i as int) == current_name()),
            parts.deep_view() == only_components(segments(path@.take(i as int)).drop_last()),
    {
        let ghost before = path@.take(i as int);
        let ghost open = path@.subrange(start as int, i as int);
        proof {
            assert(path@.take(i + 1) =~= before.push(c));
            lemma_segments_push(before, c);
            lemma_segments_nonempty(before.push(c));
        }
        if c == '/' {
            if i > start && !lone_dot {
                let piece = path.substring_char(start, i).to_owned();
                let ghost old_parts = parts.deep_view();
                parts.push(piece);
                assert(parts.deep_view() =~= old_parts.push(open));
            }
            proof {
                assert(segments(before).drop_last().push(open) =~= segments(before));
                lemma_only_components_push(segments(before).drop_last(), open);
                assert(segments(before.push(c)).drop_last() =~= segments(before));
                assert(path@.subrange(i + 1, i + 1) =~= Seq::<char>::empty());
            }
            start = i + 1;
            lone_dot = false;
        } else {
            proof {
                assert(segments(before.push(c)).drop_last() =~= segments(before).drop_last());
                assert(path@.subrange(start as int, i + 1) =~= open.push(c));
                if i == start {
                    assert(open.push(c) =~= seq![c]);
                    assert((seq![c] == current_name()) == (c == '.')) by {
                        assert(seq![c][0] == c);
                        if c == '.' {
                            assert(seq![c] =~= current_name());
                        }
                    }
                } else {
                    assert(open.push(c).len() >= 2);
                }
            }
            lone_dot = i == start && c == '.';
        }
        i = i + 1;
    }
    proof {
        assert(path@.take(i as int) =~= path@);
    }
    let ghost open = path@.subrange(start as int, i as int);
    if i > start && !lone_dot {
        let piece = path.substring_char(start, i).to_owned();
        let ghost old_parts = parts.deep_view();
        parts.push(piece);
        assert(parts.deep_view() =~= old_parts.push(open));
    }
    proof {
        assert(segments(path@).drop_last().push(open) =~= segments(path@));
        lemma_only_components_push(segments(path@).drop_last(), open);
    }
    parts
}

/// The lexical reduction of `parts`: `.`-free components with every `..`
/// cancelled against the name before it, where there is one.
pub fn reduce_components(rooted: bool, parts: &Vec<String>) -> (kept: Vec<String>)
    ensures
        kept.deep_view() == reduce(rooted, parts.deep_view()),
{
    let mut kept: Vec<String> = Vec::new();
    let mut k: usize = 0;
    proof {
        assert(parts.deep_view().take(0) =~= Seq::<Seq<char>>::empty());
        assert(kept.deep_view() =~= Seq::<Seq<char>>::empty());
    }
    while k < parts.len()
        invariant
            k <= parts.len(),
            kept.deep_view() == reduce(rooted, parts.deep_view().take(k as int)),
        decreases parts.len() - k,
    {
        let part = &parts[k];
        let ghost old_kept = kept.deep_view();
        proof {
            assert(parts.deep_view().take(k + 1).drop_last() =~= parts.deep_view().take(k as int));
            assert(parts.deep_view().take(k + 1).last() == part@);
        }
        if !is_parent_name(part.as_str()) {
            kept.push(part.clone());
            assert(kept.deep_view() =~= old_kept.push(part@));
        } else if kept.len() > 0 && !is_parent_name(kept[kept.len() - 1].as_str()) {
            assert(old_kept.last() == kept[kept.len() - 1]@);
            kept.pop();
            assert(kept.deep_view() =~= old_kept.drop_last());
        } else if kept.len() == 0 && rooted {
        } else {
            proof {
                if kept.len() > 0 {
                    assert(old_kept.last() == kept[kept.len() - 1]@);
                }
            }
            kept.push(part.clone());
            assert(kept.deep_view() =~= old_kept.push(part@));
        }
        k = k + 1;
    }
    proof {
        assert(parts.deep_view().take(k as int) =~= parts.deep_view());
    }
    kept
}

/// The text of the path with the given root flag and components.
pub fn render_path(rooted: bool, parts: &Vec<String>) -> (out: String)
    ensures
        out@ == render(rooted, parts.deep_view()),
{
    let mut out = String::new();
    if rooted {
        proof {
            reveal_strlit("/");
        }
        out.append("/");
        assert(out@ =~= separator());
    }
    let ghost root = out@;
    let mut k: usize = 0;
    proof {
        assert(parts.deep_view().take(0) =~= Seq::<Seq<char>>::empty());
        assert(out@ =~= root + join_components(parts.deep_view().take(0)));
    }
    while k < parts.len()
        invariant
            k <= parts.len(),
            root == if rooted {
                separator()
            } else {
                Seq::<char>::empty()
            },
            out@ == root + join_components(parts.deep_view().take(k as int)),
        decreases parts.len() - k,
    {
        let ghost before = parts.deep_view().take(k as int);
        let ghost now = parts.deep_view().take(k + 1);
        proof {
            assert(now.drop_last() =~= before);
            assert(now.last() == parts[k as int]@);
        }
        if k > 0 {
            proof {
                reveal_strlit("/");
            }
            out.append("/");
        }
        out.append(parts[k].as_str());
        proof {
            if k == 0 {
                assert(before.len() == 0);
                assert(now.len() == 1);
                assert(out@ =~= root + join_components(now));
            } else {
                assert("/"@ =~= separator());
                assert(out@ =~= root + join_components(now));
            }
        }
        k = k + 1;
    }
    proof {
        assert(parts.deep_view().take(k as int) =~= parts.deep_view());
        if !rooted {
            assert(root + join_components(parts.deep_view()) =~= join_components(
                parts.deep_view(),
            ));
        }
    }
    out
}

/// Resolves `rel` against the directory `base`.
pub fn join_paths(base: &str, rel: &str) -> (out: String)
    ensures
        out@ == joined(base@, rel@),
{
    if is_absolute_path(rel) || base.is_empty() {
        rel.to_owned()
    } else {
        let n = base.unicode_len();
        let mut out = base.to_owned();
        if base.get_char(n - 1) != '/' {
            proof {
                reveal_strlit("/");
            }
            out.append("/");
            assert(out@ =~= base@ + separator());
        }
        out.append(rel);
        out
    }
}

/// The last component of `path`, where it is a name.
pub fn file_name(path: &str) -> (name: Option<String>)
    ensures
        option_text(name) == final_name(path@),
{
    let mut parts = split_components(path);
    let ghost comps = parts.deep_view();
    match parts.pop() {
        None => None,
        Some(last) => {
            assert(comps.last() == last@);
            if is_parent_name(last.as_str()) {
                None
            } else {
                Some(last)
            }
        },
    }
}

/// Whether the segment is a component: neither empty nor `.`.
pub fn is_component_text(s: &str) -> (b: bool)
    ensures
        b == is_component(s@),
{
    let n = s.unicode_len();
    if n == 0 {
        false
    } else if n == 1 {
        let dot = s.get_char(0) == '.';
        assert(dot ==> s@ =~= current_name());
        !dot
    } else {
        true
    }
}

/// The segments of `text`: its pieces between separators, empty pieces
/// included.
pub fn split_segments(text: &str) -> (segs: Vec<String>)
    ensures
        segs.deep_view() == segments(text@),
{
    let n = text.unicode_len();
    let mut segs: Vec<String> = Vec::new();
    let mut start: usize = 0;
    let mut i: usize = 0;
    proof {
        assert(text@.take(0) =~= Seq::<char>::empty());
        assert(segments(text@.take(0)).drop_last() =~= Seq::<Seq<char>>::empty());
        assert(text@.subrange(0, 0) =~= Seq::<char>::empty());
        assert(segs.deep_view() =~= Seq::<Seq<char>>::empty());
    }
    for c in it: text.chars()
        invariant
            it.seq() == text@,
            i == it.index(),
            n == text@.len(),
            start <= i,
            segments(text@.take(i as int)).len() >= 1,
            segments(text@.take(i as int)).last() == text@.subrange(start as int, i as int),
            segs.deep_view() == segments(text@.take(i as int)).drop_last(),
    {
        let ghost before = text@.take(i as int);
        let ghost open = text@.subrange(start as int, i as int);
        proof {
            assert(text@.take(i + 1) =~= before.push(c));
            lemma_segments_push(before, c);
            lemma_segments_nonempty(before.push(c));
        }
        if c == '/' {
            let piece = text.substring_char(start, i).to_owned();
            let ghost closed = segs.deep_view();
            segs.push(piece);
            proof {
                assert(segs.deep_view() =~= closed.push(open));
                assert(closed.push(open) =~= segments(before));
                assert(segments(before.push(c)).drop_last() =~= segments(before));
                assert(text@.subrange(i + 1, i + 1) =~= Seq::<char>::empty());
            }
            start = i + 1;
        } else {
            proof {
                assert(segments(before.push(c)).drop_last() =~= segments(before).drop_last());
                assert(text@.subrange(start as int, i + 1) =~= open.push(c));
            }
        }
        i = i + 1;
    }
    proof {
        assert(text@.take(i as int) =~= text@);
    }
    let piece = text.substring_char(start, i).to_owned();
    let ghost closed = segs.deep_view();
    segs.push(piece);
    proof {
        assert(segs.deep_view() =~= closed.push(text@.subrange(start as int, i as int)));
        assert(segments(text@).drop_last().push(segments(text@).last()) =~= segments(text@));
    }
    segs
}

/// The segments without those at the end that are no components.
pub fn drop_trailing(segs: Vec<String>) -> (kept: Vec<String>)
    ensures
        kept.deep_view() == without_trailing(segs.deep_view()),
{
    let mut kept = segs;
    while kept.len() > 0 && !is_component_text(kept[kept.len() - 1].as_str())
        invariant
            without_trailing(kept.deep_view()) == without_trailing(segs.deep_view()),
        decreases kept.len(),
    {
        let ghost before = kept.deep_view();
        assert(before.last() == kept[kept.len() - 1]@);
        kept.pop();
        assert(kept.deep_view() =~= before.drop_last());
    }
    proof {
        if kept.len() > 0 {
            assert(kept.deep_view().last() == kept[kept.len() - 1]@);
        }
    }
    kept
}

/// The path without its last component, where it has one.  What stands
/// before the last component is kept as it is written, without the
/// separators that end it.
pub fn parent_dir(path: &str) -> (dir: Option<String>)
    ensures
        option_text(dir) == parent_of(path@),
{
    let n = path.unicode_len();
    let rooted = is_absolute_path(path);
    let lead: usize = if rooted {
        1
    } else if n >= 1 && path.get_char(0) == '.' && (n == 1 || path.get_char(1) == '/') {
        1
    } else {
        0
    };
    proof {
        assert(path@.subrange(lead as int, n as int) =~= path@.skip(lead as int));
        assert(path@.subrange(0, lead as int) =~= path@.take(lead as int));
    }
    let mut body = drop_trailing(split_segments(path.substring_char(lead, n)));
    if body.len() > 0 {
        let ghost whole = body.deep_view();
        body.pop();
        assert(body.deep_view() =~= whole.drop_last());
        let before = drop_trailing(body);
        let mut out = path.substring_char(0, lead).to_owned();
        out.append(render_path(false, &before).as_str());
        Some(out)
    } else if lead == 1 && !rooted {
        Some(String::new())
    } else {
        None
    }
}

/// The components of `path` below the directory `base`, where `path` lies
/// below it.
pub fn strip_base(path: &str, base: &str) -> (rest: Option<Vec<String>>)
    ensures
        rest.is_some() == components_below(path@, base@).is_some(),
        rest.is_some() ==> rest.unwrap().deep_view() == components_below(path@, base@).unwrap(),
{
    if is_absolute_path(path) != is_absolute_path(base) {
        return None;
    }
    let parts = split_components(path);
    let lead = split_components(base);
    if lead.len() > parts.len() {
        return None;
    }
    let mut k: usize = 0;
    while k < lead.len()
        invariant
            k <= lead.len() <= parts.len(),
            parts.deep_view() == components(path@),
            lead.deep_view() == components(base@),
            parts.deep_view().take(k as int) == lead.deep_view().take(k as int),
        decreases lead.len() - k,
    {
        let same = parts[k] == lead[k];
        if !same {
            proof {
                assert(parts[k as int]@ != lead[k as int]@);
                let n = lead.len() as int;
                if parts.deep_view().take(n) == lead.deep_view() {
                    assert(parts.deep_view().take(n)[k as int] == lead.deep_view()[k as int]);
                }
            }
            return None;
        }
        assert(parts.deep_view().take(k + 1) =~= parts.deep_view().take(k as int).push(
            parts[k as int]@,
        ));
        assert(lead.deep_view().take(k + 1) =~= lead.deep_view().take(k as int).push(
            lead[k as int]@,
        ));
        k = k + 1;
    }
    assert(lead.deep_view().take(k as int) =~= lead.deep_view());
    let mut rest: Vec<String> = Vec::new();
    let mut j: usize = lead.len();
    assert(rest.deep_view() =~= parts.deep_view().subrange(lead.len() as int, j as int));
    while j < parts.len()
        invariant
            lead.len() <= j <= parts.len(),
            rest.deep_view() == parts.deep_view().subrange(lead.len() as int, j as int),
        decreases parts.len() - j,
    {
        let ghost before = rest.deep_view();
        rest.push(parts[j].clone());
        assert(rest.deep_view() =~= before.push(parts[j as int]@));
        assert(rest.deep_view() =~= parts.deep_view().subrange(lead.len() as int, j + 1));
        j = j + 1;
    }
    assert(rest.deep_view() =~= parts.deep_view().skip(lead.len() as int));
    Some(rest)
}

} // verus!
