//! Laws of the lexical path model: how segments and components behave under
//! concatenation, what reduction leaves behind, and the laws of
//! normalization that follow.

use crate::path::{
    components, is_absolute, is_component, join_components, joined, lemma_only_components_push,
    lemma_segments_nonempty, lemma_segments_push, normalized, only_components, parent_name, reduce,
    reduce_onto, reduce_step, render, segments, separator,
};
use crate::text::lemma_pieces_hold_no_separator;
use vstd::prelude::*;

verus! {

/// The text contains no separator.
pub open spec fn is_separator_free(s: Seq<char>) -> bool {
    forall|i: int| 0 <= i < s.len() ==> s[i] != '/'
}

/// A component as it can stand in a path: neither empty nor `.`, and without
/// a separator inside.
pub open spec fn is_clean_component(s: Seq<char>) -> bool {
    is_component(s) && is_separator_free(s)
}

/// Every element is a clean component.
pub open spec fn all_clean(comps: Seq<Seq<char>>) -> bool {
    forall|i: int| 0 <= i < comps.len() ==> is_clean_component(#[trigger] comps[i])
}

/// No element is `..`.
pub open spec fn has_no_parent(comps: Seq<Seq<char>>) -> bool {
    forall|i: int| 0 <= i < comps.len() ==> #[trigger] comps[i] != parent_name()
}

/// Nothing is left to reduce: every `..` stands in a leading run, and a
/// rooted path has none.
pub open spec fn is_reduced(rooted: bool, comps: Seq<Seq<char>>) -> bool {
    &&& rooted ==> has_no_parent(comps)
    &&& forall|i: int, j: int|
        0 <= i < j < comps.len() && #[trigger] comps[j] == parent_name() ==> #[trigger] comps[i]
            == parent_name()
}

/// No segment holds a separator.
pub proof fn lemma_segments_separator_free(p: Seq<char>)
    ensures
        forall|i: int| 0 <= i < segments(p).len() ==> is_separator_free(#[trigger] segments(p)[i]),
{
    lemma_pieces_hold_no_separator(p, '/');
}

/// What `only_components` keeps are components of the input, and it keeps
/// everything of an input made of components.
pub proof fn lemma_only_components_props(segs: Seq<Seq<char>>)
    ensures
        only_components(segs).len() <= segs.len(),
        forall|i: int|
            0 <= i < only_components(segs).len() ==> is_component(
                #[trigger] only_components(segs)[i],
            ),
        (forall|i: int| 0 <= i < segs.len() ==> is_separator_free(#[trigger] segs[i]))
            ==> forall|i: int|
            0 <= i < only_components(segs).len() ==> is_separator_free(
                #[trigger] only_components(segs)[i],
            ),
        (forall|i: int| 0 <= i < segs.len() ==> is_component(#[trigger] segs[i]))
            ==> only_components(segs) == segs,
    decreases segs.len(),
{
    if segs.len() > 0 {
        lemma_only_components_props(segs.drop_last());
        if forall|i: int| 0 <= i < segs.len() ==> is_component(#[trigger] segs[i]) {
            assert(forall|i: int|
                0 <= i < segs.drop_last().len() ==> is_component(#[trigger] segs.drop_last()[i]));
            assert(segs.drop_last().push(segs.last()) =~= segs);
        }
        if forall|i: int| 0 <= i < segs.len() ==> is_separator_free(#[trigger] segs[i]) {
            assert(forall|i: int|
                0 <= i < segs.drop_last().len() ==> is_separator_free(
                    #[trigger] segs.drop_last()[i],
                ));
        }
    }
}

/// The components of any path are clean.
pub proof fn lemma_components_clean(p: Seq<char>)
    ensures
        all_clean(components(p)),
{
    lemma_segments_separator_free(p);
    lemma_only_components_props(segments(p));
}

/// `only_components` distributes over concatenation.
pub proof fn lemma_only_components_concat(a: Seq<Seq<char>>, b: Seq<Seq<char>>)
    ensures
        only_components(a + b) == only_components(a) + only_components(b),
    decreases b.len(),
{
    if b.len() == 0 {
        assert(a + b =~= a);
        assert(only_components(a) + only_components(b) =~= only_components(a));
    } else {
        lemma_only_components_concat(a, b.drop_last());
        assert((a + b).drop_last() =~= a + b.drop_last());
        assert((a + b).last() == b.last());
        if is_component(b.last()) {
            assert(only_components(a + b) =~= only_components(a) + only_components(b));
        }
    }
}

/// The segments of a concatenation: the last segment of the front and the
/// first of the back run together, the others stay as they are.
pub proof fn lemma_segments_concat(a: Seq<char>, b: Seq<char>)
    ensures
        segments(a).len() >= 1,
        segments(b).len() >= 1,
        segments(a + b) == segments(a).drop_last().push(segments(a).last() + segments(b).first())
            + segments(b).skip(1),
    decreases b.len(),
{
    lemma_segments_nonempty(a);
    lemma_segments_nonempty(b);
    let sa = segments(a);
    if b.len() == 0 {
        assert(a + b =~= a);
        assert(sa.last() + segments(b).first() =~= sa.last());
        assert(sa.drop_last().push(sa.last()) + segments(b).skip(1) =~= sa);
    } else {
        let b0 = b.drop_last();
        let c = b.last();
        lemma_segments_concat(a, b0);
        lemma_segments_nonempty(b0);
        assert(a + b =~= (a + b0).push(c));
        assert(b =~= b0.push(c));
        lemma_segments_push(a + b0, c);
        lemma_segments_push(b0, c);
        let sb0 = segments(b0);
        let x = segments(a + b0);
        if c == '/' {
            assert(segments(a + b) =~= sa.drop_last().push(sa.last() + segments(b).first())
                + segments(b).skip(1));
        } else {
            if sb0.len() == 1 {
                assert((sa.last() + sb0.first()).push(c) =~= sa.last() + sb0.first().push(c));
            }
            assert(segments(a + b) =~= sa.drop_last().push(sa.last() + segments(b).first())
                + segments(b).skip(1));
        }
    }
}

/// A text without a separator is a single segment.
pub proof fn lemma_segments_of_separator_free(s: Seq<char>)
    requires
        is_separator_free(s),
    ensures
        segments(s) == seq![s],
    decreases s.len(),
{
    if s.len() == 0 {
        assert(s =~= Seq::<char>::empty());
    } else {
        lemma_segments_of_separator_free(s.drop_last());
        assert(seq![s.drop_last()].drop_last().push(seq![s.drop_last()].last().push(s.last()))
            =~= seq![s]) by {
            assert(s.drop_last().push(s.last()) =~= s);
        }
    }
}

/// Splitting what `join_components` wrote gives the components back.
pub proof fn lemma_segments_of_join(comps: Seq<Seq<char>>)
    requires
        comps.len() >= 1,
        forall|i: int| 0 <= i < comps.len() ==> is_separator_free(#[trigger] comps[i]),
    ensures
        segments(join_components(comps)) == comps,
    decreases comps.len(),
{
    if comps.len() == 1 {
        lemma_segments_of_separator_free(comps[0]);
        assert(seq![comps[0]] =~= comps);
    } else {
        let front = comps.drop_last();
        let last = comps.last();
        lemma_segments_of_join(front);
        let a = join_components(front) + separator();
        assert(a =~= join_components(front).push('/'));
        lemma_segments_push(join_components(front), '/');
        lemma_segments_of_separator_free(last);
        lemma_segments_concat(a, last);
        assert(Seq::<char>::empty() + last =~= last);
        assert(segments(a).drop_last() =~= front);
        assert(seq![last].skip(1) =~= Seq::<Seq<char>>::empty());
        assert(front.push(last) + Seq::<Seq<char>>::empty() =~= comps);
    }
}

/// What `join_components` writes starts with the first character of the
/// first component.
pub proof fn lemma_join_first_char(comps: Seq<Seq<char>>)
    requires
        comps.len() >= 1,
        comps[0].len() > 0,
    ensures
        join_components(comps).len() > 0,
        join_components(comps)[0] == comps[0][0],
    decreases comps.len(),
{
    if comps.len() > 1 {
        lemma_join_first_char(comps.drop_last());
    }
}

/// An empty segment alone holds no component.
pub proof fn lemma_no_component_in_empty_segment()
    ensures
        only_components(seq![Seq::<char>::empty()]) == Seq::<Seq<char>>::empty(),
{
    let none = Seq::<Seq<char>>::empty();
    lemma_only_components_push(none, Seq::<char>::empty());
    assert(none.push(Seq::<char>::empty()) =~= seq![Seq::<char>::empty()]);
}

/// A separator in front of a text adds no component.
pub proof fn lemma_components_behind_root(body: Seq<char>)
    ensures
        components(separator() + body) == components(body),
{
    let empty = Seq::<char>::empty();
    assert(separator() =~= empty.push('/'));
    lemma_segments_push(empty, '/');
    assert(segments(empty) =~= seq![empty]);
    assert(segments(separator()) =~= seq![empty, empty]);
    lemma_segments_concat(separator(), body);
    let sb = segments(body);
    assert(empty + sb.first() =~= sb.first());
    assert(seq![empty, empty].drop_last().push(sb.first()) + sb.skip(1) =~= seq![empty] + sb);
    lemma_only_components_concat(seq![empty], sb);
    lemma_no_component_in_empty_segment();
    assert(Seq::<Seq<char>>::empty() + only_components(sb) =~= only_components(sb));
}

/// Rendering clean components and reading the text again gives the same root
/// flag and the same components.
pub proof fn lemma_render_round_trip(rooted: bool, comps: Seq<Seq<char>>)
    requires
        all_clean(comps),
    ensures
        is_absolute(render(rooted, comps)) == rooted,
        components(render(rooted, comps)) == comps,
{
    let body = join_components(comps);
    let empty = Seq::<char>::empty();
    if comps.len() == 0 {
        assert(segments(empty) =~= seq![empty]);
        lemma_no_component_in_empty_segment();
    } else {
        assert(is_clean_component(comps[0]));
        lemma_join_first_char(comps);
        lemma_segments_of_join(comps);
        lemma_only_components_props(comps);
    }
    assert(components(body) == comps);
    if rooted {
        lemma_components_behind_root(body);
        assert((separator() + body)[0] == '/');
    }
}

/// Reducing a concatenation is reducing its parts in turn.
pub proof fn lemma_reduce_onto_concat(
    rooted: bool,
    kept: Seq<Seq<char>>,
    a: Seq<Seq<char>>,
    b: Seq<Seq<char>>,
)
    ensures
        reduce_onto(rooted, kept, a + b) == reduce_onto(rooted, reduce_onto(rooted, kept, a), b),
    decreases b.len(),
{
    if b.len() == 0 {
        assert(a + b =~= a);
    } else {
        lemma_reduce_onto_concat(rooted, kept, a, b.drop_last());
        assert((a + b).drop_last() =~= a + b.drop_last());
        assert((a + b).last() == b.last());
    }
}

/// One reduction step keeps clean, reduced components clean and reduced.
pub proof fn lemma_reduce_step_keeps_reduced(rooted: bool, kept: Seq<Seq<char>>, c: Seq<char>)
    requires
        all_clean(kept),
        is_reduced(rooted, kept),
        is_clean_component(c),
    ensures
        all_clean(reduce_step(rooted, kept, c)),
        is_reduced(rooted, reduce_step(rooted, kept, c)),
{
    let next = reduce_step(rooted, kept, c);
    if c != parent_name() {
        assert(forall|i: int| 0 <= i < kept.len() ==> next[i] == kept[i]);
    } else if kept.len() > 0 && kept.last() != parent_name() {
        assert(forall|i: int| 0 <= i < next.len() ==> next[i] == kept[i]);
    } else if kept.len() == 0 && rooted {
    } else {
        assert(forall|i: int| 0 <= i < kept.len() ==> next[i] == kept[i]);
        if kept.len() > 0 {
            assert(kept[kept.len() - 1] == parent_name());
            assert(!rooted);
            assert forall|i: int| 0 <= i < kept.len() implies #[trigger] kept[i]
                == parent_name() by {
                if i < kept.len() - 1 {
                    assert(kept[kept.len() - 1] == parent_name());
                }
            }
        }
    }
}

/// Reduction leaves clean, reduced components.
pub proof fn lemma_reduce_onto_is_reduced(rooted: bool, kept: Seq<Seq<char>>, comps: Seq<Seq<char>>)
    requires
        all_clean(kept),
        is_reduced(rooted, kept),
        all_clean(comps),
    ensures
        all_clean(reduce_onto(rooted, kept, comps)),
        is_reduced(rooted, reduce_onto(rooted, kept, comps)),
    decreases comps.len(),
{
    if comps.len() > 0 {
        assert(forall|i: int| 0 <= i < comps.len() - 1 ==> comps.drop_last()[i] == comps[i]);
        lemma_reduce_onto_is_reduced(rooted, kept, comps.drop_last());
        lemma_reduce_step_keeps_reduced(
            rooted,
            reduce_onto(rooted, kept, comps.drop_last()),
            comps.last(),
        );
    }
}

/// Reduced components reduce to themselves.
pub proof fn lemma_reduce_of_reduced(rooted: bool, comps: Seq<Seq<char>>)
    requires
        is_reduced(rooted, comps),
    ensures
        reduce(rooted, comps) == comps,
    decreases comps.len(),
{
    if comps.len() == 0 {
        assert(comps =~= Seq::<Seq<char>>::empty());
    } else {
        let front = comps.drop_last();
        assert(forall|i: int| 0 <= i < front.len() ==> front[i] == comps[i]);
        lemma_reduce_of_reduced(rooted, front);
        assert(front.push(comps.last()) =~= comps);
        if comps.last() == parent_name() {
            assert(comps[comps.len() - 1] == parent_name());
            assert(!rooted);
            if front.len() > 0 {
                assert(comps[front.len() - 1] == parent_name());
            }
        }
    }
}

/// The normal form of a path is rooted as the path is, and its components
/// are the reduced components of the path.
pub proof fn lemma_normalized_reads_back(p: Seq<char>)
    ensures
        is_absolute(normalized(p)) == is_absolute(p),
        components(normalized(p)) == reduce(is_absolute(p), components(p)),
        all_clean(components(normalized(p))),
        is_reduced(is_absolute(p), components(normalized(p))),
{
    let rooted = is_absolute(p);
    lemma_components_clean(p);
    lemma_reduce_onto_is_reduced(rooted, Seq::empty(), components(p));
    lemma_render_round_trip(rooted, reduce(rooted, components(p)));
}

/// Normalizing twice is normalizing once.
pub proof fn lemma_normalize_idempotent(p: Seq<char>)
    ensures
        normalized(normalized(p)) == normalized(p),
{
    lemma_normalized_reads_back(p);
    lemma_reduce_of_reduced(is_absolute(p), components(normalized(p)));
}

/// A path without a `..` component keeps its root and its components under
/// normalization: as a path, it stays what it was.
pub proof fn lemma_normalize_keeps_plain_path(p: Seq<char>)
    requires
        has_no_parent(components(p)),
    ensures
        is_absolute(normalized(p)) == is_absolute(p),
        components(normalized(p)) == components(p),
{
    lemma_normalized_reads_back(p);
    lemma_reduce_of_reduced(is_absolute(p), components(p));
}

/// The text behind the root of a path: the path itself where it has no root.
pub open spec fn body_of(p: Seq<char>) -> Seq<char> {
    if is_absolute(p) {
        p.skip(1)
    } else {
        p
    }
}

/// The path is written plainly: behind its root there is nothing, or
/// components with single separators between them and nothing else (no empty
/// piece, no `.`, no separator at the end).
pub open spec fn is_plainly_written(p: Seq<char>) -> bool {
    body_of(p).len() == 0 || forall|i: int|
        0 <= i < segments(body_of(p)).len() ==> is_component(#[trigger] segments(body_of(p))[i])
}

/// Writing the segments of a text out again, separators between them, gives
/// the text.
pub proof fn lemma_join_of_segments(p: Seq<char>)
    ensures
        join_components(segments(p)) == p,
    decreases p.len(),
{
    if p.len() == 0 {
        assert(p =~= Seq::<char>::empty());
    } else {
        let front = p.drop_last();
        let c = p.last();
        lemma_join_of_segments(front);
        lemma_segments_nonempty(front);
        assert(front.push(c) =~= p);
        lemma_segments_push(front, c);
        let sf = segments(front);
        if c == '/' {
            assert(sf.push(Seq::<char>::empty()).drop_last() =~= sf);
            assert(front + separator() + Seq::<char>::empty() =~= p);
        } else {
            let grown = sf.drop_last().push(sf.last().push(c));
            assert(grown.drop_last() =~= sf.drop_last());
            if sf.len() == 1 {
                assert(sf[0].push(c) =~= p);
            } else {
                assert(join_components(sf.drop_last()) + separator() + sf.last().push(c) =~= (
                join_components(sf.drop_last()) + separator() + sf.last()).push(c));
            }
        }
    }
}

/// A plainly written path without a `..` component is its own normal form.
pub proof fn lemma_normalize_fixes_plain_text(p: Seq<char>)
    requires
        is_plainly_written(p),
        has_no_parent(components(p)),
    ensures
        normalized(p) == p,
{
    let rooted = is_absolute(p);
    let body = body_of(p);
    if rooted {
        assert(separator() + body =~= p);
        lemma_components_behind_root(body);
    }
    assert(components(p) == components(body));
    lemma_reduce_of_reduced(rooted, components(p));
    if body.len() == 0 {
        assert(body =~= Seq::<char>::empty());
        assert(segments(body) =~= seq![Seq::<char>::empty()]);
        lemma_no_component_in_empty_segment();
    } else {
        lemma_only_components_props(segments(body));
        lemma_join_of_segments(body);
    }
    assert(join_components(components(body)) == body);
}

/// The components of a relative path resolved against a directory: those of
/// the directory, then those of the relative path.
pub proof fn lemma_components_of_joined(base: Seq<char>, rel: Seq<char>)
    requires
        !is_absolute(rel),
    ensures
        components(joined(base, rel)) == components(base) + components(rel),
        base.len() > 0 ==> is_absolute(joined(base, rel)) == is_absolute(base),
{
    let empty = Seq::<char>::empty();
    lemma_segments_nonempty(rel);
    let sr = segments(rel);
    if base.len() == 0 {
        assert(base =~= empty);
        assert(segments(base) =~= seq![empty]);
        assert(only_components(seq![empty]) =~= Seq::<Seq<char>>::empty()) by {
            lemma_only_components_push(Seq::<Seq<char>>::empty(), empty);
            assert(Seq::<Seq<char>>::empty().push(empty) =~= seq![empty]);
        }
        assert(components(base) + components(rel) =~= components(rel));
    } else {
        let front = if base.last() == '/' {
            base.drop_last()
        } else {
            base
        };
        let stem = front.push('/');
        assert(joined(base, rel) =~= stem + rel);
        assert(joined(base, rel)[0] == base[0]);
        lemma_segments_push(front, '/');
        lemma_segments_concat(stem, rel);
        assert(empty + sr.first() =~= sr.first());
        assert(segments(stem).drop_last().push(sr.first()) + sr.skip(1) =~= segments(front) + sr);
        lemma_only_components_concat(segments(front), sr);
        lemma_only_components_push(segments(front), empty);
        if base.last() == '/' {
            assert(stem =~= base);
        }
    }
}

/// Reducing components onto a path gives the same whether or not they
/// were reduced among themselves before.
pub proof fn lemma_reduce_absorbs_reduction(
    rooted: bool,
    kept: Seq<Seq<char>>,
    comps: Seq<Seq<char>>,
)
    ensures
        reduce_onto(rooted, kept, reduce(false, comps)) == reduce_onto(rooted, kept, comps),
    decreases comps.len(),
{
    if comps.len() > 0 {
        let front = comps.drop_last();
        let c = comps.last();
        let own = reduce(false, front);
        lemma_reduce_absorbs_reduction(rooted, kept, front);
        if c == parent_name() && own.len() > 0 && own.last() != parent_name() {
            assert(own.drop_last().push(own.last()) =~= own);
            assert(own.drop_last().push(own.last()).drop_last() =~= own.drop_last());
            let under = reduce_onto(rooted, kept, own.drop_last());
            assert(under.push(own.last()).drop_last() =~= under);
        } else {
            assert(own.push(c).drop_last() =~= own);
        }
    }
}

/// Tidying a path does not change where it leads from a directory: joined
/// onto the directory, the path and its normal form have the same normal
/// form.
pub proof fn lemma_normalize_keeps_destination(base: Seq<char>, rel: Seq<char>)
    ensures
        normalized(joined(base, normalized(rel))) == normalized(joined(base, rel)),
{
    lemma_normalized_reads_back(rel);
    lemma_normalize_idempotent(rel);
    if !is_absolute(rel) && base.len() > 0 {
        let lead = components(base);
        let rooted = is_absolute(base);
        lemma_components_of_joined(base, rel);
        lemma_components_of_joined(base, normalized(rel));
        lemma_reduce_onto_concat(rooted, Seq::empty(), lead, components(rel));
        lemma_reduce_onto_concat(rooted, Seq::empty(), lead, reduce(false, components(rel)));
        lemma_reduce_absorbs_reduction(rooted, reduce(rooted, lead), components(rel));
    }
}

} // verus!
