//! The relative path between two absolute locations.

use crate::path::{
    components, is_absolute, is_absolute_path, join_components, joined, normalized, option_text,
    parent_name, reduce, reduce_onto,
};
use crate::path_laws::{
    all_clean, has_no_parent, is_clean_component, is_plainly_written, lemma_components_clean,
    lemma_components_of_joined, lemma_normalize_fixes_plain_text, lemma_normalized_reads_back,
    lemma_reduce_of_reduced, lemma_reduce_onto_concat, lemma_render_round_trip,
};
use vstd::prelude::*;

verus! {

/// How many leading components two paths share.
pub open spec fn common_prefix_len(a: Seq<Seq<char>>, b: Seq<Seq<char>>) -> nat
    decreases a.len(),
{
    if a.len() > 0 && b.len() > 0 && a.first() == b.first() {
        1 + common_prefix_len(a.skip(1), b.skip(1))
    } else {
        0
    }
}

/// `n` times the component `..`.
pub open spec fn parents(n: nat) -> Seq<Seq<char>> {
    Seq::new(n, |i: int| parent_name())
}

/// The way from the directory with the components `from` to the path with
/// the components `to`: one `..` for each component of `from` behind what the
/// two share, then what `to` has behind it.
pub open spec fn relative_components(from: Seq<Seq<char>>, to: Seq<Seq<char>>) -> Seq<Seq<char>> {
    let shared = common_prefix_len(from, to);
    parents((from.len() - shared) as nat) + to.skip(shared as int)
}

/// The relative path that leads from the directory `from_dir` to
/// `to_target`.
///
/// There is none unless both are absolute.  There is none either where the
/// two part ways at a `..` of `from_dir`: what that component stands for
/// cannot be told from the text.
pub open spec fn relative_path(from_dir: Seq<char>, to_target: Seq<char>) -> Option<Seq<char>> {
    let from = components(from_dir);
    let to = components(to_target);
    let shared = common_prefix_len(from, to) as int;
    if !is_absolute(from_dir) || !is_absolute(to_target) {
        None
    } else if shared < from.len() && shared < to.len() && from[shared] == parent_name() {
        None
    } else {
        Some(join_components(relative_components(from, to)))
    }
}

/// Calls `pathdiff::diff_paths(path, base)` and hands its result back as
/// text.
///
/// Trusted, for absolute `path` and `base`: the result is the relative path
/// from `base` to `path` as `relative_path` states it.  `diff_paths` skips
/// the components that the two share from the root on; where `base` then
/// continues with `..` while `path` has a component left it gives up, else it
/// writes one `..` for each component left of `base`, followed by the
/// components left of `path`.
#[verifier::external_body]
fn diff_paths(path: &str, base: &str) -> (r: Option<String>)
    requires
        is_absolute(path@),
        is_absolute(base@),
    ensures
        option_text(r) == relative_path(base@, path@),
{
    match pathdiff::diff_paths(path, base) {
        Some(p) => Some(p.to_string_lossy().into_owned()),
        None => None,
    }
}

/// The shortest `..`-based relative path that leads from the directory
/// `from_dir` to `to_target`.  Both are expected absolute and already
/// resolved; for a relative input there is no answer.
pub fn relativize(from_dir: &str, to_target: &str) -> (r: Option<String>)
    ensures
        option_text(r) == relative_path(from_dir@, to_target@),
        is_absolute(from_dir@) && is_absolute(to_target@) && has_no_parent(components(from_dir@))
            ==> r is Some && normalized(joined(from_dir@, r->Some_0@)) == normalized(to_target@),
{
    if is_absolute_path(from_dir) && is_absolute_path(to_target) {
        proof {
            if has_no_parent(components(from_dir@)) {
                lemma_relativize_round_trip(from_dir@, to_target@);
            }
        }
        diff_paths(to_target, from_dir)
    } else {
        None
    }
}

/// What `common_prefix_len` counts is shared, and it stops only where one
/// path ends or the two differ.
pub proof fn lemma_common_prefix(a: Seq<Seq<char>>, b: Seq<Seq<char>>)
    ensures
        common_prefix_len(a, b) <= a.len(),
        common_prefix_len(a, b) <= b.len(),
        a.take(common_prefix_len(a, b) as int) == b.take(common_prefix_len(a, b) as int),
        common_prefix_len(a, b) < a.len() && common_prefix_len(a, b) < b.len()
            ==> a[common_prefix_len(a, b) as int] != b[common_prefix_len(a, b) as int],
    decreases a.len(),
{
    if a.len() > 0 && b.len() > 0 && a.first() == b.first() {
        lemma_common_prefix(a.skip(1), b.skip(1));
        let k = common_prefix_len(a.skip(1), b.skip(1)) as int;
        assert(a.take(k + 1) =~= seq![a.first()] + a.skip(1).take(k));
        assert(b.take(k + 1) =~= seq![b.first()] + b.skip(1).take(k));
    } else {
        assert(a.take(0) =~= b.take(0));
    }
}

/// Each `..` after names cancels one of them.
pub proof fn lemma_reduce_onto_parents(rooted: bool, kept: Seq<Seq<char>>, n: nat)
    requires
        has_no_parent(kept),
        n <= kept.len(),
    ensures
        reduce_onto(rooted, kept, parents(n)) == kept.take(kept.len() - n),
    decreases n,
{
    if n == 0 {
        assert(kept.take(kept.len() as int) =~= kept);
    } else {
        lemma_reduce_onto_parents(rooted, kept, (n - 1) as nat);
        assert(parents(n).drop_last() =~= parents((n - 1) as nat));
        let before = kept.take(kept.len() - n + 1);
        assert(before.last() == kept[kept.len() - n]);
        assert(before.drop_last() =~= kept.take(kept.len() - n));
    }
}

/// Resolving the relative path from a directory to a target against that
/// directory leads to the target.
///
/// Stated for an absolute directory without a `..` component and an absolute
/// target: the relative path exists, and joining it onto the directory and
/// normalizing gives the normal form of the target.
pub proof fn lemma_relativize_round_trip(from_dir: Seq<char>, to_target: Seq<char>)
    requires
        is_absolute(from_dir),
        is_absolute(to_target),
        has_no_parent(components(from_dir)),
    ensures
        relative_path(from_dir, to_target) is Some,
        normalized(joined(from_dir, relative_path(from_dir, to_target).unwrap())) == normalized(
            to_target,
        ),
{
    let from = components(from_dir);
    let to = components(to_target);
    let shared = common_prefix_len(from, to);
    lemma_common_prefix(from, to);
    let ups = parents((from.len() - shared) as nat);
    let rest = to.skip(shared as int);
    let way = relative_components(from, to);
    let rel = join_components(way);
    lemma_components_clean(to_target);
    assert(all_clean(way)) by {
        assert forall|i: int| 0 <= i < way.len() implies is_clean_component(#[trigger] way[i]) by {
            if i < ups.len() {
                assert(way[i] == parent_name());
                assert(parent_name().len() == 2);
            } else {
                assert(way[i] == to[shared + (i - ups.len())]);
            }
        }
    }
    lemma_render_round_trip(false, way);
    lemma_components_of_joined(from_dir, rel);
    let there = joined(from_dir, rel);
    // Reducing the joined path: the directory stays, each `..` takes one of
    // its components away, and what is left of the target is reduced onto the
    // shared part.
    lemma_reduce_of_reduced(true, from);
    lemma_reduce_onto_concat(true, Seq::empty(), from, way);
    lemma_reduce_onto_concat(true, from, ups, rest);
    lemma_reduce_onto_parents(true, from, (from.len() - shared) as nat);
    let common = from.take(shared as int);
    assert(reduce(true, from + way) == reduce_onto(true, common, rest));
    // Reducing the target: its shared part has no `..` and stays.
    assert(common + rest =~= to);
    assert(has_no_parent(common));
    lemma_reduce_of_reduced(true, common);
    lemma_reduce_onto_concat(true, Seq::empty(), common, rest);
}

/// For a plainly written target without a `..` component the round trip
/// gives the target itself.
pub proof fn lemma_relativize_round_trip_exact(from_dir: Seq<char>, to_target: Seq<char>)
    requires
        is_absolute(from_dir),
        is_absolute(to_target),
        has_no_parent(components(from_dir)),
        has_no_parent(components(to_target)),
        is_plainly_written(to_target),
    ensures
        relative_path(from_dir, to_target) is Some,
        normalized(joined(from_dir, relative_path(from_dir, to_target).unwrap())) == to_target,
{
    lemma_relativize_round_trip(from_dir, to_target);
    lemma_normalize_fixes_plain_text(to_target);
}

/// Whatever two paths share from the start is counted by
/// `common_prefix_len`.
pub proof fn lemma_common_prefix_is_longest(a: Seq<Seq<char>>, b: Seq<Seq<char>>, k: int)
    requires
        0 <= k <= a.len(),
        k <= b.len(),
        a.take(k) == b.take(k),
    ensures
        k <= common_prefix_len(a, b),
    decreases a.len(),
{
    if k > 0 {
        assert(a.take(k)[0] == b.take(k)[0]);
        assert(a.skip(1).take(k - 1) =~= a.take(k).skip(1));
        assert(b.skip(1).take(k - 1) =~= b.take(k).skip(1));
        lemma_common_prefix_is_longest(a.skip(1), b.skip(1), k - 1);
    }
}

/// One more component at the end of a path lengthens what it shares with
/// another by one at most, and by one only where all of it was shared.
pub proof fn lemma_common_prefix_push(a: Seq<Seq<char>>, b: Seq<Seq<char>>, c: Seq<char>)
    ensures
        common_prefix_len(a, b) <= common_prefix_len(a, b.push(c)) <= common_prefix_len(a, b) + 1,
        common_prefix_len(a, b.push(c)) > common_prefix_len(a, b) ==> common_prefix_len(a, b)
            == b.len(),
{
    let before = common_prefix_len(a, b) as int;
    let after = common_prefix_len(a, b.push(c)) as int;
    lemma_common_prefix(a, b);
    lemma_common_prefix(a, b.push(c));
    assert(b.push(c).take(before) =~= b.take(before));
    lemma_common_prefix_is_longest(a, b.push(c), before);
    if after > before && before < b.len() {
        assert(a.take(before + 1) =~= a.take(after).take(before + 1));
        assert(b.take(before + 1) =~= b.push(c).take(after).take(before + 1));
        lemma_common_prefix_is_longest(a, b, before + 1);
    }
}

/// A way is at least as long as the components it has to leave and to
/// enter: reducing `way` onto a rooted path `from` without `..` takes one
/// component for each component of `from` that the result does not share,
/// and one for each component of the result that `from` does not share.
pub proof fn lemma_way_length(from: Seq<Seq<char>>, way: Seq<Seq<char>>)
    requires
        has_no_parent(from),
    ensures
        has_no_parent(reduce_onto(true, from, way)),
        way.len() >= (from.len() - common_prefix_len(from, reduce_onto(true, from, way))) + (
        reduce_onto(true, from, way).len() - common_prefix_len(
            from,
            reduce_onto(true, from, way),
        )),
    decreases way.len(),
{
    if way.len() == 0 {
        assert(from.take(from.len() as int) =~= from);
        lemma_common_prefix_is_longest(from, from, from.len() as int);
        lemma_common_prefix(from, from);
    } else {
        let before = reduce_onto(true, from, way.drop_last());
        let c = way.last();
        lemma_way_length(from, way.drop_last());
        lemma_common_prefix(from, before);
        if c != parent_name() {
            lemma_common_prefix_push(from, before, c);
            assert forall|i: int| 0 <= i < before.push(c).len() implies #[trigger] before.push(
                c,
            )[i] != parent_name() by {
                if i < before.len() {
                    assert(before[i] != parent_name());
                }
            }
        } else if before.len() > 0 {
            assert(before[before.len() - 1] != parent_name());
            assert(before.drop_last().push(before.last()) =~= before);
            lemma_common_prefix_push(from, before.drop_last(), before.last());
            let shorter = before.drop_last();
            assert forall|i: int| 0 <= i < shorter.len() implies #[trigger] shorter[i]
                != parent_name() by {
                assert(before[i] != parent_name());
            }
        }
    }
}

/// No way from a directory to a target has fewer components than the one
/// that `relative_components` gives.
///
/// Stated for rooted paths without `..`: whatever components lead from
/// `from` to `to` when they are reduced onto `from`, there are at least as
/// many of them.
pub proof fn lemma_relative_components_shortest(
    from: Seq<Seq<char>>,
    to: Seq<Seq<char>>,
    way: Seq<Seq<char>>,
)
    requires
        has_no_parent(from),
        reduce_onto(true, from, way) == to,
    ensures
        relative_components(from, to).len() <= way.len(),
{
    lemma_way_length(from, way);
    lemma_common_prefix(from, to);
}

/// The relative path that `relative_path` gives is a shortest one: any
/// relative path that leads from the directory to the target when it is
/// joined onto the directory and the result is normalized has at least as
/// many components.
///
/// Stated for an absolute directory and an absolute target without `..`
/// components.
pub proof fn lemma_relative_path_is_shortest(
    from_dir: Seq<char>,
    to_target: Seq<char>,
    rel: Seq<char>,
)
    requires
        is_absolute(from_dir),
        is_absolute(to_target),
        has_no_parent(components(from_dir)),
        has_no_parent(components(to_target)),
        !is_absolute(rel),
        normalized(joined(from_dir, rel)) == normalized(to_target),
    ensures
        relative_path(from_dir, to_target) is Some,
        components(relative_path(from_dir, to_target)->Some_0).len() <= components(rel).len(),
{
    let from = components(from_dir);
    let to = components(to_target);
    let way = components(rel);
    lemma_relativize_round_trip(from_dir, to_target);
    // What the proposed path reduces to is the target.
    lemma_components_of_joined(from_dir, rel);
    lemma_normalized_reads_back(joined(from_dir, rel));
    lemma_normalized_reads_back(to_target);
    lemma_reduce_of_reduced(true, to);
    lemma_reduce_of_reduced(true, from);
    lemma_reduce_onto_concat(true, Seq::empty(), from, way);
    lemma_relative_components_shortest(from, to, way);
    // The path given is read back as it was written.
    let given = relative_components(from, to);
    lemma_components_clean(to_target);
    lemma_common_prefix(from, to);
    assert(all_clean(given)) by {
        assert forall|i: int| 0 <= i < given.len() implies is_clean_component(
            #[trigger] given[i],
        ) by {
            let ups = from.len() - common_prefix_len(from, to);
            if i < ups {
                assert(given[i] == parent_name());
                assert(parent_name().len() == 2);
            } else {
                assert(given[i] == to[common_prefix_len(from, to) + (i - ups)]);
            }
        }
    }
    lemma_render_round_trip(false, given);
}

/// The relative path between two resolved locations is tidy: it is its own
/// normal form.
///
/// Stated for an absolute directory and an absolute target without `..`
/// components.
pub proof fn lemma_relative_path_is_tidy(from_dir: Seq<char>, to_target: Seq<char>)
    requires
        is_absolute(from_dir),
        is_absolute(to_target),
        has_no_parent(components(from_dir)),
        has_no_parent(components(to_target)),
    ensures
        relative_path(from_dir, to_target) is Some,
        normalized(relative_path(from_dir, to_target)->Some_0) == relative_path(
            from_dir,
            to_target,
        )->Some_0,
{
    let from = components(from_dir);
    let to = components(to_target);
    let shared = common_prefix_len(from, to);
    let ups = from.len() - shared;
    let given = relative_components(from, to);
    lemma_common_prefix(from, to);
    lemma_components_clean(to_target);
    assert forall|i: int| 0 <= i < given.len() implies is_clean_component(#[trigger] given[i]) by {
        if i < ups {
            assert(given[i] == parent_name());
            assert(parent_name().len() == 2);
        } else {
            assert(given[i] == to[shared + (i - ups)]);
        }
    }
    assert forall|i: int, j: int|
        0 <= i < j < given.len() && #[trigger] given[j] == parent_name() implies #[trigger] given[i]
        == parent_name() by {
        if j >= ups {
            assert(given[j] == to[shared + (j - ups)]);
        }
    }
    lemma_render_round_trip(false, given);
    lemma_reduce_of_reduced(false, given);
}

} // verus!
