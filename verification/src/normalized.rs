//! Paths held in lexical normal form.

use crate::path::{
    components, is_absolute, is_absolute_path, join_paths, joined, normalized, reduce,
    reduce_components, render, render_path, split_components,
};
use crate::path_laws::{
    all_clean, has_no_parent, is_plainly_written, is_reduced, lemma_components_clean,
    lemma_normalize_fixes_plain_text, lemma_normalize_keeps_plain_path, lemma_normalized_reads_back,
    lemma_reduce_of_reduced, lemma_reduce_onto_is_reduced, lemma_render_round_trip,
};
use vstd::prelude::*;

verus! {

/// The lexical reduction of a path: whether it starts at the root, and the
/// components that are left once `.` is dropped and every `..` is cancelled
/// against the name before it.
///
/// The components of a value of this type are always clean and reduced: none
/// is empty or `.` or holds a separator, every `..` among them stands in a
/// leading run, and a rooted path has none.
#[derive(Debug)]
pub struct NormalizedPath {
    rooted: bool,
    parts: Vec<String>,
}

impl NormalizedPath {
    #[verifier::type_invariant]
    spec fn holds_reduced_components(self) -> bool {
        all_clean(self.parts.deep_view()) && is_reduced(self.rooted, self.parts.deep_view())
    }

    /// Whether the path starts at the root.
    pub closed spec fn rooted(self) -> bool {
        self.rooted
    }

    /// The components of the path.
    pub closed spec fn names(self) -> Seq<Seq<char>> {
        self.parts.deep_view()
    }

    /// The text of the path.
    pub open spec fn text(self) -> Seq<char> {
        render(self.rooted(), self.names())
    }

    /// The normal form of `path`.
    pub fn new(path: &str) -> (np: NormalizedPath)
        ensures
            np.rooted() == is_absolute(path@),
            np.names() == reduce(is_absolute(path@), components(path@)),
            np.text() == normalized(path@),
    {
        let rooted = is_absolute_path(path);
        let parts = split_components(path);
        let kept = reduce_components(rooted, &parts);
        proof {
            lemma_components_clean(path@);
            lemma_reduce_onto_is_reduced(rooted, Seq::empty(), components(path@));
        }
        NormalizedPath { rooted, parts: kept }
    }

    /// Whether the path starts at the root.
    pub fn is_rooted(&self) -> (b: bool)
        ensures
            b == self.rooted(),
    {
        self.rooted
    }

    /// The components of the path, which are clean and reduced.
    pub fn components(&self) -> (parts: &Vec<String>)
        ensures
            parts.deep_view() == self.names(),
            all_clean(self.names()),
            is_reduced(self.rooted(), self.names()),
    {
        proof {
            use_type_invariant(self);
        }
        &self.parts
    }

    /// The text of the path.  Reading the text again gives the same path:
    /// it is its own normal form.
    pub fn to_text(&self) -> (out: String)
        ensures
            out@ == self.text(),
            normalized(out@) == out@,
            is_absolute(out@) == self.rooted(),
            components(out@) == self.names(),
    {
        proof {
            use_type_invariant(self);
            lemma_render_round_trip(self.rooted, self.parts.deep_view());
            lemma_reduce_of_reduced(self.rooted, self.parts.deep_view());
        }
        render_path(self.rooted, &self.parts)
    }
}

/// The lexical normal form of `path`, as components.
pub fn normalize(path: &str) -> (np: NormalizedPath)
    ensures
        np.rooted() == is_absolute(path@),
        np.names() == reduce(is_absolute(path@), components(path@)),
        np.text() == normalized(path@),
{
    NormalizedPath::new(path)
}

/// Lexically tidies a path: drops `.` and empty pieces and cancels each `..`
/// against the name before it.  A leading `..` of a relative path stays; a
/// `..` directly under the root is dropped.  Never fails and never looks at
/// the filesystem.  The result is a fixed point: tidying it again changes
/// nothing.
pub fn tidy_path(path: &str) -> (out: String)
    ensures
        out@ == normalized(path@),
        normalized(out@) == out@,
        is_absolute(out@) == is_absolute(path@),
        has_no_parent(components(path@)) ==> components(out@) == components(path@),
        has_no_parent(components(path@)) && is_plainly_written(path@) ==> out@ == path@,
{
    proof {
        lemma_normalized_reads_back(path@);
        if has_no_parent(components(path@)) {
            lemma_normalize_keeps_plain_path(path@);
            if is_plainly_written(path@) {
                lemma_normalize_fixes_plain_text(path@);
            }
        }
    }
    NormalizedPath::new(path).to_text()
}

/// Resolves `rel` against the directory `base` by the text alone: joins the
/// two and tidies the result.
pub fn resolve_lexically(base: &str, rel: &str) -> (out: String)
    ensures
        out@ == normalized(joined(base@, rel@)),
{
    tidy_path(join_paths(base, rel).as_str())
}

} // verus!
