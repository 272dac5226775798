//! Discovered links and their classification.
//!
//! A `LinkEntry` is a snapshot of one symbolic link: where it stands, what
//! it holds, what that resolves to, and whether the target was there when
//! the link was looked at.

use crate::path::{
    current_dir, current_name, is_absolute, is_absolute_path, join_paths, joined, parent_dir,
    parent_of,
};
use vstd::prelude::*;

verus! {

/// One symbolic link as it was found.
#[derive(Debug)]
pub struct LinkEntry {
    /// The path of the link itself.
    pub origin_path: String,
    /// The text stored in the link, unresolved.
    pub raw_target: String,
    /// The directory that holds the link.
    pub containing_dir: String,
    /// The path that the link leads to: the stored text, resolved against the
    /// containing directory where it is relative.
    pub resolved_target: String,
    /// Whether the stored text is an absolute path.
    pub is_absolute: bool,
    /// Whether the resolved target was missing when the link was classified.
    pub is_dangling: bool,
}

/// A link entry as plain values.
pub struct LinkView {
    pub origin_path: Seq<char>,
    pub raw_target: Seq<char>,
    pub containing_dir: Seq<char>,
    pub resolved_target: Seq<char>,
    pub is_absolute: bool,
    pub is_dangling: bool,
}

impl View for LinkEntry {
    type V = LinkView;

    open spec fn view(&self) -> LinkView {
        LinkView {
            origin_path: self.origin_path@,
            raw_target: self.raw_target@,
            containing_dir: self.containing_dir@,
            resolved_target: self.resolved_target@,
            is_absolute: self.is_absolute,
            is_dangling: self.is_dangling,
        }
    }
}

impl DeepView for LinkEntry {
    type V = LinkView;

    open spec fn deep_view(&self) -> LinkView {
        self@
    }
}

impl LinkView {
    /// The entry is what classification makes of its origin, directory and
    /// stored text.
    pub open spec fn is_classified(self) -> bool {
        &&& self.resolved_target == joined(self.containing_dir, self.raw_target)
        &&& self.is_absolute == is_absolute(self.raw_target)
    }
}

/// The directory that holds the link at `origin_path`: its parent, or `.`
/// where the path has none.
pub open spec fn containing_dir_of(origin_path: Seq<char>) -> Seq<char> {
    match parent_of(origin_path) {
        Some(dir) => dir,
        None => current_name(),
    }
}

/// The entry for the link at `origin_path` in `containing_dir` that stores
/// `raw_target`, given whether its resolved target exists.
pub open spec fn classified(
    origin_path: Seq<char>,
    containing_dir: Seq<char>,
    raw_target: Seq<char>,
    target_exists: bool,
) -> LinkView {
    LinkView {
        origin_path,
        raw_target,
        containing_dir,
        resolved_target: joined(containing_dir, raw_target),
        is_absolute: is_absolute(raw_target),
        is_dangling: !target_exists,
    }
}

/// The directory that holds the link at `origin_path`.
pub fn containing_dir(origin_path: &str) -> (dir: String)
    ensures
        dir@ == containing_dir_of(origin_path@),
{
    match parent_dir(origin_path) {
        Some(dir) => dir,
        None => current_dir(),
    }
}

/// The path that a link in `containing_dir` with the stored text
/// `raw_target` leads to.  This is the path whose existence decides whether
/// the link dangles.
pub fn resolve_target(containing_dir: &str, raw_target: &str) -> (resolved: String)
    ensures
        resolved@ == joined(containing_dir@, raw_target@),
{
    join_paths(containing_dir, raw_target)
}

/// Classifies the link at `origin_path`: `raw_target` is the text read from
/// it, and `target_exists` says whether the path given by `resolve_target`
/// was found.
pub fn classify(
    origin_path: &str,
    containing_dir: &str,
    raw_target: &str,
    target_exists: bool,
) -> (entry: LinkEntry)
    ensures
        entry@ == classified(origin_path@, containing_dir@, raw_target@, target_exists),
        entry@.is_classified(),
{
    LinkEntry {
        origin_path: origin_path.to_owned(),
        raw_target: raw_target.to_owned(),
        containing_dir: containing_dir.to_owned(),
        resolved_target: join_paths(containing_dir, raw_target),
        is_absolute: is_absolute_path(raw_target),
        is_dangling: !target_exists,
    }
}

impl LinkEntry {
    /// A copy of the entry.
    pub fn duplicate(&self) -> (copy: LinkEntry)
        ensures
            copy@ == self@,
    {
        LinkEntry {
            origin_path: self.origin_path.clone(),
            raw_target: self.raw_target.clone(),
            containing_dir: self.containing_dir.clone(),
            resolved_target: self.resolved_target.clone(),
            is_absolute: self.is_absolute,
            is_dangling: self.is_dangling,
        }
    }
}

} // verus!
