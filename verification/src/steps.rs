//! The filesystem mutations that the engine asks for.
//!
//! The engine only decides; whoever runs a plan performs its steps in order
//! and stops at the first one that fails.  Steps already performed stay
//! performed: nothing is rolled back.

use vstd::prelude::*;

verus! {

/// The kind of link that stands for a file in a mirrored tree.
#[derive(Clone, Copy, Debug, PartialEq, Eq, Structural)]
pub enum LinkKind {
    /// A hard link to the file itself.
    Hard,
    /// A symbolic link that holds the file's resolved absolute path.
    Symbolic,
}

/// One mutation of the filesystem.
#[derive(Debug)]
pub enum FsStep {
    /// Remove the link (or file) at `path`.
    Remove { path: String },
    /// Create a symbolic link at `link` that stores `target` as it is.
    Symlink { target: String, link: String },
    /// Create a hard link at `link` to the file `source`.  Fails across
    /// devices; there is no falling back to a copy.
    HardLink { source: String, link: String },
    /// Create a symbolic link at `link` that stores the fully resolved
    /// absolute path of `source`.
    ResolvedSymlink { source: String, link: String },
    /// Create the directory `path` and any missing directory above it.
    CreateDir { path: String },
    /// Mirror `source` at `dest` with links of the given kind.
    MirrorTree { source: String, dest: String, kind: LinkKind },
    /// Move the file or directory at `from` to `to`.
    Rename { from: String, to: String },
}

/// A step as plain values.
pub enum StepView {
    Remove { path: Seq<char> },
    Symlink { target: Seq<char>, link: Seq<char> },
    HardLink { source: Seq<char>, link: Seq<char> },
    ResolvedSymlink { source: Seq<char>, link: Seq<char> },
    CreateDir { path: Seq<char> },
    MirrorTree { source: Seq<char>, dest: Seq<char>, kind: LinkKind },
    Rename { from: Seq<char>, to: Seq<char> },
}

impl View for FsStep {
    type V = StepView;

    open spec fn view(&self) -> StepView {
        match self {
            FsStep::Remove { path } => StepView::Remove { path: path@ },
            FsStep::Symlink { target, link } => StepView::Symlink { target: target@, link: link@ },
            FsStep::HardLink { source, link } => StepView::HardLink {
                source: source@,
                link: link@,
            },
            FsStep::ResolvedSymlink { source, link } => StepView::ResolvedSymlink {
                source: source@,
                link: link@,
            },
            FsStep::CreateDir { path } => StepView::CreateDir { path: path@ },
            FsStep::MirrorTree { source, dest, kind } => StepView::MirrorTree {
                source: source@,
                dest: dest@,
                kind: *kind,
            },
            FsStep::Rename { from, to } => StepView::Rename { from: from@, to: to@ },
        }
    }
}

impl DeepView for FsStep {
    type V = StepView;

    open spec fn deep_view(&self) -> StepView {
        self@
    }
}

impl StepView {
    /// The path that the step creates, for the steps that create one.
    pub open spec fn created_path(self) -> Option<Seq<char>> {
        match self {
            StepView::Remove { .. } => None,
            StepView::Symlink { link, .. } => Some(link),
            StepView::HardLink { link, .. } => Some(link),
            StepView::ResolvedSymlink { link, .. } => Some(link),
            StepView::CreateDir { path } => Some(path),
            StepView::MirrorTree { dest, .. } => Some(dest),
            StepView::Rename { to, .. } => Some(to),
        }
    }
}

/// The step that puts a link of the given kind to the file `source` at
/// `link`.
pub open spec fn link_step(kind: LinkKind, source: Seq<char>, link: Seq<char>) -> StepView {
    match kind {
        LinkKind::Hard => StepView::HardLink { source, link },
        LinkKind::Symbolic => StepView::ResolvedSymlink { source, link },
    }
}

/// The step that puts a link of the given kind to the file `source` at
/// `link`.
pub fn make_link_step(kind: LinkKind, source: &str, link: String) -> (step: FsStep)
    ensures
        step@ == link_step(kind, source@, link@),
{
    match kind {
        LinkKind::Hard => FsStep::HardLink { source: source.to_owned(), link },
        LinkKind::Symbolic => FsStep::ResolvedSymlink { source: source.to_owned(), link },
    }
}

} // verus!
