//! What the steps of a plan do, on a model of the filesystem.
//!
//! The engine never touches the filesystem: it hands out steps.  This
//! module says what the steps are meant to do, on a model that holds what
//! the steps can tell apart, and states what follows for a plan that is
//! carried out in full.  Nothing here runs; the model is the yardstick for
//! whoever performs the steps.

use crate::mirror::{
    entry_plan, lemma_entry_step_mirrors_entry, lemma_mirror_covers_source, mirror_plan,
    mirrored_path, EntryPlan, TreeEntryView,
};
use crate::path::components_below;
use crate::steps::{LinkKind, StepView};
use vstd::prelude::*;

verus! {

/// What stands at a path.
pub enum Node {
    /// A real directory.
    Dir,
    /// A file: the device it lies on and its number there.  Two paths hold
    /// the same file exactly when they agree on both.
    File { device: nat, inode: nat },
    /// A symbolic link and the text it stores.
    Symlink { stored: Seq<char> },
}

/// A filesystem, as far as the steps of a plan can tell.
pub struct Fs {
    /// What stands at each path that holds something.
    pub nodes: Map<Seq<char>, Node>,
    /// The device on which a new entry at a path comes to lie.
    pub device_at: Map<Seq<char>, nat>,
    /// The fully resolved absolute path of each path that can be resolved.
    pub resolved: Map<Seq<char>, Seq<char>>,
}

/// Why a step fails.
pub enum StepError {
    /// Something stands where the step is to create.
    Exists,
    /// Nothing stands where the step is to find a file or a link.
    Missing,
    /// The step is to hard link what is no file.
    NotAFile,
    /// The step is to hard link a file onto another device.
    CrossDevice,
    /// The step is to store a resolved path and the source does not resolve.
    Unresolved,
    /// The step stands for a plan of its own and is not performed as one
    /// step.
    Composite,
}

impl Fs {
    /// The filesystem with `node` at `path` and everything else as it was.
    pub open spec fn with(self, path: Seq<char>, node: Node) -> Fs {
        Fs { nodes: self.nodes.insert(path, node), ..self }
    }

    /// The filesystem with nothing at `path` and everything else as it was.
    pub open spec fn without(self, path: Seq<char>) -> Fs {
        Fs { nodes: self.nodes.remove(path), ..self }
    }

    /// Whether something stands at `path`.
    pub open spec fn holds(self, path: Seq<char>) -> bool {
        self.nodes.contains_key(path)
    }

    /// Everything that stands in `self` stands unchanged in `later`, and
    /// the two agree on devices and on what resolves to what.
    pub open spec fn kept_by(self, later: Fs) -> bool {
        &&& forall|p: Seq<char>| #[trigger]
            self.nodes.contains_key(p) ==> later.nodes.contains_key(p) && later.nodes[p]
                == self.nodes[p]
        &&& later.device_at == self.device_at
        &&& later.resolved == self.resolved
    }
}

/// What one step does.
///
/// A directory is created unless it is there already; of the directories
/// above it, which are created with it where they are missing, the model
/// does not tell.  A link of any kind is created only where nothing stands,
/// and a hard link only to a file on the device of the link's place: there
/// is no falling back to a copy.  Removing takes away a file or a link,
/// never a directory.  Moving takes what stands at one path to another path
/// where nothing stands.
pub open spec fn apply_step(fs: Fs, step: StepView) -> Result<Fs, StepError> {
    match step {
        StepView::CreateDir { path } => if !fs.holds(path) {
            Ok(fs.with(path, Node::Dir))
        } else if fs.nodes[path] is Dir {
            Ok(fs)
        } else {
            Err(StepError::Exists)
        },
        StepView::HardLink { source, link } => if !fs.holds(source) {
            Err(StepError::Missing)
        } else if !(fs.nodes[source] is File) {
            Err(StepError::NotAFile)
        } else if fs.holds(link) {
            Err(StepError::Exists)
        } else if !fs.device_at.contains_key(link) || fs.device_at[link]
            != fs.nodes[source]->device {
            Err(StepError::CrossDevice)
        } else {
            Ok(fs.with(link, fs.nodes[source]))
        },
        StepView::ResolvedSymlink { source, link } => if !fs.resolved.contains_key(source) {
            Err(StepError::Unresolved)
        } else if fs.holds(link) {
            Err(StepError::Exists)
        } else {
            Ok(fs.with(link, Node::Symlink { stored: fs.resolved[source] }))
        },
        StepView::Symlink { target, link } => if fs.holds(link) {
            Err(StepError::Exists)
        } else {
            Ok(fs.with(link, Node::Symlink { stored: target }))
        },
        StepView::Remove { path } => if !fs.holds(path) || fs.nodes[path] is Dir {
            Err(StepError::Missing)
        } else {
            Ok(fs.without(path))
        },
        StepView::Rename { from, to } => if !fs.holds(from) {
            Err(StepError::Missing)
        } else if fs.holds(to) {
            Err(StepError::Exists)
        } else {
            Ok(fs.without(from).with(to, fs.nodes[from]))
        },
        StepView::MirrorTree { .. } => Err(StepError::Composite),
    }
}

/// What the steps do, one after another.  The first step that fails ends
/// the run with its error; what the steps before it did stays done.
pub open spec fn apply_all(fs: Fs, steps: Seq<StepView>) -> Result<Fs, StepError>
    decreases steps.len(),
{
    if steps.len() == 0 {
        Ok(fs)
    } else {
        match apply_all(fs, steps.drop_last()) {
            Ok(before) => apply_step(before, steps.last()),
            Err(e) => Err(e),
        }
    }
}

/// The step only creates: a directory or a link.
pub open spec fn is_creating(step: StepView) -> bool {
    step is CreateDir || step is HardLink || step is ResolvedSymlink || step is Symlink
}

/// What the step has brought about, in a filesystem in which it was
/// carried out.
pub open spec fn is_settled(fs: Fs, step: StepView) -> bool {
    match step {
        StepView::CreateDir { path } => fs.holds(path) && fs.nodes[path] is Dir,
        StepView::HardLink { source, link } => {
            &&& fs.holds(source)
            &&& fs.holds(link)
            &&& fs.nodes[source] is File
            &&& fs.nodes[link] == fs.nodes[source]
            &&& fs.device_at.contains_key(link)
            &&& fs.device_at[link] == fs.nodes[source]->device
        },
        StepView::ResolvedSymlink { source, link } => {
            &&& fs.resolved.contains_key(source)
            &&& fs.holds(link)
            &&& fs.nodes[link] == (Node::Symlink { stored: fs.resolved[source] })
        },
        StepView::Symlink { target, link } => fs.holds(link) && fs.nodes[link] == (Node::Symlink {
            stored: target,
        }),
        _ => true,
    }
}

/// A creating step that succeeds keeps everything that stood, and brings
/// about what it is for.
pub proof fn lemma_creating_step(fs: Fs, step: StepView)
    requires
        is_creating(step),
        apply_step(fs, step) is Ok,
    ensures
        fs.kept_by(apply_step(fs, step)->Ok_0),
        is_settled(apply_step(fs, step)->Ok_0, step),
{
}

/// What is settled stays settled in a filesystem that keeps everything.
pub proof fn lemma_settled_is_kept(fs: Fs, later: Fs, step: StepView)
    requires
        fs.kept_by(later),
        is_settled(fs, step),
    ensures
        is_settled(later, step),
{
}

/// Creating steps that all succeed keep everything that stood, and each of
/// them has brought about what it is for: nothing that one step made is
/// undone by another.
pub proof fn lemma_creating_steps(fs: Fs, steps: Seq<StepView>)
    requires
        forall|j: int| 0 <= j < steps.len() ==> is_creating(#[trigger] steps[j]),
        apply_all(fs, steps) is Ok,
    ensures
        fs.kept_by(apply_all(fs, steps)->Ok_0),
        forall|j: int|
            0 <= j < steps.len() ==> is_settled(apply_all(fs, steps)->Ok_0, #[trigger] steps[j]),
    decreases steps.len(),
{
    if steps.len() > 0 {
        let front = steps.drop_last();
        let before = apply_all(fs, front)->Ok_0;
        let after = apply_all(fs, steps)->Ok_0;
        assert(forall|j: int| 0 <= j < front.len() ==> front[j] == steps[j]);
        lemma_creating_steps(fs, front);
        lemma_creating_step(before, steps.last());
        assert forall|p: Seq<char>| #[trigger]
            fs.nodes.contains_key(p) implies after.nodes.contains_key(p) && after.nodes[p]
            == fs.nodes[p] by {
            assert(before.nodes.contains_key(p));
        }
        assert forall|j: int| 0 <= j < steps.len() implies is_settled(
            after,
            #[trigger] steps[j],
        ) by {
            if j < front.len() {
                assert(is_settled(before, front[j]));
                lemma_settled_is_kept(before, after, steps[j]);
            }
        }
    }
}

/// The path is one that a step of `steps` creates.
pub open spec fn is_created_by(steps: Seq<StepView>, path: Seq<char>) -> bool {
    exists|j: int| 0 <= j < steps.len() && (#[trigger] steps[j]).created_path() == Some(path)
}

/// Creating steps add what they create and nothing else: whatever stands
/// after them stood before or was created by one of them.
pub proof fn lemma_creating_steps_add_only(fs: Fs, steps: Seq<StepView>, path: Seq<char>)
    requires
        forall|j: int| 0 <= j < steps.len() ==> is_creating(#[trigger] steps[j]),
        apply_all(fs, steps) is Ok,
        apply_all(fs, steps)->Ok_0.holds(path),
    ensures
        fs.holds(path) || is_created_by(steps, path),
    decreases steps.len(),
{
    if steps.len() > 0 {
        let front = steps.drop_last();
        let before = apply_all(fs, front)->Ok_0;
        assert(forall|j: int| 0 <= j < front.len() ==> front[j] == steps[j]);
        if before.holds(path) {
            lemma_creating_steps_add_only(fs, front, path);
            if is_created_by(front, path) {
                let j = choose|j: int|
                    0 <= j < front.len() && (#[trigger] front[j]).created_path() == Some(path);
                assert(steps[j].created_path() == Some(path));
            }
        } else {
            assert(steps[steps.len() - 1].created_path() == Some(path));
        }
    }
}

/// The steps of a mirror plan only create.
pub proof fn lemma_mirror_steps_create(
    source: Seq<char>,
    dest: Seq<char>,
    kind: LinkKind,
    source_is_dir: bool,
    entries: Seq<TreeEntryView>,
)
    requires
        mirror_plan(source, dest, kind, source_is_dir, entries).failure is None,
    ensures
        forall|j: int|
            0 <= j < mirror_plan(source, dest, kind, source_is_dir, entries).steps.len()
                ==> is_creating(
                #[trigger] mirror_plan(source, dest, kind, source_is_dir, entries).steps[j],
            ),
{
    let plan = mirror_plan(source, dest, kind, source_is_dir, entries);
    if source_is_dir {
        lemma_mirror_covers_source(source, dest, kind, entries);
        assert forall|j: int| 0 <= j < plan.steps.len() implies is_creating(
            #[trigger] plan.steps[j],
        ) by {
            if j >= 1 {
                let i = choose|i: int|
                    0 <= i < entries.len() && #[trigger] entry_plan(source, dest, kind, entries[i])
                        == EntryPlan::Step(plan.steps[j]);
                lemma_entry_step_mirrors_entry(source, dest, kind, entries[i]);
            }
        }
    }
}

/// After a mirror that was carried out in full, every entry of the walk
/// below the source has its counterpart below the destination, of the same
/// kind: a directory for a directory; for a file, in a hard-link mirror the
/// very file, on its device and under its number, and in a symlink mirror
/// a symbolic link that stores the file's resolved absolute path.  What
/// stood before the mirror stands as it did.
pub proof fn lemma_mirror_reproduces_source(
    fs: Fs,
    source: Seq<char>,
    dest: Seq<char>,
    kind: LinkKind,
    entries: Seq<TreeEntryView>,
    i: int,
)
    requires
        mirror_plan(source, dest, kind, true, entries).failure is None,
        apply_all(fs, mirror_plan(source, dest, kind, true, entries).steps) is Ok,
        0 <= i < entries.len(),
        components_below(entries[i].path, source) is Some,
        components_below(entries[i].path, source)->Some_0.len() > 0,
    ensures
        ({
            let after = apply_all(fs, mirror_plan(source, dest, kind, true, entries).steps)->Ok_0;
            let e = entries[i];
            let at = mirrored_path(dest, components_below(e.path, source)->Some_0);
            &&& fs.kept_by(after)
            &&& after.holds(dest) && after.nodes[dest] is Dir
            &&& after.holds(at)
            &&& e.is_dir ==> after.nodes[at] is Dir
            &&& !e.is_dir && kind == LinkKind::Hard ==> after.holds(e.path) && after.nodes[e.path]
                is File && after.nodes[at] == after.nodes[e.path]
            &&& !e.is_dir && kind == LinkKind::Symbolic ==> after.resolved.contains_key(e.path)
                && after.nodes[at] == (Node::Symlink { stored: after.resolved[e.path] })
        }),
{
    let plan = mirror_plan(source, dest, kind, true, entries);
    let after = apply_all(fs, plan.steps)->Ok_0;
    lemma_mirror_steps_create(source, dest, kind, true, entries);
    lemma_creating_steps(fs, plan.steps);
    lemma_mirror_covers_source(source, dest, kind, entries);
    lemma_entry_step_mirrors_entry(source, dest, kind, entries[i]);
    assert(is_settled(after, plan.steps[0]));
    let step = entry_plan(source, dest, kind, entries[i])->Step_0;
    assert(plan.steps.contains(step));
    let j = choose|j: int| 0 <= j < plan.steps.len() && plan.steps[j] == step;
    assert(is_settled(after, plan.steps[j]));
}

/// After a mirror that was carried out in full, nothing stands that did
/// not stand before, but the destination and the counterparts of the
/// entries of the walk.
pub proof fn lemma_mirror_adds_only_counterparts(
    fs: Fs,
    source: Seq<char>,
    dest: Seq<char>,
    kind: LinkKind,
    entries: Seq<TreeEntryView>,
    path: Seq<char>,
)
    requires
        mirror_plan(source, dest, kind, true, entries).failure is None,
        apply_all(fs, mirror_plan(source, dest, kind, true, entries).steps) is Ok,
        apply_all(fs, mirror_plan(source, dest, kind, true, entries).steps)->Ok_0.holds(path),
        !fs.holds(path),
        path != dest,
    ensures
        exists|i: int|
            0 <= i < entries.len() && components_below((#[trigger] entries[i]).path, source)
                is Some && path == mirrored_path(
                dest,
                components_below(entries[i].path, source)->Some_0,
            ),
{
    let plan = mirror_plan(source, dest, kind, true, entries);
    lemma_mirror_steps_create(source, dest, kind, true, entries);
    lemma_creating_steps_add_only(fs, plan.steps, path);
    lemma_mirror_covers_source(source, dest, kind, entries);
    let j = choose|j: int|
        0 <= j < plan.steps.len() && (#[trigger] plan.steps[j]).created_path() == Some(path);
    assert(j >= 1);
    let i = choose|i: int|
        0 <= i < entries.len() && #[trigger] entry_plan(source, dest, kind, entries[i])
            == EntryPlan::Step(plan.steps[j]);
    lemma_entry_step_mirrors_entry(source, dest, kind, entries[i]);
    assert(components_below(entries[i].path, source) is Some);
}

/// A hard-link mirror that was carried out in full has linked no file
/// across devices: where a file of the source lies on another device than
/// its place in the mirror, the mirror fails.
pub proof fn lemma_hard_mirror_stays_on_device(
    fs: Fs,
    source: Seq<char>,
    dest: Seq<char>,
    entries: Seq<TreeEntryView>,
    i: int,
)
    requires
        mirror_plan(source, dest, LinkKind::Hard, true, entries).failure is None,
        apply_all(fs, mirror_plan(source, dest, LinkKind::Hard, true, entries).steps) is Ok,
        0 <= i < entries.len(),
        !entries[i].is_dir,
        components_below(entries[i].path, source) is Some,
        components_below(entries[i].path, source)->Some_0.len() > 0,
        fs.holds(entries[i].path),
    ensures
        fs.nodes[entries[i].path] is File,
        fs.device_at.contains_key(
            mirrored_path(dest, components_below(entries[i].path, source)->Some_0),
        ),
        fs.device_at[mirrored_path(dest, components_below(entries[i].path, source)->Some_0)]
            == fs.nodes[entries[i].path]->device,
{
    let plan = mirror_plan(source, dest, LinkKind::Hard, true, entries);
    let after = apply_all(fs, plan.steps)->Ok_0;
    lemma_mirror_steps_create(source, dest, LinkKind::Hard, true, entries);
    lemma_creating_steps(fs, plan.steps);
    lemma_mirror_covers_source(source, dest, LinkKind::Hard, entries);
    lemma_entry_step_mirrors_entry(source, dest, LinkKind::Hard, entries[i]);
    let step = entry_plan(source, dest, LinkKind::Hard, entries[i])->Step_0;
    assert(plan.steps.contains(step));
    let j = choose|j: int| 0 <= j < plan.steps.len() && plan.steps[j] == step;
    assert(is_settled(after, plan.steps[j]));
}

/// A hard link onto another device fails as such, whatever else could be
/// said of it, and leaves nothing behind.
pub proof fn lemma_cross_device_link_fails(fs: Fs, source: Seq<char>, link: Seq<char>)
    requires
        fs.holds(source),
        fs.nodes[source] is File,
        !fs.holds(link),
        fs.device_at.contains_key(link),
        fs.device_at[link] != fs.nodes[source]->device,
    ensures
        apply_step(fs, StepView::HardLink { source, link }) == Err::<Fs, StepError>(
            StepError::CrossDevice,
        ),
{
}

/// Making a link anew: after the two steps the link stores the new text,
/// and nothing else has changed.
pub proof fn lemma_relink_replaces_link(fs: Fs, link: Seq<char>, new_target: Seq<char>)
    requires
        fs.holds(link),
        fs.nodes[link] is Symlink,
    ensures
        ({
            let steps = seq![
                StepView::Remove { path: link },
                StepView::Symlink { target: new_target, link },
            ];
            &&& apply_all(fs, steps) is Ok
            &&& apply_all(fs, steps)->Ok_0.nodes == fs.nodes.insert(
                link,
                Node::Symlink { stored: new_target },
            )
            &&& apply_all(fs, steps)->Ok_0.device_at == fs.device_at
            &&& apply_all(fs, steps)->Ok_0.resolved == fs.resolved
        }),
{
    let first = StepView::Remove { path: link };
    let second = StepView::Symlink { target: new_target, link };
    let steps = seq![first, second];
    assert(steps.drop_last() =~= seq![first]);
    assert(seq![first].drop_last() =~= Seq::<StepView>::empty());
    assert(apply_all(fs, seq![first]) == apply_step(fs, first)) by {
        assert(apply_all(fs, Seq::<StepView>::empty()) == Ok::<Fs, StepError>(fs));
    }
    let mid = fs.without(link);
    assert(apply_all(fs, steps) == apply_step(mid, second));
    assert(mid.nodes.insert(link, Node::Symlink { stored: new_target }) =~= fs.nodes.insert(
        link,
        Node::Symlink { stored: new_target },
    ));
}

/// A plan without steps leaves the filesystem as it is.
pub proof fn lemma_no_steps_change_nothing(fs: Fs)
    ensures
        apply_all(fs, Seq::empty()) == Ok::<Fs, StepError>(fs),
{
}

} // verus!
