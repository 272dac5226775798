//! Tree mirroring: reproducing a directory's structure with links in place
//! of its files.
//!
//! The source tree is walked by the caller.  For every entry of the walk the
//! engine says what to create under the destination: a real directory for a
//! directory, a link to the source file for anything else.

use crate::path::{
    components, components_below, join_components, join_paths, joined, render_path, strip_base,
};
use crate::path_laws::{
    all_clean, is_clean_component, lemma_components_clean, lemma_render_round_trip,
};
use crate::steps::{link_step, make_link_step, FsStep, LinkKind, StepView};
use vstd::prelude::*;

verus! {

/// One entry of a walk through the source tree.
#[derive(Debug)]
pub struct TreeEntry {
    /// The path of the entry, as the walk gives it: the source path followed
    /// by the names that lead to the entry.
    pub path: String,
    /// Whether the entry is a directory.
    pub is_dir: bool,
}

/// A tree entry as plain values.
pub struct TreeEntryView {
    pub path: Seq<char>,
    pub is_dir: bool,
}

impl View for TreeEntry {
    type V = TreeEntryView;

    open spec fn view(&self) -> TreeEntryView {
        TreeEntryView { path: self.path@, is_dir: self.is_dir }
    }
}

impl DeepView for TreeEntry {
    type V = TreeEntryView;

    open spec fn deep_view(&self) -> TreeEntryView {
        self@
    }
}

/// Why a tree could not be mirrored.
#[derive(Debug)]
pub enum MirrorError {
    /// The walk gave an entry that does not lie below the source.
    OutsideSource { path: String },
    /// A hard link across devices was refused by the system.
    CrossDevice,
    /// The system refused a step for another reason; the code is the one it
    /// reported, if any.
    Io { code: Option<i32> },
}

/// A mirror error as plain values.
pub enum MirrorErrorView {
    OutsideSource { path: Seq<char> },
    CrossDevice,
    Io { code: Option<i32> },
}

impl View for MirrorError {
    type V = MirrorErrorView;

    open spec fn view(&self) -> MirrorErrorView {
        match self {
            MirrorError::OutsideSource { path } => MirrorErrorView::OutsideSource { path: path@ },
            MirrorError::CrossDevice => MirrorErrorView::CrossDevice,
            MirrorError::Io { code } => MirrorErrorView::Io { code: *code },
        }
    }
}

/// The words in which a mirror error is told.  Of a step that the system
/// refused for a reason of its own, the system has the words.
pub open spec fn mirror_error_text(e: MirrorErrorView) -> Seq<char> {
    match e {
        MirrorErrorView::OutsideSource { path } => path + ": not below the mirrored directory"@,
        MirrorErrorView::CrossDevice => "Hardlink failed (likely cross-device)"@,
        MirrorErrorView::Io { .. } => "the system refused the step"@,
    }
}

impl MirrorError {
    /// The words in which the error is told.
    pub fn message(&self) -> (text: String)
        ensures
            text@ == mirror_error_text(self@),
    {
        match self {
            MirrorError::OutsideSource { path } => {
                let mut text = path.clone();
                text.append(": not below the mirrored directory");
                text
            },
            MirrorError::CrossDevice => "Hardlink failed (likely cross-device)".to_owned(),
            MirrorError::Io { .. } => "the system refused the step".to_owned(),
        }
    }
}

/// The error code with which the system refuses a link across devices.
pub const CROSS_DEVICE_CODE: i32 = 18;

/// The error that stands for a step the system refused with `code`.
pub open spec fn step_failure(code: Option<i32>) -> MirrorErrorView {
    if code == Some(CROSS_DEVICE_CODE) {
        MirrorErrorView::CrossDevice
    } else {
        MirrorErrorView::Io { code }
    }
}

/// The error for a step that the system refused.  A link across devices gets
/// an error of its own, whatever else could go wrong.
pub fn classify_step_failure(code: Option<i32>) -> (e: MirrorError)
    ensures
        e@ == step_failure(code),
        e@ is CrossDevice <==> code == Some(CROSS_DEVICE_CODE),
{
    match code {
        Some(c) => if c == CROSS_DEVICE_CODE {
            MirrorError::CrossDevice
        } else {
            MirrorError::Io { code }
        },
        None => MirrorError::Io { code },
    }
}

/// The place under `dest` of the entry that lies `below` the source.
pub open spec fn mirrored_path(dest: Seq<char>, below: Seq<Seq<char>>) -> Seq<char> {
    joined(dest, join_components(below))
}

/// What one entry of the walk asks for.
pub enum EntryPlan {
    /// The entry is the source directory itself: nothing to do.
    Nothing,
    /// Perform this step.
    Step(StepView),
    /// The entry does not lie below the source.
    Outside,
}

/// What the entry `e` of a walk through `source` asks for under `dest`: a
/// directory for a directory, a link of the given kind for anything else,
/// each at the place that mirrors the entry's.
pub open spec fn entry_plan(
    source: Seq<char>,
    dest: Seq<char>,
    kind: LinkKind,
    e: TreeEntryView,
) -> EntryPlan {
    match components_below(e.path, source) {
        None => EntryPlan::Outside,
        Some(below) => if below.len() == 0 {
            EntryPlan::Nothing
        } else if e.is_dir {
            EntryPlan::Step(StepView::CreateDir { path: mirrored_path(dest, below) })
        } else {
            EntryPlan::Step(link_step(kind, e.path, mirrored_path(dest, below)))
        },
    }
}

/// What an executable answer says of an entry's plan.
pub open spec fn realizes(
    r: Result<Option<FsStep>, MirrorError>,
    plan: EntryPlan,
    path: Seq<char>,
) -> bool {
    match plan {
        EntryPlan::Nothing => r is Ok && r->Ok_0 is None,
        EntryPlan::Step(step) => r is Ok && r->Ok_0 is Some && r->Ok_0->Some_0@ == step,
        EntryPlan::Outside => r is Err && r->Err_0@ == (MirrorErrorView::OutsideSource { path }),
    }
}

/// The step for one entry of a walk through the directory `source` that is
/// mirrored at `dest`.
pub fn mirror_entry(
    source: &str,
    dest: &str,
    kind: LinkKind,
    entry: &TreeEntry,
) -> (r: Result<Option<FsStep>, MirrorError>)
    ensures
        realizes(r, entry_plan(source@, dest@, kind, entry@), entry@.path),
{
    match strip_base(entry.path.as_str(), source) {
        None => Err(MirrorError::OutsideSource { path: entry.path.clone() }),
        Some(below) => {
            if below.len() == 0 {
                Ok(None)
            } else {
                let rel = render_path(false, &below);
                let at = join_paths(dest, rel.as_str());
                if entry.is_dir {
                    Ok(Some(FsStep::CreateDir { path: at }))
                } else {
                    Ok(Some(make_link_step(kind, entry.path.as_str(), at)))
                }
            }
        },
    }
}

/// The steps of a mirror and the error that cut them short, if any.
#[derive(Debug)]
pub struct MirrorPlan {
    /// The steps to perform, in order.
    pub steps: Vec<FsStep>,
    /// Set where an entry had no place in the mirror: the steps are then
    /// those for the entries before it, and the mirror fails after them.
    pub failure: Option<MirrorError>,
}

/// A mirror plan as plain values.
pub struct MirrorPlanView {
    pub steps: Seq<StepView>,
    pub failure: Option<MirrorErrorView>,
}

impl View for MirrorPlan {
    type V = MirrorPlanView;

    open spec fn view(&self) -> MirrorPlanView {
        MirrorPlanView {
            steps: self.steps.deep_view(),
            failure: match self.failure {
                Some(e) => Some(e@),
                None => None,
            },
        }
    }
}

/// The plan that the entries of a walk add to `so_far`, one after another,
/// until one of them lies outside the source.
pub open spec fn extend_plan(
    so_far: MirrorPlanView,
    source: Seq<char>,
    dest: Seq<char>,
    kind: LinkKind,
    entries: Seq<TreeEntryView>,
) -> MirrorPlanView
    decreases entries.len(),
{
    if entries.len() == 0 {
        so_far
    } else {
        let before = extend_plan(so_far, source, dest, kind, entries.drop_last());
        if before.failure is Some {
            before
        } else {
            match entry_plan(source, dest, kind, entries.last()) {
                EntryPlan::Nothing => before,
                EntryPlan::Step(step) => MirrorPlanView {
                    steps: before.steps.push(step),
                    failure: None,
                },
                EntryPlan::Outside => MirrorPlanView {
                    steps: before.steps,
                    failure: Some(MirrorErrorView::OutsideSource { path: entries.last().path }),
                },
            }
        }
    }
}

/// The plan for mirroring `source` at `dest`.
///
/// A source that is no directory is mirrored by a single link at `dest`.
/// For a directory, `dest` is created as a real directory, and every entry
/// of the walk gets its step in the order of the walk.
pub open spec fn mirror_plan(
    source: Seq<char>,
    dest: Seq<char>,
    kind: LinkKind,
    source_is_dir: bool,
    entries: Seq<TreeEntryView>,
) -> MirrorPlanView {
    if source_is_dir {
        extend_plan(
            MirrorPlanView { steps: seq![StepView::CreateDir { path: dest }], failure: None },
            source,
            dest,
            kind,
            entries,
        )
    } else {
        MirrorPlanView { steps: seq![link_step(kind, source, dest)], failure: None }
    }
}

/// Plans the mirror of `source` at `dest` with links of the given kind.
/// `entries` are the entries of a walk through `source`, which are looked at
/// only where `source` is a directory.
pub fn mirror_tree(
    source: &str,
    dest: &str,
    kind: LinkKind,
    source_is_dir: bool,
    entries: &Vec<TreeEntry>,
) -> (plan: MirrorPlan)
    ensures
        plan@ == mirror_plan(source@, dest@, kind, source_is_dir, entries.deep_view()),
{
    let mut steps: Vec<FsStep> = Vec::new();
    if !source_is_dir {
        steps.push(make_link_step(kind, source, dest.to_owned()));
        assert(steps.deep_view() =~= seq![link_step(kind, source@, dest@)]);
        return MirrorPlan { steps, failure: None };
    }
    steps.push(FsStep::CreateDir { path: dest.to_owned() });
    let ghost start = MirrorPlanView {
        steps: seq![StepView::CreateDir { path: dest@ }],
        failure: None,
    };
    let mut k: usize = 0;
    proof {
        assert(steps.deep_view() =~= start.steps);
        assert(entries.deep_view().take(0) =~= Seq::<TreeEntryView>::empty());
    }
    while k < entries.len()
        invariant
            k <= entries.len(),
            source_is_dir,
            start == (MirrorPlanView {
                steps: seq![StepView::CreateDir { path: dest@ }],
                failure: None,
            }),
            extend_plan(start, source@, dest@, kind, entries.deep_view().take(k as int)) == (
            MirrorPlanView { steps: steps.deep_view(), failure: None }),
        decreases entries.len() - k,
    {
        let ghost seen = entries.deep_view().take(k + 1);
        let ghost before = steps.deep_view();
        proof {
            assert(seen.drop_last() =~= entries.deep_view().take(k as int));
            assert(seen.last() == entries[k as int]@);
        }
        match mirror_entry(source, dest, kind, &entries[k]) {
            Ok(None) => {},
            Ok(Some(step)) => {
                steps.push(step);
                assert(steps.deep_view() =~= before.push(step@));
            },
            Err(e) => {
                proof {
                    assert(extend_plan(start, source@, dest@, kind, seen) == (MirrorPlanView {
                        steps: before,
                        failure: Some(e@),
                    }));
                    lemma_failed_plan_stays(
                        start,
                        source@,
                        dest@,
                        kind,
                        entries.deep_view(),
                        k + 1,
                    );
                }
                return MirrorPlan { steps, failure: Some(e) };
            },
        }
        k = k + 1;
    }
    proof {
        assert(entries.deep_view().take(k as int) =~= entries.deep_view());
    }
    MirrorPlan { steps, failure: None }
}

/// Plans a hard-link mirror of `target` at `origin`: real directories, and a
/// hard link to each file of the source.
pub fn create_hard_link_tree(
    target: &str,
    origin: &str,
    target_is_dir: bool,
    entries: &Vec<TreeEntry>,
) -> (plan: MirrorPlan)
    ensures
        plan@ == mirror_plan(target@, origin@, LinkKind::Hard, target_is_dir, entries.deep_view()),
{
    mirror_tree(target, origin, LinkKind::Hard, target_is_dir, entries)
}

/// Plans a symlink mirror of `target` at `origin`: real directories, and for
/// each file of the source a symbolic link that holds its resolved absolute
/// path.
pub fn create_symlink_tree(
    target: &str,
    origin: &str,
    target_is_dir: bool,
    entries: &Vec<TreeEntry>,
) -> (plan: MirrorPlan)
    ensures
        plan@ == mirror_plan(
            target@,
            origin@,
            LinkKind::Symbolic,
            target_is_dir,
            entries.deep_view(),
        ),
{
    mirror_tree(target, origin, LinkKind::Symbolic, target_is_dir, entries)
}

/// Why a single hard link is refused before the system is asked.
#[derive(Clone, Copy, Debug, PartialEq, Eq, Structural)]
pub enum HardLinkRefusal {
    /// The target is a directory.
    TargetIsDirectory,
}

/// The words in which a refused hard link is told.
pub open spec fn refusal_text(refusal: HardLinkRefusal) -> Seq<char> {
    match refusal {
        HardLinkRefusal::TargetIsDirectory => "cannot hard link a directory"@,
    }
}

impl HardLinkRefusal {
    /// The words in which the refusal is told.
    pub fn message(&self) -> (text: &'static str)
        ensures
            text@ == refusal_text(*self),
    {
        match self {
            HardLinkRefusal::TargetIsDirectory => "cannot hard link a directory",
        }
    }
}

/// Plans a single hard link at `origin` to `target`.  A directory is
/// refused: it cannot be hard linked.
pub fn create_hard_link(
    target: &str,
    origin: &str,
    target_is_dir: bool,
) -> (r: Result<FsStep, HardLinkRefusal>)
    ensures
        target_is_dir ==> r == Err::<FsStep, HardLinkRefusal>(HardLinkRefusal::TargetIsDirectory),
        !target_is_dir ==> r is Ok && r->Ok_0@ == (StepView::HardLink {
            source: target@,
            link: origin@,
        }),
{
    if target_is_dir {
        Err(HardLinkRefusal::TargetIsDirectory)
    } else {
        Ok(FsStep::HardLink { source: target.to_owned(), link: origin.to_owned() })
    }
}

/// A plan that has failed is not extended by further entries.
pub proof fn lemma_failed_plan_stays(
    start: MirrorPlanView,
    source: Seq<char>,
    dest: Seq<char>,
    kind: LinkKind,
    entries: Seq<TreeEntryView>,
    n: int,
)
    requires
        0 <= n <= entries.len(),
        extend_plan(start, source, dest, kind, entries.take(n)).failure is Some,
    ensures
        extend_plan(start, source, dest, kind, entries) == extend_plan(
            start,
            source,
            dest,
            kind,
            entries.take(n),
        ),
    decreases entries.len() - n,
{
    if n == entries.len() {
        assert(entries.take(n) =~= entries);
    } else {
        assert(entries.take(n + 1).drop_last() =~= entries.take(n));
        lemma_failed_plan_stays(start, source, dest, kind, entries, n + 1);
    }
}

/// The step for an entry creates the entry's mirrored path, and it creates a
/// directory exactly for a directory.  A file gets a link to the very file:
/// in a hard-link mirror a hard link and nothing else.
pub proof fn lemma_entry_step_mirrors_entry(
    source: Seq<char>,
    dest: Seq<char>,
    kind: LinkKind,
    e: TreeEntryView,
)
    ensures
        entry_plan(source, dest, kind, e) matches EntryPlan::Step(step) ==> {
            &&& components_below(e.path, source) is Some
            &&& step.created_path() == Some(
                mirrored_path(dest, components_below(e.path, source)->Some_0),
            )
            &&& step is CreateDir <==> e.is_dir
            &&& !e.is_dir && kind == LinkKind::Hard ==> step == (StepView::HardLink {
                source: e.path,
                link: mirrored_path(dest, components_below(e.path, source)->Some_0),
            })
            &&& !e.is_dir && kind == LinkKind::Symbolic ==> step == (StepView::ResolvedSymlink {
                source: e.path,
                link: mirrored_path(dest, components_below(e.path, source)->Some_0),
            })
        },
{
}

/// A plan that did not fail was not failing before, met no entry outside the
/// source, and still begins with the steps it began with.
pub proof fn lemma_extend_plan_keeps(
    start: MirrorPlanView,
    source: Seq<char>,
    dest: Seq<char>,
    kind: LinkKind,
    entries: Seq<TreeEntryView>,
)
    requires
        extend_plan(start, source, dest, kind, entries).failure is None,
    ensures
        start.failure is None,
        start.steps.len() <= extend_plan(start, source, dest, kind, entries).steps.len(),
        forall|j: int|
            0 <= j < start.steps.len() ==> extend_plan(start, source, dest, kind, entries).steps[j]
                == start.steps[j],
        forall|i: int|
            0 <= i < entries.len() ==> !(#[trigger] entry_plan(source, dest, kind, entries[i])
                is Outside),
    decreases entries.len(),
{
    if entries.len() > 0 {
        let front = entries.drop_last();
        lemma_extend_plan_keeps(start, source, dest, kind, front);
        assert(forall|i: int| 0 <= i < front.len() ==> front[i] == entries[i]);
    }
}

/// The step of an entry stands in the plan behind the steps the plan began
/// with.
pub proof fn lemma_extend_plan_holds_step(
    start: MirrorPlanView,
    source: Seq<char>,
    dest: Seq<char>,
    kind: LinkKind,
    entries: Seq<TreeEntryView>,
    i: int,
) -> (j: int)
    requires
        extend_plan(start, source, dest, kind, entries).failure is None,
        0 <= i < entries.len(),
        entry_plan(source, dest, kind, entries[i]) is Step,
    ensures
        start.steps.len() <= j < extend_plan(start, source, dest, kind, entries).steps.len(),
        EntryPlan::Step(extend_plan(start, source, dest, kind, entries).steps[j]) == entry_plan(
            source,
            dest,
            kind,
            entries[i],
        ),
    decreases entries.len(),
{
    let front = entries.drop_last();
    let before = extend_plan(start, source, dest, kind, front);
    lemma_extend_plan_keeps(start, source, dest, kind, front);
    if i < front.len() {
        assert(front[i] == entries[i]);
        lemma_extend_plan_holds_step(start, source, dest, kind, front, i)
    } else {
        before.steps.len() as int
    }
}

/// A step of the plan behind those it began with is the step of an entry.
pub proof fn lemma_extend_plan_step_has_entry(
    start: MirrorPlanView,
    source: Seq<char>,
    dest: Seq<char>,
    kind: LinkKind,
    entries: Seq<TreeEntryView>,
    j: int,
) -> (i: int)
    requires
        extend_plan(start, source, dest, kind, entries).failure is None,
        start.steps.len() <= j < extend_plan(start, source, dest, kind, entries).steps.len(),
    ensures
        0 <= i < entries.len(),
        EntryPlan::Step(extend_plan(start, source, dest, kind, entries).steps[j]) == entry_plan(
            source,
            dest,
            kind,
            entries[i],
        ),
    decreases entries.len(),
{
    if entries.len() == 0 {
        0
    } else {
        let front = entries.drop_last();
        let before = extend_plan(start, source, dest, kind, front);
        lemma_extend_plan_keeps(start, source, dest, kind, front);
        if j < before.steps.len() {
            let i = lemma_extend_plan_step_has_entry(start, source, dest, kind, front, j);
            assert(front[i] == entries[i]);
            i
        } else {
            entries.len() - 1
        }
    }
}

/// The step is the step of one of the entries.
pub open spec fn is_step_of_entry(
    source: Seq<char>,
    dest: Seq<char>,
    kind: LinkKind,
    entries: Seq<TreeEntryView>,
    step: StepView,
) -> bool {
    exists|i: int|
        0 <= i < entries.len() && #[trigger] entry_plan(source, dest, kind, entries[i])
            == EntryPlan::Step(step)
}

/// The plan of a directory mirror that does not fail mirrors the walk entry
/// by entry: it creates the destination, then holds the step of every entry
/// below the source, and no step beside these.
pub proof fn lemma_mirror_covers_source(
    source: Seq<char>,
    dest: Seq<char>,
    kind: LinkKind,
    entries: Seq<TreeEntryView>,
)
    requires
        mirror_plan(source, dest, kind, true, entries).failure is None,
    ensures
        mirror_plan(source, dest, kind, true, entries).steps.len() >= 1,
        mirror_plan(source, dest, kind, true, entries).steps[0] == (StepView::CreateDir {
            path: dest,
        }),
        forall|i: int|
            0 <= i < entries.len() ==> (#[trigger] entry_plan(
                source,
                dest,
                kind,
                entries[i],
            ) matches EntryPlan::Step(step) ==> mirror_plan(
                source,
                dest,
                kind,
                true,
                entries,
            ).steps.contains(step)),
        forall|j: int|
            1 <= j < mirror_plan(source, dest, kind, true, entries).steps.len()
                ==> is_step_of_entry(
                source,
                dest,
                kind,
                entries,
                #[trigger] mirror_plan(source, dest, kind, true, entries).steps[j],
            ),
{
    let start = MirrorPlanView { steps: seq![StepView::CreateDir { path: dest }], failure: None };
    let plan = mirror_plan(source, dest, kind, true, entries);
    lemma_extend_plan_keeps(start, source, dest, kind, entries);
    assert(plan.steps[0] == start.steps[0]);
    assert forall|i: int| 0 <= i < entries.len() implies (#[trigger] entry_plan(
        source,
        dest,
        kind,
        entries[i],
    ) matches EntryPlan::Step(step) ==> plan.steps.contains(step)) by {
        if entry_plan(source, dest, kind, entries[i]) is Step {
            let j = lemma_extend_plan_holds_step(start, source, dest, kind, entries, i);
            assert(plan.steps[j] == entry_plan(source, dest, kind, entries[i])->Step_0);
        }
    }
    assert forall|j: int| 1 <= j < plan.steps.len() implies is_step_of_entry(
        source,
        dest,
        kind,
        entries,
        #[trigger] plan.steps[j],
    ) by {
        let i = lemma_extend_plan_step_has_entry(start, source, dest, kind, entries, j);
        assert(entry_plan(source, dest, kind, entries[i]) == EntryPlan::Step(plan.steps[j]));
    }
}

/// A hard-link mirror holds nothing but directories and hard links: no file
/// is ever copied or linked symbolically in its place.
pub proof fn lemma_hard_mirror_only_links(
    source: Seq<char>,
    dest: Seq<char>,
    source_is_dir: bool,
    entries: Seq<TreeEntryView>,
)
    ensures
        forall|j: int|
            0 <= j < mirror_plan(source, dest, LinkKind::Hard, source_is_dir, entries).steps.len()
                ==> (#[trigger] mirror_plan(
                source,
                dest,
                LinkKind::Hard,
                source_is_dir,
                entries,
            ).steps[j] is CreateDir) || (mirror_plan(
                source,
                dest,
                LinkKind::Hard,
                source_is_dir,
                entries,
            ).steps[j] is HardLink),
{
    if source_is_dir {
        let start = MirrorPlanView {
            steps: seq![StepView::CreateDir { path: dest }],
            failure: None,
        };
        lemma_extend_plan_only(start, source, dest, entries);
    }
}

/// Extending a plan of directories and hard links in hard-link mode gives a
/// plan of directories and hard links.
pub proof fn lemma_extend_plan_only(
    start: MirrorPlanView,
    source: Seq<char>,
    dest: Seq<char>,
    entries: Seq<TreeEntryView>,
)
    requires
        forall|j: int|
            0 <= j < start.steps.len() ==> (#[trigger] start.steps[j] is CreateDir)
                || (start.steps[j] is HardLink),
    ensures
        forall|j: int|
            0 <= j < extend_plan(start, source, dest, LinkKind::Hard, entries).steps.len() ==> (
            #[trigger] extend_plan(start, source, dest, LinkKind::Hard, entries).steps[j]
                is CreateDir) || (extend_plan(start, source, dest, LinkKind::Hard, entries).steps[j]
                is HardLink),
    decreases entries.len(),
{
    if entries.len() > 0 {
        lemma_extend_plan_only(start, source, dest, entries.drop_last());
    }
}

/// Entries at different places below the source are mirrored at different
/// places below the destination.
pub proof fn lemma_mirrored_paths_distinct(dest: Seq<char>, a: Seq<Seq<char>>, b: Seq<Seq<char>>)
    requires
        all_clean(a),
        all_clean(b),
        mirrored_path(dest, a) == mirrored_path(dest, b),
    ensures
        a == b,
{
    let ta = join_components(a);
    let tb = join_components(b);
    lemma_render_round_trip(false, a);
    lemma_render_round_trip(false, b);
    let lead = if dest.len() == 0 {
        dest
    } else if dest.last() == '/' {
        dest
    } else {
        dest + seq!['/']
    };
    assert(mirrored_path(dest, a) =~= lead + ta);
    assert(mirrored_path(dest, b) =~= lead + tb);
    assert(ta =~= (lead + ta).skip(lead.len() as int));
    assert(tb =~= (lead + tb).skip(lead.len() as int));
}

/// Entries at different places below the source are mirrored at different
/// places below the destination: no two of them come to stand on one path.
pub proof fn lemma_mirror_keeps_entries_apart(
    source: Seq<char>,
    dest: Seq<char>,
    p: Seq<char>,
    q: Seq<char>,
)
    requires
        components_below(p, source) is Some,
        components_below(q, source) is Some,
        mirrored_path(dest, components_below(p, source)->Some_0) == mirrored_path(
            dest,
            components_below(q, source)->Some_0,
        ),
    ensures
        components_below(p, source) == components_below(q, source),
{
    let below_p = components_below(p, source)->Some_0;
    let below_q = components_below(q, source)->Some_0;
    let lead = components(source).len();
    lemma_components_clean(p);
    lemma_components_clean(q);
    assert forall|i: int| 0 <= i < below_p.len() implies is_clean_component(
        #[trigger] below_p[i],
    ) by {
        assert(below_p[i] == components(p)[i + lead]);
    }
    assert forall|i: int| 0 <= i < below_q.len() implies is_clean_component(
        #[trigger] below_q[i],
    ) by {
        assert(below_q[i] == components(q)[i + lead]);
    }
    lemma_mirrored_paths_distinct(dest, below_p, below_q);
}

} // verus!
