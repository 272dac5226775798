//! The operations that change a link.
//!
//! Each operation looks at one classified link and answers with a plan: what
//! came of the link, and the filesystem steps that bring it about.  A link
//! is never edited in place: it is removed and made anew.  Where the new
//! value is the old one nothing is done, and in a dry run the outcome is
//! reported without any step.

use crate::cli::{RunMode, SlinkyCommand};
use crate::link::{LinkEntry, LinkView};
use crate::normalized::tidy_path;
use crate::path::{joined, normalized, option_text};
use crate::path_laws::{lemma_normalize_idempotent, lemma_normalize_keeps_destination};
use crate::pattern::{is_match, pattern_compiles, pattern_matches, substitute, substituted};
use crate::relative::{relative_path, relativize};
use crate::steps::{FsStep, LinkKind, StepView};
use vstd::prelude::*;

verus! {

/// Why an operation left a link alone.
#[derive(Clone, Copy, Debug, PartialEq, Eq, Structural)]
pub enum FailureReason {
    /// The link dangles and the operation needs its target.
    Dangling,
    /// The target is a directory and the operation needs a file.
    TargetIsDirectory,
    /// The target is a file and the operation needs a directory.
    TargetNotDirectory,
    /// A path that the operation needs in resolved form could not be
    /// resolved.
    Unresolved,
    /// No relative path leads from the link's directory to its target.
    NoRelativePath,
    /// The pattern of a regex edit does not compile.
    InvalidPattern,
}

/// The words in which a failure is reported.
pub open spec fn reason_text(reason: FailureReason) -> Seq<char> {
    match reason {
        FailureReason::Dangling => "skipping dangling symlink"@,
        FailureReason::TargetIsDirectory => "skipping directory"@,
        FailureReason::TargetNotDirectory => "skipping file"@,
        FailureReason::Unresolved => "failed to resolve absolute path"@,
        FailureReason::NoRelativePath => "failed to calculate relative path"@,
        FailureReason::InvalidPattern => "invalid pattern"@,
    }
}

impl FailureReason {
    /// The words in which the failure is reported.
    pub fn message(&self) -> (text: &'static str)
        ensures
            text@ == reason_text(*self),
    {
        match self {
            FailureReason::Dangling => "skipping dangling symlink",
            FailureReason::TargetIsDirectory => "skipping directory",
            FailureReason::TargetNotDirectory => "skipping file",
            FailureReason::Unresolved => "failed to resolve absolute path",
            FailureReason::NoRelativePath => "failed to calculate relative path",
            FailureReason::InvalidPattern => "invalid pattern",
        }
    }
}

/// What there is to say of a plan.
#[derive(Clone, Copy, Debug, PartialEq, Eq, Structural)]
pub enum Notice {
    /// The operation does not apply; the reason is in the result.
    Failure,
    /// The stored path already is tidy.
    AlreadyTidy,
    /// The pattern matches, and the edit gives the text that was there.
    IdenticalTarget,
    /// The link stores a new text: the old and the new one are in the result.
    Transformation,
    /// The link gives way to what it led to.
    Conversion,
    /// The link is removed.
    Removal,
}

/// The words that go with a notice, for those that have words of their own.
pub open spec fn notice_text(notice: Notice) -> Seq<char> {
    match notice {
        Notice::AlreadyTidy => "target is already tidy"@,
        Notice::IdenticalTarget => "new target is identical to old target"@,
        _ => ""@,
    }
}

impl Notice {
    /// The words that go with the notice, for those that have words of
    /// their own.
    pub fn message(&self) -> (text: &'static str)
        ensures
            text@ == notice_text(*self),
    {
        match self {
            Notice::AlreadyTidy => "target is already tidy",
            Notice::IdenticalTarget => "new target is identical to old target",
            _ => "",
        }
    }
}

/// What came of one link.
#[derive(Debug)]
pub enum TransformResult {
    /// The link already is what the operation would make of it.
    Unchanged,
    /// The link held `old` and is turned into `new`.
    Transformed { old: String, new: String },
    /// The operation does not apply to the link.
    Failed(FailureReason),
}

/// A transform result as plain values.
pub enum ResultView {
    Unchanged,
    Transformed { old: Seq<char>, new: Seq<char> },
    Failed(FailureReason),
}

impl View for TransformResult {
    type V = ResultView;

    open spec fn view(&self) -> ResultView {
        match self {
            TransformResult::Unchanged => ResultView::Unchanged,
            TransformResult::Transformed { old, new } => ResultView::Transformed {
                old: old@,
                new: new@,
            },
            TransformResult::Failed(reason) => ResultView::Failed(*reason),
        }
    }
}

/// The outcome for one link and the steps that bring it about.
#[derive(Debug)]
pub struct TransformPlan {
    /// What comes of the link.
    pub result: TransformResult,
    /// The steps to perform, in order.  Empty unless the result is
    /// `Transformed`, and empty in a dry run.
    pub steps: Vec<FsStep>,
    /// What to tell the user, if anything.  A failure is always told, and so
    /// is an edit or a tidying that changes nothing; what is done to a link
    /// is told only where that was asked for.
    pub notice: Option<Notice>,
}

/// A transform plan as plain values.
pub struct PlanView {
    pub result: ResultView,
    pub steps: Seq<StepView>,
    pub notice: Option<Notice>,
}

impl View for TransformPlan {
    type V = PlanView;

    open spec fn view(&self) -> PlanView {
        PlanView { result: self.result@, steps: self.steps.deep_view(), notice: self.notice }
    }
}

/// What is known of a link's target beyond its classification.  The fields
/// that an operation does not ask for are not looked at.
#[derive(Debug)]
pub struct TargetFacts {
    /// Whether the resolved target is a directory.
    pub target_is_dir: bool,
    /// The fully resolved absolute path of the target, where it could be
    /// resolved.
    pub canonical_target: Option<String>,
    /// The fully resolved absolute path of the link's directory, where it
    /// could be resolved.
    pub canonical_dir: Option<String>,
}

/// Target facts as plain values.
pub struct FactsView {
    pub target_is_dir: bool,
    pub canonical_target: Option<Seq<char>>,
    pub canonical_dir: Option<Seq<char>>,
}

impl View for TargetFacts {
    type V = FactsView;

    open spec fn view(&self) -> FactsView {
        FactsView {
            target_is_dir: self.target_is_dir,
            canonical_target: option_text(self.canonical_target),
            canonical_dir: option_text(self.canonical_dir),
        }
    }
}

/// Which facts an operation asks for.
#[derive(Clone, Copy, Debug, PartialEq, Eq, Structural)]
pub struct FactsNeeded {
    pub target_is_dir: bool,
    pub canonical_target: bool,
    pub canonical_dir: bool,
}

/// The plan that leaves the link alone for the given reason, and says so.
pub open spec fn failed(reason: FailureReason) -> PlanView {
    PlanView {
        result: ResultView::Failed(reason),
        steps: Seq::empty(),
        notice: Some(Notice::Failure),
    }
}

/// The plan that has nothing to do.
pub open spec fn unchanged(notice: Option<Notice>) -> PlanView {
    PlanView { result: ResultView::Unchanged, steps: Seq::empty(), notice }
}

/// The plan that turns what the link holds into `new` by the given steps.
/// A dry run leaves the steps out; the notice is given where the run is
/// verbose.
pub open spec fn transformed(
    e: LinkView,
    new: Seq<char>,
    steps: Seq<StepView>,
    notice: Notice,
    mode: RunMode,
) -> PlanView {
    PlanView {
        result: ResultView::Transformed { old: e.raw_target, new },
        steps: if mode.dry_run {
            Seq::empty()
        } else {
            steps
        },
        notice: if mode.verbose {
            Some(notice)
        } else {
            None
        },
    }
}

/// The plan that makes the link store `new_target`: nothing where it
/// already does, else the old link is removed and a new one created.
/// `if_same` is what to say where nothing changes.
pub open spec fn relink_plan(
    e: LinkView,
    new_target: Seq<char>,
    if_same: Option<Notice>,
    mode: RunMode,
) -> PlanView {
    if new_target == e.raw_target {
        unchanged(if_same)
    } else {
        transformed(
            e,
            new_target,
            seq![
                StepView::Remove { path: e.origin_path },
                StepView::Symlink { target: new_target, link: e.origin_path },
            ],
            Notice::Transformation,
            mode,
        )
    }
}

/// Tidy: the link stores the normal form of what it stored.
pub open spec fn tidy_plan(e: LinkView, mode: RunMode) -> PlanView {
    relink_plan(e, normalized(e.raw_target), Some(Notice::AlreadyTidy), mode)
}

/// Retarget to absolute: the link stores the resolved absolute path of its
/// target.
pub open spec fn to_absolute_plan(
    e: LinkView,
    canonical_target: Option<Seq<char>>,
    mode: RunMode,
) -> PlanView {
    if e.is_dangling {
        failed(FailureReason::Dangling)
    } else {
        match canonical_target {
            None => failed(FailureReason::Unresolved),
            Some(target) => relink_plan(e, target, None, mode),
        }
    }
}

/// Retarget to relative: the link stores the relative path from its resolved
/// directory to its resolved target.
pub open spec fn to_relative_plan(
    e: LinkView,
    canonical_dir: Option<Seq<char>>,
    canonical_target: Option<Seq<char>>,
    mode: RunMode,
) -> PlanView {
    if e.is_dangling {
        failed(FailureReason::Dangling)
    } else if canonical_dir is None || canonical_target is None {
        failed(FailureReason::Unresolved)
    } else {
        match relative_path(canonical_dir->Some_0, canonical_target->Some_0) {
            None => failed(FailureReason::NoRelativePath),
            Some(rel) => relink_plan(e, rel, None, mode),
        }
    }
}

/// The plan of a regex edit once the pattern has answered: `edited` is what
/// the substitution made of the stored text, or `None` where the pattern
/// does not match it.
pub open spec fn edit_outcome_plan(
    e: LinkView,
    edited: Option<Seq<char>>,
    mode: RunMode,
) -> PlanView {
    match edited {
        None => unchanged(None),
        Some(new_target) => relink_plan(e, new_target, Some(Notice::IdenticalTarget), mode),
    }
}

/// Regex edit: the link stores what the substitution makes of what it
/// stored.  A link that the pattern does not match is left alone, without a
/// word.
pub open spec fn edit_target_plan(
    e: LinkView,
    pattern: Seq<char>,
    replacement: Seq<char>,
    every: bool,
    mode: RunMode,
) -> PlanView {
    if !pattern_compiles(pattern) {
        failed(FailureReason::InvalidPattern)
    } else if !pattern_matches(pattern, e.raw_target) {
        edit_outcome_plan(e, None, mode)
    } else {
        edit_outcome_plan(e, Some(substituted(pattern, e.raw_target, replacement, every)), mode)
    }
}

/// Convert to hard link: the link is replaced by a hard link to its target,
/// which must be there and no directory.
pub open spec fn to_hardlink_plan(e: LinkView, target_is_dir: bool, mode: RunMode) -> PlanView {
    if e.is_dangling {
        failed(FailureReason::Dangling)
    } else if target_is_dir {
        failed(FailureReason::TargetIsDirectory)
    } else {
        transformed(
            e,
            e.resolved_target,
            seq![
                StepView::Remove { path: e.origin_path },
                StepView::HardLink { source: e.resolved_target, link: e.origin_path },
            ],
            Notice::Conversion,
            mode,
        )
    }
}

/// Convert to tree: the link is replaced by a real directory that mirrors
/// its target, which must be a directory.
pub open spec fn to_tree_plan(
    e: LinkView,
    target_is_dir: bool,
    kind: LinkKind,
    mode: RunMode,
) -> PlanView {
    if e.is_dangling {
        failed(FailureReason::Dangling)
    } else if !target_is_dir {
        failed(FailureReason::TargetNotDirectory)
    } else {
        transformed(
            e,
            e.resolved_target,
            seq![
                StepView::Remove { path: e.origin_path },
                StepView::MirrorTree { source: e.resolved_target, dest: e.origin_path, kind },
            ],
            Notice::Conversion,
            mode,
        )
    }
}

/// Replace with target: the target is moved to where the link stands.
pub open spec fn replace_with_target_plan(
    e: LinkView,
    canonical_target: Option<Seq<char>>,
    mode: RunMode,
) -> PlanView {
    if e.is_dangling {
        failed(FailureReason::Dangling)
    } else {
        match canonical_target {
            None => failed(FailureReason::Unresolved),
            Some(target) => transformed(
                e,
                target,
                seq![
                    StepView::Remove { path: e.origin_path },
                    StepView::Rename { from: target, to: e.origin_path },
                ],
                Notice::Conversion,
                mode,
            ),
        }
    }
}

/// Delete: the link is removed, whatever it leads to.  Nothing is left of
/// what it stored.
pub open spec fn delete_plan(e: LinkView, mode: RunMode) -> PlanView {
    transformed(
        e,
        Seq::empty(),
        seq![StepView::Remove { path: e.origin_path }],
        Notice::Removal,
        mode,
    )
}

/// The plan of a command for one link.  Listing and running a shell command
/// change nothing of the link.
pub open spec fn command_plan(
    cmd: SlinkyCommand,
    e: LinkView,
    facts: FactsView,
    mode: RunMode,
) -> PlanView {
    match cmd {
        SlinkyCommand::List { .. } => unchanged(None),
        SlinkyCommand::ToRelative => to_relative_plan(
            e,
            facts.canonical_dir,
            facts.canonical_target,
            mode,
        ),
        SlinkyCommand::ToAbsolute => to_absolute_plan(e, facts.canonical_target, mode),
        SlinkyCommand::Tidy => tidy_plan(e, mode),
        SlinkyCommand::EditTarget { pattern, replace, replace_all } => edit_target_plan(
            e,
            pattern@,
            replace@,
            replace_all,
            mode,
        ),
        SlinkyCommand::ToHardlink => to_hardlink_plan(e, facts.target_is_dir, mode),
        SlinkyCommand::ToHardlinkTree => to_tree_plan(e, facts.target_is_dir, LinkKind::Hard, mode),
        SlinkyCommand::ToTree => to_tree_plan(e, facts.target_is_dir, LinkKind::Symbolic, mode),
        SlinkyCommand::ReplaceWithTarget => replace_with_target_plan(
            e,
            facts.canonical_target,
            mode,
        ),
        SlinkyCommand::Delete => delete_plan(e, mode),
        SlinkyCommand::Exec { .. } => unchanged(None),
    }
}

/// The facts that a command asks for of a link.  A dangling link has no
/// target to ask about.
pub open spec fn facts_needed(cmd: SlinkyCommand, e: LinkView) -> FactsNeeded {
    let none = FactsNeeded { target_is_dir: false, canonical_target: false, canonical_dir: false };
    if e.is_dangling {
        none
    } else {
        match cmd {
            SlinkyCommand::ToRelative => FactsNeeded {
                target_is_dir: false,
                canonical_target: true,
                canonical_dir: true,
            },
            SlinkyCommand::ToAbsolute => FactsNeeded {
                target_is_dir: false,
                canonical_target: true,
                canonical_dir: false,
            },
            SlinkyCommand::ToHardlink => FactsNeeded {
                target_is_dir: true,
                canonical_target: false,
                canonical_dir: false,
            },
            SlinkyCommand::ToHardlinkTree => FactsNeeded {
                target_is_dir: true,
                canonical_target: false,
                canonical_dir: false,
            },
            SlinkyCommand::ToTree => FactsNeeded {
                target_is_dir: true,
                canonical_target: false,
                canonical_dir: false,
            },
            SlinkyCommand::ReplaceWithTarget => FactsNeeded {
                target_is_dir: false,
                canonical_target: true,
                canonical_dir: false,
            },
            _ => none,
        }
    }
}

/// Two sets of facts agree on what is asked for.
pub open spec fn facts_agree(needed: FactsNeeded, a: FactsView, b: FactsView) -> bool {
    &&& needed.target_is_dir ==> a.target_is_dir == b.target_is_dir
    &&& needed.canonical_target ==> a.canonical_target == b.canonical_target
    &&& needed.canonical_dir ==> a.canonical_dir == b.canonical_dir
}

fn fail(reason: FailureReason) -> (plan: TransformPlan)
    ensures
        plan@ == failed(reason),
{
    let plan = TransformPlan {
        result: TransformResult::Failed(reason),
        steps: Vec::new(),
        notice: Some(Notice::Failure),
    };
    assert(plan.steps.deep_view() =~= Seq::<StepView>::empty());
    plan
}

fn leave(notice: Option<Notice>) -> (plan: TransformPlan)
    ensures
        plan@ == unchanged(notice),
{
    let plan = TransformPlan { result: TransformResult::Unchanged, steps: Vec::new(), notice };
    assert(plan.steps.deep_view() =~= Seq::<StepView>::empty());
    plan
}

fn transform(
    entry: &LinkEntry,
    new: String,
    first: FsStep,
    second: Option<FsStep>,
    notice: Notice,
    mode: RunMode,
) -> (plan: TransformPlan)
    ensures
        plan@ == transformed(
            entry@,
            new@,
            match second {
                Some(s) => seq![first@, s@],
                None => seq![first@],
            },
            notice,
            mode,
        ),
{
    let mut steps: Vec<FsStep> = Vec::new();
    if !mode.dry_run {
        steps.push(first);
        match second {
            Some(s) => {
                steps.push(s);
                assert(steps.deep_view() =~= seq![first@, s@]);
            },
            None => {
                assert(steps.deep_view() =~= seq![first@]);
            },
        }
    } else {
        assert(steps.deep_view() =~= Seq::<StepView>::empty());
    }
    TransformPlan {
        result: TransformResult::Transformed { old: entry.raw_target.clone(), new },
        steps,
        notice: if mode.verbose {
            Some(notice)
        } else {
            None
        },
    }
}

fn remove_step(entry: &LinkEntry) -> (step: FsStep)
    ensures
        step@ == (StepView::Remove { path: entry@.origin_path }),
{
    FsStep::Remove { path: entry.origin_path.clone() }
}

/// Plans the link anew with `new_target` as its stored text.  Nothing is
/// done where the link already stores it; `if_same` is what to say then.
pub fn relink(
    entry: &LinkEntry,
    new_target: String,
    if_same: Option<Notice>,
    mode: RunMode,
) -> (plan: TransformPlan)
    ensures
        plan@ == relink_plan(entry@, new_target@, if_same, mode),
{
    if new_target == entry.raw_target {
        leave(if_same)
    } else {
        let make = FsStep::Symlink {
            target: new_target.clone(),
            link: entry.origin_path.clone(),
        };
        transform(entry, new_target, remove_step(entry), Some(make), Notice::Transformation, mode)
    }
}

/// Tidy: lexically normalizes what the link stores.
pub fn tidy(entry: &LinkEntry, mode: RunMode) -> (plan: TransformPlan)
    ensures
        plan@ == tidy_plan(entry@, mode),
{
    relink(entry, tidy_path(entry.raw_target.as_str()), Some(Notice::AlreadyTidy), mode)
}

/// Retarget to absolute.  `canonical_target` is the fully resolved absolute
/// path of the link's resolved target; it is not looked at for a dangling
/// link, which is left alone.
pub fn to_absolute(
    entry: &LinkEntry,
    canonical_target: &Option<String>,
    mode: RunMode,
) -> (plan: TransformPlan)
    ensures
        plan@ == to_absolute_plan(entry@, option_text(*canonical_target), mode),
        entry@.is_dangling ==> plan@ == failed(FailureReason::Dangling),
{
    if entry.is_dangling {
        fail(FailureReason::Dangling)
    } else {
        match canonical_target {
            None => fail(FailureReason::Unresolved),
            Some(target) => relink(entry, target.clone(), None, mode),
        }
    }
}

/// Retarget to relative.  `canonical_dir` and `canonical_target` are the
/// fully resolved absolute paths of the link's directory and of its resolved
/// target; they are not looked at for a dangling link, which is left alone.
pub fn to_relative(
    entry: &LinkEntry,
    canonical_dir: &Option<String>,
    canonical_target: &Option<String>,
    mode: RunMode,
) -> (plan: TransformPlan)
    ensures
        plan@ == to_relative_plan(
            entry@,
            option_text(*canonical_dir),
            option_text(*canonical_target),
            mode,
        ),
        entry@.is_dangling ==> plan@ == failed(FailureReason::Dangling),
{
    if entry.is_dangling {
        return fail(FailureReason::Dangling);
    }
    match (canonical_dir, canonical_target) {
        (Some(dir), Some(target)) => match relativize(dir.as_str(), target.as_str()) {
            None => fail(FailureReason::NoRelativePath),
            Some(rel) => relink(entry, rel, None, mode),
        },
        _ => fail(FailureReason::Unresolved),
    }
}

/// Regex edit of what the link stores: the first match of `pattern` is
/// replaced by `replacement`, or every match where `every` is set.
pub fn edit_target(
    entry: &LinkEntry,
    pattern: &str,
    replacement: &str,
    every: bool,
    mode: RunMode,
) -> (plan: TransformPlan)
    ensures
        plan@ == edit_target_plan(entry@, pattern@, replacement@, every, mode),
{
    match is_match(pattern, entry.raw_target.as_str()) {
        Err(_) => fail(FailureReason::InvalidPattern),
        Ok(false) => edit_outcome(entry, None, mode),
        Ok(true) => match substitute(pattern, entry.raw_target.as_str(), replacement, every) {
            Err(_) => fail(FailureReason::InvalidPattern),
            Ok(new_target) => edit_outcome(entry, Some(new_target), mode),
        },
    }
}

/// The plan of a regex edit once the pattern has answered: `edited` is what
/// the substitution made of the stored text, or `None` where the pattern
/// does not match it.  A link that is not matched is left alone without a
/// word; one whose text the substitution does not change is left alone too,
/// and that is said.
pub fn edit_outcome(
    entry: &LinkEntry,
    edited: Option<String>,
    mode: RunMode,
) -> (plan: TransformPlan)
    ensures
        plan@ == edit_outcome_plan(entry@, option_text(edited), mode),
{
    match edited {
        None => leave(None),
        Some(new_target) => relink(entry, new_target, Some(Notice::IdenticalTarget), mode),
    }
}

/// Convert to hard link.  `target_is_dir` says whether the resolved target
/// is a directory; it is not looked at for a dangling link.
pub fn to_hardlink(entry: &LinkEntry, target_is_dir: bool, mode: RunMode) -> (plan: TransformPlan)
    ensures
        plan@ == to_hardlink_plan(entry@, target_is_dir, mode),
{
    if entry.is_dangling {
        fail(FailureReason::Dangling)
    } else if target_is_dir {
        fail(FailureReason::TargetIsDirectory)
    } else {
        let make = FsStep::HardLink {
            source: entry.resolved_target.clone(),
            link: entry.origin_path.clone(),
        };
        transform(
            entry,
            entry.resolved_target.clone(),
            remove_step(entry),
            Some(make),
            Notice::Conversion,
            mode,
        )
    }
}

/// Convert to tree: the link gives way to a real directory that mirrors its
/// target with links of the given kind.  A target that is no directory is
/// reported and left alone.
pub fn to_tree(
    entry: &LinkEntry,
    target_is_dir: bool,
    kind: LinkKind,
    mode: RunMode,
) -> (plan: TransformPlan)
    ensures
        plan@ == to_tree_plan(entry@, target_is_dir, kind, mode),
{
    if entry.is_dangling {
        fail(FailureReason::Dangling)
    } else if !target_is_dir {
        fail(FailureReason::TargetNotDirectory)
    } else {
        let make = FsStep::MirrorTree {
            source: entry.resolved_target.clone(),
            dest: entry.origin_path.clone(),
            kind,
        };
        transform(
            entry,
            entry.resolved_target.clone(),
            remove_step(entry),
            Some(make),
            Notice::Conversion,
            mode,
        )
    }
}

/// Replace with target: the target is moved to where the link stands.
/// `canonical_target` is the fully resolved absolute path of the target; it
/// is not looked at for a dangling link.
pub fn replace_with_target(
    entry: &LinkEntry,
    canonical_target: &Option<String>,
    mode: RunMode,
) -> (plan: TransformPlan)
    ensures
        plan@ == replace_with_target_plan(entry@, option_text(*canonical_target), mode),
{
    if entry.is_dangling {
        fail(FailureReason::Dangling)
    } else {
        match canonical_target {
            None => fail(FailureReason::Unresolved),
            Some(target) => {
                let make = FsStep::Rename { from: target.clone(), to: entry.origin_path.clone() };
                transform(
                    entry,
                    target.clone(),
                    remove_step(entry),
                    Some(make),
                    Notice::Conversion,
                    mode,
                )
            },
        }
    }
}

/// Delete: removes the link without looking at its target.
pub fn delete(entry: &LinkEntry, mode: RunMode) -> (plan: TransformPlan)
    ensures
        plan@ == delete_plan(entry@, mode),
{
    transform(entry, String::new(), remove_step(entry), None, Notice::Removal, mode)
}

/// The facts that `cmd` asks for of the link.
pub fn required_facts(cmd: &SlinkyCommand, entry: &LinkEntry) -> (needed: FactsNeeded)
    ensures
        needed == facts_needed(*cmd, entry@),
{
    let none = FactsNeeded { target_is_dir: false, canonical_target: false, canonical_dir: false };
    if entry.is_dangling {
        return none;
    }
    match cmd {
        SlinkyCommand::ToRelative => FactsNeeded {
            target_is_dir: false,
            canonical_target: true,
            canonical_dir: true,
        },
        SlinkyCommand::ToAbsolute => FactsNeeded {
            target_is_dir: false,
            canonical_target: true,
            canonical_dir: false,
        },
        SlinkyCommand::ToHardlink => FactsNeeded {
            target_is_dir: true,
            canonical_target: false,
            canonical_dir: false,
        },
        SlinkyCommand::ToHardlinkTree => FactsNeeded {
            target_is_dir: true,
            canonical_target: false,
            canonical_dir: false,
        },
        SlinkyCommand::ToTree => FactsNeeded {
            target_is_dir: true,
            canonical_target: false,
            canonical_dir: false,
        },
        SlinkyCommand::ReplaceWithTarget => FactsNeeded {
            target_is_dir: false,
            canonical_target: true,
            canonical_dir: false,
        },
        _ => none,
    }
}

/// The plan of `cmd` for one link, given the facts it asks for.
pub fn plan_command(
    cmd: &SlinkyCommand,
    entry: &LinkEntry,
    facts: &TargetFacts,
    mode: RunMode,
) -> (plan: TransformPlan)
    ensures
        plan@ == command_plan(*cmd, entry@, facts@, mode),
{
    match cmd {
        SlinkyCommand::List { .. } => leave(None),
        SlinkyCommand::ToRelative => to_relative(
            entry,
            &facts.canonical_dir,
            &facts.canonical_target,
            mode,
        ),
        SlinkyCommand::ToAbsolute => to_absolute(entry, &facts.canonical_target, mode),
        SlinkyCommand::Tidy => tidy(entry, mode),
        SlinkyCommand::EditTarget { pattern, replace, replace_all } => edit_target(
            entry,
            pattern.as_str(),
            replace.as_str(),
            *replace_all,
            mode,
        ),
        SlinkyCommand::ToHardlink => to_hardlink(entry, facts.target_is_dir, mode),
        SlinkyCommand::ToHardlinkTree => to_tree(entry, facts.target_is_dir, LinkKind::Hard, mode),
        SlinkyCommand::ToTree => to_tree(entry, facts.target_is_dir, LinkKind::Symbolic, mode),
        SlinkyCommand::ReplaceWithTarget => replace_with_target(
            entry,
            &facts.canonical_target,
            mode,
        ),
        SlinkyCommand::Delete => delete(entry, mode),
        SlinkyCommand::Exec { .. } => leave(None),
    }
}

/// A plan has steps only where it transforms, and none in a dry run.  What
/// comes of the link does not depend on how the operation is run.
pub proof fn lemma_steps_only_when_transformed(
    cmd: SlinkyCommand,
    e: LinkView,
    facts: FactsView,
    mode: RunMode,
    other: RunMode,
)
    ensures
        !(command_plan(cmd, e, facts, mode).result is Transformed) ==> command_plan(
            cmd,
            e,
            facts,
            mode,
        ).steps.len() == 0,
        mode.dry_run ==> command_plan(cmd, e, facts, mode).steps.len() == 0,
        command_plan(cmd, e, facts, mode).result == command_plan(cmd, e, facts, other).result,
{
}

/// Every failure is told, whether the run is verbose or not; what is done
/// to a link is told exactly in a verbose run.
pub proof fn lemma_failures_are_always_told(
    cmd: SlinkyCommand,
    e: LinkView,
    facts: FactsView,
    mode: RunMode,
)
    ensures
        command_plan(cmd, e, facts, mode).result is Failed <==> command_plan(
            cmd,
            e,
            facts,
            mode,
        ).notice == Some(Notice::Failure),
        command_plan(cmd, e, facts, mode).result is Transformed ==> (command_plan(
            cmd,
            e,
            facts,
            mode,
        ).notice is Some <==> mode.verbose),
{
}

/// Every plan that has steps begins by removing the link, and what follows
/// is created where the link stood.
pub proof fn lemma_plan_replaces_link(
    cmd: SlinkyCommand,
    e: LinkView,
    facts: FactsView,
    mode: RunMode,
)
    ensures
        ({
            let steps = command_plan(cmd, e, facts, mode).steps;
            steps.len() > 0 ==> {
                &&& steps[0] == (StepView::Remove { path: e.origin_path })
                &&& steps.len() <= 2
                &&& steps.len() == 2 ==> steps[1].created_path() == Some(e.origin_path)
            }
        }),
{
}

/// A dangling link is left as it is by every operation that needs its
/// target: the plan reports the failure and has no step.
pub proof fn lemma_dangling_link_is_left_alone(
    cmd: SlinkyCommand,
    e: LinkView,
    facts: FactsView,
    mode: RunMode,
)
    requires
        e.is_dangling,
        cmd is ToAbsolute || cmd is ToRelative || cmd is ToHardlink || cmd is ToHardlinkTree
            || cmd is ToTree || cmd is ReplaceWithTarget,
    ensures
        command_plan(cmd, e, facts, mode) == failed(FailureReason::Dangling),
{
}

/// A plan depends on the facts only through those that the command asks for.
pub proof fn lemma_plan_reads_only_needed_facts(
    cmd: SlinkyCommand,
    e: LinkView,
    a: FactsView,
    b: FactsView,
    mode: RunMode,
)
    requires
        facts_agree(facts_needed(cmd, e), a, b),
    ensures
        command_plan(cmd, e, a, mode) == command_plan(cmd, e, b, mode),
{
}

/// Tidying a link whose stored path is already in normal form changes
/// nothing, and a tidied link is in normal form.
pub proof fn lemma_tidy_settles(e: LinkView, mode: RunMode)
    ensures
        normalized(e.raw_target) == e.raw_target ==> tidy_plan(e, mode) == unchanged(
            Some(Notice::AlreadyTidy),
        ),
        tidy_plan(e, mode).result matches ResultView::Transformed { old, new } ==> old
            == e.raw_target && new == normalized(e.raw_target) && new != old && normalized(new)
            == new,
{
    lemma_normalize_idempotent(e.raw_target);
}

/// A tidied link leads where it led: resolved against the link's directory
/// by the text alone, what the link stores after tidying and what it stored
/// before come to the same path.
pub proof fn lemma_tidy_keeps_destination(e: LinkView)
    requires
        e.is_classified(),
    ensures
        normalized(joined(e.containing_dir, normalized(e.raw_target))) == normalized(
            e.resolved_target,
        ),
{
    lemma_normalize_keeps_destination(e.containing_dir, e.raw_target);
}

} // verus!
