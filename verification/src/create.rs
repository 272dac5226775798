//! Creating a new link: where it goes, what it stores, and which steps make
//! it.

use crate::cli::SlinkyLnCli;
use crate::path::{
    current_dir, current_name, file_name, final_name, is_absolute, join_paths, joined, option_text,
    parent_dir, parent_of,
};
use crate::relative::{relative_path, relativize};
use crate::steps::{FsStep, LinkKind, StepView};
use vstd::prelude::*;

verus! {

/// Why a link cannot be created as asked.
#[derive(Clone, Copy, Debug, PartialEq, Eq, Structural)]
pub enum CreateError {
    /// No target was given.
    MissingTarget,
    /// Options were combined that exclude each other.
    ConflictingOptions,
    /// The link is to get the target's name, and the target has none: its
    /// path ends in `..` or has no component.
    NoBaseName,
    /// A tree was asked for and the target does not exist.
    TargetMissingForTree,
    /// A hard link was asked for and the target does not exist.
    TargetMissingForHardLink,
    /// A hard link was asked for and the target is a directory.
    TargetIsDirectory,
    /// The target does not exist and a dangling link was not allowed.
    WouldDangle,
    /// A path that has to be stored in resolved form could not be resolved.
    Unresolved,
    /// No relative path leads from the link's directory to the target.
    NoRelativePath,
}

/// The words in which a refusal is reported.
pub open spec fn create_error_text(e: CreateError) -> Seq<char> {
    match e {
        CreateError::MissingTarget => "Target is required"@,
        CreateError::ConflictingOptions => "Options exclude each other"@,
        CreateError::NoBaseName => "Could not get basename; target path terminates in .."@,
        CreateError::TargetMissingForTree => "Target does not exist; cannot create tree"@,
        CreateError::TargetMissingForHardLink => "Target does not exist; cannot create hardlink"@,
        CreateError::TargetIsDirectory => "cannot hard link a directory"@,
        CreateError::WouldDangle =>
            "Target does not exist; refusing to create dangling symlink without --allow-dangling"@,
        CreateError::Unresolved => "Failed to resolve absolute path"@,
        CreateError::NoRelativePath => "Failed to calculate relative path"@,
    }
}

impl CreateError {
    /// The words in which the refusal is reported.
    pub fn message(&self) -> (text: &'static str)
        ensures
            text@ == create_error_text(*self),
    {
        match self {
            CreateError::MissingTarget => "Target is required",
            CreateError::ConflictingOptions => "Options exclude each other",
            CreateError::NoBaseName => "Could not get basename; target path terminates in ..",
            CreateError::TargetMissingForTree => "Target does not exist; cannot create tree",
            CreateError::TargetMissingForHardLink =>
                "Target does not exist; cannot create hardlink",
            CreateError::TargetIsDirectory => "cannot hard link a directory",
            CreateError::WouldDangle =>
                "Target does not exist; refusing to create dangling symlink without --allow-dangling",
            CreateError::Unresolved => "Failed to resolve absolute path",
            CreateError::NoRelativePath => "Failed to calculate relative path",
        }
    }
}

/// What is made for a new link.
#[derive(Clone, Copy, Debug, PartialEq, Eq, Structural)]
pub enum CreateKind {
    HardLinkTree,
    SymlinkTree,
    HardLink,
    Symlink,
}

/// What is known of the filesystem when a link is planned.  The fields that
/// the options do not call for are not looked at.
#[derive(Debug)]
pub struct CreateFacts {
    /// Whether the target exists.
    pub target_exists: bool,
    /// Whether the target is a directory.
    pub target_is_dir: bool,
    /// Whether something stands where the link is to go.
    pub origin_exists: bool,
    /// The fully resolved absolute path of the target, where it could be
    /// resolved.
    pub canonical_target: Option<String>,
    /// The fully resolved absolute path of the directory that will hold the
    /// link, where it could be resolved.
    pub canonical_origin_dir: Option<String>,
}

/// Creation facts as plain values.
pub struct CreateFactsView {
    pub target_exists: bool,
    pub target_is_dir: bool,
    pub origin_exists: bool,
    pub canonical_target: Option<Seq<char>>,
    pub canonical_origin_dir: Option<Seq<char>>,
}

impl View for CreateFacts {
    type V = CreateFactsView;

    open spec fn view(&self) -> CreateFactsView {
        CreateFactsView {
            target_exists: self.target_exists,
            target_is_dir: self.target_is_dir,
            origin_exists: self.origin_exists,
            canonical_target: option_text(self.canonical_target),
            canonical_origin_dir: option_text(self.canonical_origin_dir),
        }
    }
}

/// The plan for one new link.
#[derive(Debug)]
pub struct CreatePlan {
    /// What is made.
    pub kind: CreateKind,
    /// What the link stores; for a hard link or a tree, the target it is
    /// made from.
    pub stored: String,
    /// The steps to perform, in order; none in a dry run.
    pub steps: Vec<FsStep>,
}

/// A creation plan as plain values.
pub struct CreatePlanView {
    pub kind: CreateKind,
    pub stored: Seq<char>,
    pub steps: Seq<StepView>,
}

impl View for CreatePlan {
    type V = CreatePlanView;

    open spec fn view(&self) -> CreatePlanView {
        CreatePlanView { kind: self.kind, stored: self.stored@, steps: self.steps.deep_view() }
    }
}

/// The label under which a creation is described.
pub open spec fn create_kind_label(kind: CreateKind) -> Seq<char> {
    match kind {
        CreateKind::HardLinkTree => "create hardlink tree"@,
        CreateKind::SymlinkTree => "create symlink tree"@,
        CreateKind::HardLink => "create hardlink"@,
        CreateKind::Symlink => "create symlink"@,
    }
}

impl CreateKind {
    /// The label under which the creation is described.
    pub fn label(&self) -> (text: &'static str)
        ensures
            text@ == create_kind_label(*self),
    {
        match self {
            CreateKind::HardLinkTree => "create hardlink tree",
            CreateKind::SymlinkTree => "create symlink tree",
            CreateKind::HardLink => "create hardlink",
            CreateKind::Symlink => "create symlink",
        }
    }
}

impl SlinkyLnCli {
    /// The options go together: at most one of `absolute`, `relative` and
    /// `allow_dangling` is set, and none of them with `hard` or `tree`.
    pub open spec fn is_consistent(self) -> bool {
        &&& !(self.absolute && self.relative)
        &&& !(self.absolute && self.allow_dangling)
        &&& !(self.relative && self.allow_dangling)
        &&& (self.absolute || self.relative || self.allow_dangling) ==> !self.hard && !self.tree
    }

    /// Whether the options go together.
    pub fn consistent(&self) -> (b: bool)
        ensures
            b == self.is_consistent(),
    {
        let content = self.absolute || self.relative || self.allow_dangling;
        !(self.absolute && self.relative) && !(self.absolute && self.allow_dangling) && !(
        self.relative && self.allow_dangling) && !(content && (self.hard || self.tree))
    }

    /// The target that was given.
    pub fn required_target(&self) -> (r: Result<String, CreateError>)
        ensures
            match self.target {
                Some(t) => r is Ok && r->Ok_0@ == t@,
                None => r == Err::<String, CreateError>(CreateError::MissingTarget),
            },
    {
        match &self.target {
            Some(t) => Ok(t.clone()),
            None => Err(CreateError::MissingTarget),
        }
    }
}

/// Where a link stored at `current` leads that holds the text `stored`: an
/// absolute text stands for itself, a relative one starts from the directory
/// that holds `current`.
pub open spec fn followed(current: Seq<char>, stored: Seq<char>) -> Seq<char> {
    match parent_of(current) {
        Some(dir) => joined(dir, stored),
        None => stored,
    }
}

/// One hop along a chain of links: the path that the link at `current`
/// leads to, given the text it stores.
pub fn follow_link(current: &str, stored: &str) -> (next: String)
    ensures
        next@ == followed(current@, stored@),
        is_absolute(stored@) ==> next@ == stored@,
{
    match parent_dir(current) {
        Some(dir) => join_paths(dir.as_str(), stored),
        None => stored.to_owned(),
    }
}

/// What the filesystem says of a path that may be a link.
#[derive(Debug)]
pub enum LinkProbe {
    /// The path is no symbolic link.
    NotALink,
    /// The path is a symbolic link that cannot be read.
    Unreadable,
    /// The path is a symbolic link that stores this text.
    Stores(String),
}

/// A probe as plain values.
pub enum ProbeView {
    NotALink,
    Unreadable,
    Stores(Seq<char>),
}

impl View for LinkProbe {
    type V = ProbeView;

    open spec fn view(&self) -> ProbeView {
        match self {
            LinkProbe::NotALink => ProbeView::NotALink,
            LinkProbe::Unreadable => ProbeView::Unreadable,
            LinkProbe::Stores(s) => ProbeView::Stores(s@),
        }
    }
}

/// Where the following of a chain of links stands: the path reached, and
/// the paths that the chase has come by, the one reached among them.
#[derive(Debug)]
pub struct Chase {
    pub current: String,
    pub seen: Vec<String>,
}

/// What to do next when a chain of links is followed.
#[derive(Debug)]
pub enum ChaseStep {
    /// The chain ends here: this is what the target stands for.
    Arrived(String),
    /// The path reached is to be probed, and the chase goes on with what it
    /// holds.
    Onward(Chase),
}

/// A step of a chase as plain values.
pub enum ChaseStepView {
    Arrived(Seq<char>),
    Onward { current: Seq<char>, seen: Seq<Seq<char>> },
}

impl View for ChaseStep {
    type V = ChaseStepView;

    open spec fn view(&self) -> ChaseStepView {
        match self {
            ChaseStep::Arrived(path) => ChaseStepView::Arrived(path@),
            ChaseStep::Onward(chase) => ChaseStepView::Onward {
                current: chase.current@,
                seen: chase.seen.deep_view(),
            },
        }
    }
}

/// How the dereferencing of `path` begins.  A path that is no link stands
/// for itself.  A link that resolves in one go stands for what it resolves
/// to; any other link is followed hop by hop.
pub open spec fn chase_begun(
    path: Seq<char>,
    is_link: bool,
    canonical: Option<Seq<char>>,
) -> ChaseStepView {
    if !is_link {
        ChaseStepView::Arrived(path)
    } else {
        match canonical {
            Some(resolved) => ChaseStepView::Arrived(resolved),
            None => ChaseStepView::Onward { current: path, seen: seq![path] },
        }
    }
}

/// How a chase goes on from `current`, given what the filesystem says of
/// `current` and the paths that the chase has come by.  A link that can be
/// read is followed, however many were followed before it.  The chase ends
/// where it stands at a path that is no link, at a link that cannot be
/// read, and at a link that leads back to a path the chase has come by: a
/// chain that leads back into itself has no end to arrive at.
pub open spec fn chase_continued(
    current: Seq<char>,
    seen: Seq<Seq<char>>,
    probe: ProbeView,
) -> ChaseStepView {
    match probe {
        ProbeView::Stores(stored) => if seen.contains(followed(current, stored)) {
            ChaseStepView::Arrived(current)
        } else {
            ChaseStepView::Onward {
                current: followed(current, stored),
                seen: seen.push(followed(current, stored)),
            }
        },
        _ => ChaseStepView::Arrived(current),
    }
}

/// Begins to dereference `path`.  `is_link` says whether the path is a
/// symbolic link, and `canonical` is its fully resolved absolute path where
/// it could be resolved.
pub fn begin_chase(path: &str, is_link: bool, canonical: Option<String>) -> (step: ChaseStep)
    ensures
        step@ == chase_begun(path@, is_link, option_text(canonical)),
{
    if !is_link {
        ChaseStep::Arrived(path.to_owned())
    } else {
        match canonical {
            Some(resolved) => ChaseStep::Arrived(resolved),
            None => {
                let mut seen: Vec<String> = Vec::new();
                seen.push(path.to_owned());
                assert(seen.deep_view() =~= seq![path@]);
                ChaseStep::Onward(Chase { current: path.to_owned(), seen })
            },
        }
    }
}

/// Whether `text` is among `seen`.
pub fn is_among(seen: &Vec<String>, text: &String) -> (b: bool)
    ensures
        b == seen.deep_view().contains(text@),
{
    let mut k: usize = 0;
    while k < seen.len()
        invariant
            k <= seen.len(),
            forall|j: int| 0 <= j < k ==> seen.deep_view()[j] != text@,
        decreases seen.len() - k,
    {
        if seen[k] == *text {
            assert(seen.deep_view()[k as int] == text@);
            return true;
        }
        k = k + 1;
    }
    false
}

/// Goes on with a chase, given what the filesystem says of the path it has
/// reached.  Every link that can be read is followed, so a chain of links
/// is followed to its end, however long it is.  Only a link that leads
/// back to a path the chase has come by is not followed: the chase ends
/// there, and no path is probed twice.
pub fn continue_chase(chase: Chase, probe: &LinkProbe) -> (step: ChaseStep)
    ensures
        step@ == chase_continued(chase.current@, chase.seen.deep_view(), probe@),
        probe@ matches ProbeView::Stores(stored) ==> (step is Onward
            <==> !chase.seen.deep_view().contains(followed(chase.current@, stored))),
        step matches ChaseStep::Onward(next) ==> (chase.seen.deep_view().no_duplicates()
            ==> next.seen.deep_view().no_duplicates()),
{
    match probe {
        LinkProbe::Stores(stored) => {
            let next = follow_link(chase.current.as_str(), stored.as_str());
            if is_among(&chase.seen, &next) {
                ChaseStep::Arrived(chase.current)
            } else {
                let mut seen = chase.seen;
                let ghost before = seen.deep_view();
                seen.push(next.clone());
                assert(seen.deep_view() =~= before.push(next@));
                ChaseStep::Onward(Chase { current: next, seen })
            }
        },
        _ => ChaseStep::Arrived(chase.current),
    }
}

/// The place given for the link: the current directory where none was
/// given.
pub open spec fn given_origin(origin: Option<Seq<char>>) -> Seq<char> {
    match origin {
        Some(o) => o,
        None => current_name(),
    }
}

/// The path after whose last name a link in a directory is named: the
/// resolved path of the target where the target exists, else the target as
/// it was given.
pub open spec fn named_after(
    target: Seq<char>,
    target_exists: bool,
    canonical_target: Option<Seq<char>>,
) -> Result<Seq<char>, CreateError> {
    if !target_exists {
        Ok(target)
    } else {
        match canonical_target {
            Some(resolved) => Ok(resolved),
            None => Err(CreateError::Unresolved),
        }
    }
}

/// Where the link goes.  A place that is a directory holds the link under
/// the name of the target; any other place is the link's own path, and the
/// target is not looked at.
pub open spec fn origin_for(
    origin: Option<Seq<char>>,
    origin_is_dir: bool,
    target: Seq<char>,
    target_exists: bool,
    canonical_target: Option<Seq<char>>,
) -> Result<Seq<char>, CreateError> {
    if !origin_is_dir {
        Ok(given_origin(origin))
    } else {
        match named_after(target, target_exists, canonical_target) {
            Err(e) => Err(e),
            Ok(source) => match final_name(source) {
                Some(name) => Ok(joined(given_origin(origin), name)),
                None => Err(CreateError::NoBaseName),
            },
        }
    }
}

/// Where the link goes.  `origin_is_dir` says whether the place given
/// (`origin`, or the current directory) is a directory.  In a directory the
/// link takes the last name of the target: of its resolved path
/// `canonical_target` where the target exists, else of the target as given.
/// For a place that is no directory neither is looked at.
pub fn link_origin(
    origin: &Option<String>,
    origin_is_dir: bool,
    target: &str,
    target_exists: bool,
    canonical_target: &Option<String>,
) -> (r: Result<String, CreateError>)
    ensures
        match origin_for(
            option_text(*origin),
            origin_is_dir,
            target@,
            target_exists,
            option_text(*canonical_target),
        ) {
            Ok(path) => r is Ok && r->Ok_0@ == path,
            Err(e) => r == Err::<String, CreateError>(e),
        },
{
    let given = match origin {
        Some(o) => o.clone(),
        None => current_dir(),
    };
    if !origin_is_dir {
        return Ok(given);
    }
    let name = if !target_exists {
        file_name(target)
    } else {
        match canonical_target {
            Some(resolved) => file_name(resolved.as_str()),
            None => {
                return Err(CreateError::Unresolved);
            },
        }
    };
    match name {
        Some(name) => Ok(join_paths(given.as_str(), name.as_str())),
        None => Err(CreateError::NoBaseName),
    }
}

/// The directory that will hold the link at `origin_path`: its parent, or
/// `.` where the path has none or only an empty one.
pub open spec fn origin_dir_of(origin_path: Seq<char>) -> Seq<char> {
    match parent_of(origin_path) {
        Some(dir) => if dir.len() > 0 {
            dir
        } else {
            current_name()
        },
        None => current_name(),
    }
}

/// The directory that will hold the link at `origin_path`.
pub fn origin_dir(origin_path: &str) -> (dir: String)
    ensures
        dir@ == origin_dir_of(origin_path@),
{
    match parent_dir(origin_path) {
        Some(dir) => if dir.as_str().is_empty() {
            current_dir()
        } else {
            dir
        },
        None => current_dir(),
    }
}

/// What a symbolic link to `target` stores under the options: the resolved
/// absolute path, a relative path from the link's directory, or the target
/// as it was given.
pub open spec fn stored_text(
    opts: SlinkyLnCli,
    target: Seq<char>,
    facts: CreateFactsView,
) -> Result<Seq<char>, CreateError> {
    if opts.absolute {
        match facts.canonical_target {
            Some(t) => Ok(t),
            None => Err(CreateError::Unresolved),
        }
    } else if opts.relative {
        if facts.canonical_target is None || facts.canonical_origin_dir is None {
            Err(CreateError::Unresolved)
        } else {
            let dir = facts.canonical_origin_dir->Some_0;
            match relative_path(dir, facts.canonical_target->Some_0) {
                Some(rel) => Ok(rel),
                None => Err(CreateError::NoRelativePath),
            }
        }
    } else {
        Ok(target)
    }
}

/// What is made, what it stores and the step that makes it.
pub open spec fn creation(
    opts: SlinkyLnCli,
    target: Seq<char>,
    origin_path: Seq<char>,
    facts: CreateFactsView,
) -> Result<(CreateKind, Seq<char>, StepView), CreateError> {
    if !opts.is_consistent() {
        Err(CreateError::ConflictingOptions)
    } else if opts.tree {
        if !facts.target_exists {
            Err(CreateError::TargetMissingForTree)
        } else if opts.hard {
            Ok(
                (
                    CreateKind::HardLinkTree,
                    target,
                    StepView::MirrorTree {
                        source: target,
                        dest: origin_path,
                        kind: LinkKind::Hard,
                    },
                ),
            )
        } else {
            Ok(
                (
                    CreateKind::SymlinkTree,
                    target,
                    StepView::MirrorTree {
                        source: target,
                        dest: origin_path,
                        kind: LinkKind::Symbolic,
                    },
                ),
            )
        }
    } else if opts.hard {
        if !facts.target_exists {
            Err(CreateError::TargetMissingForHardLink)
        } else if facts.target_is_dir {
            Err(CreateError::TargetIsDirectory)
        } else {
            Ok(
                (
                    CreateKind::HardLink,
                    target,
                    StepView::HardLink { source: target, link: origin_path },
                ),
            )
        }
    } else if !facts.target_exists && !opts.allow_dangling {
        Err(CreateError::WouldDangle)
    } else {
        match stored_text(opts, target, facts) {
            Ok(text) => Ok(
                (CreateKind::Symlink, text, StepView::Symlink { target: text, link: origin_path }),
            ),
            Err(e) => Err(e),
        }
    }
}

/// The plan for a new link at `origin_path` to `target`.  With `force`,
/// what stands at the link's place is removed first.  A dry run has no
/// steps.
pub open spec fn creation_plan(
    opts: SlinkyLnCli,
    target: Seq<char>,
    origin_path: Seq<char>,
    facts: CreateFactsView,
) -> Result<CreatePlanView, CreateError> {
    match creation(opts, target, origin_path, facts) {
        Err(e) => Err(e),
        Ok((kind, stored, step)) => Ok(
            CreatePlanView {
                kind,
                stored,
                steps: if opts.dry_run {
                    Seq::empty()
                } else if opts.force && facts.origin_exists {
                    seq![StepView::Remove { path: origin_path }, step]
                } else {
                    seq![step]
                },
            },
        ),
    }
}

fn stored_for(
    opts: &SlinkyLnCli,
    target: &str,
    facts: &CreateFacts,
) -> (r: Result<String, CreateError>)
    ensures
        match stored_text(*opts, target@, facts@) {
            Ok(text) => r is Ok && r->Ok_0@ == text,
            Err(e) => r == Err::<String, CreateError>(e),
        },
{
    if opts.absolute {
        match &facts.canonical_target {
            Some(t) => Ok(t.clone()),
            None => Err(CreateError::Unresolved),
        }
    } else if opts.relative {
        match (&facts.canonical_origin_dir, &facts.canonical_target) {
            (Some(dir), Some(t)) => match relativize(dir.as_str(), t.as_str()) {
                Some(rel) => Ok(rel),
                None => Err(CreateError::NoRelativePath),
            },
            _ => Err(CreateError::Unresolved),
        }
    } else {
        Ok(target.to_owned())
    }
}

fn finish(
    opts: &SlinkyLnCli,
    origin_path: &str,
    facts: &CreateFacts,
    kind: CreateKind,
    stored: String,
    step: FsStep,
) -> (plan: CreatePlan)
    ensures
        plan@ == (CreatePlanView {
            kind,
            stored: stored@,
            steps: if opts.dry_run {
                Seq::empty()
            } else if opts.force && facts.origin_exists {
                seq![StepView::Remove { path: origin_path@ }, step@]
            } else {
                seq![step@]
            },
        }),
{
    let mut steps: Vec<FsStep> = Vec::new();
    if opts.dry_run {
        assert(steps.deep_view() =~= Seq::<StepView>::empty());
    } else if opts.force && facts.origin_exists {
        steps.push(FsStep::Remove { path: origin_path.to_owned() });
        steps.push(step);
        assert(steps.deep_view() =~= seq![StepView::Remove { path: origin_path@ }, step@]);
    } else {
        steps.push(step);
        assert(steps.deep_view() =~= seq![step@]);
    }
    CreatePlan { kind, stored, steps }
}

/// Plans a new link at `origin_path` to `target` as the options ask.
pub fn plan_link(
    opts: &SlinkyLnCli,
    target: &str,
    origin_path: &str,
    facts: &CreateFacts,
) -> (r: Result<CreatePlan, CreateError>)
    ensures
        match creation_plan(*opts, target@, origin_path@, facts@) {
            Ok(plan) => r is Ok && r->Ok_0@ == plan,
            Err(e) => r is Err && r->Err_0 == e,
        },
{
    if !opts.consistent() {
        return Err(CreateError::ConflictingOptions);
    }
    if opts.tree {
        if !facts.target_exists {
            return Err(CreateError::TargetMissingForTree);
        }
        let kind = if opts.hard {
            LinkKind::Hard
        } else {
            LinkKind::Symbolic
        };
        let made = if opts.hard {
            CreateKind::HardLinkTree
        } else {
            CreateKind::SymlinkTree
        };
        let step = FsStep::MirrorTree {
            source: target.to_owned(),
            dest: origin_path.to_owned(),
            kind,
        };
        Ok(finish(opts, origin_path, facts, made, target.to_owned(), step))
    } else if opts.hard {
        if !facts.target_exists {
            return Err(CreateError::TargetMissingForHardLink);
        }
        if facts.target_is_dir {
            return Err(CreateError::TargetIsDirectory);
        }
        let step = FsStep::HardLink { source: target.to_owned(), link: origin_path.to_owned() };
        Ok(finish(opts, origin_path, facts, CreateKind::HardLink, target.to_owned(), step))
    } else if !facts.target_exists && !opts.allow_dangling {
        Err(CreateError::WouldDangle)
    } else {
        match stored_for(opts, target, facts) {
            Err(e) => Err(e),
            Ok(text) => {
                let step = FsStep::Symlink { target: text.clone(), link: origin_path.to_owned() };
                Ok(finish(opts, origin_path, facts, CreateKind::Symlink, text, step))
            },
        }
    }
}

} // verus!
