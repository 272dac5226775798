//! How a run is set up, and what its walk yields.
//!
//! The walk itself goes through the filesystem and is not done here.
//! Before it begins the run is set up: what would stand in the way of the
//! whole run is found then.  For each symbolic link the walk comes across,
//! it reads the link and asks whether the link is to be yielded: the link
//! is classified, and the filters decide.  A link that the filters reject
//! gets no further attention.

use crate::cli::{RunMode, SlinkyCli, SlinkyCommand};
use crate::filter::{pattern_usable, FilterSet, Verdict};
use crate::link::{classified, classify, containing_dir, containing_dir_of, LinkEntry, LinkView};
use crate::pattern::{check_pattern, PatternError};
use vstd::prelude::*;

verus! {

/// Why a run cannot begin.
#[derive(Debug)]
pub enum SetupError {
    /// The path to search does not exist.
    MissingRoot { path: String },
    /// A pattern of a filter or of an edit does not compile.
    BadPattern(PatternError),
}

/// A setup error as plain values; of a pattern, the pattern.
pub enum SetupErrorView {
    MissingRoot { path: Seq<char> },
    BadPattern { pattern: Seq<char> },
}

impl View for SetupError {
    type V = SetupErrorView;

    open spec fn view(&self) -> SetupErrorView {
        match self {
            SetupError::MissingRoot { path } => SetupErrorView::MissingRoot { path: path@ },
            SetupError::BadPattern(e) => SetupErrorView::BadPattern { pattern: e.pattern@ },
        }
    }
}

/// What a run works with once it is set up.
#[derive(Debug)]
pub struct Run {
    /// The filters that decide which links the walk yields.
    pub filters: FilterSet,
    /// How the command is run.
    pub mode: RunMode,
}

/// The pattern of the command, for the command that has one.
pub open spec fn command_pattern(cmd: SlinkyCommand) -> Option<Seq<char>> {
    match cmd {
        SlinkyCommand::EditTarget { pattern, .. } => Some(pattern@),
        _ => None,
    }
}

/// What stands in the way of a run, if anything: a root that is missing,
/// else a pattern that does not compile, looked for in the filter on the
/// origin, the filter on the stored text, and the command, in this order.
pub open spec fn setup_error(cli: SlinkyCli, root_exists: bool) -> Option<SetupErrorView> {
    let filters = cli.filter_view();
    if !root_exists {
        Some(SetupErrorView::MissingRoot { path: cli.path@ })
    } else if !pattern_usable(filters.origin_pattern) {
        Some(SetupErrorView::BadPattern { pattern: filters.origin_pattern->Some_0 })
    } else if !pattern_usable(filters.target_pattern) {
        Some(SetupErrorView::BadPattern { pattern: filters.target_pattern->Some_0 })
    } else if !pattern_usable(command_pattern(cli.command)) {
        Some(SetupErrorView::BadPattern { pattern: command_pattern(cli.command)->Some_0 })
    } else {
        None
    }
}

/// The words in which a missing root is told.
pub open spec fn missing_root_text(path: Seq<char>) -> Seq<char> {
    path + ": No such file or directory"@
}

impl SetupError {
    /// The words in which the error is told.
    pub fn message(&self) -> (text: String)
        ensures
            self@ matches SetupErrorView::MissingRoot { path } ==> text@ == missing_root_text(path),
            self matches SetupError::BadPattern(e) ==> text@ == "invalid pattern `"@ + e.pattern@
                + "`: "@ + e.message@,
    {
        match self {
            SetupError::MissingRoot { path } => {
                let mut text = path.clone();
                text.append(": No such file or directory");
                text
            },
            SetupError::BadPattern(e) => {
                let mut text = "invalid pattern `".to_owned();
                text.append(e.pattern.as_str());
                text.append("`: ");
                text.append(e.message.as_str());
                text
            },
        }
    }
}

/// Sets a run up, before the walk begins: the root must be there, and the
/// patterns must compile.  `root_exists` says whether the path to search
/// exists.  With the run set up, the patterns of its filters are usable.
pub fn begin_run(cli: &SlinkyCli, root_exists: bool) -> (r: Result<Run, SetupError>)
    ensures
        match setup_error(*cli, root_exists) {
            Some(e) => r is Err && r->Err_0@ == e,
            None => r is Ok && r->Ok_0.filters@ == cli.filter_view() && r->Ok_0.filters@.is_usable()
                && r->Ok_0.mode == (RunMode { dry_run: cli.dry_run, verbose: cli.verbose }),
        },
{
    if !root_exists {
        return Err(SetupError::MissingRoot { path: cli.path.clone() });
    }
    let filters = cli.filters();
    match filters.validate() {
        Err(e) => {
            return Err(SetupError::BadPattern(e));
        },
        Ok(_) => {},
    }
    match &cli.command {
        SlinkyCommand::EditTarget { pattern, .. } => match check_pattern(pattern.as_str()) {
            Err(e) => {
                return Err(SetupError::BadPattern(e));
            },
            Ok(_) => {},
        },
        _ => {},
    }
    Ok(Run { filters, mode: cli.run_mode() })
}

/// The entry for the link at `origin_path`, which stands in the directory
/// that holds it.
pub open spec fn found_link(
    origin_path: Seq<char>,
    raw_target: Seq<char>,
    target_exists: bool,
) -> LinkView {
    classified(origin_path, containing_dir_of(origin_path), raw_target, target_exists)
}

/// Classifies the link at `origin_path` in the directory that holds it.
pub fn classify_found(
    origin_path: &str,
    raw_target: &str,
    target_exists: bool,
) -> (entry: LinkEntry)
    ensures
        entry@ == found_link(origin_path@, raw_target@, target_exists),
        entry@.is_classified(),
{
    let dir = containing_dir(origin_path);
    classify(origin_path, dir.as_str(), raw_target, target_exists)
}

/// The link as the walk yields it, or `None` where the filters reject it.
/// Asking for both of an exclusive pair of status predicates yields nothing,
/// whatever the link.
pub fn yield_link(
    filters: &FilterSet,
    entry: LinkEntry,
) -> (r: Result<Option<LinkEntry>, PatternError>)
    ensures
        match filters@.verdict(entry@) {
            Verdict::Admitted => r is Ok && r->Ok_0 is Some && r->Ok_0->Some_0@ == entry@,
            Verdict::Rejected => r is Ok && r->Ok_0 is None,
            Verdict::BadPattern(p) => r is Err && r->Err_0.pattern@ == p,
        },
        (filters@.only_dangling && filters@.only_attached) || (filters@.only_absolute
            && filters@.only_relative) ==> r is Ok && r->Ok_0 is None,
{
    match filters.admits(&entry) {
        Ok(true) => Ok(Some(entry)),
        Ok(false) => Ok(None),
        Err(e) => Err(e),
    }
}

} // verus!
