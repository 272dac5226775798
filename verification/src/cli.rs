//! The options of the two command-line tools, as plain data.
//!
//! Parsing the command line is not done here.  These types hold what was
//! parsed, and say what the options mean to the engine.

use crate::filter::{FilterSet, FilterView};
use crate::path::{current_dir, current_name, option_text};
use vstd::prelude::*;

verus! {

/// What to do to each symbolic link found.
#[derive(Debug)]
pub enum SlinkyCommand {
    /// List links, formatted as `origin -> target`; `status` prefixes each
    /// with whether it is attached or dangling.
    List { status: bool },
    /// Convert absolute links to relative links.  Fails on dangling links.
    ToRelative,
    /// Convert relative links to absolute links.  Fails on dangling links.
    ToAbsolute,
    /// Lexically tidy the stored path.
    Tidy,
    /// Edit the stored text by replacing regex matches; `replace_all`
    /// replaces every match instead of the first.
    EditTarget { pattern: String, replace: String, replace_all: bool },
    /// Convert links to hard links.  Fails on dangling links, on links to
    /// directories and across devices.
    ToHardlink,
    /// Mirror the directory that a link leads to with hard links.  Fails on
    /// dangling links.
    ToHardlinkTree,
    /// Mirror the directory that a link leads to with symbolic links to its
    /// files.  Fails on dangling links.
    ToTree,
    /// Move the target to where the link stands.  Fails on dangling links.
    ReplaceWithTarget,
    /// Delete links.
    Delete,
    /// Run a shell command against each link.
    Exec { cmd_string: String },
}

/// The options of the link-wrangling tool.
#[derive(Debug)]
pub struct SlinkyCli {
    /// The path in which to search for symbolic links.
    pub path: String,
    /// What to do to each link found.
    pub command: SlinkyCommand,
    /// Only act on dangling links.
    pub only_dangling: bool,
    /// Only act on attached (non-dangling) links.
    pub only_attached: bool,
    /// Only act on links that store an absolute path.
    pub only_absolute: bool,
    /// Only act on links that store a relative path.
    pub only_relative: bool,
    /// Only act on links whose own path matches this regex.
    pub filter_origin: Option<String>,
    /// Only act on links whose stored text matches this regex.
    pub filter_target: Option<String>,
    /// Descend at most this many directories.
    pub max_depth: Option<usize>,
    /// Describe any change to be made to the filesystem.
    pub verbose: bool,
    /// Do not modify the filesystem.
    pub dry_run: bool,
}

/// The options of the link-creating tool.
#[derive(Debug)]
pub struct SlinkyLnCli {
    /// The file that the link will point to.
    pub target: Option<String>,
    /// Where to create the link; the current directory where not given.  In
    /// a directory the link gets the name of the target.
    pub origin: Option<String>,
    /// Overwrite what stands at the link's place.
    pub force: bool,
    /// Store the absolute path of the target.
    pub absolute: bool,
    /// Store a relative path to the target.
    pub relative: bool,
    /// Follow the target first where it is a symbolic link itself.
    pub dereference: bool,
    /// Allow the link to dangle.
    pub allow_dangling: bool,
    /// Create a hard link instead of a symbolic one.
    pub hard: bool,
    /// Mirror the target as a tree of directories and links.
    pub tree: bool,
    /// Describe any change to be made to the filesystem.
    pub verbose: bool,
    /// Do not modify the filesystem.
    pub dry_run: bool,
}

/// How an operation is run.
#[derive(Clone, Copy, Debug, PartialEq, Eq, Structural)]
pub struct RunMode {
    /// Report what would be done and do nothing.
    pub dry_run: bool,
    /// Describe what is done to each link.
    pub verbose: bool,
}

/// The name of a command as it is written on the command line.
pub open spec fn command_name(cmd: SlinkyCommand) -> Seq<char> {
    match cmd {
        SlinkyCommand::List { .. } => "list"@,
        SlinkyCommand::ToRelative => "to-relative"@,
        SlinkyCommand::ToAbsolute => "to-absolute"@,
        SlinkyCommand::Tidy => "tidy"@,
        SlinkyCommand::EditTarget { .. } => "edit-target"@,
        SlinkyCommand::ToHardlink => "to-hardlink"@,
        SlinkyCommand::ToHardlinkTree => "to-hardlink-tree"@,
        SlinkyCommand::ToTree => "to-tree"@,
        SlinkyCommand::ReplaceWithTarget => "replace-with-target"@,
        SlinkyCommand::Delete => "delete"@,
        SlinkyCommand::Exec { .. } => "exec"@,
    }
}

impl SlinkyCommand {
    /// The name of the command as it is written on the command line.
    pub fn name(&self) -> (name: &'static str)
        ensures
            name@ == command_name(*self),
    {
        match self {
            SlinkyCommand::List { .. } => "list",
            SlinkyCommand::ToRelative => "to-relative",
            SlinkyCommand::ToAbsolute => "to-absolute",
            SlinkyCommand::Tidy => "tidy",
            SlinkyCommand::EditTarget { .. } => "edit-target",
            SlinkyCommand::ToHardlink => "to-hardlink",
            SlinkyCommand::ToHardlinkTree => "to-hardlink-tree",
            SlinkyCommand::ToTree => "to-tree",
            SlinkyCommand::ReplaceWithTarget => "replace-with-target",
            SlinkyCommand::Delete => "delete",
            SlinkyCommand::Exec { .. } => "exec",
        }
    }

    /// Whether the command changes the filesystem when it is not a dry run.
    pub open spec fn is_mutating(self) -> bool {
        !(self is List) && !(self is Exec)
    }

    /// Whether the command changes the filesystem when it is not a dry run.
    pub fn mutates(&self) -> (b: bool)
        ensures
            b == self.is_mutating(),
    {
        match self {
            SlinkyCommand::List { .. } => false,
            SlinkyCommand::Exec { .. } => false,
            _ => true,
        }
    }
}

impl SlinkyCli {
    /// The options for running `command` on the current directory, with no
    /// filter set.
    pub fn new(command: SlinkyCommand) -> (cli: SlinkyCli)
        ensures
            cli.path@ == current_name(),
            cli.command == command,
            !cli.only_dangling && !cli.only_attached && !cli.only_absolute && !cli.only_relative,
            cli.filter_origin is None && cli.filter_target is None && cli.max_depth is None,
            !cli.verbose && !cli.dry_run,
    {
        SlinkyCli {
            path: current_dir(),
            command,
            only_dangling: false,
            only_attached: false,
            only_absolute: false,
            only_relative: false,
            filter_origin: None,
            filter_target: None,
            max_depth: None,
            verbose: false,
            dry_run: false,
        }
    }

    /// How the options ask the command to be run.
    pub fn run_mode(&self) -> (mode: RunMode)
        ensures
            mode == (RunMode { dry_run: self.dry_run, verbose: self.verbose }),
    {
        RunMode { dry_run: self.dry_run, verbose: self.verbose }
    }

    /// The filters that the options ask for.
    pub open spec fn filter_view(self) -> FilterView {
        FilterView {
            only_dangling: self.only_dangling,
            only_attached: self.only_attached,
            only_absolute: self.only_absolute,
            only_relative: self.only_relative,
            origin_pattern: option_text(self.filter_origin),
            target_pattern: option_text(self.filter_target),
        }
    }

    /// The filters that the options ask for.
    pub fn filters(&self) -> (f: FilterSet)
        ensures
            f@ == self.filter_view(),
    {
        FilterSet {
            only_dangling: self.only_dangling,
            only_attached: self.only_attached,
            only_absolute: self.only_absolute,
            only_relative: self.only_relative,
            origin_pattern: match &self.filter_origin {
                Some(p) => Some(p.clone()),
                None => None,
            },
            target_pattern: match &self.filter_target {
                Some(p) => Some(p.clone()),
                None => None,
            },
        }
    }
}

} // verus!
