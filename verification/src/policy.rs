//! What to do about the errors of a run.
//!
//! A run works through many links, and most of what goes wrong concerns one
//! of them only.  Such an error is told and the run goes on; what cannot be
//! acted on is passed over in silence; only an error in the setup of the run
//! ends it, before the walk begins.

use vstd::prelude::*;

verus! {

/// The kinds of error that a run meets.
#[derive(Clone, Copy, Debug, PartialEq, Eq, Structural)]
pub enum ErrorClass {
    /// The walk could not read an entry: an unreadable directory, a
    /// permission denied on the way.
    Traversal,
    /// A link could not be read once it was found: it vanished, or is no
    /// link any more.
    Classification,
    /// An operation does not apply to a link: the link dangles, the target
    /// is a directory where a file is needed.
    Precondition,
    /// A step of a plan failed.  Steps performed before it stay performed.
    Mutation,
    /// The run cannot begin: the root is missing, a pattern does not
    /// compile.
    Fatal,
}

/// What a run does about an error.
#[derive(Clone, Copy, Debug, PartialEq, Eq, Structural)]
pub enum Reaction {
    /// Pass over the entry without a word and go on.
    Skip,
    /// Tell the error, with the link it concerns, and go on with the next
    /// link.
    Report,
    /// Tell the error and end the run.
    Abort,
}

/// The reaction that an error of the given class calls for.
pub open spec fn reaction_to(class: ErrorClass) -> Reaction {
    match class {
        ErrorClass::Traversal => Reaction::Skip,
        ErrorClass::Classification => Reaction::Report,
        ErrorClass::Precondition => Reaction::Report,
        ErrorClass::Mutation => Reaction::Report,
        ErrorClass::Fatal => Reaction::Abort,
    }
}

/// The reaction that an error of the given class calls for.  Only an error
/// in the setup of a run ends it; an error that concerns one entry never
/// does.
pub fn react(class: ErrorClass) -> (reaction: Reaction)
    ensures
        reaction == reaction_to(class),
        reaction == Reaction::Abort <==> class == ErrorClass::Fatal,
        reaction == Reaction::Skip <==> class == ErrorClass::Traversal,
{
    match class {
        ErrorClass::Traversal => Reaction::Skip,
        ErrorClass::Classification => Reaction::Report,
        ErrorClass::Precondition => Reaction::Report,
        ErrorClass::Mutation => Reaction::Report,
        ErrorClass::Fatal => Reaction::Abort,
    }
}

} // verus!
