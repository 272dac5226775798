//! The predicates that decide which links a walk yields.

use crate::link::{LinkEntry, LinkView};
use crate::path::option_text;
use crate::pattern::{check_pattern, is_match, pattern_compiles, pattern_matches, PatternError};
use vstd::prelude::*;

verus! {

/// A conjunction of predicates over a link entry.  A predicate that is not
/// set admits every entry.
#[derive(Debug)]
pub struct FilterSet {
    /// Admit only links whose target is missing.
    pub only_dangling: bool,
    /// Admit only links whose target exists.
    pub only_attached: bool,
    /// Admit only links that store an absolute path.
    pub only_absolute: bool,
    /// Admit only links that store a relative path.
    pub only_relative: bool,
    /// Admit only links whose own path matches this pattern.
    pub origin_pattern: Option<String>,
    /// Admit only links whose stored text matches this pattern.
    pub target_pattern: Option<String>,
}

/// A filter set as plain values.
pub struct FilterView {
    pub only_dangling: bool,
    pub only_attached: bool,
    pub only_absolute: bool,
    pub only_relative: bool,
    pub origin_pattern: Option<Seq<char>>,
    pub target_pattern: Option<Seq<char>>,
}

impl View for FilterSet {
    type V = FilterView;

    open spec fn view(&self) -> FilterView {
        FilterView {
            only_dangling: self.only_dangling,
            only_attached: self.only_attached,
            only_absolute: self.only_absolute,
            only_relative: self.only_relative,
            origin_pattern: option_text(self.origin_pattern),
            target_pattern: option_text(self.target_pattern),
        }
    }
}

/// What the filters make of one entry.
pub enum Verdict {
    /// Every predicate holds.
    Admitted,
    /// Some predicate fails.
    Rejected,
    /// A pattern had to be consulted and does not compile.
    BadPattern(Seq<char>),
}

/// The pattern, if any, compiles.
pub open spec fn pattern_usable(pattern: Option<Seq<char>>) -> bool {
    match pattern {
        Some(p) => pattern_compiles(p),
        None => true,
    }
}

/// The pattern, if any, matches the text.
pub open spec fn pattern_admits(pattern: Option<Seq<char>>, text: Seq<char>) -> bool {
    match pattern {
        Some(p) => pattern_matches(p, text),
        None => true,
    }
}

/// What one optional pattern makes of a text.
pub open spec fn pattern_verdict(pattern: Option<Seq<char>>, text: Seq<char>) -> Verdict {
    match pattern {
        None => Verdict::Admitted,
        Some(p) => if !pattern_compiles(p) {
            Verdict::BadPattern(p)
        } else if pattern_matches(p, text) {
            Verdict::Admitted
        } else {
            Verdict::Rejected
        },
    }
}

impl FilterView {
    /// Both patterns, where set, compile.
    pub open spec fn is_usable(self) -> bool {
        pattern_usable(self.origin_pattern) && pattern_usable(self.target_pattern)
    }

    /// The status predicates hold of the entry.  The two of a pair exclude
    /// each other: with both set nothing is admitted.
    pub open spec fn status_admits(self, e: LinkView) -> bool {
        &&& self.only_dangling ==> e.is_dangling
        &&& self.only_attached ==> !e.is_dangling
        &&& self.only_absolute ==> e.is_absolute
        &&& self.only_relative ==> !e.is_absolute
    }

    /// Every predicate holds of the entry, where `origin_matches` and
    /// `target_matches` say what the two patterns make of their texts.  The
    /// answer for a pattern that is not set does not count.
    pub open spec fn admits_given(
        self,
        e: LinkView,
        origin_matches: bool,
        target_matches: bool,
    ) -> bool {
        &&& self.status_admits(e)
        &&& self.origin_pattern is Some ==> origin_matches
        &&& self.target_pattern is Some ==> target_matches
    }

    /// Every predicate holds of the entry.
    pub open spec fn admits(self, e: LinkView) -> bool {
        &&& self.status_admits(e)
        &&& pattern_admits(self.origin_pattern, e.origin_path)
        &&& pattern_admits(self.target_pattern, e.raw_target)
    }

    /// The predicate "the filters admit the entry".
    pub open spec fn admitting(self) -> spec_fn(LinkView) -> bool {
        |e: LinkView| self.admits(e)
    }

    /// The verdict on one entry, as it is reached: the status predicates
    /// first, then the pattern on the origin, then the pattern on the stored
    /// text.  A pattern is only looked at where the predicates before it
    /// hold.
    pub open spec fn verdict(self, e: LinkView) -> Verdict {
        if !self.status_admits(e) {
            Verdict::Rejected
        } else {
            match pattern_verdict(self.origin_pattern, e.origin_path) {
                Verdict::Admitted => pattern_verdict(self.target_pattern, e.raw_target),
                other => other,
            }
        }
    }

    /// The entries that the filters admit, in their order; where a pattern
    /// that does not compile has to be consulted, that pattern.
    pub open spec fn selection(self, entries: Seq<LinkView>) -> Result<Seq<LinkView>, Seq<char>>
        decreases entries.len(),
    {
        if entries.len() == 0 {
            Ok(Seq::empty())
        } else {
            match self.selection(entries.drop_last()) {
                Err(p) => Err(p),
                Ok(kept) => match self.verdict(entries.last()) {
                    Verdict::Admitted => Ok(kept.push(entries.last())),
                    Verdict::Rejected => Ok(kept),
                    Verdict::BadPattern(p) => Err(p),
                },
            }
        }
    }
}

/// What an executable answer says of a verdict.
pub open spec fn answers(r: Result<bool, PatternError>, v: Verdict) -> bool {
    match v {
        Verdict::Admitted => r == Ok::<bool, PatternError>(true),
        Verdict::Rejected => r == Ok::<bool, PatternError>(false),
        Verdict::BadPattern(p) => r is Err && r->Err_0.pattern@ == p,
    }
}

fn pattern_answer(pattern: &Option<String>, text: &str) -> (r: Result<bool, PatternError>)
    ensures
        answers(r, pattern_verdict(option_text(*pattern), text@)),
{
    match pattern {
        None => Ok(true),
        Some(p) => is_match(p.as_str(), text),
    }
}

impl FilterSet {
    /// The filter set that admits every link.
    pub fn new() -> (f: FilterSet)
        ensures
            f@ == (FilterView {
                only_dangling: false,
                only_attached: false,
                only_absolute: false,
                only_relative: false,
                origin_pattern: None,
                target_pattern: None,
            }),
    {
        FilterSet {
            only_dangling: false,
            only_attached: false,
            only_absolute: false,
            only_relative: false,
            origin_pattern: None,
            target_pattern: None,
        }
    }

    /// Checks both patterns before a walk begins: the pattern on the origin
    /// first, then the one on the stored text.
    pub fn validate(&self) -> (r: Result<(), PatternError>)
        ensures
            r is Ok == self@.is_usable(),
            r is Err ==> Some(r->Err_0.pattern@) == if !pattern_usable(self@.origin_pattern) {
                self@.origin_pattern
            } else {
                self@.target_pattern
            },
    {
        if let Some(p) = &self.origin_pattern {
            check_pattern(p.as_str())?;
        }
        if let Some(p) = &self.target_pattern {
            check_pattern(p.as_str())?;
        }
        Ok(())
    }

    /// Whether the status predicates hold of the entry.
    pub fn status_admits(&self, entry: &LinkEntry) -> (b: bool)
        ensures
            b == self@.status_admits(entry@),
    {
        if self.only_dangling && !entry.is_dangling {
            false
        } else if self.only_attached && entry.is_dangling {
            false
        } else if self.only_absolute && !entry.is_absolute {
            false
        } else if self.only_relative && entry.is_absolute {
            false
        } else {
            true
        }
    }

    /// Whether the filters admit the entry, given what the two patterns make
    /// of the link's own path and of its stored text.  The answer for a
    /// pattern that is not set does not count.
    pub fn admits_given(
        &self,
        entry: &LinkEntry,
        origin_matches: bool,
        target_matches: bool,
    ) -> (b: bool)
        ensures
            b == self@.admits_given(entry@, origin_matches, target_matches),
    {
        self.status_admits(entry) && (self.origin_pattern.is_none() || origin_matches) && (
        self.target_pattern.is_none() || target_matches)
    }

    /// Whether the filters admit the entry.  The status predicates are looked
    /// at first and the patterns only where those hold.
    pub fn admits(&self, entry: &LinkEntry) -> (r: Result<bool, PatternError>)
        ensures
            answers(r, self@.verdict(entry@)),
            self@.is_usable() ==> r == Ok::<bool, PatternError>(self@.admits(entry@)),
    {
        if !self.status_admits(entry) {
            return Ok(false);
        }
        let origin_matches = pattern_answer(&self.origin_pattern, entry.origin_path.as_str())?;
        if !origin_matches {
            return Ok(false);
        }
        let target_matches = pattern_answer(&self.target_pattern, entry.raw_target.as_str())?;
        Ok(self.admits_given(entry, origin_matches, target_matches))
    }

    /// The entries that the filters admit, in the order in which they came.
    pub fn select(&self, entries: &Vec<LinkEntry>) -> (r: Result<Vec<LinkEntry>, PatternError>)
        ensures
            match self@.selection(entries.deep_view()) {
                Ok(kept) => r is Ok && r->Ok_0.deep_view() == kept,
                Err(p) => r is Err && r->Err_0.pattern@ == p,
            },
            self@.is_usable() ==> r is Ok && r->Ok_0.deep_view() == entries.deep_view().filter(
                self@.admitting(),
            ),
            self@.only_dangling && self@.only_attached ==> r is Ok && r->Ok_0.len() == 0,
            self@.only_absolute && self@.only_relative ==> r is Ok && r->Ok_0.len() == 0,
    {
        proof {
            if self@.is_usable() {
                lemma_selection_is_filter(self@, entries.deep_view());
            }
        }
        let mut kept: Vec<LinkEntry> = Vec::new();
        let mut k: usize = 0;
        proof {
            assert(entries.deep_view().take(0) =~= Seq::<LinkView>::empty());
            assert(kept.deep_view() =~= Seq::<LinkView>::empty());
        }
        while k < entries.len()
            invariant
                k <= entries.len(),
                self@.selection(entries.deep_view().take(k as int)) == Ok::<
                    Seq<LinkView>,
                    Seq<char>,
                >(kept.deep_view()),
                self@.only_dangling && self@.only_attached ==> kept.len() == 0,
                self@.only_absolute && self@.only_relative ==> kept.len() == 0,
            decreases entries.len() - k,
        {
            let ghost seen = entries.deep_view().take(k + 1);
            let ghost before = kept.deep_view();
            proof {
                assert(seen.drop_last() =~= entries.deep_view().take(k as int));
                assert(seen.last() == entries[k as int]@);
            }
            match self.admits(&entries[k]) {
                Ok(true) => {
                    kept.push(entries[k].duplicate());
                    assert(kept.deep_view() =~= before.push(entries[k as int]@));
                },
                Ok(false) => {},
                Err(e) => {
                    proof {
                        lemma_selection_fails_on(self@, entries.deep_view(), k + 1);
                    }
                    return Err(e);
                },
            }
            k = k + 1;
        }
        proof {
            assert(entries.deep_view().take(k as int) =~= entries.deep_view());
        }
        Ok(kept)
    }
}

/// A selection that fails on a leading part of the entries fails in the same
/// way on all of them.
pub proof fn lemma_selection_fails_on(f: FilterView, entries: Seq<LinkView>, n: int)
    requires
        0 <= n <= entries.len(),
        f.selection(entries.take(n)) is Err,
    ensures
        f.selection(entries) == f.selection(entries.take(n)),
    decreases entries.len() - n,
{
    if n == entries.len() {
        assert(entries.take(n) =~= entries);
    } else {
        assert(entries.take(n + 1).drop_last() =~= entries.take(n));
        lemma_selection_fails_on(f, entries, n + 1);
    }
}

/// With usable patterns the order in which the predicates are looked at does
/// not matter: the verdict is the plain conjunction.
pub proof fn lemma_verdict_is_conjunction(f: FilterView, e: LinkView)
    requires
        f.is_usable(),
    ensures
        f.verdict(e) == if f.admits(e) {
            Verdict::Admitted
        } else {
            Verdict::Rejected
        },
{
}

/// With usable patterns the selection is the entries filtered by the
/// conjunction of the predicates.
pub proof fn lemma_selection_is_filter(f: FilterView, entries: Seq<LinkView>)
    requires
        f.is_usable(),
    ensures
        f.selection(entries) == Ok::<Seq<LinkView>, Seq<char>>(entries.filter(f.admitting())),
    decreases entries.len(),
{
    reveal(Seq::filter);
    if entries.len() == 0 {
        assert(entries =~= Seq::<LinkView>::empty());
    } else {
        lemma_selection_is_filter(f, entries.drop_last());
        lemma_verdict_is_conjunction(f, entries.last());
    }
}

/// Asking for both of an exclusive pair of status predicates yields nothing,
/// whatever the entries and whatever the patterns.
pub proof fn lemma_exclusive_filters_select_nothing(f: FilterView, entries: Seq<LinkView>)
    requires
        (f.only_dangling && f.only_attached) || (f.only_absolute && f.only_relative),
    ensures
        f.selection(entries) == Ok::<Seq<LinkView>, Seq<char>>(Seq::empty()),
    decreases entries.len(),
{
    if entries.len() > 0 {
        lemma_exclusive_filters_select_nothing(f, entries.drop_last());
    }
}

} // verus!
