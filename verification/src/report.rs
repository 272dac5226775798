//! What a run tells the user, line by line.
//!
//! A line is a sequence of spans, each a piece of text with a tint.  The
//! engine lays the lines out; whoever prints them turns the tints into
//! colours, or leaves them away.

use crate::link::{LinkEntry, LinkView};
use crate::transform::{
    notice_text, reason_text, FailureReason, Notice, PlanView, ResultView, TransformPlan,
    TransformResult,
};
use vstd::prelude::*;

verus! {

/// How a span is to stand out.
#[derive(Clone, Copy, Debug, PartialEq, Eq, Structural)]
pub enum Tint {
    Plain,
    Bold,
    BoldRed,
    Red,
    Green,
    Blue,
    Cyan,
    Yellow,
    Dimmed,
    BrightWhite,
}

/// Where a line goes.
#[derive(Clone, Copy, Debug, PartialEq, Eq, Structural)]
pub enum Stream {
    /// The standard output: what was asked for.
    Stdout,
    /// The standard error: what went wrong, and what was left alone.
    Stderr,
}

/// A piece of text with a tint.
#[derive(Debug)]
pub struct Span {
    pub tint: Tint,
    pub text: String,
}

/// A span as plain values.
pub struct SpanView {
    pub tint: Tint,
    pub text: Seq<char>,
}

impl View for Span {
    type V = SpanView;

    open spec fn view(&self) -> SpanView {
        SpanView { tint: self.tint, text: self.text@ }
    }
}

impl DeepView for Span {
    type V = SpanView;

    open spec fn deep_view(&self) -> SpanView {
        self@
    }
}

/// One line of output, without the newline that ends it.
#[derive(Debug)]
pub struct Line {
    pub stream: Stream,
    pub spans: Vec<Span>,
}

/// A line as plain values.
pub struct LineView {
    pub stream: Stream,
    pub spans: Seq<SpanView>,
}

impl View for Line {
    type V = LineView;

    open spec fn view(&self) -> LineView {
        LineView { stream: self.stream, spans: self.spans.deep_view() }
    }
}

/// A span.
pub open spec fn span(tint: Tint, text: Seq<char>) -> SpanView {
    SpanView { tint, text }
}

/// The text of the spans, one after another, without their tints.
pub open spec fn plain_text(spans: Seq<SpanView>) -> Seq<char>
    decreases spans.len(),
{
    if spans.len() == 0 {
        Seq::<char>::empty()
    } else {
        plain_text(spans.drop_last()) + spans.last().text
    }
}

/// A prefix, if there is one, followed by a colon.
pub open spec fn prefixed(prefix: Option<SpanView>) -> Seq<SpanView> {
    match prefix {
        Some(p) => seq![p, span(Tint::Plain, ": "@)],
        None => Seq::empty(),
    }
}

/// A link and what it leads to: `link -> target`.
pub open spec fn link_spans(link: Seq<char>, target: Seq<char>) -> Seq<SpanView> {
    seq![span(Tint::Cyan, link), span(Tint::Plain, " -> "@), span(Tint::Yellow, target)]
}

/// The line that shows a link: `prefix: link -> target`.
pub open spec fn link_line(
    prefix: Option<SpanView>,
    link: Seq<char>,
    target: Seq<char>,
) -> LineView {
    LineView { stream: Stream::Stdout, spans: prefixed(prefix) + link_spans(link, target) }
}

/// The line that says what is wrong with a link, or why it was left alone:
/// `cmd: message: link -> target`.
pub open spec fn link_err_line(
    cmd: Option<SpanView>,
    err_msg: Option<SpanView>,
    link: Seq<char>,
    target: Seq<char>,
) -> LineView {
    LineView {
        stream: Stream::Stderr,
        spans: prefixed(cmd) + prefixed(err_msg) + link_spans(link, target),
    }
}

/// The line that says that a dangling link was skipped.
pub open spec fn dangling_link_line(
    cmd: Seq<char>,
    link: Seq<char>,
    target: Seq<char>,
) -> LineView {
    link_err_line(
        Some(span(Tint::Bold, cmd)),
        Some(span(Tint::Red, reason_text(FailureReason::Dangling))),
        link,
        target,
    )
}

/// The line that shows what a link stored and what it stores now:
/// `cmd: link -> (old => new)`.
pub open spec fn transformation_line(
    cmd_name: Seq<char>,
    link: Seq<char>,
    old: Seq<char>,
    new: Seq<char>,
) -> LineView {
    LineView {
        stream: Stream::Stdout,
        spans: seq![
            span(Tint::Bold, cmd_name),
            span(Tint::Plain, ": "@),
            span(Tint::Cyan, link),
            span(Tint::Plain, " -> ("@),
            span(Tint::Dimmed, old),
            span(Tint::Plain, " "@),
            span(Tint::BrightWhite, "=>"@),
            span(Tint::Plain, " "@),
            span(Tint::Yellow, new),
            span(Tint::Plain, ")"@),
        ],
    }
}

/// The line that lists a link, with its status in front where that is
/// asked for: `dangling` in red, `attached` in green.
pub open spec fn listing_line(e: LinkView, status: bool) -> LineView {
    link_line(
        if !status {
            None
        } else if e.is_dangling {
            Some(span(Tint::Red, "dangling"@))
        } else {
            Some(span(Tint::Green, "attached"@))
        },
        e.origin_path,
        e.raw_target,
    )
}

/// The line that shows a shell command run against a link:
/// `cmd: command link target`.
pub open spec fn exec_line(cmd_name: Seq<char>, cmd_string: Seq<char>, e: LinkView) -> LineView {
    LineView {
        stream: Stream::Stdout,
        spans: seq![
            span(Tint::Bold, cmd_name),
            span(Tint::Plain, ": "@),
            span(Tint::Blue, cmd_string),
            span(Tint::Plain, " "@),
            span(Tint::Cyan, e.origin_path),
            span(Tint::Plain, " "@),
            span(Tint::Yellow, e.raw_target),
        ],
    }
}

/// The line that tells of a plan, if the plan has something to tell.
///
/// A failure shows its reason, in red.  A link that a tidying or an edit
/// leaves as it is shows that.  A new text shows the old and the new one; a
/// conversion shows what the link led to; a removal shows the link, with
/// the command in red.
pub open spec fn report_line(
    cmd_name: Seq<char>,
    e: LinkView,
    plan: PlanView,
) -> Option<LineView> {
    let cmd = Some(span(Tint::Bold, cmd_name));
    match plan.notice {
        None => None,
        Some(Notice::Failure) => match plan.result {
            ResultView::Failed(reason) => Some(
                link_err_line(
                    cmd,
                    Some(span(Tint::Red, reason_text(reason))),
                    e.origin_path,
                    e.raw_target,
                ),
            ),
            _ => None,
        },
        Some(Notice::AlreadyTidy) => Some(
            link_err_line(
                cmd,
                Some(span(Tint::Green, notice_text(Notice::AlreadyTidy))),
                e.origin_path,
                e.raw_target,
            ),
        ),
        Some(Notice::IdenticalTarget) => Some(
            link_err_line(
                cmd,
                Some(span(Tint::Red, notice_text(Notice::IdenticalTarget))),
                e.origin_path,
                e.raw_target,
            ),
        ),
        Some(Notice::Transformation) => match plan.result {
            ResultView::Transformed { old, new } => Some(
                transformation_line(cmd_name, e.origin_path, old, new),
            ),
            _ => None,
        },
        Some(Notice::Conversion) => Some(link_line(cmd, e.origin_path, e.resolved_target)),
        Some(Notice::Removal) => Some(
            link_line(Some(span(Tint::BoldRed, cmd_name)), e.origin_path, e.raw_target),
        ),
    }
}

/// The line that tells of an operation that failed: `Error: message`.
pub open spec fn error_line(message: Seq<char>) -> LineView {
    LineView {
        stream: Stream::Stderr,
        spans: seq![
            span(Tint::Red, "Error"@),
            span(Tint::Plain, ": "@),
            span(Tint::Plain, message),
        ],
    }
}

/// What there is to tell of the outcome of an operation: nothing where it
/// went well, the error where it failed.
pub open spec fn outcome_line(outcome: Result<(), Seq<char>>) -> Option<LineView> {
    match outcome {
        Ok(_) => None,
        Err(message) => Some(error_line(message)),
    }
}

/// The view of an optional span.
pub open spec fn option_span(o: Option<Span>) -> Option<SpanView> {
    match o {
        Some(s) => Some(s@),
        None => None,
    }
}

impl Span {
    /// A span of the given text.
    pub fn new(tint: Tint, text: &str) -> (s: Span)
        ensures
            s@ == span(tint, text@),
    {
        Span { tint, text: text.to_owned() }
    }
}

fn push_span(spans: &mut Vec<Span>, tint: Tint, text: &str)
    ensures
        final(spans).deep_view() == old(spans).deep_view().push(span(tint, text@)),
{
    let ghost before = spans.deep_view();
    spans.push(Span::new(tint, text));
    assert(spans.deep_view() =~= before.push(span(tint, text@)));
}

fn push_prefix(spans: &mut Vec<Span>, prefix: Option<Span>)
    ensures
        final(spans).deep_view() == old(spans).deep_view() + prefixed(option_span(prefix)),
{
    let ghost before = spans.deep_view();
    match prefix {
        Some(p) => {
            spans.push(p);
            assert(spans.deep_view() =~= before.push(p@));
            push_span(spans, Tint::Plain, ": ");
            assert(spans.deep_view() =~= before + prefixed(option_span(prefix)));
        },
        None => {
            assert(spans.deep_view() =~= before + prefixed(option_span(prefix)));
        },
    }
}

fn push_link(spans: &mut Vec<Span>, link: &str, target: &str)
    ensures
        final(spans).deep_view() == old(spans).deep_view() + link_spans(link@, target@),
{
    let ghost before = spans.deep_view();
    push_span(spans, Tint::Cyan, link);
    push_span(spans, Tint::Plain, " -> ");
    push_span(spans, Tint::Yellow, target);
    assert(spans.deep_view() =~= before + link_spans(link@, target@));
}

/// The line that shows a link: `prefix: link -> target`.
pub fn log_link(prefix: Option<Span>, link: &str, target: &str) -> (line: Line)
    ensures
        line@ == link_line(option_span(prefix), link@, target@),
{
    let mut spans: Vec<Span> = Vec::new();
    assert(spans.deep_view() =~= Seq::<SpanView>::empty());
    push_prefix(&mut spans, prefix);
    push_link(&mut spans, link, target);
    assert(spans.deep_view() =~= prefixed(option_span(prefix)) + link_spans(link@, target@));
    Line { stream: Stream::Stdout, spans }
}

/// The line that says what is wrong with a link, or why it was left alone:
/// `cmd: message: link -> target`.
pub fn log_link_err(
    cmd: Option<Span>,
    err_msg: Option<Span>,
    link: &str,
    target: &str,
) -> (line: Line)
    ensures
        line@ == link_err_line(option_span(cmd), option_span(err_msg), link@, target@),
{
    let mut spans: Vec<Span> = Vec::new();
    assert(spans.deep_view() =~= Seq::<SpanView>::empty());
    push_prefix(&mut spans, cmd);
    push_prefix(&mut spans, err_msg);
    push_link(&mut spans, link, target);
    assert(spans.deep_view() =~= prefixed(option_span(cmd)) + prefixed(option_span(err_msg))
        + link_spans(link@, target@));
    Line { stream: Stream::Stderr, spans }
}

/// The line that says that a dangling link was skipped.
pub fn log_dangling_link(cmd: &str, link: &str, target: &str) -> (line: Line)
    ensures
        line@ == dangling_link_line(cmd@, link@, target@),
{
    log_link_err(
        Some(Span::new(Tint::Bold, cmd)),
        Some(Span::new(Tint::Red, FailureReason::Dangling.message())),
        link,
        target,
    )
}

/// The line that shows what a link stored and what it stores now:
/// `cmd: link -> (old => new)`.
pub fn log_transformation(cmd_name: &str, link: &str, old: &str, new: &str) -> (line: Line)
    ensures
        line@ == transformation_line(cmd_name@, link@, old@, new@),
{
    let mut spans: Vec<Span> = Vec::new();
    assert(spans.deep_view() =~= Seq::<SpanView>::empty());
    push_span(&mut spans, Tint::Bold, cmd_name);
    push_span(&mut spans, Tint::Plain, ": ");
    push_span(&mut spans, Tint::Cyan, link);
    push_span(&mut spans, Tint::Plain, " -> (");
    push_span(&mut spans, Tint::Dimmed, old);
    push_span(&mut spans, Tint::Plain, " ");
    push_span(&mut spans, Tint::BrightWhite, "=>");
    push_span(&mut spans, Tint::Plain, " ");
    push_span(&mut spans, Tint::Yellow, new);
    push_span(&mut spans, Tint::Plain, ")");
    assert(spans.deep_view() =~= transformation_line(cmd_name@, link@, old@, new@).spans);
    Line { stream: Stream::Stdout, spans }
}

/// The line that lists a link, with its status in front where that is
/// asked for.
pub fn log_listing(entry: &LinkEntry, status: bool) -> (line: Line)
    ensures
        line@ == listing_line(entry@, status),
{
    let prefix = if !status {
        None
    } else if entry.is_dangling {
        Some(Span::new(Tint::Red, "dangling"))
    } else {
        Some(Span::new(Tint::Green, "attached"))
    };
    log_link(prefix, entry.origin_path.as_str(), entry.raw_target.as_str())
}

/// The line that shows a shell command run against a link.
pub fn log_exec(cmd_name: &str, cmd_string: &str, entry: &LinkEntry) -> (line: Line)
    ensures
        line@ == exec_line(cmd_name@, cmd_string@, entry@),
{
    let mut spans: Vec<Span> = Vec::new();
    assert(spans.deep_view() =~= Seq::<SpanView>::empty());
    push_span(&mut spans, Tint::Bold, cmd_name);
    push_span(&mut spans, Tint::Plain, ": ");
    push_span(&mut spans, Tint::Blue, cmd_string);
    push_span(&mut spans, Tint::Plain, " ");
    push_span(&mut spans, Tint::Cyan, entry.origin_path.as_str());
    push_span(&mut spans, Tint::Plain, " ");
    push_span(&mut spans, Tint::Yellow, entry.raw_target.as_str());
    assert(spans.deep_view() =~= exec_line(cmd_name@, cmd_string@, entry@).spans);
    Line { stream: Stream::Stdout, spans }
}

/// What an optional line holds.
pub open spec fn option_line(o: Option<Line>) -> Option<LineView> {
    match o {
        Some(l) => Some(l@),
        None => None,
    }
}

/// The line that tells of a plan, if the plan has something to tell.
pub fn report(cmd_name: &str, entry: &LinkEntry, plan: &TransformPlan) -> (line: Option<Line>)
    ensures
        option_line(line) == report_line(cmd_name@, entry@, plan@),
{
    let link = entry.origin_path.as_str();
    let target = entry.raw_target.as_str();
    match plan.notice {
        None => None,
        Some(Notice::Failure) => match &plan.result {
            TransformResult::Failed(reason) => Some(
                log_link_err(
                    Some(Span::new(Tint::Bold, cmd_name)),
                    Some(Span::new(Tint::Red, reason.message())),
                    link,
                    target,
                ),
            ),
            _ => None,
        },
        Some(Notice::AlreadyTidy) => Some(
            log_link_err(
                Some(Span::new(Tint::Bold, cmd_name)),
                Some(Span::new(Tint::Green, Notice::AlreadyTidy.message())),
                link,
                target,
            ),
        ),
        Some(Notice::IdenticalTarget) => Some(
            log_link_err(
                Some(Span::new(Tint::Bold, cmd_name)),
                Some(Span::new(Tint::Red, Notice::IdenticalTarget.message())),
                link,
                target,
            ),
        ),
        Some(Notice::Transformation) => match &plan.result {
            TransformResult::Transformed { old, new } => Some(
                log_transformation(cmd_name, link, old.as_str(), new.as_str()),
            ),
            _ => None,
        },
        Some(Notice::Conversion) => Some(
            log_link(
                Some(Span::new(Tint::Bold, cmd_name)),
                link,
                entry.resolved_target.as_str(),
            ),
        ),
        Some(Notice::Removal) => Some(
            log_link(Some(Span::new(Tint::BoldRed, cmd_name)), link, target),
        ),
    }
}

/// What the outcome of an operation holds: the message of its error, if it
/// failed.
pub open spec fn outcome_text(outcome: Result<(), String>) -> Result<(), Seq<char>> {
    match outcome {
        Ok(_) => Ok(()),
        Err(message) => Err(message@),
    }
}

/// Deals with the outcome of an operation on one link: a failure is told,
/// and that is all there is to it: the run goes on.
pub fn handle_operation(outcome: Result<(), String>) -> (line: Option<Line>)
    ensures
        option_line(line) == outcome_line(outcome_text(outcome)),
{
    match outcome {
        Ok(_) => None,
        Err(message) => {
            let mut spans: Vec<Span> = Vec::new();
            assert(spans.deep_view() =~= Seq::<SpanView>::empty());
            push_span(&mut spans, Tint::Red, "Error");
            push_span(&mut spans, Tint::Plain, ": ");
            push_span(&mut spans, Tint::Plain, message.as_str());
            assert(spans.deep_view() =~= error_line(message@).spans);
            Some(Line { stream: Stream::Stderr, spans })
        },
    }
}

/// The text of a line without its tints.
pub fn line_text(line: &Line) -> (text: String)
    ensures
        text@ == plain_text(line@.spans),
{
    let mut text = String::new();
    let mut k: usize = 0;
    assert(line.spans.deep_view().take(0) =~= Seq::<SpanView>::empty());
    while k < line.spans.len()
        invariant
            k <= line.spans.len(),
            text@ == plain_text(line.spans.deep_view().take(k as int)),
        decreases line.spans.len() - k,
    {
        proof {
            let now = line.spans.deep_view().take(k + 1);
            assert(now.drop_last() =~= line.spans.deep_view().take(k as int));
            assert(now.last() == line.spans[k as int]@);
        }
        text.append(line.spans[k].text.as_str());
        k = k + 1;
    }
    assert(line.spans.deep_view().take(k as int) =~= line.spans.deep_view());
    text
}

/// Without its tints, the line that shows a link reads `link -> target`,
/// with the prefix and a colon in front where there is a prefix.
pub proof fn lemma_link_line_reads(prefix: Option<SpanView>, link: Seq<char>, target: Seq<char>)
    ensures
        plain_text(link_line(prefix, link, target).spans) == match prefix {
            Some(p) => p.text + ": "@ + link + " -> "@ + target,
            None => link + " -> "@ + target,
        },
{
    let spans = link_line(prefix, link, target).spans;
    reveal_with_fuel(plain_text, 6);
    match prefix {
        Some(p) => {
            assert(spans =~= seq![
                p,
                span(Tint::Plain, ": "@),
                span(Tint::Cyan, link),
                span(Tint::Plain, " -> "@),
                span(Tint::Yellow, target),
            ]);
            assert(spans.drop_last() =~= seq![
                p,
                span(Tint::Plain, ": "@),
                span(Tint::Cyan, link),
                span(Tint::Plain, " -> "@),
            ]);
            assert(spans.drop_last().drop_last() =~= seq![
                p,
                span(Tint::Plain, ": "@),
                span(Tint::Cyan, link),
            ]);
            assert(spans.drop_last().drop_last().drop_last() =~= seq![p, span(Tint::Plain, ": "@)]);
            assert(spans.drop_last().drop_last().drop_last().drop_last() =~= seq![p]);
            assert(seq![p].drop_last() =~= Seq::<SpanView>::empty());
            assert(plain_text(spans) =~= p.text + ": "@ + link + " -> "@ + target);
        },
        None => {
            assert(spans =~= link_spans(link, target));
            assert(spans.drop_last() =~= seq![span(Tint::Cyan, link), span(Tint::Plain, " -> "@)]);
            assert(spans.drop_last().drop_last() =~= seq![span(Tint::Cyan, link)]);
            assert(seq![span(Tint::Cyan, link)].drop_last() =~= Seq::<SpanView>::empty());
            assert(plain_text(spans) =~= link + " -> "@ + target);
        },
    }
}

} // verus!
