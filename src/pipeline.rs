//! The decisions of the harvesting pipeline: reading the path evaluator's output,
//! judging the external tools' exit statuses, forming groups of paths, and
//! bounding the number of outstanding metadata queries.
use vstd::prelude::*;

use crate::extract::{batch_of_json, batch_view, parse_derivations, DerivationView, ExtractError};
use crate::harvest::DerivationHashes;
use crate::json::{json_entries_of, json_member_of, member_scalar, scalar_of, JsonScalar, Scalar};

verus! {

/// The external tools that the harvest runs.
#[derive(Clone, Copy, Debug, PartialEq, Eq, Structural)]
pub enum Tool {
    PathEvaluator,
    MetadataQuery,
}

/// How an external process ended.
#[derive(Clone, Copy, Debug, PartialEq, Eq, Structural)]
pub enum ExitState {
    /// It exited with this code.
    Code(i32),
    /// It was killed by this signal.
    Signal(i32),
    /// Neither a code nor a signal is known.
    Unknown,
}

/// An error that ends the harvest.
#[derive(Clone, Copy, Debug, PartialEq, Eq, Structural)]
pub enum FatalError {
    /// A tool exited with a non-zero code.
    Exited { tool: Tool, code: i32 },
    /// A tool was killed by a signal.
    Killed { tool: Tool, signal: i32 },
    /// A tool ended without success, with neither code nor signal known.
    Failed { tool: Tool },
    /// A line of the path evaluator matched neither of its two shapes.
    Protocol,
    /// The metadata query's output could not be read.
    Metadata(ExtractError),
}

/// The verdict on a tool's exit.
pub open spec fn status_result(tool: Tool, status: ExitState) -> Result<(), FatalError> {
    match status {
        ExitState::Code(0) => Ok(()),
        ExitState::Code(code) => Err(FatalError::Exited { tool, code }),
        ExitState::Signal(signal) => Err(FatalError::Killed { tool, signal }),
        ExitState::Unknown => Err(FatalError::Failed { tool }),
    }
}

/// Succeeds exactly when the tool exited with code zero.
pub fn check_status(tool: Tool, status: ExitState) -> (r: Result<(), FatalError>)
    ensures
        r == status_result(tool, status),
        r is Ok <==> status == ExitState::Code(0),
{
    match status {
        ExitState::Code(code) => {
            if code == 0 {
                Ok(())
            } else {
                Err(FatalError::Exited { tool, code })
            }
        },
        ExitState::Signal(signal) => Err(FatalError::Killed { tool, signal }),
        ExitState::Unknown => Err(FatalError::Failed { tool }),
    }
}

/// Reads the outcome of one metadata query: how the tool exited and what it
/// printed. A failed exit is fatal whatever was printed.
pub fn hashes_from_query_output(status: ExitState, stdout: &str) -> (r: Result<
    Vec<(String, DerivationHashes)>,
    FatalError,
>)
    ensures
        match status_result(Tool::MetadataQuery, status) {
            Err(e) => r == Err::<Vec<(String, DerivationHashes)>, FatalError>(e),
            Ok(_) => match json_entries_of(stdout@) {
                None => r == Err::<Vec<(String, DerivationHashes)>, FatalError>(
                    FatalError::Metadata(ExtractError::NotAnObject),
                ),
                Some(es) => match r {
                    Ok(b) => batch_of_json(es) == Ok::<_, ExtractError>(batch_view(b@)),
                    Err(FatalError::Metadata(x)) => batch_of_json(es) == Err::<
                        Seq<(Seq<char>, DerivationView)>,
                        ExtractError,
                    >(x),
                    Err(_) => false,
                },
            },
        },
{
    if let Err(e) = check_status(Tool::MetadataQuery, status) {
        return Err(e);
    }
    match parse_derivations(stdout) {
        Ok(b) => Ok(b),
        Err(x) => Err(FatalError::Metadata(x)),
    }
}

/// What one line of the path evaluator's output yields.
pub enum LineOutcome {
    /// A derivation path.
    Path(String),
    /// One derivation failed to evaluate; the line yields nothing.
    Skip,
    /// The line matches neither shape.
    Invalid,
}

/// `r` is the outcome of a line whose `drvPath` member holds `drv_path` and which
/// has an `error` member exactly when `has_error`: a string `drvPath` is a path;
/// otherwise a line with an `error` member is skipped, whatever else it holds,
/// and any other line matches neither shape.
pub open spec fn line_outcome_is(drv_path: Scalar, has_error: bool, r: LineOutcome) -> bool {
    match drv_path {
        Scalar::Str(p) => r matches LineOutcome::Path(q) && q@ == p,
        _ => if has_error {
            r is Skip
        } else {
            r is Invalid
        },
    }
}

/// The outcome of a line from what its `drvPath` member holds and whether it has
/// an `error` member.
pub fn line_outcome(drv_path: JsonScalar, has_error: bool) -> (r: LineOutcome)
    ensures
        line_outcome_is(drv_path@, has_error, r),
{
    match drv_path {
        JsonScalar::Str(p) => LineOutcome::Path(p),
        _ => if has_error {
            LineOutcome::Skip
        } else {
            LineOutcome::Invalid
        },
    }
}

/// Reads one line of the path evaluator's output, a JSON object that bears either
/// a `drvPath` string or an `error`.
pub fn classify_line(line: &str) -> (r: LineOutcome)
    ensures
        line_outcome_is(
            scalar_of(json_member_of(line@, "drvPath"@)),
            json_member_of(line@, "error"@) is Some,
            r,
        ),
{
    let drv_path = member_scalar(line, "drvPath");
    let has_error = match member_scalar(line, "error") {
        JsonScalar::Missing => false,
        _ => true,
    };
    line_outcome(drv_path, has_error)
}

/// What the path source observed: the evaluator had exited, with this status,
/// before a further line was read; or a further line.
pub enum SourceEvent {
    Exited(ExitState),
    Line(String),
}

/// What the path source does with an observation.
pub enum SourceStep {
    /// Produce this path and go on.
    Yield(String),
    /// Produce nothing and go on.
    Skip,
    /// The sequence ends normally.
    End,
    /// The sequence ends with this error.
    Fail(FatalError),
}

/// One step of the path source.
pub fn path_source_step(event: SourceEvent) -> (r: SourceStep)
    ensures
        match event {
            SourceEvent::Exited(status) => match status_result(Tool::PathEvaluator, status) {
                Ok(_) => r is End,
                Err(e) => r == SourceStep::Fail(e),
            },
            SourceEvent::Line(line) => match scalar_of(json_member_of(line@, "drvPath"@)) {
                Scalar::Str(p) => r matches SourceStep::Yield(q) && q@ == p,
                _ => if json_member_of(line@, "error"@) is Some {
                    r is Skip
                } else {
                    r == SourceStep::Fail(FatalError::Protocol)
                },
            },
        },
{
    match event {
        SourceEvent::Exited(status) => match check_status(Tool::PathEvaluator, status) {
            Ok(_) => SourceStep::End,
            Err(e) => SourceStep::Fail(e),
        },
        SourceEvent::Line(line) => match classify_line(line.as_str()) {
            LineOutcome::Path(p) => SourceStep::Yield(p),
            LineOutcome::Skip => SourceStep::Skip,
            LineOutcome::Invalid => SourceStep::Fail(FatalError::Protocol),
        },
    }
}

/// What the path source handed the dispatcher.
pub enum SourceItem {
    Path(String),
    End,
    Failed(FatalError),
}

/// What the dispatcher asks for next.
pub enum Dispatch {
    /// Pull another path.
    Wait,
    /// Run one metadata query on this group, once a permit is held.
    Launch(Vec<String>),
    /// Dispatch is over.
    Done,
    /// Dispatch stops with this error.
    Abort(FatalError),
}

/// The mathematical form of a [`Dispatch`].
pub enum DispatchView {
    Wait,
    Launch(Seq<String>),
    Done,
    Abort(FatalError),
}

impl View for Dispatch {
    type V = DispatchView;

    open spec fn view(&self) -> DispatchView {
        match self {
            Dispatch::Wait => DispatchView::Wait,
            Dispatch::Launch(g) => DispatchView::Launch(g@),
            Dispatch::Done => DispatchView::Done,
            Dispatch::Abort(e) => DispatchView::Abort(*e),
        }
    }
}

/// One step of dispatch with groups of `g` paths: from the pending paths and
/// whether dispatch has halted, and an item of the path source, to the new
/// pending paths, whether it has halted, and the request.
pub open spec fn dispatch_next(pending: Seq<String>, halted: bool, g: nat, item: SourceItem) -> (
    Seq<String>,
    bool,
    DispatchView,
) {
    if halted {
        (pending, true, DispatchView::Done)
    } else {
        match item {
            SourceItem::Path(p) => if pending.len() + 1 == g {
                (Seq::empty(), false, DispatchView::Launch(pending.push(p)))
            } else {
                (pending.push(p), false, DispatchView::Wait)
            },
            SourceItem::End => if pending.len() == 0 {
                (pending, true, DispatchView::Done)
            } else {
                (Seq::empty(), true, DispatchView::Launch(pending))
            },
            SourceItem::Failed(e) => (Seq::empty(), true, DispatchView::Abort(e)),
        }
    }
}

/// The requests made for a sequence of items, from the given state.
pub open spec fn dispatch_run(pending: Seq<String>, halted: bool, g: nat, items: Seq<SourceItem>) -> Seq<
    DispatchView,
>
    decreases items.len(),
{
    if items.len() == 0 {
        Seq::empty()
    } else {
        let (p, h, a) = dispatch_next(pending, halted, g, items[0]);
        seq![a] + dispatch_run(p, h, g, items.drop_first())
    }
}

/// Forms groups of paths from the path source, in order.
pub struct Dispatcher {
    /// The number of paths in a full group.
    pub group_size: usize,
    /// The paths of the group being formed.
    pub pending: Vec<String>,
    /// Whether the path source has ended or failed.
    pub halted: bool,
}

impl Dispatcher {
    pub open spec fn wf(&self) -> bool {
        &&& self.group_size > 0
        &&& self.pending.len() < self.group_size
    }

    /// A dispatcher for groups of `group_size` paths.
    pub fn new(group_size: usize) -> (r: Self)
        requires
            group_size > 0,
        ensures
            r.wf(),
            r.group_size == group_size,
            r.pending@.len() == 0,
            !r.halted,
    {
        Dispatcher { group_size, pending: Vec::new(), halted: false }
    }

    /// Takes one item of the path source. A group is launched when it is full, or
    /// when the source ends with a partial, non-empty group; an empty group at the
    /// end launches nothing. A failure of the source stops dispatch.
    pub fn on_item(&mut self, item: SourceItem) -> (r: Dispatch)
        requires
            old(self).wf(),
        ensures
            final(self).wf(),
            final(self).group_size == old(self).group_size,
            (final(self).pending@, final(self).halted, r@) == dispatch_next(
                old(self).pending@,
                old(self).halted,
                old(self).group_size as nat,
                item,
            ),
    {
        if self.halted {
            return Dispatch::Done;
        }
        match item {
            SourceItem::Path(p) => {
                self.pending.push(p);
                if self.pending.len() == self.group_size {
                    let mut group: Vec<String> = Vec::new();
                    std::mem::swap(&mut group, &mut self.pending);
                    Dispatch::Launch(group)
                } else {
                    Dispatch::Wait
                }
            },
            SourceItem::End => {
                self.halted = true;
                if self.pending.len() == 0 {
                    Dispatch::Done
                } else {
                    let mut group: Vec<String> = Vec::new();
                    std::mem::swap(&mut group, &mut self.pending);
                    Dispatch::Launch(group)
                }
            },
            SourceItem::Failed(e) => {
                self.halted = true;
                self.pending = Vec::new();
                Dispatch::Abort(e)
            },
        }
    }
}

/// A non-zero exit of the path evaluator ends the path sequence with a fatal
/// error; whatever paths came before it, dispatch then aborts with that error,
/// drops the partial group, and launches no further group, whatever it is
/// handed next.
pub proof fn lemma_evaluator_failure_halts_dispatch(
    pending: Seq<String>,
    g: nat,
    status: ExitState,
    later: Seq<SourceItem>,
)
    requires
        status != ExitState::Code(0),
    ensures
        status_result(Tool::PathEvaluator, status) is Err,
        dispatch_next(
            pending,
            false,
            g,
            SourceItem::Failed(status_result(Tool::PathEvaluator, status)->Err_0),
        ) == (Seq::<String>::empty(), true, DispatchView::Abort(
            status_result(Tool::PathEvaluator, status)->Err_0,
        )),
        forall|i: int|
            0 <= i < later.len() ==> #[trigger] dispatch_run(Seq::empty(), true, g, later)[i]
                == DispatchView::Done,
{
    lemma_halted_run_done(Seq::empty(), g, later);
}

proof fn lemma_halted_run_done(pending: Seq<String>, g: nat, items: Seq<SourceItem>)
    ensures
        dispatch_run(pending, true, g, items).len() == items.len(),
        forall|i: int|
            0 <= i < items.len() ==> #[trigger] dispatch_run(pending, true, g, items)[i]
                == DispatchView::Done,
    decreases items.len(),
{
    if items.len() > 0 {
        lemma_halted_run_done(pending, g, items.drop_first());
        let r = dispatch_run(pending, true, g, items);
        let rest = dispatch_run(pending, true, g, items.drop_first());
        assert(r == seq![DispatchView::Done] + rest);
        assert forall|i: int| 0 <= i < items.len() implies #[trigger] r[i] == DispatchView::Done by {
            if i > 0 {
                assert(r[i] == rest[i - 1]);
            }
        }
    }
}

/// The ledger of concurrency permits: no more than `capacity` metadata queries
/// are ever outstanding.
pub struct PermitPool {
    pub capacity: usize,
    pub outstanding: usize,
}

impl PermitPool {
    pub open spec fn wf(&self) -> bool {
        &&& self.capacity > 0
        &&& self.outstanding <= self.capacity
    }

    /// A pool of `capacity` permits, none held.
    pub fn new(capacity: usize) -> (r: Self)
        requires
            capacity > 0,
        ensures
            r.wf(),
            r.capacity == capacity,
            r.outstanding == 0,
    {
        PermitPool { capacity, outstanding: 0 }
    }

    /// Takes a permit if one is free.
    pub fn try_acquire(&mut self) -> (r: bool)
        requires
            old(self).wf(),
        ensures
            final(self).wf(),
            final(self).capacity == old(self).capacity,
            r == (old(self).outstanding < old(self).capacity),
            final(self).outstanding == old(self).outstanding + if r {
                1int
            } else {
                0int
            },
    {
        if self.outstanding < self.capacity {
            self.outstanding = self.outstanding + 1;
            true
        } else {
            false
        }
    }

    /// Gives back a permit held by a query that has ended.
    pub fn release(&mut self)
        requires
            old(self).wf(),
            old(self).outstanding > 0,
        ensures
            final(self).wf(),
            final(self).capacity == old(self).capacity,
            final(self).outstanding == old(self).outstanding - 1,
    {
        self.outstanding = self.outstanding - 1;
    }
}

} // verus!
