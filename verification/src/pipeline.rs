//! The passes in their order, and the driver that takes in what each pass
//! found. The first error ends the run: no later pass is asked for, and none
//! can add to the table any more.

use crate::buffer::{extended_by_message, rendered_entries, reversed};
use crate::errors::{ErrorKind, LeoError, LeoOrString, LeoWarning};
use crate::handler::{warning_lines, Handler};
use crate::symbol_table::{
    extends, extends_is_reflexive, extends_is_transitive, ScopeView, SymbolError, SymbolTable,
};
use crate::updates::{a_change_only_adds, apply_update, TableUpdate, TableUpdateView};
use vstd::prelude::*;
use vstd::string::*;

verus! {

/// The passes.
#[derive(Clone, Copy, Debug, PartialEq, Eq, Structural)]
pub enum Pass {
    /// Collects what the program declares.
    Declarations,
    /// Binds every use of a name to a declaration.
    Binding,
    /// Resolves the types. It relies on every name being bound.
    Types,
}

/// The order in which the passes run.
pub open spec fn pass_order() -> Seq<Pass> {
    seq![Pass::Declarations, Pass::Binding, Pass::Types]
}

/// The pass that runs at place `at` of the order, if there is one.
pub fn pass_at(at: usize) -> (pass: Option<Pass>)
    ensures
        pass is Some <==> at < pass_order().len(),
        pass is Some ==> pass->Some_0 == pass_order()[at as int],
{
    if at == 0 {
        Some(Pass::Declarations)
    } else if at == 1 {
        Some(Pass::Binding)
    } else if at == 2 {
        Some(Pass::Types)
    } else {
        None
    }
}

/// What one pass found: its warnings, the changes it asks of the table, and
/// the error on which it gave up, if it did.
#[derive(Clone, Debug, PartialEq, Eq)]
pub struct PassReport {
    pub warnings: Vec<LeoWarning>,
    pub updates: Vec<TableUpdate>,
    pub error: Option<LeoError>,
}

/// The changes of a list, as contracts see them.
pub open spec fn update_views(updates: Seq<TableUpdate>) -> Seq<TableUpdateView> {
    Seq::new(updates.len(), |i: int| updates[i]@)
}

/// What became of a list of changes: the table after those that were made,
/// and the first one that was refused, with the reason, if any was.
pub struct Applied {
    pub table: Seq<ScopeView>,
    pub refused: Option<(int, SymbolError)>,
}

/// The first `n` changes of `updates`, made on `table` one after the other
/// up to the first that is refused. Nothing behind that one is made.
pub open spec fn apply_updates(table: Seq<ScopeView>, updates: Seq<TableUpdateView>, n: int) -> Applied
    decreases n,
{
    if n <= 0 {
        Applied { table, refused: None }
    } else {
        let before = apply_updates(table, updates, n - 1);
        if before.refused is Some {
            before
        } else {
            match apply_update(before.table, updates[n - 1]) {
                Ok(after) => Applied { table: after, refused: None },
                Err(reason) => Applied { table: before.table, refused: Some((n - 1, reason)) },
            }
        }
    }
}

/// What the report of a refused change says: that the table has no such
/// scope, or the name and what is wrong with it.
pub open spec fn refusal_message(update: TableUpdateView, reason: SymbolError) -> Seq<char> {
    match reason {
        SymbolError::UnknownScope => "the table has no such scope"@,
        SymbolError::Duplicate => update.name() + " is already declared in this scope"@,
        SymbolError::Unknown => update.name() + " is not declared"@,
        SymbolError::Mismatch => update.name() + " already has another type"@,
    }
}

/// The class of error that a refused change is reported as. A scope that the
/// table does not have is no fault of the program: it is reported as a plain
/// message, without a class.
pub open spec fn refusal_kind(reason: SymbolError) -> Option<ErrorKind> {
    match reason {
        SymbolError::UnknownScope => None,
        SymbolError::Duplicate => Some(ErrorKind::DuplicateDeclaration),
        SymbolError::Unknown => Some(ErrorKind::UnknownIdentifier),
        SymbolError::Mismatch => Some(ErrorKind::TypeMismatch),
    }
}

/// Whether `entry` is the report of the change `update`, refused for `reason`.
pub open spec fn is_refusal(entry: LeoOrString, update: TableUpdateView, reason: SymbolError) -> bool {
    match entry {
        LeoOrString::Leo(err) => refusal_kind(reason) == Some(err.kind) && err.message@
            == refusal_message(update, reason) && err.spans@.len() == 0,
        LeoOrString::String(message) => refusal_kind(reason) is None && message@
            == refusal_message(update, reason),
    }
}

/// The report of the change `update`, refused for `reason`.
pub fn refusal(update: &TableUpdate, reason: SymbolError) -> (entry: LeoOrString)
    ensures
        is_refusal(entry, update@, reason),
{
    let mut message = match update {
        TableUpdate::OpenScope { .. } => String::new(),
        TableUpdate::Declare { name, .. } => name.clone(),
        TableUpdate::Refine { name, .. } => name.clone(),
    };
    assert(message@ =~= update@.name());
    match reason {
        SymbolError::UnknownScope => LeoOrString::String(
            String::from_str("the table has no such scope"),
        ),
        SymbolError::Duplicate => {
            message.append(" is already declared in this scope");
            LeoOrString::Leo(LeoError::new(ErrorKind::DuplicateDeclaration, message, Vec::new()))
        },
        SymbolError::Unknown => {
            message.append(" is not declared");
            LeoOrString::Leo(LeoError::new(ErrorKind::UnknownIdentifier, message, Vec::new()))
        },
        SymbolError::Mismatch => {
            message.append(" already has another type");
            LeoOrString::Leo(LeoError::new(ErrorKind::TypeMismatch, message, Vec::new()))
        },
    }
}

/// Makes the changes of `updates` on `table`, one after the other, up to the
/// first that the table refuses; says which one that was, and why.
pub fn apply_all(table: &mut SymbolTable, updates: &Vec<TableUpdate>) -> (refused: Option<
    (usize, SymbolError),
>)
    requires
        old(table).wf(),
    ensures
        final(table).wf(),
        extends(old(table)@, final(table)@),
        final(table)@ == apply_updates(
            old(table)@,
            update_views(updates@),
            updates@.len() as int,
        ).table,
        match refused {
            Some((at, reason)) => at < updates@.len() && apply_updates(
                old(table)@,
                update_views(updates@),
                updates@.len() as int,
            ).refused == Some((at as int, reason)),
            None => apply_updates(
                old(table)@,
                update_views(updates@),
                updates@.len() as int,
            ).refused is None,
        },
{
    let ghost views = update_views(updates@);
    let mut i: usize = 0;
    proof {
        extends_is_reflexive(table@);
    }
    while i < updates.len()
        invariant
            i <= updates.len(),
            views == update_views(updates@),
            table.wf(),
            extends(old(table)@, table@),
            apply_updates(old(table)@, views, i as int) == (Applied {
                table: table@,
                refused: None,
            }),
        decreases updates.len() - i,
    {
        let ghost before = table@;
        match table.apply(&updates[i]) {
            Ok(_) => {
                proof {
                    extends_is_transitive(old(table)@, before, table@);
                }
            },
            Err(reason) => {
                proof {
                    applying_stops_at_refusal(
                        old(table)@,
                        views,
                        i as int + 1,
                        updates@.len() as int,
                    );
                }
                return Some((i, reason));
            },
        }
        i = i + 1;
    }
    None
}

/// Once a change among the first `n` is refused, the changes behind it
/// make no difference.
pub proof fn applying_stops_at_refusal(
    table: Seq<ScopeView>,
    updates: Seq<TableUpdateView>,
    n: int,
    m: int,
)
    requires
        0 <= n <= m,
        apply_updates(table, updates, n).refused is Some,
    ensures
        apply_updates(table, updates, m) == apply_updates(table, updates, n),
    decreases m - n,
{
    if n < m {
        applying_stops_at_refusal(table, updates, n, m - 1);
    }
}

/// Whether `entry` is the error on which a pass with the report `report`
/// ends a run whose table holds `table`: the report of the first change that
/// the table refuses, or, where it refuses none, the error of the pass itself.
pub open spec fn reported(entry: LeoOrString, table: Seq<ScopeView>, report: PassReport) -> bool {
    match apply_updates(table, update_views(report.updates@), report.updates@.len() as int).refused {
        Some((at, reason)) => is_refusal(entry, report.updates@[at]@, reason),
        None => report.error is Some && entry == LeoOrString::Leo(report.error->Some_0),
    }
}

/// Where a run of the passes stands.
#[derive(Clone, Copy, Debug, PartialEq, Eq, Structural)]
pub enum PipelineState {
    /// A pass is to run next.
    Running,
    /// Every pass has run, and none gave an error.
    Completed,
    /// A pass gave an error: no other runs.
    Aborted,
}

/// A run of the passes, as contracts see it.
pub struct PipelineView {
    /// The table as the passes so far have left it.
    pub table: Seq<ScopeView>,
    /// The number of passes that ran without an error.
    pub done: nat,
    /// Whether a pass gave an error.
    pub aborted: bool,
}

impl PipelineView {
    /// Where the run stands.
    pub open spec fn state(self) -> PipelineState {
        if self.aborted {
            PipelineState::Aborted
        } else if self.done >= pass_order().len() {
            PipelineState::Completed
        } else {
            PipelineState::Running
        }
    }

    /// The pass that is to run next, while the run goes on.
    pub open spec fn next_pass(self) -> Option<Pass> {
        if self.state() == PipelineState::Running {
            Some(pass_order()[self.done as int])
        } else {
            None
        }
    }

    /// Whether a report with the changes `updates`, and with an error of the
    /// pass's own where `error` holds, ends the run: one of the changes is
    /// refused, or the pass itself gave up.
    pub open spec fn ended_by(self, updates: Seq<TableUpdateView>, error: bool) -> bool {
        self.state() == PipelineState::Running && (error || apply_updates(
            self.table,
            updates,
            updates.len() as int,
        ).refused is Some)
    }

    /// The run after such a report. A run that is over takes nothing in. One
    /// that goes on makes the changes up to the first refused one; it counts
    /// the pass as done where nothing was refused and the pass gave no error,
    /// and is aborted otherwise.
    pub open spec fn after_report(self, updates: Seq<TableUpdateView>, error: bool) -> PipelineView {
        if self.state() != PipelineState::Running {
            self
        } else {
            let applied = apply_updates(self.table, updates, updates.len() as int);
            if applied.refused is Some || error {
                PipelineView { table: applied.table, done: self.done, aborted: true }
            } else {
                PipelineView { table: applied.table, done: self.done + 1, aborted: false }
            }
        }
    }
}

/// A run of the passes over one program.
#[derive(Clone, Debug, PartialEq, Eq)]
pub struct Pipeline {
    table: SymbolTable,
    done: usize,
    aborted: bool,
}

impl View for Pipeline {
    type V = PipelineView;

    closed spec fn view(&self) -> PipelineView {
        PipelineView { table: self.table@, done: self.done as nat, aborted: self.aborted }
    }
}

impl Pipeline {
    /// Holds of every run that this module hands out.
    pub open spec fn wf(&self) -> bool {
        crate::symbol_table::well_formed(self@.table) && self@.done <= pass_order().len()
    }

    /// A run before its first pass, with a table that holds the root scope
    /// alone.
    pub fn new() -> (pipeline: Pipeline)
        ensures
            pipeline.wf(),
            pipeline@.done == 0,
            !pipeline@.aborted,
            pipeline@.table == seq![ScopeView { parent: None, entries: Seq::empty() }],
    {
        Pipeline { table: SymbolTable::new(), done: 0, aborted: false }
    }

    /// Where the run stands.
    pub fn state(&self) -> (state: PipelineState)
        ensures
            state == self@.state(),
    {
        if self.aborted {
            PipelineState::Aborted
        } else if self.done >= 3 {
            PipelineState::Completed
        } else {
            PipelineState::Running
        }
    }

    /// The pass that is to run next: none once the run is over.
    pub fn next_pass(&self) -> (pass: Option<Pass>)
        ensures
            pass == self@.next_pass(),
    {
        if self.aborted {
            None
        } else {
            pass_at(self.done)
        }
    }

    /// The table as the passes so far have left it.
    pub fn table(&self) -> (table: &SymbolTable)
        ensures
            table@ == self@.table,
    {
        &self.table
    }

    /// Takes in what the pass that was asked for found. Its warnings are
    /// reported, whatever else happens. Its changes are made up to the first
    /// that the table refuses. Where one is refused, that is reported as an
    /// error, and the run is aborted; where none is, but the pass gave an
    /// error, that error is reported, and the run is aborted; else the pass is
    /// done. A run that is over takes nothing in and reports nothing. The
    /// result is the pass to run next.
    pub fn record(&mut self, handler: &mut Handler, report: PassReport) -> (next: Option<Pass>)
        requires
            old(self).wf(),
        ensures
            final(self).wf(),
            final(self)@ == old(self)@.after_report(
                update_views(report.updates@),
                report.error is Some,
            ),
            extends(old(self)@.table, final(self)@.table),
            next == final(self)@.next_pass(),
            final(handler).is_live() == old(handler).is_live(),
            old(self)@.state() != PipelineState::Running ==> final(handler).errors() == old(
                handler,
            ).errors() && final(handler).warnings() == old(handler).warnings() && final(
                handler
            ).pending() == old(handler).pending(),
            old(self)@.state() == PipelineState::Running ==> {
                let applied = apply_updates(
                    old(self)@.table,
                    update_views(report.updates@),
                    report.updates@.len() as int,
                );
                &&& final(handler).warnings() == old(handler).warnings() + report.warnings@
                &&& final(handler).pending() == old(handler).streamed(
                    warning_lines(report.warnings@) + rendered_entries(
                        final(handler).errors().skip(old(handler).errors().len() as int),
                    ),
                )
                &&& applied.refused is None && report.error is None ==> final(handler).errors()
                    == old(handler).errors()
                &&& applied.refused is Some || report.error is Some ==> {
                    &&& final(handler).errors().len() == old(handler).errors().len() + 1
                    &&& final(handler).errors().drop_last() == old(handler).errors()
                    &&& reported(final(handler).errors().last(), old(self)@.table, report)
                }
            },
    {
        proof {
            extends_is_reflexive(self.table@);
        }
        if self.aborted || self.done >= 3 {
            return self.next_pass();
        }
        let PassReport { warnings, updates, error } = report;
        handler.emit_warnings(warnings);
        match apply_all(&mut self.table, &updates) {
            Some((at, reason)) => {
                let entry = refusal(&updates[at], reason);
                assert(update_views(updates@)[at as int] == updates@[at as int]@);
                match entry {
                    LeoOrString::Leo(err) => handler.emit_err(err),
                    LeoOrString::String(message) => {
                        let _ = handler.buffer_if_err::<()>(Err(message));
                    },
                }
                assert(handler.errors().drop_last() =~= old(handler).errors());
                self.aborted = true;
            },
            None => {
                match error {
                    Some(err) => {
                        handler.emit_err(err);
                        assert(handler.errors().drop_last() =~= old(handler).errors());
                        self.aborted = true;
                    },
                    None => {
                        self.done = self.done + 1;
                    },
                }
            },
        }
        self.next_pass()
    }

    /// Ends the run: the table where every pass ran without an error, and a
    /// failure without content otherwise. The failure is never silent: the
    /// error of the pass that gave up is with the handler; where passes are
    /// still to run, or the handler's log holds no error, a plain message
    /// that says so is logged.
    pub fn finish(self, handler: &mut Handler) -> (out: Result<SymbolTable, ()>)
        ensures
            out is Ok <==> self@.state() == PipelineState::Completed,
            out is Ok ==> out->Ok_0@ == self@.table,
            out is Ok && self.wf() ==> out->Ok_0.wf(),
            out is Err ==> final(handler).errors().len() > 0,
            final(handler).warnings() == old(handler).warnings(),
            final(handler).is_live() == old(handler).is_live(),
            if self@.state() == PipelineState::Completed || (self@.state()
                == PipelineState::Aborted && old(handler).errors().len() > 0) {
                final(handler).errors() == old(handler).errors() && final(handler).pending()
                    == old(handler).pending()
            } else {
                extended_by_message(
                    old(handler).errors(),
                    final(handler).errors(),
                    ending_message(self@.state()),
                ) && final(handler).pending() == old(handler).queued(
                    ending_message(self@.state()),
                )
            },
    {
        if !self.aborted && self.done >= 3 {
            Ok(self.table)
        } else {
            if !self.aborted {
                handler.emit_message(String::from_str("passes are still to run"));
                assert(handler.errors().drop_last() =~= old(handler).errors());
            } else if !handler.had_errors() {
                handler.emit_message(
                    String::from_str("a pass failed, and its error was not handed on"),
                );
                assert(handler.errors().drop_last() =~= old(handler).errors());
            }
            Err(())
        }
    }
}

/// What is logged for a run of the passes that ends without a table and
/// without an error to show for it: that a pass failed and its error was not
/// handed on, or that passes are still to run.
pub open spec fn ending_message(state: PipelineState) -> Seq<char> {
    if state == PipelineState::Aborted {
        "a pass failed, and its error was not handed on"@
    } else {
        "passes are still to run"@
    }
}

/// The run before its first pass.
pub open spec fn fresh_run() -> PipelineView {
    PipelineView {
        table: seq![ScopeView { parent: None, entries: Seq::empty() }],
        done: 0,
        aborted: false,
    }
}

/// The run `run` after the first `n` reports of `reports`, taken in order.
pub open spec fn after_reports(run: PipelineView, reports: Seq<PassReport>, n: int) -> PipelineView
    decreases n,
{
    if n <= 0 {
        run
    } else {
        after_reports(run, reports, n - 1).after_report(
            update_views(reports[n - 1].updates@),
            reports[n - 1].error is Some,
        )
    }
}

/// The warnings that the first `n` reports of `reports` bring to a run that
/// began as `run`: those of every report that reached the run while it was
/// going on, in order. The report that ends the run is among them.
pub open spec fn warnings_through(run: PipelineView, reports: Seq<PassReport>, n: int) -> Seq<
    LeoWarning,
>
    decreases n,
{
    if n <= 0 {
        Seq::empty()
    } else if after_reports(run, reports, n - 1).state() == PipelineState::Running {
        warnings_through(run, reports, n - 1) + reports[n - 1].warnings@
    } else {
        warnings_through(run, reports, n - 1)
    }
}

/// The place, among the first `n` reports, of the one that ends the run on an
/// error; `n` where none of them does.
pub open spec fn ending(run: PipelineView, reports: Seq<PassReport>, n: int) -> int
    decreases n,
{
    if n <= 0 {
        0
    } else {
        let before = ending(run, reports, n - 1);
        if before < n - 1 {
            before
        } else if after_reports(run, reports, n - 1).ended_by(
            update_views(reports[n - 1].updates@),
            reports[n - 1].error is Some,
        ) {
            n - 1
        } else {
            n
        }
    }
}

/// Runs the passes from their reports: takes in `reports` in order, as
/// `record` does one. The table is handed out where every pass ran and none
/// gave an error. Reports behind the one that ends the run count for
/// nothing: not their changes, not their warnings, not their errors. A
/// failure is never silent: the error that ended the run is in the handler's
/// log, and where the reports end before the passes do, a plain message
/// says so.
pub fn run_all(handler: &mut Handler, reports: Vec<PassReport>) -> (out: Result<SymbolTable, ()>)
    ensures
        out is Ok <==> after_reports(fresh_run(), reports@, reports@.len() as int).state()
            == PipelineState::Completed,
        out is Ok ==> out->Ok_0.wf() && out->Ok_0@ == after_reports(
            fresh_run(),
            reports@,
            reports@.len() as int,
        ).table,
        final(handler).warnings() == old(handler).warnings() + warnings_through(
            fresh_run(),
            reports@,
            reports@.len() as int,
        ),
        ({
            let end = ending(fresh_run(), reports@, reports@.len() as int);
            if end < reports@.len() {
                &&& final(handler).errors().len() == old(handler).errors().len() + 1
                &&& final(handler).errors().drop_last() == old(handler).errors()
                &&& reported(
                    final(handler).errors().last(),
                    after_reports(fresh_run(), reports@, end).table,
                    reports@[end],
                )
            } else if after_reports(fresh_run(), reports@, reports@.len() as int).state()
                == PipelineState::Completed {
                final(handler).errors() == old(handler).errors()
            } else {
                extended_by_message(
                    old(handler).errors(),
                    final(handler).errors(),
                    ending_message(PipelineState::Running),
                )
            }
        }),
        out is Err ==> final(handler).errors().len() > old(handler).errors().len(),
        final(handler).is_live() == old(handler).is_live(),
        final(handler).pending() == old(handler).streamed(
            warning_lines(warnings_through(fresh_run(), reports@, reports@.len() as int))
                + rendered_entries(
                final(handler).errors().skip(old(handler).errors().len() as int),
            ),
        ),
{
    let mut pipeline = Pipeline::new();
    let mut stack = reversed(reports);
    let ghost start = pipeline@;
    assert(start == fresh_run());
    proof {
        assert(handler.warnings() + warnings_through(start, reports@, 0) =~= old(
            handler,
        ).warnings());
        assert(handler.errors().skip(handler.errors().len() as int) =~= Seq::<LeoOrString>::empty());
        assert(handler.pending() =~= handler.streamed(
            warning_lines(warnings_through(start, reports@, 0)) + rendered_entries(
                Seq::<LeoOrString>::empty(),
            ),
        ));
    }
    while stack.len() > 0
        invariant
            stack@.len() <= reports@.len(),
            stack@ == reports@.skip(reports@.len() - stack@.len()).reverse(),
            start == fresh_run(),
            pipeline.wf(),
            pipeline@ == after_reports(start, reports@, reports@.len() - stack@.len()),
            handler.warnings() == old(handler).warnings() + warnings_through(
                start,
                reports@,
                reports@.len() - stack@.len(),
            ),
            ({
                let n = reports@.len() - stack@.len();
                let end = ending(start, reports@, n);
                &&& 0 <= end <= n
                &&& end < n <==> pipeline@.aborted
                &&& if end < n {
                    &&& handler.errors().len() == old(handler).errors().len() + 1
                    &&& handler.errors().drop_last() == old(handler).errors()
                    &&& reported(
                        handler.errors().last(),
                        after_reports(start, reports@, end).table,
                        reports@[end],
                    )
                } else {
                    handler.errors() == old(handler).errors()
                }
            }),
            handler.is_live() == old(handler).is_live(),
            handler.pending() == old(handler).streamed(
                warning_lines(
                    warnings_through(start, reports@, reports@.len() - stack@.len()),
                ) + rendered_entries(handler.errors().skip(old(handler).errors().len() as int)),
            ),
        decreases stack.len(),
    {
        let ghost at = reports@.len() - stack@.len();
        let report = stack.pop().unwrap();
        proof {
            assert(report == reports@[at]);
            assert(stack@ =~= reports@.skip(at + 1).reverse());
        }
        let ghost log = handler.errors();
        let ghost first = old(handler).errors().len() as int;
        let ghost was_running = pipeline@.state() == PipelineState::Running;
        let _ = pipeline.record(handler, report);
        proof {
            assert(handler.warnings() =~= old(handler).warnings() + warnings_through(
                start,
                reports@,
                at + 1,
            ));
            if was_running {
                let before = warnings_through(start, reports@, at);
                assert(log == old(handler).errors());
                assert(log.skip(first) =~= Seq::<LeoOrString>::empty());
                assert(handler.errors().skip(first) =~= handler.errors().skip(
                    log.len() as int,
                ));
                assert(warning_lines(before + report.warnings@) =~= warning_lines(before)
                    + warning_lines(report.warnings@));
                assert(handler.pending() =~= old(handler).streamed(
                    warning_lines(warnings_through(start, reports@, at + 1)) + rendered_entries(
                        handler.errors().skip(first),
                    ),
                ));
            }
        }
    }
    let ghost log = handler.errors();
    let ghost lines = warning_lines(
        warnings_through(start, reports@, reports@.len() as int),
    );
    let ghost first = old(handler).errors().len() as int;
    let out = pipeline.finish(handler);
    proof {
        if handler.errors() != log {
            let last = handler.errors().last();
            assert(log == old(handler).errors());
            assert(handler.errors() =~= log.push(last));
            assert(log.skip(first) =~= Seq::<LeoOrString>::empty());
            assert(handler.errors().skip(first) =~= seq![last]);
            assert(rendered_entries(handler.errors().skip(first)) =~= seq![last.spec_render()]);
            assert(rendered_entries(log.skip(first)) =~= Seq::<Seq<char>>::empty());
            assert(lines + rendered_entries(handler.errors().skip(first)) =~= (lines
                + rendered_entries(log.skip(first))).push(last.spec_render()));
        }
    }
    out
}

/// A run that a pass has ended takes nothing in: whatever is reported to
/// it, its table and its count of passes stay, and it asks for no pass.
pub proof fn aborted_run_takes_nothing_in(
    run: PipelineView,
    updates: Seq<TableUpdateView>,
    error: bool,
)
    requires
        run.aborted,
    ensures
        run.after_report(updates, error) == run,
        run.next_pass() is None,
{
}

/// After the report that ends a run, no report counts: the run stays as
/// that report left it, and no warning is added to those up to and with it.
pub proof fn nothing_follows_an_abort(run: PipelineView, reports: Seq<PassReport>, k: int, n: int)
    requires
        0 <= k <= n,
        after_reports(run, reports, k).aborted,
    ensures
        after_reports(run, reports, n) == after_reports(run, reports, k),
        warnings_through(run, reports, n) == warnings_through(run, reports, k),
    decreases n - k,
{
    if k < n {
        nothing_follows_an_abort(run, reports, k, n - 1);
    }
}

/// The warnings of the passes that ran stay, also where the run is ended:
/// what the first `k` reports brought is the beginning of what the first `n`
/// bring.
pub proof fn warnings_remain(run: PipelineView, reports: Seq<PassReport>, k: int, n: int)
    requires
        0 <= k <= n,
    ensures
        warnings_through(run, reports, k).is_prefix_of(warnings_through(run, reports, n)),
    decreases n - k,
{
    if k < n {
        warnings_remain(run, reports, k, n - 1);
    }
}

/// Two runs that begin alike and are given reports with the same changes,
/// failing at the same places, end alike: with the same table, and so with
/// the same rendering of it.
pub proof fn equal_reports_give_equal_tables(
    run: PipelineView,
    a: Seq<PassReport>,
    b: Seq<PassReport>,
    n: int,
)
    requires
        0 <= n <= a.len(),
        n <= b.len(),
        forall|i: int|
            0 <= i < n ==> update_views(#[trigger] a[i].updates@) == update_views(b[i].updates@)
                && (a[i].error is Some <==> b[i].error is Some),
    ensures
        after_reports(run, a, n) == after_reports(run, b, n),
        crate::symbol_table::render(after_reports(run, a, n).table) == crate::symbol_table::render(
            after_reports(run, b, n).table,
        ),
    decreases n,
{
    if n > 0 {
        equal_reports_give_equal_tables(run, a, b, n - 1);
        assert(update_views(a[n - 1].updates@) == update_views(b[n - 1].updates@));
    }
}

/// A list of changes only adds to the table, whether all of them are made
/// or one is refused.
pub proof fn changes_only_add(table: Seq<ScopeView>, updates: Seq<TableUpdateView>, n: int)
    ensures
        extends(table, apply_updates(table, updates, n).table),
    decreases n,
{
    if n > 0 {
        changes_only_add(table, updates, n - 1);
        let before = apply_updates(table, updates, n - 1);
        if before.refused is None && apply_update(before.table, updates[n - 1]) is Ok {
            a_change_only_adds(before.table, updates[n - 1]);
            extends_is_transitive(
                table,
                before.table,
                apply_update(before.table, updates[n - 1])->Ok_0,
            );
        }
    } else {
        extends_is_reflexive(table);
    }
}

/// No pass takes away what an earlier pass put into the table: after any
/// number of reports, the table holds every scope, every declaration and
/// every resolved type that it held before them.
pub proof fn passes_only_add(run: PipelineView, reports: Seq<PassReport>, n: int)
    ensures
        extends(run.table, after_reports(run, reports, n).table),
    decreases n,
{
    if n > 0 {
        passes_only_add(run, reports, n - 1);
        let before = after_reports(run, reports, n - 1);
        let updates = update_views(reports[n - 1].updates@);
        changes_only_add(before.table, updates, updates.len() as int);
        extends_is_transitive(run.table, before.table, after_reports(run, reports, n).table);
    } else {
        extends_is_reflexive(run.table);
    }
}

} // verus!
