use leo_compiler::errors::{ErrorKind, LeoError, LeoOrString, LeoWarning, WarningKind};
use leo_compiler::emitter::Emitter;
use leo_compiler::handler::Handler;
use leo_compiler::pipeline::{
    apply_all, pass_at, refusal, run_all, Pass, PassReport, Pipeline, PipelineState,
};
use leo_compiler::symbol_table::{DeclKind, ScopeId, SymbolError, SymbolTable};
use leo_compiler::updates::TableUpdate;

fn declare(scope: usize, name: &str, kind: DeclKind) -> TableUpdate {
    TableUpdate::Declare { scope: ScopeId(scope), name: name.to_string(), kind, ty: None }
}

fn refine(scope: usize, name: &str, ty: &str) -> TableUpdate {
    TableUpdate::Refine { scope: ScopeId(scope), name: name.to_string(), resolved: ty.to_string() }
}

fn warning(message: &str) -> LeoWarning {
    LeoWarning::new(WarningKind::Unused, message.to_string(), vec![])
}

fn report(warnings: Vec<LeoWarning>, updates: Vec<TableUpdate>) -> PassReport {
    PassReport { warnings, updates, error: None }
}

fn good_reports() -> Vec<PassReport> {
    vec![
        report(
            vec![warning("from declarations")],
            vec![
                declare(0, "main", DeclKind::Function),
                TableUpdate::OpenScope { parent: ScopeId(0) },
                declare(1, "x", DeclKind::Variable),
            ],
        ),
        report(vec![warning("from binding")], vec![]),
        report(vec![warning("from types")], vec![refine(1, "x", "u8"), refine(1, "main", "u8")]),
    ]
}

#[test]
fn the_passes_run_in_one_order() {
    assert_eq!(pass_at(0), Some(Pass::Declarations));
    assert_eq!(pass_at(1), Some(Pass::Binding));
    assert_eq!(pass_at(2), Some(Pass::Types));
    assert_eq!(pass_at(3), None);
    let mut pipeline = Pipeline::new();
    let mut handler = Handler::new(Emitter::buffered());
    assert_eq!(pipeline.next_pass(), Some(Pass::Declarations));
    assert_eq!(pipeline.record(&mut handler, report(vec![], vec![])), Some(Pass::Binding));
    assert_eq!(pipeline.record(&mut handler, report(vec![], vec![])), Some(Pass::Types));
    assert_eq!(pipeline.state(), PipelineState::Running);
    assert_eq!(pipeline.record(&mut handler, report(vec![], vec![])), None);
    assert_eq!(pipeline.state(), PipelineState::Completed);
}

#[test]
fn all_passes_build_the_table() {
    let mut handler = Handler::new(Emitter::buffered());
    let table = run_all(&mut handler, good_reports()).unwrap();
    assert_eq!(
        table.render_canonical(),
        "scope 0\n  function main: u8\nscope 1 in 0\n  variable x: u8\n"
    );
    assert_eq!(handler.err_count(), 0);
    assert_eq!(handler.warning_count(), 3);
    assert_eq!(handler.last_emitted_err_code(), None);
}

#[test]
fn two_runs_over_equal_reports_render_alike() {
    let mut first_handler = Handler::new(Emitter::buffered());
    let mut second_handler = Handler::new(Emitter::live());
    let first = run_all(&mut first_handler, good_reports()).unwrap();
    let second = run_all(&mut second_handler, good_reports()).unwrap();
    assert_eq!(first.render_canonical(), second.render_canonical());
    assert_eq!(first, second);
}

#[test]
fn a_failing_pass_stops_the_rest() {
    let mut reports = good_reports();
    reports[1].updates = vec![declare(0, "late", DeclKind::Type)];
    reports[1].error =
        Some(LeoError::new(ErrorKind::UnknownIdentifier, "y is not declared".to_string(), vec![]));
    let mut pipeline = Pipeline::new();
    let mut handler = Handler::new(Emitter::buffered());
    let mut reports = reports.into_iter();
    assert_eq!(pipeline.record(&mut handler, reports.next().unwrap()), Some(Pass::Binding));
    assert_eq!(pipeline.record(&mut handler, reports.next().unwrap()), None);
    assert_eq!(pipeline.state(), PipelineState::Aborted);
    let table_at_abort = pipeline.table().clone();
    assert_eq!(pipeline.record(&mut handler, reports.next().unwrap()), None);
    assert_eq!(pipeline.state(), PipelineState::Aborted);
    assert_eq!(pipeline.table(), &table_at_abort);
    assert_eq!(pipeline.table().lookup(ScopeId(1), "x").unwrap().1.ty, None);
    assert_eq!(handler.last_emitted_err_code(), Some(3));
    assert_eq!(handler.err_count(), 1);
    assert_eq!(pipeline.finish(&mut handler), Err(()));
    assert_eq!(handler.err_count(), 1);
    assert_eq!(handler.last_emitted_err_code(), Some(3));
    let done = handler.finalize();
    assert_eq!(
        done.warnings.into_inner(),
        vec![warning("from declarations"), warning("from binding")]
    );
}

#[test]
fn run_all_fails_fast_and_keeps_earlier_warnings() {
    let mut reports = good_reports();
    reports[0].error =
        Some(LeoError::new(ErrorKind::MalformedSyntax, "stray token".to_string(), vec![]));
    reports[1].error =
        Some(LeoError::new(ErrorKind::TypeMismatch, "never seen".to_string(), vec![]));
    let mut handler = Handler::new(Emitter::buffered());
    assert_eq!(run_all(&mut handler, reports), Err(()));
    assert_eq!(handler.last_emitted_err_code(), Some(1));
    let done = handler.finalize();
    assert_eq!(done.errors.len(), 1);
    assert_eq!(done.warnings.into_inner(), vec![warning("from declarations")]);
}

#[test]
fn too_few_reports_give_no_table_and_say_so() {
    let mut reports = good_reports();
    reports.pop();
    let mut handler = Handler::new(Emitter::buffered());
    assert_eq!(run_all(&mut handler, reports), Err(()));
    assert_eq!(handler.err_count(), 1);
    assert_eq!(handler.last_emitted_err_code(), Some(0));
    assert_eq!(handler.warning_count(), 2);
    assert_eq!(handler.take_errors().to_string(), "passes are still to run");
    let mut empty = Handler::new(Emitter::live());
    empty.emit_err(LeoError::new(ErrorKind::TypeMismatch, "earlier".to_string(), vec![]));
    empty.take_pending();
    assert_eq!(run_all(&mut empty, vec![]), Err(()));
    assert_eq!(empty.err_count(), 2);
    assert_eq!(empty.take_pending(), vec!["passes are still to run".to_string()]);
}

#[test]
fn a_run_of_the_passes_never_fails_in_silence() {
    let mut running = Pipeline::new();
    let mut handler = Handler::new(Emitter::buffered());
    running.record(&mut handler, report(vec![], vec![]));
    assert_eq!(running.finish(&mut handler), Err(()));
    assert_eq!(handler.take_errors().to_string(), "passes are still to run");

    let mut aborted = Pipeline::new();
    aborted.record(&mut handler, report(vec![], vec![refine(0, "x", "u8")]));
    assert_eq!(aborted.state(), PipelineState::Aborted);
    let kept = aborted.clone();
    assert_eq!(aborted.finish(&mut handler), Err(()));
    assert_eq!(handler.take_errors().to_string(), "Error [3]: x is not declared");
    assert_eq!(kept.finish(&mut handler), Err(()));
    assert_eq!(
        handler.take_errors().to_string(),
        "a pass failed, and its error was not handed on"
    );

    let mut done = Pipeline::new();
    for _ in 0..3 {
        done.record(&mut handler, report(vec![], vec![]));
    }
    assert_eq!(done.finish(&mut handler), Ok(SymbolTable::new()));
    assert_eq!(handler.err_count(), 0);
}

#[test]
fn reports_behind_the_last_pass_count_for_nothing() {
    let mut reports = good_reports();
    reports.push(PassReport {
        warnings: vec![warning("one too many")],
        updates: vec![declare(0, "extra", DeclKind::Type)],
        error: Some(LeoError::new(ErrorKind::TypeMismatch, "ignored".to_string(), vec![])),
    });
    let mut handler = Handler::new(Emitter::buffered());
    let table = run_all(&mut handler, reports).unwrap();
    assert_eq!(table.lookup(ScopeId(0), "extra"), None);
    assert_eq!(handler.err_count(), 0);
    assert_eq!(handler.warning_count(), 3);
}

#[test]
fn a_refused_change_ends_the_run_with_its_class() {
    let cases = vec![
        (vec![declare(0, "a", DeclKind::Type), declare(0, "a", DeclKind::Type)], Some(4), "Error [4]: a is already declared in this scope"),
        (vec![refine(0, "b", "u8")], Some(3), "Error [3]: b is not declared"),
        (
            vec![declare(0, "c", DeclKind::Variable), refine(0, "c", "u8"), refine(0, "c", "u16")],
            Some(5),
            "Error [5]: c already has another type",
        ),
        (vec![declare(4, "d", DeclKind::Variable)], Some(0), "the table has no such scope"),
    ];
    for (updates, code, line) in cases {
        let mut pipeline = Pipeline::new();
        let mut handler = Handler::new(Emitter::buffered());
        assert_eq!(pipeline.record(&mut handler, report(vec![warning("kept")], updates)), None);
        assert_eq!(pipeline.state(), PipelineState::Aborted);
        assert_eq!(handler.last_emitted_err_code(), code);
        assert_eq!(handler.warning_count(), 1);
        assert_eq!(handler.take_errors().to_string(), line);
    }
}

#[test]
fn changes_stop_at_the_first_refusal() {
    let mut table = SymbolTable::new();
    let updates = vec![
        declare(0, "a", DeclKind::Type),
        declare(0, "a", DeclKind::Function),
        declare(0, "b", DeclKind::Type),
    ];
    assert_eq!(apply_all(&mut table, &updates), Some((1, SymbolError::Duplicate)));
    assert_eq!(table.render_canonical(), "scope 0\n  type a\n");
    let rest = vec![declare(0, "b", DeclKind::Type), refine(0, "a", "field")];
    assert_eq!(apply_all(&mut table, &rest), None);
    assert_eq!(table.render_canonical(), "scope 0\n  type a: field\n  type b\n");
}

#[test]
fn refusals_are_reported_by_class() {
    let update = declare(0, "main", DeclKind::Function);
    assert_eq!(
        refusal(&update, SymbolError::Duplicate),
        LeoOrString::Leo(LeoError::new(
            ErrorKind::DuplicateDeclaration,
            "main is already declared in this scope".to_string(),
            vec![]
        ))
    );
    assert_eq!(
        refusal(&update, SymbolError::Unknown),
        LeoOrString::Leo(LeoError::new(
            ErrorKind::UnknownIdentifier,
            "main is not declared".to_string(),
            vec![]
        ))
    );
    assert_eq!(
        refusal(&update, SymbolError::Mismatch),
        LeoOrString::Leo(LeoError::new(
            ErrorKind::TypeMismatch,
            "main already has another type".to_string(),
            vec![]
        ))
    );
    assert_eq!(
        refusal(&TableUpdate::OpenScope { parent: ScopeId(3) }, SymbolError::UnknownScope),
        LeoOrString::String("the table has no such scope".to_string())
    );
}

#[test]
fn a_live_handler_hears_warnings_and_then_the_error() {
    let mut reports = good_reports();
    reports[1].updates = vec![refine(0, "nothing", "u8")];
    let mut handler = Handler::new(Emitter::live());
    assert_eq!(run_all(&mut handler, reports), Err(()));
    assert_eq!(
        handler.take_pending(),
        vec![
            "Warning: from declarations".to_string(),
            "Warning: from binding".to_string(),
            "Error [3]: nothing is not declared".to_string()
        ]
    );
}

#[test]
fn warnings_alone_never_stop_a_run() {
    let reports = vec![
        report(vec![warning("a"), warning("b")], vec![]),
        report(vec![warning("c")], vec![]),
        report(vec![warning("d"), warning("e"), warning("f")], vec![]),
    ];
    let mut handler = Handler::new(Emitter::buffered());
    let table = run_all(&mut handler, reports).unwrap();
    assert_eq!(table, SymbolTable::new());
    assert_eq!(handler.warning_count(), 6);
    assert_eq!(handler.err_count(), 0);
}
