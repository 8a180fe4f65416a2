use leo_compiler::buffer::Buffer;
use leo_compiler::emitter::{buffer_if_err, BufferEmitter, Emitter};
use leo_compiler::errors::{ErrorKind, LeoError, LeoOrString, LeoWarning, WarningKind};
use leo_compiler::handler::{Handler, Phase};
use leo_compiler::span::Span;

fn syntax_error(message: &str) -> LeoError {
    LeoError::new(ErrorKind::MalformedSyntax, message.to_string(), vec![])
}

fn unused(message: &str) -> LeoWarning {
    LeoWarning::new(WarningKind::Unused, message.to_string(), vec![])
}

#[test]
fn each_class_has_its_exit_code() {
    assert_eq!(ErrorKind::MalformedSyntax.exit_code(), 1);
    assert_eq!(ErrorKind::UnterminatedInput.exit_code(), 2);
    assert_eq!(ErrorKind::UnknownIdentifier.exit_code(), 3);
    assert_eq!(ErrorKind::DuplicateDeclaration.exit_code(), 4);
    assert_eq!(ErrorKind::TypeMismatch.exit_code(), 5);
}

#[test]
fn exit_codes_are_positive_and_distinct() {
    let kinds = [
        ErrorKind::MalformedSyntax,
        ErrorKind::UnterminatedInput,
        ErrorKind::UnknownIdentifier,
        ErrorKind::DuplicateDeclaration,
        ErrorKind::TypeMismatch,
    ];
    for (i, a) in kinds.iter().enumerate() {
        assert!(a.exit_code() > 0);
        for (j, b) in kinds.iter().enumerate() {
            assert_eq!(a.exit_code() == b.exit_code(), i == j);
        }
    }
}

#[test]
fn parse_errors_are_told_from_pass_errors() {
    assert!(ErrorKind::MalformedSyntax.is_parse_error());
    assert!(ErrorKind::UnterminatedInput.is_parse_error());
    assert!(!ErrorKind::UnknownIdentifier.is_parse_error());
    assert!(!ErrorKind::DuplicateDeclaration.is_parse_error());
    assert!(!ErrorKind::TypeMismatch.is_parse_error());
}

#[test]
fn error_carries_kind_message_and_spans() {
    let span = Span::new(7, 2, 5);
    let err = LeoError::new(ErrorKind::TypeMismatch, "u8 is no bool".to_string(), vec![span]);
    assert_eq!(err.kind, ErrorKind::TypeMismatch);
    assert_eq!(err.message, "u8 is no bool");
    assert_eq!(err.spans, vec![Span { session: 7, lo: 2, hi: 5 }]);
    assert_eq!(err.exit_code(), 5);
    assert_eq!(span.len(), 3);
    assert_eq!(Span::new(0, 5, 2).len(), 0);
}

#[test]
fn error_and_warning_lines() {
    assert_eq!(syntax_error("expected `;`").render(), "Error [1]: expected `;`");
    let err = LeoError::new(ErrorKind::UnknownIdentifier, "x".to_string(), vec![]);
    assert_eq!(err.render(), "Error [3]: x");
    assert_eq!(unused("y is never read").render(), "Warning: y is never read");
}

#[test]
fn log_entry_shows_error_or_message() {
    let entry = LeoOrString::Leo(syntax_error("bad"));
    assert_eq!(entry.to_string(), "Error [1]: bad");
    assert_eq!(entry.exit_code(), 1);
    let plain = LeoOrString::String("no such file".to_string());
    assert_eq!(plain.to_string(), "no such file");
    assert_eq!(plain.exit_code(), 0);
}

#[test]
fn buffer_keeps_order_and_last_entry() {
    let mut buffer: Buffer<i32> = Buffer::new();
    assert_eq!(buffer.len(), 0);
    assert_eq!(buffer.last_entry(), None);
    buffer.push(3);
    buffer.push(1);
    buffer.push(2);
    assert_eq!(buffer.len(), 3);
    assert_eq!(buffer.last_entry(), Some(&2));
    let taken = buffer.take();
    assert_eq!(buffer.len(), 0);
    assert_eq!(taken.into_inner(), vec![3, 1, 2]);
}

#[test]
fn log_as_text_has_a_line_feed_between_entries() {
    let mut log: Buffer<LeoOrString> = Buffer::new();
    assert_eq!(log.to_string(), "");
    log.push(LeoOrString::Leo(syntax_error("first")));
    assert_eq!(log.to_string(), "Error [1]: first");
    log.push(LeoOrString::String("second".to_string()));
    log.push(LeoOrString::String("third".to_string()));
    assert_eq!(log.to_string(), "Error [1]: first\nsecond\nthird");
}

#[test]
fn last_code_is_none_before_any_error() {
    let emitter = BufferEmitter::new();
    assert_eq!(emitter.last_emitted_err_code(), None);
    assert_eq!(Handler::new(Emitter::buffered()).last_emitted_err_code(), None);
    assert_eq!(Handler::new(Emitter::live()).last_emitted_err_code(), None);
}

#[test]
fn last_code_follows_the_last_error() {
    let mut emitter = BufferEmitter::new();
    emitter.emit_err(syntax_error("a"));
    assert_eq!(emitter.last_emitted_err_code(), Some(1));
    emitter.emit_err(LeoError::new(ErrorKind::UnknownIdentifier, "x".to_string(), vec![]));
    assert_eq!(emitter.last_emitted_err_code(), Some(3));
    emitter.emit_err(LeoError::new(ErrorKind::UnterminatedInput, "eof".to_string(), vec![]));
    assert_eq!(emitter.last_emitted_err_code(), Some(2));
    assert_eq!(emitter.errors.len(), 3);
}

#[test]
fn plain_message_gives_code_zero() {
    let mut emitter = BufferEmitter::new();
    emitter.emit_err(syntax_error("a"));
    let out: Result<u8, ()> = buffer_if_err(&mut emitter, Err("input file is missing".to_string()));
    assert_eq!(out, Err(()));
    assert_eq!(emitter.last_emitted_err_code(), Some(0));
    assert_eq!(
        emitter.errors.last_entry(),
        Some(&LeoOrString::String("input file is missing".to_string()))
    );
}

#[test]
fn buffer_if_err_passes_ok_through() {
    let mut emitter = BufferEmitter::new();
    let out: Result<u8, ()> = buffer_if_err(&mut emitter, Ok(9));
    assert_eq!(out, Ok(9));
    assert_eq!(emitter.errors.len(), 0);
    assert_eq!(emitter.last_emitted_err_code(), None);
}

#[test]
fn warnings_do_not_touch_the_exit_code() {
    let mut emitter = BufferEmitter::new();
    emitter.emit_warning(unused("a"));
    assert_eq!(emitter.last_emitted_err_code(), None);
    emitter.emit_err(syntax_error("b"));
    emitter.emit_warning(unused("c"));
    assert_eq!(emitter.last_emitted_err_code(), Some(1));
    assert_eq!(emitter.warnings.len(), 2);
    assert_eq!(emitter.errors.len(), 1);
}

#[test]
fn handler_goes_from_idle_to_collecting_to_finalized() {
    let mut handler = Handler::new(Emitter::buffered());
    assert_eq!(handler.phase(), Phase::Idle);
    assert!(!handler.had_errors());
    handler.emit_warning(unused("w"));
    assert_eq!(handler.phase(), Phase::Collecting);
    assert!(!handler.had_errors());
    handler.emit_err(syntax_error("e"));
    assert_eq!(handler.phase(), Phase::Collecting);
    assert!(handler.had_errors());
    assert_eq!(handler.err_count(), 1);
    assert_eq!(handler.warning_count(), 1);
    let done = handler.finalize();
    assert_eq!(done.phase(), Phase::Finalized);
    assert_eq!(done.exit_code, Some(1));
    assert_eq!(done.errors.into_inner(), vec![LeoOrString::Leo(syntax_error("e"))]);
    assert_eq!(done.warnings.into_inner(), vec![unused("w")]);
}

#[test]
fn extend_if_error_keeps_the_error_in_the_log() {
    let mut handler = Handler::new(Emitter::buffered());
    let ok: Result<&str, ()> = handler.extend_if_error(Ok("fine"));
    assert_eq!(ok, Ok("fine"));
    assert_eq!(handler.err_count(), 0);
    let err: Result<&str, ()> = handler.extend_if_error(Err(syntax_error("oops")));
    assert_eq!(err, Err(()));
    assert_eq!(handler.last_emitted_err_code(), Some(1));
    let log = handler.take_errors();
    assert_eq!(log.into_inner(), vec![LeoOrString::Leo(syntax_error("oops"))]);
    assert_eq!(handler.err_count(), 0);
}

#[test]
fn handler_logs_plain_messages_with_code_zero() {
    let mut handler = Handler::new(Emitter::buffered());
    handler.emit_err(syntax_error("first"));
    let out: Result<(), ()> = handler.buffer_if_err(Err("glue failed".to_string()));
    assert_eq!(out, Err(()));
    assert_eq!(handler.last_emitted_err_code(), Some(0));
    let passed: Result<i32, ()> = handler.buffer_if_err(Ok(4));
    assert_eq!(passed, Ok(4));
    assert_eq!(handler.err_count(), 2);
}

#[test]
fn both_emitters_keep_the_same_logs() {
    let mut buffered = Emitter::buffered();
    let mut live = Emitter::live();
    for emitter in [&mut buffered, &mut live] {
        emitter.emit_warning(unused("w1"));
        emitter.emit_err(syntax_error("e1"));
        emitter.emit_message("m1".to_string());
        emitter.emit_warning(unused("w2"));
    }
    assert_eq!(buffered.last_emitted_err_code(), Some(0));
    assert_eq!(live.last_emitted_err_code(), Some(0));
    let a = Handler::new(buffered).finalize();
    let b = Handler::new(live).finalize();
    assert_eq!(a, b);
    assert_eq!(a.errors.len(), 2);
    assert_eq!(a.warnings.len(), 2);
}

#[test]
fn live_emitter_queues_lines_as_they_arrive() {
    let mut live = Emitter::live();
    live.emit_warning(unused("w1"));
    live.emit_err(syntax_error("e1"));
    assert_eq!(live.take_pending(), vec!["Warning: w1".to_string(), "Error [1]: e1".to_string()]);
    assert_eq!(live.take_pending(), Vec::<String>::new());
    live.emit_message("m1".to_string());
    assert_eq!(live.take_pending(), vec!["m1".to_string()]);
    let mut buffered = Emitter::buffered();
    buffered.emit_err(syntax_error("e1"));
    assert_eq!(buffered.take_pending(), Vec::<String>::new());
}

#[test]
fn warnings_are_reported_in_their_order() {
    let mut handler = Handler::new(Emitter::live());
    handler.emit_warning(unused("zero"));
    handler.emit_warnings(vec![unused("one"), unused("two"), unused("three")]);
    assert_eq!(
        handler.take_pending(),
        vec![
            "Warning: zero".to_string(),
            "Warning: one".to_string(),
            "Warning: two".to_string(),
            "Warning: three".to_string()
        ]
    );
    let done = handler.finalize();
    assert_eq!(
        done.warnings.into_inner(),
        vec![unused("zero"), unused("one"), unused("two"), unused("three")]
    );
    assert_eq!(done.exit_code, None);
}

#[test]
fn taking_the_errors_out_does_not_make_a_handler_idle() {
    let mut handler = Handler::new(Emitter::buffered());
    assert_eq!(handler.phase(), Phase::Idle);
    let passed: Result<u8, ()> = handler.extend_if_error(Ok(1));
    assert_eq!(passed, Ok(1));
    handler.emit_warnings(vec![]);
    assert_eq!(handler.phase(), Phase::Idle);
    handler.emit_err(syntax_error("e"));
    assert_eq!(handler.phase(), Phase::Collecting);
    assert_eq!(handler.take_errors().len(), 1);
    assert_eq!(handler.err_count(), 0);
    assert_eq!(handler.warning_count(), 0);
    assert_eq!(handler.phase(), Phase::Collecting);
    assert_eq!(handler.take_pending(), Vec::<String>::new());
    assert_eq!(handler.phase(), Phase::Collecting);
}

#[test]
fn a_handler_over_a_used_emitter_is_collecting() {
    let mut emitter = Emitter::live();
    emitter.emit_warning(unused("w"));
    let handler = Handler::new(emitter);
    assert!(handler.live());
    assert_eq!(handler.phase(), Phase::Collecting);
    assert_eq!(handler.warning_count(), 1);
    assert!(!Handler::new(Emitter::buffered()).live());
}

#[test]
fn a_copy_of_a_handler_has_logs_of_its_own() {
    let mut handler = Handler::new(Emitter::buffered());
    handler.emit_err(syntax_error("first"));
    let mut copy = handler.clone();
    copy.emit_message("second".to_string());
    assert_eq!(handler.err_count(), 1);
    assert_eq!(handler.last_emitted_err_code(), Some(1));
    assert_eq!(copy.err_count(), 2);
    assert_eq!(copy.last_emitted_err_code(), Some(0));
}
