use leo_compiler::interner::{str_equal, Interner, Symbol};
use leo_compiler::session::{ResolveError, Session, SessionError};
use leo_compiler::source_map::{FileId, FileName, Location};
use leo_compiler::span::Span;
use leo_compiler::unit_of_work::UnitOfWork;

#[test]
fn files_are_numbered_in_order_of_registration() {
    let mut session = Session::new(1);
    assert_eq!(session.id(), 1);
    assert_eq!(session.file_count(), 0);
    let a = session.register(FileName::Custom("a".to_string()), "ab\ncd");
    let b = session.register(FileName::Real("/tmp/b.leo".to_string()), "xyz");
    let c = session.register(FileName::Anonymous, "");
    assert_eq!(a, Ok(FileId(0)));
    assert_eq!(b, Ok(FileId(1)));
    assert_eq!(c, Ok(FileId(2)));
    assert_eq!(session.file_count(), 3);
}

#[test]
fn files_lie_in_one_buffer_a_byte_apart() {
    let mut session = Session::new(0);
    session.register(FileName::Custom("a".to_string()), "ab\ncd").unwrap();
    session.register(FileName::Real("/tmp/b.leo".to_string()), "xyz").unwrap();
    session.register(FileName::Anonymous, "").unwrap();
    session.register(FileName::Anonymous, "q").unwrap();
    let starts: Vec<usize> =
        (0..4).map(|i| session.file(FileId(i)).unwrap().start).collect();
    assert_eq!(starts, vec![0, 6, 10, 11]);
    let first = session.file(FileId(0)).unwrap();
    assert_eq!(first.name, FileName::Custom("a".to_string()));
    assert_eq!(first.content, b"ab\ncd".to_vec());
    assert_eq!(first.id, FileId(0));
    assert!(session.file(FileId(4)).is_none());
}

#[test]
fn registering_leaves_earlier_files_alone() {
    let mut session = Session::new(0);
    session.register(FileName::Anonymous, "one\ntwo").unwrap();
    let span = session.span(FileId(0), 4, 7).unwrap();
    let before = session.resolve(span);
    let first = session.file(FileId(0)).unwrap().clone();
    session.register(FileName::Anonymous, "three").unwrap();
    assert_eq!(session.file(FileId(0)), Some(&first));
    assert_eq!(session.resolve(span), before);
}

#[test]
fn span_resolves_to_line_and_columns() {
    let mut session = Session::new(3);
    session.register(FileName::Anonymous, "ab\ncd").unwrap();
    session.register(FileName::Anonymous, "xyz").unwrap();
    let span = session.span(FileId(0), 3, 5).unwrap();
    assert_eq!(span, Span { session: 3, lo: 3, hi: 5 });
    assert_eq!(
        session.resolve(span),
        Ok(Location { file: FileId(0), line: 2, col_start: 1, col_stop: 3 })
    );
    let other = session.span(FileId(1), 1, 2).unwrap();
    assert_eq!(other, Span { session: 3, lo: 7, hi: 8 });
    assert_eq!(
        session.resolve(other),
        Ok(Location { file: FileId(1), line: 1, col_start: 2, col_stop: 3 })
    );
}

#[test]
fn lines_count_line_feeds_before_the_span() {
    let mut session = Session::new(0);
    session.register(FileName::Anonymous, "a\n\nbcd\ne").unwrap();
    let at = |lo: usize, hi: usize| session.resolve(session.span(FileId(0), lo, hi).unwrap());
    assert_eq!(at(0, 1), Ok(Location { file: FileId(0), line: 1, col_start: 1, col_stop: 2 }));
    assert_eq!(at(1, 1), Ok(Location { file: FileId(0), line: 1, col_start: 2, col_stop: 2 }));
    assert_eq!(at(2, 2), Ok(Location { file: FileId(0), line: 2, col_start: 1, col_stop: 1 }));
    assert_eq!(at(4, 6), Ok(Location { file: FileId(0), line: 3, col_start: 2, col_stop: 4 }));
    assert_eq!(at(7, 8), Ok(Location { file: FileId(0), line: 4, col_start: 1, col_stop: 2 }));
    assert_eq!(at(8, 8), Ok(Location { file: FileId(0), line: 4, col_start: 2, col_stop: 2 }));
}

#[test]
fn span_is_made_only_within_a_registered_file() {
    let mut session = Session::new(0);
    session.register(FileName::Anonymous, "abc").unwrap();
    assert!(session.span(FileId(0), 0, 3).is_some());
    assert!(session.span(FileId(0), 0, 4).is_none());
    assert!(session.span(FileId(0), 2, 1).is_none());
    assert!(session.span(FileId(1), 0, 0).is_none());
}

#[test]
fn span_of_another_session_is_rejected() {
    let mut a = Session::new(1);
    let mut b = Session::new(2);
    a.register(FileName::Anonymous, "same text").unwrap();
    b.register(FileName::Anonymous, "same text").unwrap();
    let span = a.span(FileId(0), 0, 4).unwrap();
    assert!(a.resolve(span).is_ok());
    assert_eq!(b.resolve(span), Err(ResolveError::ForeignSession));
    assert_eq!(b.resolve(Span::new(9, 0, 0)), Err(ResolveError::ForeignSession));
}

#[test]
fn span_outside_every_file_is_rejected() {
    let mut session = Session::new(5);
    assert_eq!(session.resolve(Span::new(5, 0, 0)), Err(ResolveError::OutOfBounds));
    session.register(FileName::Anonymous, "ab\ncd").unwrap();
    session.register(FileName::Anonymous, "xyz").unwrap();
    assert_eq!(session.resolve(Span::new(5, 5, 6)), Err(ResolveError::OutOfBounds));
    assert_eq!(session.resolve(Span::new(5, 4, 7)), Err(ResolveError::OutOfBounds));
    assert_eq!(session.resolve(Span::new(5, 9, 10)), Err(ResolveError::OutOfBounds));
    assert_eq!(session.resolve(Span::new(5, 3, 2)), Err(ResolveError::OutOfBounds));
    assert!(session.resolve(Span::new(5, 5, 5)).is_ok());
    assert!(session.resolve(Span::new(5, 9, 9)).is_ok());
}

#[test]
fn interning_gives_one_symbol_to_one_string() {
    let mut session = Session::new(0);
    let main = session.intern("main");
    let x = session.intern("x");
    let again = session.intern("main");
    assert_eq!(main, Symbol(0));
    assert_eq!(x, Symbol(1));
    assert_eq!(again, main);
    assert_eq!(session.symbol_text(main), Some("main"));
    assert_eq!(session.symbol_text(x), Some("x"));
    assert_eq!(session.symbol_text(Symbol(2)), None);
}

#[test]
fn interner_finds_only_what_it_holds() {
    let mut interner = Interner::new();
    assert_eq!(interner.len(), 0);
    assert_eq!(interner.find("a"), None);
    assert_eq!(interner.intern("a"), Symbol(0));
    assert_eq!(interner.intern(""), Symbol(1));
    assert_eq!(interner.intern("a"), Symbol(0));
    assert_eq!(interner.len(), 2);
    assert_eq!(interner.find(""), Some(Symbol(1)));
    assert_eq!(interner.find("b"), None);
    assert_eq!(interner.get(Symbol(1)), Some(""));
    assert_eq!(interner.get(Symbol(2)), None);
    assert!(str_equal("abc", "abc"));
    assert!(!str_equal("abc", "abd"));
    assert!(!str_equal("abc", "ab"));
}

#[test]
fn session_is_made_once_and_reused() {
    let mut unit = UnitOfWork::new();
    assert!(!unit.has_session());
    assert_eq!(unit.create_session_if_not_set(), Ok(true));
    assert_eq!(unit.create_session_if_not_set(), Ok(false));
    assert!(unit.has_session());
    assert_eq!(unit.sessions_made(), 1);
}

#[test]
fn file_ids_keep_counting_across_attempts() {
    let mut unit = UnitOfWork::new();
    let first = unit.session_or_create().register(FileName::Custom("one".to_string()), "a");
    let second = unit.session_or_create().register(FileName::Custom("two".to_string()), "b");
    let third = unit.session_or_create().register(FileName::Custom("three".to_string()), "c");
    assert_eq!(first, Ok(FileId(0)));
    assert_eq!(second, Ok(FileId(1)));
    assert_eq!(third, Ok(FileId(2)));
    assert_eq!(unit.sessions_made(), 1);
    assert_eq!(unit.session_or_create().id(), 0);
}

#[test]
fn a_new_session_after_the_end_has_a_new_number() {
    let mut unit = UnitOfWork::new();
    unit.session_or_create().register(FileName::Anonymous, "text").unwrap();
    let span = unit.session_or_create().span(FileId(0), 0, 4).unwrap();
    let ended = unit.end_session().unwrap();
    assert_eq!(ended.id(), 0);
    assert!(!unit.has_session());
    assert_eq!(unit.end_session(), None);
    let fresh = unit.session_or_create();
    assert_eq!(fresh.id(), 1);
    assert_eq!(fresh.register(FileName::Anonymous, "text"), Ok(FileId(0)));
    assert_eq!(fresh.resolve(span), Err(ResolveError::ForeignSession));
    assert!(ended.resolve(span).is_ok());
}

#[test]
fn no_session_is_made_when_the_numbers_are_used_up() {
    let mut unit = UnitOfWork::resume(u64::MAX);
    assert!(!unit.can_have_session());
    assert_eq!(unit.create_session_if_not_set(), Err(SessionError::Exhausted));
    assert!(!unit.has_session());
    assert_eq!(unit.sessions_made(), u64::MAX);
}
