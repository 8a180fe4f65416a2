use leo_compiler::symbol_table::{DeclKind, Declaration, ScopeId, SymbolError, SymbolTable};
use leo_compiler::updates::TableUpdate;

fn decl(name: &str, kind: DeclKind, ty: Option<&str>) -> Declaration {
    Declaration { name: name.to_string(), kind, ty: ty.map(|t| t.to_string()) }
}

#[test]
fn a_new_table_has_the_root_alone() {
    let table = SymbolTable::new();
    assert_eq!(table.scope_count(), 1);
    assert_eq!(SymbolTable::root(), ScopeId(0));
    assert_eq!(table.lookup(ScopeId(0), "main"), None);
    assert_eq!(table.render_canonical(), "scope 0\n");
}

#[test]
fn scopes_are_numbered_as_they_are_opened() {
    let mut table = SymbolTable::new();
    assert_eq!(table.open_scope(ScopeId(0)), Some(ScopeId(1)));
    assert_eq!(table.open_scope(ScopeId(1)), Some(ScopeId(2)));
    assert_eq!(table.open_scope(ScopeId(0)), Some(ScopeId(3)));
    assert_eq!(table.open_scope(ScopeId(4)), None);
    assert_eq!(table.scope_count(), 4);
}

#[test]
fn a_declaration_is_found_in_its_scope_and_within() {
    let mut table = SymbolTable::new();
    let inner = table.open_scope(ScopeId(0)).unwrap();
    let innermost = table.open_scope(inner).unwrap();
    let aside = table.open_scope(ScopeId(0)).unwrap();
    assert_eq!(table.declare(inner, "x", DeclKind::Variable, Some("u8".to_string())), Ok(()));
    let x = decl("x", DeclKind::Variable, Some("u8"));
    assert_eq!(table.lookup(inner, "x"), Some((inner, &x)));
    assert_eq!(table.lookup(innermost, "x"), Some((inner, &x)));
    assert_eq!(table.lookup(ScopeId(0), "x"), None);
    assert_eq!(table.lookup(aside, "x"), None);
    assert_eq!(table.lookup(ScopeId(9), "x"), None);
}

#[test]
fn the_nearer_declaration_hides_the_outer_one() {
    let mut table = SymbolTable::new();
    let inner = table.open_scope(ScopeId(0)).unwrap();
    table.declare(ScopeId(0), "x", DeclKind::Variable, Some("u8".to_string())).unwrap();
    table.declare(inner, "x", DeclKind::Variable, Some("bool".to_string())).unwrap();
    assert_eq!(
        table.lookup(inner, "x"),
        Some((inner, &decl("x", DeclKind::Variable, Some("bool"))))
    );
    assert_eq!(
        table.lookup(ScopeId(0), "x"),
        Some((ScopeId(0), &decl("x", DeclKind::Variable, Some("u8"))))
    );
}

#[test]
fn a_name_is_declared_once_in_a_scope() {
    let mut table = SymbolTable::new();
    assert_eq!(table.declare(ScopeId(0), "main", DeclKind::Function, None), Ok(()));
    let before = table.clone();
    assert_eq!(
        table.declare(ScopeId(0), "main", DeclKind::Variable, None),
        Err(SymbolError::Duplicate)
    );
    assert_eq!(
        table.declare(ScopeId(3), "other", DeclKind::Variable, None),
        Err(SymbolError::UnknownScope)
    );
    assert_eq!(table, before);
}

#[test]
fn a_type_is_attached_once() {
    let mut table = SymbolTable::new();
    let inner = table.open_scope(ScopeId(0)).unwrap();
    table.declare(ScopeId(0), "x", DeclKind::Variable, None).unwrap();
    assert_eq!(table.refine(inner, "x", "u32"), Ok(()));
    assert_eq!(
        table.lookup(inner, "x"),
        Some((ScopeId(0), &decl("x", DeclKind::Variable, Some("u32"))))
    );
    assert_eq!(table.refine(ScopeId(0), "x", "u32"), Ok(()));
    let before = table.clone();
    assert_eq!(table.refine(ScopeId(0), "x", "u64"), Err(SymbolError::Mismatch));
    assert_eq!(table.refine(ScopeId(0), "y", "u64"), Err(SymbolError::Unknown));
    assert_eq!(table.refine(ScopeId(7), "x", "u32"), Err(SymbolError::UnknownScope));
    assert_eq!(table, before);
}

#[test]
fn rendering_lists_scopes_and_declarations_in_order() {
    let mut table = SymbolTable::new();
    table.declare(ScopeId(0), "Point", DeclKind::Type, None).unwrap();
    table.declare(ScopeId(0), "main", DeclKind::Function, Some("u32".to_string())).unwrap();
    let body = table.open_scope(ScopeId(0)).unwrap();
    table.declare(body, "x", DeclKind::Variable, None).unwrap();
    let block = table.open_scope(body).unwrap();
    table.declare(block, "x", DeclKind::Variable, Some("Point".to_string())).unwrap();
    table.refine(body, "x", "u8").unwrap();
    assert_eq!(
        table.render_canonical(),
        "scope 0\n  type Point\n  function main: u32\nscope 1 in 0\n  variable x: u8\nscope 2 in 1\n  variable x: Point\n"
    );
}

#[test]
fn rendering_writes_scope_numbers_in_decimal() {
    let mut table = SymbolTable::new();
    for _ in 0..11 {
        table.open_scope(ScopeId(0)).unwrap();
    }
    table.open_scope(ScopeId(10)).unwrap();
    let text = table.render_canonical();
    assert!(text.starts_with("scope 0\nscope 1 in 0\nscope 2 in 0\n"));
    assert!(text.ends_with("scope 10 in 0\nscope 11 in 0\nscope 12 in 10\n"));
}

#[test]
fn tables_built_alike_render_alike() {
    let build = || {
        let mut table = SymbolTable::new();
        let inner = table.open_scope(ScopeId(0)).unwrap();
        table.declare(inner, "b", DeclKind::Variable, None).unwrap();
        table.declare(ScopeId(0), "a", DeclKind::Function, None).unwrap();
        table.refine(inner, "a", "u8").unwrap();
        table
    };
    let first = build();
    let second = build();
    assert_eq!(first, second);
    assert_eq!(first.render_canonical(), second.render_canonical());
    assert_eq!(
        first.render_canonical(),
        "scope 0\n  function a: u8\nscope 1 in 0\n  variable b\n"
    );
}

#[test]
fn nothing_that_was_declared_is_lost() {
    let mut table = SymbolTable::new();
    table.declare(ScopeId(0), "a", DeclKind::Function, Some("u8".to_string())).unwrap();
    let inner = table.open_scope(ScopeId(0)).unwrap();
    table.declare(inner, "b", DeclKind::Variable, None).unwrap();
    let a = decl("a", DeclKind::Function, Some("u8"));
    let _ = table.declare(ScopeId(0), "a", DeclKind::Type, None);
    let _ = table.refine(ScopeId(0), "a", "u16");
    let _ = table.open_scope(inner);
    let _ = table.declare(inner, "a", DeclKind::Variable, None);
    let _ = table.refine(inner, "b", "bool");
    assert_eq!(table.lookup(ScopeId(0), "a"), Some((ScopeId(0), &a)));
    assert_eq!(
        table.lookup(inner, "b"),
        Some((inner, &decl("b", DeclKind::Variable, Some("bool"))))
    );
}

#[test]
fn changes_are_made_or_refused_as_the_calls_are() {
    let mut table = SymbolTable::new();
    assert_eq!(table.apply(&TableUpdate::OpenScope { parent: ScopeId(0) }), Ok(()));
    assert_eq!(
        table.apply(&TableUpdate::OpenScope { parent: ScopeId(5) }),
        Err(SymbolError::UnknownScope)
    );
    let declare = TableUpdate::Declare {
        scope: ScopeId(1),
        name: "x".to_string(),
        kind: DeclKind::Variable,
        ty: None,
    };
    assert_eq!(table.apply(&declare), Ok(()));
    assert_eq!(table.apply(&declare), Err(SymbolError::Duplicate));
    let refine =
        TableUpdate::Refine { scope: ScopeId(1), name: "x".to_string(), resolved: "u8".to_string() };
    assert_eq!(table.apply(&refine), Ok(()));
    let clash =
        TableUpdate::Refine { scope: ScopeId(1), name: "x".to_string(), resolved: "u9".to_string() };
    assert_eq!(table.apply(&clash), Err(SymbolError::Mismatch));
    let missing =
        TableUpdate::Refine { scope: ScopeId(0), name: "x".to_string(), resolved: "u8".to_string() };
    assert_eq!(table.apply(&missing), Err(SymbolError::Unknown));
    assert_eq!(table.render_canonical(), "scope 0\nscope 1 in 0\n  variable x: u8\n");
}
