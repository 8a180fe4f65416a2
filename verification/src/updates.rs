//! The changes that a pass asks of the symbol table, and what the table
//! does with each.

use crate::symbol_table::{
    declares, extends, lookup_in, lookup_in_finds_name, type_view, with_entry, with_type,
    DeclKind, DeclarationView,
    ScopeId, ScopeView, SymbolError, SymbolTable,
};
use vstd::prelude::*;
use vstd::string::*;

verus! {

/// One change to the symbol table.
#[derive(Clone, Debug, PartialEq, Eq)]
pub enum TableUpdate {
    /// Open a scope in `parent`.
    OpenScope { parent: ScopeId },
    /// Declare `name` in `scope`.
    Declare { scope: ScopeId, name: String, kind: DeclKind, ty: Option<String> },
    /// Give the type `resolved` to the declaration of `name` that is found from
    /// `scope`.
    Refine { scope: ScopeId, name: String, resolved: String },
}

/// A change, as contracts see it.
pub enum TableUpdateView {
    OpenScope { parent: ScopeId },
    Declare { scope: ScopeId, name: Seq<char>, kind: DeclKind, ty: Option<Seq<char>> },
    Refine { scope: ScopeId, name: Seq<char>, resolved: Seq<char> },
}

impl View for TableUpdate {
    type V = TableUpdateView;

    open spec fn view(&self) -> TableUpdateView {
        match self {
            TableUpdate::OpenScope { parent } => TableUpdateView::OpenScope { parent: *parent },
            TableUpdate::Declare { scope, name, kind, ty } => TableUpdateView::Declare {
                scope: *scope,
                name: name@,
                kind: *kind,
                ty: type_view(*ty),
            },
            TableUpdate::Refine { scope, name, resolved } => TableUpdateView::Refine {
                scope: *scope,
                name: name@,
                resolved: resolved@,
            },
        }
    }
}

impl TableUpdateView {
    /// The name that the change is about; empty for a new scope.
    pub open spec fn name(self) -> Seq<char> {
        match self {
            TableUpdateView::OpenScope { .. } => Seq::empty(),
            TableUpdateView::Declare { name, .. } => name,
            TableUpdateView::Refine { name, .. } => name,
        }
    }
}

/// What `update` makes of a table that holds `scopes`: the table after the
/// change, or the reason for which it is refused.
pub open spec fn apply_update(scopes: Seq<ScopeView>, update: TableUpdateView) -> Result<
    Seq<ScopeView>,
    SymbolError,
> {
    match update {
        TableUpdateView::OpenScope { parent } => if parent.0 < scopes.len() {
            Ok(scopes.push(ScopeView { parent: Some(parent), entries: Seq::empty() }))
        } else {
            Err(SymbolError::UnknownScope)
        },
        TableUpdateView::Declare { scope, name, kind, ty } => if scope.0 >= scopes.len() {
            Err(SymbolError::UnknownScope)
        } else if declares(scopes[scope.0 as int].entries, name) {
            Err(SymbolError::Duplicate)
        } else {
            Ok(with_entry(scopes, scope.0 as int, DeclarationView { name, kind, ty }))
        },
        TableUpdateView::Refine { scope, name, resolved } => if scope.0 >= scopes.len() {
            Err(SymbolError::UnknownScope)
        } else {
            match lookup_in(scopes, scope.0 as int, name) {
                None => Err(SymbolError::Unknown),
                Some((s, e)) => if scopes[s].entries[e].ty is None || scopes[s].entries[e].ty
                    == Some(resolved) {
                    Ok(with_type(scopes, s, e, resolved))
                } else {
                    Err(SymbolError::Mismatch)
                },
            }
        },
    }
}

impl SymbolTable {
    /// Makes the change `update`, or refuses it and changes nothing.
    pub fn apply(&mut self, update: &TableUpdate) -> (out: Result<(), SymbolError>)
        requires
            old(self).wf(),
        ensures
            final(self).wf(),
            extends(old(self)@, final(self)@),
            match out {
                Ok(_) => apply_update(old(self)@, update@) == Ok::<Seq<ScopeView>, SymbolError>(
                    final(self)@,
                ),
                Err(reason) => apply_update(old(self)@, update@) == Err::<
                    Seq<ScopeView>,
                    SymbolError,
                >(reason) && final(self)@ == old(self)@,
            },
    {
        match update {
            TableUpdate::OpenScope { parent } => {
                match self.open_scope(*parent) {
                    Some(_) => Ok(()),
                    None => Err(SymbolError::UnknownScope),
                }
            },
            TableUpdate::Declare { scope, name, kind, ty } => {
                self.declare(*scope, name.as_str(), *kind, ty.clone())
            },
            TableUpdate::Refine { scope, name, resolved } => {
                self.refine(*scope, name.as_str(), resolved.as_str())
            },
        }
    }
}

/// A change that the table makes only adds: every scope, every declaration
/// and every resolved type that was there is there after it.
pub proof fn a_change_only_adds(scopes: Seq<ScopeView>, update: TableUpdateView)
    requires
        apply_update(scopes, update) is Ok,
    ensures
        extends(scopes, apply_update(scopes, update)->Ok_0),
{
    let after = apply_update(scopes, update)->Ok_0;
    match update {
        TableUpdateView::OpenScope { parent } => {},
        TableUpdateView::Declare { scope, name, kind, ty } => {},
        TableUpdateView::Refine { scope, name, resolved } => {
            lookup_in_finds_name(scopes, scope.0 as int, name);
        },
    }
    assert forall|s: int, e: int| 0 <= s < scopes.len() && 0 <= e < scopes[s].entries.len() implies {
        &&& (#[trigger] after[s].entries[e]).name == scopes[s].entries[e].name
        &&& after[s].entries[e].kind == scopes[s].entries[e].kind
        &&& scopes[s].entries[e].ty is Some ==> after[s].entries[e].ty == scopes[s].entries[e].ty
    } by {}
}

} // verus!
