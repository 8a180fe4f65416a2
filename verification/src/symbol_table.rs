//! The symbol table: the declarations of a program, by the scope that each
//! stands in. Scopes form a tree; a name is looked up in a scope and then
//! in the scopes around it. The table only grows: a declaration, once
//! made, stays, and can at most gain a type.

use crate::text::{decimal, push_decimal};
use vstd::prelude::*;
use vstd::string::*;

verus! {

/// What a name is declared as.
#[derive(Clone, Copy, Debug, PartialEq, Eq, Structural)]
pub enum DeclKind {
    Function,
    Type,
    Variable,
}

/// The number of a scope in its table. The root, which is the program, is 0;
/// every other scope has a higher number than the scope around it.
#[derive(Clone, Copy, Debug, PartialEq, Eq, Hash, Structural)]
pub struct ScopeId(pub usize);

/// One declaration: a name, what it is, and its type once that is resolved.
#[derive(Clone, Debug, PartialEq, Eq)]
pub struct Declaration {
    pub name: String,
    pub kind: DeclKind,
    pub ty: Option<String>,
}

/// A declaration, as contracts see it.
pub struct DeclarationView {
    pub name: Seq<char>,
    pub kind: DeclKind,
    pub ty: Option<Seq<char>>,
}

impl View for Declaration {
    type V = DeclarationView;

    open spec fn view(&self) -> DeclarationView {
        DeclarationView {
            name: self.name@,
            kind: self.kind,
            ty: match self.ty {
                Some(ty) => Some(ty@),
                None => None,
            },
        }
    }
}

/// One scope: the scope around it, and its declarations in the order in
/// which they were made.
#[derive(Clone, Debug, PartialEq, Eq)]
pub struct Scope {
    pub parent: Option<ScopeId>,
    pub entries: Vec<Declaration>,
}

/// A scope, as contracts see it.
pub struct ScopeView {
    pub parent: Option<ScopeId>,
    pub entries: Seq<DeclarationView>,
}

impl View for Scope {
    type V = ScopeView;

    open spec fn view(&self) -> ScopeView {
        ScopeView {
            parent: self.parent,
            entries: Seq::new(self.entries@.len(), |i: int| self.entries@[i]@),
        }
    }
}

/// Why the table refused a change.
#[derive(Clone, Copy, Debug, PartialEq, Eq, Structural)]
pub enum SymbolError {
    /// The table has no scope of that number.
    UnknownScope,
    /// The scope already declares the name.
    Duplicate,
    /// Neither the scope nor any scope around it declares the name.
    Unknown,
    /// The declaration already has another type.
    Mismatch,
}

/// The first place below `n` at which `entries` declares `name`, or `n` if
/// there is none.
pub open spec fn find_entry(entries: Seq<DeclarationView>, name: Seq<char>, n: int) -> int
    decreases n,
{
    if n <= 0 {
        0
    } else {
        let before = find_entry(entries, name, n - 1);
        if before < n - 1 {
            before
        } else if entries[n - 1].name == name {
            n - 1
        } else {
            n
        }
    }
}

/// Whether `entries` declares `name`.
pub open spec fn declares(entries: Seq<DeclarationView>, name: Seq<char>) -> bool {
    find_entry(entries, name, entries.len() as int) < entries.len()
}

/// Whether `scopes` form a tree as a table keeps it: there is a root, which
/// has no scope around it, every other scope lies in one of a lower number,
/// and no scope declares a name twice.
pub open spec fn well_formed(scopes: Seq<ScopeView>) -> bool {
    &&& scopes.len() > 0
    &&& scopes[0].parent is None
    &&& forall|s: int|
        0 < s < scopes.len() ==> (#[trigger] scopes[s]).parent is Some
            && scopes[s].parent->Some_0.0 < s
    &&& forall|s: int, i: int, j: int|
        0 <= s < scopes.len() && 0 <= i < j < scopes[s].entries.len() ==> (
        #[trigger] scopes[s].entries[i]).name != (#[trigger] scopes[s].entries[j]).name
}

/// Where `name` is found when looked up from `scope`: in that scope, else
/// in the nearest scope around it that declares the name. The result is the
/// scope and the place of the declaration in it.
pub open spec fn lookup_in(scopes: Seq<ScopeView>, scope: int, name: Seq<char>) -> Option<
    (int, int),
>
    decreases scope,
{
    if !(0 <= scope < scopes.len()) {
        None
    } else if declares(scopes[scope].entries, name) {
        Some((scope, find_entry(scopes[scope].entries, name, scopes[scope].entries.len() as int)))
    } else {
        match scopes[scope].parent {
            Some(parent) => if parent.0 < scope {
                lookup_in(scopes, parent.0 as int, name)
            } else {
                None
            },
            None => None,
        }
    }
}

/// Whether `after` keeps all that `before` holds: every scope with the scope
/// around it, every declaration with its name and kind at its place, and
/// every type that was resolved. Scopes, declarations and types may have
/// been added.
pub open spec fn extends(before: Seq<ScopeView>, after: Seq<ScopeView>) -> bool {
    &&& before.len() <= after.len()
    &&& forall|s: int|
        0 <= s < before.len() ==> (#[trigger] after[s]).parent == before[s].parent
            && before[s].entries.len() <= after[s].entries.len()
    &&& forall|s: int, e: int|
        0 <= s < before.len() && 0 <= e < before[s].entries.len() ==> {
            &&& (#[trigger] after[s].entries[e]).name == before[s].entries[e].name
            &&& after[s].entries[e].kind == before[s].entries[e].kind
            &&& before[s].entries[e].ty is Some ==> after[s].entries[e].ty
                == before[s].entries[e].ty
        }
}

/// A table keeps all that it holds.
pub proof fn extends_is_reflexive(scopes: Seq<ScopeView>)
    ensures
        extends(scopes, scopes),
{
}

/// What is kept over two changes in a row is kept over both.
pub proof fn extends_is_transitive(a: Seq<ScopeView>, b: Seq<ScopeView>, c: Seq<ScopeView>)
    requires
        extends(a, b),
        extends(b, c),
    ensures
        extends(a, c),
{
    assert forall|s: int, e: int| 0 <= s < a.len() && 0 <= e < a[s].entries.len() implies {
        &&& (#[trigger] c[s].entries[e]).name == a[s].entries[e].name
        &&& c[s].entries[e].kind == a[s].entries[e].kind
        &&& a[s].entries[e].ty is Some ==> c[s].entries[e].ty == a[s].entries[e].ty
    } by {
        assert(b[s].parent == a[s].parent);
        assert(b[s].entries[e].name == a[s].entries[e].name);
    }
    assert forall|s: int| 0 <= s < a.len() implies (#[trigger] c[s]).parent == a[s].parent
        && a[s].entries.len() <= c[s].entries.len() by {
        assert(b[s].parent == a[s].parent);
    }
}

/// The type of a declaration, as contracts see it.
pub open spec fn type_view(ty: Option<String>) -> Option<Seq<char>> {
    match ty {
        Some(ty) => Some(ty@),
        None => None,
    }
}

/// The symbol table of one program.
#[derive(Clone, Debug, PartialEq, Eq)]
pub struct SymbolTable {
    scopes: Vec<Scope>,
}

impl View for SymbolTable {
    type V = Seq<ScopeView>;

    closed spec fn view(&self) -> Seq<ScopeView> {
        Seq::new(self.scopes@.len(), |i: int| self.scopes@[i]@)
    }
}

/// The place in `entries` at which `name` is declared, or their number if it
/// is not.
fn position(entries: &Vec<Declaration>, name: &str) -> (at: usize)
    ensures
        at <= entries@.len(),
        at == find_entry(
            Seq::new(entries@.len(), |i: int| entries@[i]@),
            name@,
            entries@.len() as int,
        ),
{
    let ghost views = Seq::new(entries@.len(), |i: int| entries@[i]@);
    let wanted = String::from_str(name);
    let mut i: usize = 0;
    while i < entries.len()
        invariant
            i <= entries.len(),
            wanted@ == name@,
            views == Seq::new(entries@.len(), |i: int| entries@[i]@),
            find_entry(views, name@, i as int) == i,
        decreases entries.len() - i,
    {
        assert(views[i as int].name == entries@[i as int].name@);
        if entries[i].name == wanted {
            proof {
                find_entry_stays(views, name@, i as int + 1, entries@.len() as int);
            }
            return i;
        }
        i = i + 1;
    }
    i
}

/// Once `name` is found below `n`, looking further changes nothing.
pub proof fn find_entry_stays(entries: Seq<DeclarationView>, name: Seq<char>, n: int, m: int)
    requires
        0 <= n <= m,
        find_entry(entries, name, n) < n,
    ensures
        find_entry(entries, name, m) == find_entry(entries, name, n),
    decreases m - n,
{
    if n < m {
        find_entry_stays(entries, name, n, m - 1);
    }
}

/// `find_entry` finds the first declaration of `name` below `n`: what it
/// returns declares it, unless it is `n`, and nothing before it does.
pub proof fn find_entry_is_first(entries: Seq<DeclarationView>, name: Seq<char>, n: int)
    requires
        0 <= n <= entries.len(),
    ensures
        0 <= find_entry(entries, name, n) <= n,
        find_entry(entries, name, n) < n ==> entries[find_entry(entries, name, n)].name == name,
        forall|i: int| 0 <= i < find_entry(entries, name, n) ==> entries[i].name != name,
    decreases n,
{
    if n > 0 {
        find_entry_is_first(entries, name, n - 1);
    }
}

impl SymbolTable {
    /// Holds of every table that this module hands out.
    pub open spec fn wf(&self) -> bool {
        well_formed(self@)
    }

    /// A table with the root scope alone, which declares nothing.
    pub fn new() -> (table: SymbolTable)
        ensures
            table.wf(),
            table@ == seq![ScopeView { parent: None, entries: Seq::empty() }],
    {
        let mut scopes: Vec<Scope> = Vec::new();
        scopes.push(Scope { parent: None, entries: Vec::new() });
        let table = SymbolTable { scopes };
        assert(table@[0].entries =~= Seq::<DeclarationView>::empty());
        assert(table@ =~= seq![ScopeView { parent: None, entries: Seq::empty() }]);
        table
    }

    /// The root scope.
    pub fn root() -> (root: ScopeId)
        ensures
            root == ScopeId(0),
    {
        ScopeId(0)
    }

    /// The number of scopes.
    pub fn scope_count(&self) -> (n: usize)
        ensures
            n == self@.len(),
    {
        self.scopes.len()
    }

    /// Opens a scope in `parent` that declares nothing yet, and gives its
    /// number: the next one. `None`, and no change, where the table has no
    /// scope `parent`.
    pub fn open_scope(&mut self, parent: ScopeId) -> (opened: Option<ScopeId>)
        requires
            old(self).wf(),
        ensures
            final(self).wf(),
            extends(old(self)@, final(self)@),
            match opened {
                Some(id) => {
                    &&& parent.0 < old(self)@.len()
                    &&& id.0 == old(self)@.len()
                    &&& final(self)@ == old(self)@.push(
                        ScopeView { parent: Some(parent), entries: Seq::empty() },
                    )
                },
                None => parent.0 >= old(self)@.len() && final(self)@ == old(self)@,
            },
    {
        let n = self.scopes.len();
        if parent.0 >= n {
            return None;
        }
        self.scopes.push(Scope { parent: Some(parent), entries: Vec::new() });
        proof {
            assert(self@[n as int].entries =~= Seq::<DeclarationView>::empty());
            assert(self@ =~= old(self)@.push(
                ScopeView { parent: Some(parent), entries: Seq::empty() },
            ));
        }
        Some(ScopeId(n))
    }
}

/// `scopes` with `entry` added behind the declarations of the scope `scope`.
pub open spec fn with_entry(scopes: Seq<ScopeView>, scope: int, entry: DeclarationView) -> Seq<
    ScopeView,
> {
    scopes.update(
        scope,
        ScopeView { parent: scopes[scope].parent, entries: scopes[scope].entries.push(entry) },
    )
}

/// `scopes` with the type `ty` on the declaration at place `at` of the scope
/// `scope`.
pub open spec fn with_type(scopes: Seq<ScopeView>, scope: int, at: int, ty: Seq<char>) -> Seq<
    ScopeView,
> {
    scopes.update(
        scope,
        ScopeView {
            parent: scopes[scope].parent,
            entries: scopes[scope].entries.update(
                at,
                DeclarationView {
                    name: scopes[scope].entries[at].name,
                    kind: scopes[scope].entries[at].kind,
                    ty: Some(ty),
                },
            ),
        },
    )
}

/// A name that is found is found in a scope of the table, at a place of
/// that scope, and under that name.
pub proof fn lookup_in_finds_name(scopes: Seq<ScopeView>, scope: int, name: Seq<char>)
    requires
        lookup_in(scopes, scope, name) is Some,
    ensures
        0 <= lookup_in(scopes, scope, name)->Some_0.0 <= scope,
        lookup_in(scopes, scope, name)->Some_0.0 < scopes.len(),
        0 <= lookup_in(scopes, scope, name)->Some_0.1
            < scopes[lookup_in(scopes, scope, name)->Some_0.0].entries.len(),
        scopes[lookup_in(scopes, scope, name)->Some_0.0].entries[lookup_in(
            scopes,
            scope,
            name,
        )->Some_0.1].name == name,
    decreases scope,
{
    if declares(scopes[scope].entries, name) {
        find_entry_is_first(scopes[scope].entries, name, scopes[scope].entries.len() as int);
    } else {
        lookup_in_finds_name(scopes, scopes[scope].parent->Some_0.0 as int, name);
    }
}

impl SymbolTable {
    /// The scope and the place at which `name` is found from `scope`.
    fn locate(&self, scope: ScopeId, name: &str) -> (found: Option<(usize, usize)>)
        ensures
            match found {
                Some((s, e)) => lookup_in(self@, scope.0 as int, name@) == Some((s as int, e as int))
                    && s < self.scopes@.len() && e < self.scopes@[s as int].entries@.len(),
                None => lookup_in(self@, scope.0 as int, name@) is None,
            },
    {
        let mut current: usize = scope.0;
        loop
            invariant
                lookup_in(self@, current as int, name@) == lookup_in(self@, scope.0 as int, name@),
            decreases current,
        {
            if current >= self.scopes.len() {
                return None;
            }
            let at = position(&self.scopes[current].entries, name);
            assert(self@[current as int].entries == Seq::new(
                self.scopes@[current as int].entries@.len(),
                |i: int| self.scopes@[current as int].entries@[i]@,
            ));
            if at < self.scopes[current].entries.len() {
                return Some((current, at));
            }
            match self.scopes[current].parent {
                Some(parent) => {
                    if parent.0 < current {
                        current = parent.0;
                    } else {
                        return None;
                    }
                },
                None => {
                    return None;
                },
            }
        }
    }

    /// Looks `name` up from `scope`: in that scope first, then in the scopes
    /// around it, nearest first. A declaration in a nearer scope hides one of
    /// the same name further out. Gives the scope that declares the name,
    /// and the declaration.
    pub fn lookup(&self, scope: ScopeId, name: &str) -> (found: Option<(ScopeId, &Declaration)>)
        ensures
            found is Some <==> lookup_in(self@, scope.0 as int, name@) is Some,
            found is Some ==> {
                let (s, e) = lookup_in(self@, scope.0 as int, name@)->Some_0;
                found->Some_0.0.0 == s && found->Some_0.1@ == self@[s].entries[e]
            },
    {
        match self.locate(scope, name) {
            Some((s, e)) => {
                assert(self@[s as int].entries[e as int] == self.scopes@[s as int].entries@[e as int]@);
                Some((ScopeId(s), &self.scopes[s].entries[e]))
            },
            None => None,
        }
    }

    /// Declares `name` in `scope`, behind what the scope declares already.
    /// Refused, with no change, where the table has no such scope, or the
    /// scope declares the name already. What other scopes declare is no
    /// hindrance: the new declaration hides theirs from `scope` inwards.
    pub fn declare(&mut self, scope: ScopeId, name: &str, kind: DeclKind, ty: Option<String>) -> (out:
        Result<(), SymbolError>)
        requires
            old(self).wf(),
        ensures
            final(self).wf(),
            extends(old(self)@, final(self)@),
            match out {
                Ok(_) => {
                    &&& scope.0 < old(self)@.len()
                    &&& !declares(old(self)@[scope.0 as int].entries, name@)
                    &&& final(self)@ == with_entry(
                        old(self)@,
                        scope.0 as int,
                        DeclarationView { name: name@, kind, ty: type_view(ty) },
                    )
                },
                Err(SymbolError::UnknownScope) => scope.0 >= old(self)@.len() && final(self)@
                    == old(self)@,
                Err(SymbolError::Duplicate) => scope.0 < old(self)@.len() && declares(
                    old(self)@[scope.0 as int].entries,
                    name@,
                ) && final(self)@ == old(self)@,
                Err(_) => false,
            },
    {
        if scope.0 >= self.scopes.len() {
            return Err(SymbolError::UnknownScope);
        }
        let at = position(&self.scopes[scope.0].entries, name);
        assert(self@[scope.0 as int].entries == Seq::new(
            self.scopes@[scope.0 as int].entries@.len(),
            |i: int| self.scopes@[scope.0 as int].entries@[i]@,
        ));
        if at < self.scopes[scope.0].entries.len() {
            return Err(SymbolError::Duplicate);
        }
        let entry = Declaration { name: String::from_str(name), kind, ty };
        self.scopes[scope.0].entries.push(entry);
        proof {
            let before = old(self)@;
            let after = self@;
            let added = DeclarationView { name: name@, kind, ty: type_view(ty) };
            assert(after[scope.0 as int].entries =~= before[scope.0 as int].entries.push(added));
            assert(after =~= with_entry(before, scope.0 as int, added));
            find_entry_is_first(
                before[scope.0 as int].entries,
                name@,
                before[scope.0 as int].entries.len() as int,
            );
            assert forall|s: int, i: int, j: int|
                0 <= s < after.len() && 0 <= i < j < after[s].entries.len() implies (
            #[trigger] after[s].entries[i]).name != (#[trigger] after[s].entries[j]).name by {
                if s == scope.0 && j == before[s].entries.len() {
                    assert(before[s].entries[i].name != name@);
                } else {
                    assert(before[s].entries[i].name != before[s].entries[j].name);
                }
            }
            assert forall|s: int| 0 < s < after.len() implies (#[trigger] after[s]).parent is Some
                && after[s].parent->Some_0.0 < s by {
                assert(before[s].parent is Some);
            }
        }
        Ok(())
    }
}

impl SymbolTable {
    /// Gives the type `ty` to the declaration of `name` that is found from
    /// `scope`. One that has no type yet gains it; one that has this very
    /// type stays as it is. Refused, with no change, where the table has no
    /// such scope, where the name is not found, and where the declaration has
    /// another type already: a type, once resolved, is never replaced.
    pub fn refine(&mut self, scope: ScopeId, name: &str, ty: &str) -> (out: Result<(), SymbolError>)
        requires
            old(self).wf(),
        ensures
            final(self).wf(),
            extends(old(self)@, final(self)@),
            match out {
                Ok(_) => {
                    &&& lookup_in(old(self)@, scope.0 as int, name@) is Some
                    &&& ({
                        let (s, e) = lookup_in(old(self)@, scope.0 as int, name@)->Some_0;
                        &&& old(self)@[s].entries[e].ty is None || old(self)@[s].entries[e].ty
                            == Some(ty@)
                        &&& final(self)@ == with_type(old(self)@, s, e, ty@)
                    })
                },
                Err(SymbolError::UnknownScope) => scope.0 >= old(self)@.len() && final(self)@
                    == old(self)@,
                Err(SymbolError::Unknown) => scope.0 < old(self)@.len() && lookup_in(
                    old(self)@,
                    scope.0 as int,
                    name@,
                ) is None && final(self)@ == old(self)@,
                Err(SymbolError::Mismatch) => {
                    &&& lookup_in(old(self)@, scope.0 as int, name@) is Some
                    &&& ({
                        let (s, e) = lookup_in(old(self)@, scope.0 as int, name@)->Some_0;
                        old(self)@[s].entries[e].ty is Some && old(self)@[s].entries[e].ty
                            != Some(ty@)
                    })
                    &&& final(self)@ == old(self)@
                },
                Err(SymbolError::Duplicate) => false,
            },
    {
        if scope.0 >= self.scopes.len() {
            return Err(SymbolError::UnknownScope);
        }
        match self.locate(scope, name) {
            None => Err(SymbolError::Unknown),
            Some((s, e)) => {
                let wanted = String::from_str(ty);
                assert(self@[s as int].entries[e as int] == self.scopes@[s as int].entries@[e as int]@);
                let settled = match &self.scopes[s].entries[e].ty {
                    Some(have) => Some(*have == wanted),
                    None => None,
                };
                match settled {
                    Some(false) => Err(SymbolError::Mismatch),
                    _ => {
                        self.scopes[s].entries[e].ty = Some(wanted);
                        proof {
                            let before = old(self)@;
                            let after = self@;
                            assert(after[s as int].entries =~= with_type(
                                before,
                                s as int,
                                e as int,
                                ty@,
                            )[s as int].entries);
                            assert(after =~= with_type(before, s as int, e as int, ty@));
                            assert forall|x: int, i: int, j: int|
                                0 <= x < after.len() && 0 <= i < j < after[x].entries.len() implies (
                            #[trigger] after[x].entries[i]).name != (
                            #[trigger] after[x].entries[j]).name by {
                                assert(before[x].entries[i].name != before[x].entries[j].name);
                            }
                            assert forall|x: int| 0 < x < after.len() implies (
                            #[trigger] after[x]).parent is Some && after[x].parent->Some_0.0
                                < x by {
                                assert(before[x].parent is Some);
                            }
                        }
                        Ok(())
                    },
                }
            },
        }
    }
}

/// The word that a kind is written as.
pub open spec fn kind_word(kind: DeclKind) -> Seq<char> {
    match kind {
        DeclKind::Function => "function"@,
        DeclKind::Type => "type"@,
        DeclKind::Variable => "variable"@,
    }
}

/// The line of a declaration: two blanks, the kind, a blank and the name;
/// then, where the type is resolved, a colon, a blank and the type; then a
/// line feed.
pub open spec fn render_entry(entry: DeclarationView) -> Seq<char> {
    "  "@ + kind_word(entry.kind) + " "@ + entry.name + (match entry.ty {
        Some(ty) => ": "@ + ty,
        None => Seq::empty(),
    }) + "\n"@
}

/// The lines of the first `n` declarations of `entries`, in their order.
pub open spec fn render_entries(entries: Seq<DeclarationView>, n: int) -> Seq<char>
    decreases n,
{
    if n <= 0 {
        Seq::empty()
    } else {
        render_entries(entries, n - 1) + render_entry(entries[n - 1])
    }
}

/// The line that begins a scope: `scope`, a blank and its number; then, for
/// all but the root, ` in ` and the number of the scope around it; then a
/// line feed.
pub open spec fn render_header(number: int, parent: Option<ScopeId>) -> Seq<char> {
    "scope "@ + decimal(number as nat) + (match parent {
        Some(around) => " in "@ + decimal(around.0 as nat),
        None => Seq::empty(),
    }) + "\n"@
}

/// The scope of number `number`: its first line, then its declarations.
pub open spec fn render_scope(number: int, scope: ScopeView) -> Seq<char> {
    render_header(number, scope.parent) + render_entries(scope.entries, scope.entries.len() as int)
}

/// The first `n` scopes of `scopes`, in the order of their numbers.
pub open spec fn render_scopes(scopes: Seq<ScopeView>, n: int) -> Seq<char>
    decreases n,
{
    if n <= 0 {
        Seq::empty()
    } else {
        render_scopes(scopes, n - 1) + render_scope(n - 1, scopes[n - 1])
    }
}

/// The rendering of a table: its scopes by number, each with its
/// declarations in the order in which they were made. It depends on what the
/// table holds and on nothing else.
pub open spec fn render(scopes: Seq<ScopeView>) -> Seq<char> {
    render_scopes(scopes, scopes.len() as int)
}

/// Appends the line of `entry` to `text`.
fn push_entry(text: &mut String, entry: &Declaration)
    ensures
        final(text)@ == old(text)@ + render_entry(entry@),
{
    text.append("  ");
    match entry.kind {
        DeclKind::Function => text.append("function"),
        DeclKind::Type => text.append("type"),
        DeclKind::Variable => text.append("variable"),
    }
    text.append(" ");
    text.append(entry.name.as_str());
    match &entry.ty {
        Some(ty) => {
            text.append(": ");
            text.append(ty.as_str());
        },
        None => {},
    }
    text.append("\n");
    assert(text@ =~= old(text)@ + render_entry(entry@));
}

/// Appends the scope of number `number` to `text`.
fn push_scope(text: &mut String, number: usize, scope: &Scope)
    ensures
        final(text)@ == old(text)@ + render_scope(number as int, scope@),
{
    text.append("scope ");
    push_decimal(text, number as u64);
    match scope.parent {
        Some(around) => {
            text.append(" in ");
            push_decimal(text, around.0 as u64);
        },
        None => {},
    }
    text.append("\n");
    assert(text@ =~= old(text)@ + render_header(number as int, scope.parent));
    let mut i: usize = 0;
    while i < scope.entries.len()
        invariant
            i <= scope.entries.len(),
            text@ == old(text)@ + render_header(number as int, scope.parent) + render_entries(
                scope@.entries,
                i as int,
            ),
        decreases scope.entries.len() - i,
    {
        push_entry(text, &scope.entries[i]);
        i = i + 1;
        assert(text@ =~= old(text)@ + render_header(number as int, scope.parent) + render_entries(
            scope@.entries,
            i as int,
        ));
    }
    assert(text@ =~= old(text)@ + render_scope(number as int, scope@));
}

impl SymbolTable {
    /// The rendering of the table, by which two tables are compared: the
    /// same for any two tables that hold the same.
    pub fn render_canonical(&self) -> (text: String)
        ensures
            text@ == render(self@),
    {
        let mut text = String::new();
        let mut i: usize = 0;
        while i < self.scopes.len()
            invariant
                i <= self.scopes.len(),
                text@ == render_scopes(self@, i as int),
            decreases self.scopes.len() - i,
        {
            push_scope(&mut text, i, &self.scopes[i]);
            i = i + 1;
            assert(text@ =~= render_scopes(self@, i as int));
        }
        text
    }
}

/// Two tables that hold the same render alike, whatever way each was built.
pub proof fn equal_tables_render_alike(a: SymbolTable, b: SymbolTable)
    requires
        a@ == b@,
    ensures
        render(a@) == render(b@),
{
}

/// A scope declares a name exactly where one of its declarations has it.
pub proof fn declares_iff_named(entries: Seq<DeclarationView>, name: Seq<char>)
    ensures
        declares(entries, name) <==> exists|i: int|
            0 <= i < entries.len() && (#[trigger] entries[i]).name == name,
{
    find_entry_is_first(entries, name, entries.len() as int);
    if exists|i: int| 0 <= i < entries.len() && (#[trigger] entries[i]).name == name {
        let i = choose|i: int| 0 <= i < entries.len() && (#[trigger] entries[i]).name == name;
        assert(entries[i].name == name);
    } else {
        if declares(entries, name) {
            let at = find_entry(entries, name, entries.len() as int);
            assert(entries[at].name == name);
        }
    }
}

} // verus!
