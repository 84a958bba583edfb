//! Scopes, and what is known in each of them.
use crate::ast::{Definition, Use};
use std::rc::Rc;
use vstd::prelude::*;

verus! {

/// A scope, by its place in the table that holds it.
pub type ScopeRef = usize;

/// What is known in a scope. `children` are the scopes of the modules that stand in it.
#[derive(Debug, PartialEq)]
pub struct Scope {
    pub id: u32,
    pub name: String,
    pub parent: Option<ScopeRef>,
    pub children: Vec<ScopeRef>,
    pub imports: Vec<Rc<Use>>,
    pub definitions: Vec<Definition>,
}

/// The place of a scope that may be absent.
pub open spec fn opt_place(o: Option<ScopeRef>) -> Option<nat> {
    match o {
        Some(p) => Some(p as nat),
        None => None,
    }
}

/// The places of scopes.
pub open spec fn places(s: Seq<ScopeRef>) -> Seq<nat> {
    Seq::new(s.len(), |i: int| s[i] as nat)
}

/// What a `Scope` holds.
#[verifier::ext_equal]
pub struct ScopeV {
    pub id: u32,
    pub name: Seq<char>,
    pub parent: Option<nat>,
    pub children: Seq<nat>,
    pub imports: Seq<Rc<Use>>,
    pub definitions: Seq<Definition>,
}

/// A scope in which nothing is known yet.
pub open spec fn empty_scope(id: u32, name: Seq<char>, parent: Option<nat>) -> ScopeV {
    ScopeV {
        id,
        name,
        parent,
        children: Seq::empty(),
        imports: Seq::empty(),
        definitions: Seq::empty(),
    }
}

impl Scope {
    pub open spec fn view(&self) -> ScopeV {
        ScopeV {
            id: self.id,
            name: self.name@,
            parent: opt_place(self.parent),
            children: places(self.children@),
            imports: self.imports@,
            definitions: self.definitions@,
        }
    }

    /// A scope in which nothing is known yet.
    pub fn new(id: u32, name: String, parent: Option<ScopeRef>) -> (r: Scope)
        ensures
            r@ == empty_scope(id, name@, opt_place(parent)),
    {
        let r = Scope {
            id,
            name,
            parent,
            children: Vec::new(),
            imports: Vec::new(),
            definitions: Vec::new(),
        };
        assert(r@ =~= empty_scope(id, name@, opt_place(parent)));
        r
    }
}

/// All scopes, in the order in which they were made.
#[derive(Debug, PartialEq)]
pub struct SymbolTable {
    scopes: Vec<Scope>,
}

impl SymbolTable {
    /// The scopes held, in the order in which they were made.
    pub closed spec fn view(&self) -> Seq<ScopeV> {
        Seq::new(self.scopes@.len(), |i: int| self.scopes@[i]@)
    }

    /// A table without scopes.
    pub fn new() -> (r: SymbolTable)
        ensures
            r@ == Seq::<ScopeV>::empty(),
    {
        SymbolTable { scopes: Vec::new() }
    }

    /// How many scopes are held.
    pub fn len(&self) -> (n: usize)
        ensures
            n == self@.len(),
    {
        self.scopes.len()
    }

    /// The scope at place `scope`.
    pub fn get(&self, scope: ScopeRef) -> (r: &Scope)
        requires
            scope < self@.len(),
        ensures
            r@ == self@[scope as int],
    {
        &self.scopes[scope]
    }

    /// Adds a scope; its place is behind all others.
    pub fn insert_scope(&mut self, scope: Scope) -> (r: ScopeRef)
        ensures
            r == old(self)@.len(),
            final(self)@ == old(self)@.push(scope@),
    {
        let r: ScopeRef = self.scopes.len();
        self.scopes.push(scope);
        r
    }

    /// Makes `child` the last child of `scope`.
    pub fn add_child(&mut self, scope: ScopeRef, child: ScopeRef)
        requires
            scope < old(self)@.len(),
        ensures
            final(self)@ == with_child_scope(old(self)@, scope as nat, child as nat),
    {
        self.scopes[scope].children.push(child);
        assert(self@ =~= with_child_scope(old(self)@, scope as nat, child as nat)) by {
            assert(self@[scope as int].children =~= old(self)@[scope as int].children.push(
                child as nat,
            ));
        }
    }

    /// Makes `import` the last import of `scope`.
    pub fn add_import(&mut self, scope: ScopeRef, import: Rc<Use>)
        requires
            scope < old(self)@.len(),
        ensures
            final(self)@ == with_import(old(self)@, scope as nat, import),
    {
        self.scopes[scope].imports.push(import);
    }

    /// Makes `definition` the last definition of `scope`.
    pub fn add_definition(&mut self, scope: ScopeRef, definition: Definition)
        requires
            scope < old(self)@.len(),
        ensures
            final(self)@ == with_definition(old(self)@, scope as nat, definition),
    {
        self.scopes[scope].definitions.push(definition);
    }
}

/// The table with `child` as the last child of `scope`.
pub open spec fn with_child_scope(t: Seq<ScopeV>, scope: nat, child: nat) -> Seq<ScopeV> {
    t.update(
        scope as int,
        ScopeV { children: t[scope as int].children.push(child), ..t[scope as int] },
    )
}

/// The table with `definition` as the last definition of `scope`.
pub open spec fn with_definition(t: Seq<ScopeV>, scope: nat, definition: Definition) -> Seq<
    ScopeV,
> {
    t.update(
        scope as int,
        ScopeV {
            definitions: t[scope as int].definitions.push(definition),
            ..t[scope as int]
        },
    )
}

/// The table with `import` as the last import of `scope`.
pub open spec fn with_import(t: Seq<ScopeV>, scope: nat, import: Rc<Use>) -> Seq<ScopeV> {
    t.update(
        scope as int,
        ScopeV { imports: t[scope as int].imports.push(import), ..t[scope as int] },
    )
}

/// Makes `definition` known in `scope`.
pub fn process_definition(scope: ScopeRef, definition: Definition, table: &mut SymbolTable)
    requires
        scope < old(table)@.len(),
    ensures
        final(table)@ == with_definition(old(table)@, scope as nat, definition),
{
    table.add_definition(scope, definition);
}

} // verus!
