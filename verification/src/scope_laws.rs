//! What holds of scopes and of runs, whatever files are read.
use crate::ast::{Definition, Directive, File, Module, NodeKind, Use};
use crate::context::ParserCtx;
use crate::count::file_ids;
use crate::file_provider::submodule_path;
use crate::laws::lies_under;
use crate::parse::{
    file_added, lemma_children_files, module_files, paths_of, queue_view, registry, scopes_known,
    skip_reason, skipped_view, source_of, turn, turns, with_children, with_definitions, with_module,
    with_scope, with_skipped, Registry,
};
use crate::symbol_table::{with_child_scope, with_definition, with_import, ScopeV};
use crate::text::segment;
use std::rc::Rc;
use vstd::prelude::*;

verus! {

/// Whether `b` is `a` with nothing changed but what was added behind what was there.
pub open spec fn scope_kept(a: ScopeV, b: ScopeV) -> bool {
    &&& a.id == b.id
    &&& a.name == b.name
    &&& a.parent == b.parent
    &&& a.children.is_prefix_of(b.children)
    &&& a.imports.is_prefix_of(b.imports)
    &&& a.definitions.is_prefix_of(b.definitions)
}

/// Whether every scope of `t` is kept at its place in `u`.
pub open spec fn scopes_kept(t: Seq<ScopeV>, u: Seq<ScopeV>) -> bool {
    &&& t.len() <= u.len()
    &&& forall|i: int| 0 <= i < t.len() ==> scope_kept(#[trigger] t[i], u[i])
}

/// Whether every scope with a parent stands behind it, is named after it, and is one of its
/// children.
pub open spec fn scopes_linked(t: Seq<ScopeV>) -> bool {
    forall|i: int|
        0 <= i < t.len() ==> ((#[trigger] t[i]).parent matches Some(p) ==> {
            &&& p < i
            &&& lies_under(t[i].name, t[p as int].name)
            &&& t[p as int].children.contains(i as nat)
        })
}

proof fn lemma_prefix_trans<T>(a: Seq<T>, b: Seq<T>, c: Seq<T>)
    requires
        a.is_prefix_of(b),
        b.is_prefix_of(c),
    ensures
        a.is_prefix_of(c),
{
    assert(a =~= c.take(a.len() as int)) by {
        assert(a =~= b.take(a.len() as int));
    }
}

proof fn lemma_kept_trans(t: Seq<ScopeV>, u: Seq<ScopeV>, v: Seq<ScopeV>)
    requires
        scopes_kept(t, u),
        scopes_kept(u, v),
    ensures
        scopes_kept(t, v),
{
    assert forall|i: int| 0 <= i < t.len() implies scope_kept(#[trigger] t[i], v[i]) by {
        assert(scope_kept(t[i], u[i]) && scope_kept(u[i], v[i]));
        lemma_prefix_trans(t[i].children, u[i].children, v[i].children);
        lemma_prefix_trans(t[i].imports, u[i].imports, v[i].imports);
        lemma_prefix_trans(t[i].definitions, u[i].definitions, v[i].definitions);
    }
}

/// A table in which the scopes are kept, and which has no more of them, is linked as before.
proof fn lemma_linked_kept(t: Seq<ScopeV>, u: Seq<ScopeV>)
    requires
        scopes_linked(t),
        scopes_kept(t, u),
        u.len() == t.len(),
    ensures
        scopes_linked(u),
{
    assert forall|i: int| 0 <= i < u.len() implies ((#[trigger] u[i]).parent matches Some(p) ==> {
        &&& p < i
        &&& lies_under(u[i].name, u[p as int].name)
        &&& u[p as int].children.contains(i as nat)
    }) by {
        assert(scope_kept(t[i], u[i]));
        if let Some(p) = u[i].parent {
            assert(scope_kept(t[p as int], u[p as int]));
            let k = t[p as int].children.index_of(i as nat);
            assert(u[p as int].children[k] == i as nat);
        }
    }
}

proof fn lemma_with_definition(t: Seq<ScopeV>, scope: nat, d: Definition)
    requires
        scope < t.len(),
    ensures
        scopes_kept(t, with_definition(t, scope, d)),
        scopes_linked(t) ==> scopes_linked(with_definition(t, scope, d)),
{
    let u = with_definition(t, scope, d);
    assert forall|i: int| 0 <= i < t.len() implies scope_kept(#[trigger] t[i], u[i]) by {
        assert(t[i].definitions.is_prefix_of(t[i].definitions.push(d)));
    }
    if scopes_linked(t) {
        lemma_linked_kept(t, u);
    }
}

proof fn lemma_with_import(t: Seq<ScopeV>, scope: nat, x: Rc<Use>)
    requires
        scope < t.len(),
    ensures
        scopes_kept(t, with_import(t, scope, x)),
        scopes_linked(t) ==> scopes_linked(with_import(t, scope, x)),
{
    let u = with_import(t, scope, x);
    assert forall|i: int| 0 <= i < t.len() implies scope_kept(#[trigger] t[i], u[i]) by {
        assert(t[i].imports.is_prefix_of(t[i].imports.push(x)));
    }
    if scopes_linked(t) {
        lemma_linked_kept(t, u);
    }
}

proof fn lemma_with_scope(t: Seq<ScopeV>, id: u32, name: Seq<char>, scope: nat)
    requires
        scope < t.len(),
    ensures
        with_scope(t, id, name, scope).len() == t.len() + 1,
        scopes_kept(t, with_scope(t, id, name, scope)),
        scopes_linked(t) ==> scopes_linked(with_scope(t, id, name, scope)),
{
    let mid = with_child_scope(t, scope, t.len());
    let u = with_scope(t, id, name, scope);
    assert forall|i: int| 0 <= i < t.len() implies scope_kept(#[trigger] t[i], mid[i]) && mid[i]
        == u[i] by {
        assert(t[i].children.is_prefix_of(t[i].children.push(t.len())));
    }
    if scopes_linked(t) {
        lemma_linked_kept(t, mid);
        assert forall|i: int| 0 <= i < u.len() implies ((#[trigger] u[i]).parent matches Some(
            p,
        ) ==> {
            &&& p < i
            &&& lies_under(u[i].name, u[p as int].name)
            &&& u[p as int].children.contains(i as nat)
        }) by {
            if i < t.len() {
                assert(u[i] == mid[i]);
                if let Some(p) = u[i].parent {
                    assert(mid[i].parent == Some(p));
                    assert(u[p as int] == mid[p as int]);
                }
            } else {
                let c = t[scope as int].children;
                assert(u[scope as int].children == c.push(t.len()));
                assert(c.push(t.len())[c.len() as int] == t.len());
                assert(u[i].name == segment(u[scope as int].name, name));
            }
        }
    }
}

/// Registering a module keeps the scopes there are, and keeps scopes linked.
pub proof fn module_keeps_scopes(
    r: Registry,
    m: Module,
    scope: nat,
    path: Seq<char>,
    files: Map<Seq<char>, Seq<char>>,
)
    requires
        scope < r.table.len(),
    ensures
        scopes_kept(r.table, with_module(r, m, scope, path, files).table),
        scopes_linked(r.table) ==> scopes_linked(with_module(r, m, scope, path, files).table),
        scopes_known(r) ==> scopes_known(with_module(r, m, scope, path, files)),
    decreases m,
{
    let child = r.table.len();
    let table = with_scope(r.table, m.id, m.name@, scope);
    lemma_with_scope(r.table, m.id, m.name@, scope);
    if let Some(defs) = m.definitions {
        let opened = Registry { table, ..r };
        lemma_known(r, opened);
        definitions_keep_scopes(opened, defs@, child, path, files);
        lemma_kept_trans(
            r.table,
            table,
            with_definitions(opened, defs@, child, path, files).table,
        );
    } else {
        lemma_all_kept(r.table);
        if let Some(p) = submodule_path(path, m.name@, files) {
            let after = with_module(r, m, scope, path, files);
            if scopes_known(r) {
                assert forall|i: int| 0 <= i < after.queue.len() implies (
                #[trigger] after.queue[i]).0 < after.table.len() by {
                    if i < r.queue.len() {
                        assert(after.queue[i] == r.queue[i]);
                    }
                }
            }
        }
    }
}

/// A queue stays known where it stays as it is and scopes are only added.
proof fn lemma_known(r: Registry, s: Registry)
    requires
        s.queue == r.queue,
        r.table.len() <= s.table.len(),
    ensures
        scopes_known(r) ==> scopes_known(s),
{
    if scopes_known(r) {
        assert forall|i: int| 0 <= i < s.queue.len() implies (#[trigger] s.queue[i]).0
            < s.table.len() by {
            assert(r.queue[i].0 < r.table.len());
        }
    }
}

proof fn lemma_self_kept(s: ScopeV)
    ensures
        scope_kept(s, s),
{
    assert(s.children =~= s.children.take(s.children.len() as int));
    assert(s.imports =~= s.imports.take(s.imports.len() as int));
    assert(s.definitions =~= s.definitions.take(s.definitions.len() as int));
}

proof fn lemma_all_kept(t: Seq<ScopeV>)
    ensures
        scopes_kept(t, t),
{
    assert forall|i: int| 0 <= i < t.len() implies scope_kept(#[trigger] t[i], t[i]) by {
        lemma_self_kept(t[i]);
    }
}

/// Registering the definitions of a module keeps the scopes there are, and keeps scopes linked.
pub proof fn definitions_keep_scopes(
    r: Registry,
    defs: Seq<Definition>,
    scope: nat,
    path: Seq<char>,
    files: Map<Seq<char>, Seq<char>>,
)
    requires
        scope < r.table.len(),
    ensures
        scopes_kept(r.table, with_definitions(r, defs, scope, path, files).table),
        scopes_linked(r.table) ==> scopes_linked(
            with_definitions(r, defs, scope, path, files).table,
        ),
        scopes_known(r) ==> scopes_known(with_definitions(r, defs, scope, path, files)),
    decreases defs,
{
    if defs.len() == 0 {
        lemma_all_kept(r.table);
    } else {
        let before = with_definitions(r, defs.drop_last(), scope, path, files);
        definitions_keep_scopes(r, defs.drop_last(), scope, path, files);
        match defs.last() {
            Definition::Module(m) => {
                module_keeps_scopes(before, inner(m), scope, path, files);
            },
            d => {
                lemma_with_definition(before.table, scope, d);
                lemma_known(before, with_definitions(r, defs, scope, path, files));
            },
        }
        lemma_kept_trans(
            r.table,
            before.table,
            with_definitions(r, defs, scope, path, files).table,
        );
    }
}

/// What a shared node holds.
spec fn inner<T>(x: Rc<T>) -> T {
    *x
}

/// Registering what stands in a file keeps the scopes there are, and keeps scopes linked.
pub proof fn children_keep_scopes(
    r: Registry,
    children: Seq<NodeKind>,
    scope: nat,
    path: Seq<char>,
    files: Map<Seq<char>, Seq<char>>,
)
    requires
        scope < r.table.len(),
    ensures
        scopes_kept(r.table, with_children(r, children, scope, path, files).table),
        scopes_linked(r.table) ==> scopes_linked(
            with_children(r, children, scope, path, files).table,
        ),
        scopes_known(r) ==> scopes_known(with_children(r, children, scope, path, files)),
    decreases children.len(),
{
    if children.len() == 0 {
        lemma_all_kept(r.table);
    } else {
        let before = with_children(r, children.drop_last(), scope, path, files);
        children_keep_scopes(r, children.drop_last(), scope, path, files);
        match children.last() {
            NodeKind::Directive(Directive::Use(u)) => {
                lemma_with_import(before.table, scope, u);
                lemma_known(before, with_children(r, children, scope, path, files));
            },
            NodeKind::Definition(Definition::Module(m)) => {
                module_keeps_scopes(before, inner(m), scope, path, files);
            },
            NodeKind::Definition(d) => {
                lemma_with_definition(before.table, scope, d);
                lemma_known(before, with_children(r, children, scope, path, files));
            },
            _ => {
                lemma_all_kept(before.table);
            },
        }
        lemma_kept_trans(
            r.table,
            before.table,
            with_children(r, children, scope, path, files).table,
        );
    }
}

/// A module that is written out in `scope` gets a scope of its own behind all others. It is named
/// `parent::module`, has `scope` for its parent, and is the last child of `scope`.
pub proof fn module_gets_scope(
    r: Registry,
    m: Module,
    scope: nat,
    path: Seq<char>,
    files: Map<Seq<char>, Seq<char>>,
)
    requires
        scope < r.table.len(),
        m.definitions is Some || submodule_path(path, m.name@, files) is Some,
    ensures
        ({
            let after = with_module(r, m, scope, path, files).table;
            let child = r.table.len() as int;
            &&& after.len() > child
            &&& after[child].id == m.id
            &&& after[child].name == segment(r.table[scope as int].name, m.name@)
            &&& after[child].parent == Some(scope)
            &&& r.table[scope as int].children.push(child as nat).is_prefix_of(
                after[scope as int].children,
            )
        }),
{
    let table = with_scope(r.table, m.id, m.name@, scope);
    let after = with_module(r, m, scope, path, files).table;
    lemma_with_scope(r.table, m.id, m.name@, scope);
    if let Some(defs) = m.definitions {
        definitions_keep_scopes(Registry { table, ..r }, defs@, r.table.len(), path, files);
    } else {
        lemma_all_kept(table);
    }
    assert(scope_kept(table[r.table.len() as int], after[r.table.len() as int]));
    assert(scope_kept(table[scope as int], after[scope as int]));
}

/// A module whose file is not there changes nothing.
pub proof fn missing_module_changes_nothing(
    r: Registry,
    m: Module,
    scope: nat,
    path: Seq<char>,
    files: Map<Seq<char>, Seq<char>>,
)
    requires
        m.definitions is None,
        submodule_path(path, m.name@, files) is None,
    ensures
        with_module(r, m, scope, path, files) == r,
{
}

/// One turn of a run, taken apart.
pub(crate) proof fn lemma_turn(before: ParserCtx, after: ParserCtx)
    requires
        turn(before, after),
        scopes_known(registry(before)),
    ensures
        ({
            let path = before.queue@.last().1@;
            let f = source_of(before.file_provider@, path);
            &&& after.id == before.id + file_ids(f)
            &&& after.file_provider == before.file_provider
            &&& paths_of(queue_view(after.queue@)) == paths_of(
                queue_view(before.queue@),
            ).drop_last() + module_files(f.items, path, before.file_provider@)
            &&& scopes_kept(before.table@, after.table@)
            &&& scopes_linked(before.table@) ==> scopes_linked(after.table@)
            &&& scopes_known(registry(after))
            &&& skipped_view(after.skipped@) == with_skipped(
                skipped_view(before.skipped@),
                path,
                skip_reason(before.file_provider@, path),
            )
        }),
{
    let next = before.queue@.last();
    let (read, file) = choose|read: ParserCtx, file: Rc<File>|
        {
            &&& #[trigger] file_added(
                ParserCtx { queue: read.queue, ..before },
                read,
                next.1@,
                file,
            )
            &&& read.queue@ == before.queue@.drop_last()
            &&& after == (ParserCtx { queue: after.queue, table: after.table, ..read })
            &&& registry(after) == with_children(
                registry(read),
                file.children@,
                next.0 as nat,
                next.1@,
                before.file_provider@,
            )
        };
    let f = source_of(before.file_provider@, next.1@);
    assert(registry(before).queue.last().0 == next.0);
    assert(registry(read).queue =~= registry(before).queue.drop_last());
    lemma_children_files(
        f.items,
        before.id + 1,
        file.children@,
        registry(read),
        next.0 as nat,
        next.1@,
        before.file_provider@,
    );
    children_keep_scopes(
        registry(read),
        file.children@,
        next.0 as nat,
        next.1@,
        before.file_provider@,
    );
    assert(paths_of(queue_view(read.queue@)) =~= paths_of(queue_view(before.queue@)).drop_last());
}

/// A whole run keeps the scopes there were, and keeps scopes linked.
pub proof fn run_keeps_scopes(n: nat, before: ParserCtx, after: ParserCtx)
    requires
        turns(n, before, after),
        scopes_known(registry(before)),
    ensures
        scopes_kept(before.table@, after.table@),
        scopes_linked(before.table@) ==> scopes_linked(after.table@),
        scopes_known(registry(after)),
    decreases n,
{
    if n == 0 {
        lemma_all_kept(before.table@);
    } else {
        let last = choose|last: ParserCtx|
            #![trigger turn(last, after)]
            turns((n - 1) as nat, before, last) && turn(last, after);
        run_keeps_scopes((n - 1) as nat, before, last);
        lemma_turn(last, after);
        lemma_kept_trans(before.table@, last.table@, after.table@);
    }
}

/// Whether two states agree on the next id, on the files still to be read and on those skipped.
pub open spec fn same_progress(a: ParserCtx, b: ParserCtx) -> bool {
    &&& a.id == b.id
    &&& a.file_provider == b.file_provider
    &&& paths_of(queue_view(a.queue@)) == paths_of(queue_view(b.queue@))
    &&& skipped_view(a.skipped@) == skipped_view(b.skipped@)
}

/// As many turns from one state lead to states that agree.
proof fn lemma_same_progress(n: nat, start: ParserCtx, a: ParserCtx, b: ParserCtx)
    requires
        turns(n, start, a),
        turns(n, start, b),
        scopes_known(registry(start)),
    ensures
        same_progress(a, b),
    decreases n,
{
    if n > 0 {
        let x = choose|last: ParserCtx|
            #![trigger turn(last, a)]
            turns((n - 1) as nat, start, last) && turn(last, a);
        let y = choose|last: ParserCtx|
            #![trigger turn(last, b)]
            turns((n - 1) as nat, start, last) && turn(last, b);
        lemma_same_progress((n - 1) as nat, start, x, y);
        run_keeps_scopes((n - 1) as nat, start, x);
        run_keeps_scopes((n - 1) as nat, start, y);
        lemma_turn(x, a);
        lemma_turn(y, b);
        assert(paths_of(queue_view(x.queue@)).last() == x.queue@.last().1@);
        assert(paths_of(queue_view(y.queue@)).last() == y.queue@.last().1@);
    }
}

/// On the way of a run, the queue is not empty before the last turn.
proof fn lemma_on_the_way(n: nat, k: nat, start: ParserCtx, end: ParserCtx) -> (mid: ParserCtx)
    requires
        turns(n, start, end),
        k < n,
    ensures
        turns(k, start, mid),
        mid.queue@.len() > 0,
    decreases n,
{
    let last = choose|last: ParserCtx|
        #![trigger turn(last, end)]
        turns((n - 1) as nat, start, last) && turn(last, end);
    if k == n - 1 {
        last
    } else {
        lemma_on_the_way((n - 1) as nat, k, start, last)
    }
}

/// A run is determined by the texts: two runs from one state, both gone to their end, read as many
/// files, draw as many ids, and skip the same files for the same reasons.
pub proof fn run_is_determined(n: nat, m: nat, start: ParserCtx, a: ParserCtx, b: ParserCtx)
    requires
        turns(n, start, a),
        turns(m, start, b),
        a.queue@.len() == 0,
        b.queue@.len() == 0,
        scopes_known(registry(start)),
    ensures
        n == m,
        same_progress(a, b),
{
    if n < m {
        let mid = lemma_on_the_way(m, n, start, b);
        lemma_same_progress(n, start, a, mid);
        assert(paths_of(queue_view(a.queue@)).len() == 0);
        assert(paths_of(queue_view(mid.queue@)).len() > 0);
    } else if m < n {
        let mid = lemma_on_the_way(n, m, start, a);
        lemma_same_progress(m, start, b, mid);
        assert(paths_of(queue_view(b.queue@)).len() == 0);
        assert(paths_of(queue_view(mid.queue@)).len() > 0);
    } else {
        lemma_same_progress(n, start, a, b);
    }
}

} // verus!
