//! What stands in the scopes: after a run each scope holds the definitions and the imports that are
//! written in its file or module, all of them and nothing else.
use crate::ast::{Definition, Directive, File, Module, NodeKind, Use};
use crate::context::ParserCtx;
use crate::count::{definitions_ids, definitions_ok, is_use_item, items_ids};
use crate::file_provider::submodule_path;
use crate::id_laws::{all_turns, leads, run_is_traced, traced};
use crate::parse::{
    file_added, registry, scopes_known, source_of, turn, turns, with_children, with_definitions,
    with_module, with_scope, Registry,
};
use crate::shape::{is_children, is_definitions, is_item};
use crate::symbol_table::ScopeV;
use crate::syntax::ItemV;
use crate::tree::{defs_written, import_trees, item_tree, uses_written, written_use, Tree};
use crate::tree_laws::{item_is_as_written, use_is_as_written};
use std::rc::Rc;
use vstd::prelude::*;

verus! {

/// The definitions that are not modules, in order.
pub open spec fn non_modules(defs: Seq<Definition>) -> Seq<Definition>
    decreases defs.len(),
{
    if defs.len() == 0 {
        Seq::empty()
    } else {
        match defs.last() {
            Definition::Module(_) => non_modules(defs.drop_last()),
            d => non_modules(defs.drop_last()).push(d),
        }
    }
}

/// The definitions among nodes.
pub open spec fn definitions_among(nodes: Seq<NodeKind>) -> Seq<Definition>
    decreases nodes.len(),
{
    if nodes.len() == 0 {
        Seq::empty()
    } else {
        match nodes.last() {
            NodeKind::Definition(d) => definitions_among(nodes.drop_last()).push(d),
            _ => definitions_among(nodes.drop_last()),
        }
    }
}

/// The imports among nodes.
pub open spec fn imports_among(nodes: Seq<NodeKind>) -> Seq<Rc<Use>>
    decreases nodes.len(),
{
    if nodes.len() == 0 {
        Seq::empty()
    } else {
        match nodes.last() {
            NodeKind::Directive(Directive::Use(u)) => imports_among(nodes.drop_last()).push(u),
            _ => imports_among(nodes.drop_last()),
        }
    }
}

/// What is written of the items that are neither `use` nor modules, in order.
pub open spec fn plain_item_trees(s: Seq<ItemV>) -> Seq<Tree>
    decreases s.len(),
{
    if s.len() == 0 {
        Seq::empty()
    } else if s.last() is Use || s.last() is Mod {
        plain_item_trees(s.drop_last())
    } else {
        plain_item_trees(s.drop_last()).push(item_tree(s.last()))
    }
}

/// How many items are neither `use` nor modules.
pub open spec fn plain_items(s: Seq<ItemV>) -> nat {
    s.filter(|i: ItemV| !(i is Use) && !(i is Mod)).len()
}

/// Whether the same definitions and imports stand in two scopes.
pub open spec fn same_content(a: ScopeV, b: ScopeV) -> bool {
    a.definitions == b.definitions && a.imports == b.imports
}

/// Whether of the scopes that there were only `scope` has other content, and only files of new scopes
/// were put into the queue.
pub open spec fn kept_elsewhere(before: Registry, after: Registry, scope: nat) -> bool {
    &&& before.table.len() <= after.table.len()
    &&& forall|s: int|
        0 <= s < before.table.len() && s != scope ==> same_content(
            before.table[s],
            #[trigger] after.table[s],
        )
    &&& before.queue.len() <= after.queue.len()
    &&& forall|i: int|
        0 <= i < before.queue.len() ==> #[trigger] after.queue[i] == before.queue[i]
    &&& forall|i: int|
        before.queue.len() <= i < after.queue.len() ==> (#[trigger] after.queue[i]).0
            >= before.table.len()
}

/// Registering a module changes no scope but those of the module itself and of what stands in it.
/// Where the module is written out, its scope holds the definitions that stand in it and are not
/// modules, whatever their kind, in order.
pub proof fn module_scope_holds_its_definitions(
    r: Registry,
    m: Module,
    scope: nat,
    path: Seq<char>,
    files: Map<Seq<char>, Seq<char>>,
)
    requires
        scope < r.table.len(),
    ensures
        ({
            let after = with_module(r, m, scope, path, files);
            let child = r.table.len() as int;
            &&& kept_elsewhere(r, after, r.table.len())
            &&& m.definitions matches Some(defs) ==> {
                &&& child < after.table.len()
                &&& after.table[child].definitions == non_modules(defs@)
                &&& after.table[child].imports.len() == 0
            }
            &&& m.definitions is None && submodule_path(path, m.name@, files) is Some ==> {
                &&& child < after.table.len()
                &&& after.table[child].definitions.len() == 0
                &&& after.table[child].imports.len() == 0
                &&& after.queue == r.queue.push(
                    (child as nat, submodule_path(path, m.name@, files)->0),
                )
            }
        }),
    decreases m,
{
    let table = with_scope(r.table, m.id, m.name@, scope);
    let opened = Registry { table, ..r };
    let after = with_module(r, m, scope, path, files);
    let child = r.table.len();
    assert(table.len() == child + 1);
    assert(table[child as int].definitions == Seq::<Definition>::empty());
    assert(table[child as int].imports == Seq::<Rc<Use>>::empty());
    assert forall|s: int| 0 <= s < child implies same_content(r.table[s], #[trigger] table[s]) by {}
    if let Some(defs) = m.definitions {
        definitions_go_to_their_scope(opened, defs@, child, path, files);
        assert(Seq::<Definition>::empty() + non_modules(defs@) =~= non_modules(defs@));
        assert forall|s: int| 0 <= s < child implies same_content(
            r.table[s],
            #[trigger] after.table[s],
        ) by {
            assert(same_content(r.table[s], table[s]));
            assert(same_content(table[s], after.table[s]));
        }
    }
}

/// Registering definitions in a scope adds to it those that are not modules, whatever their kind, in
/// order; no other scope that there was is changed.
pub proof fn definitions_go_to_their_scope(
    r: Registry,
    defs: Seq<Definition>,
    scope: nat,
    path: Seq<char>,
    files: Map<Seq<char>, Seq<char>>,
)
    requires
        scope < r.table.len(),
    ensures
        ({
            let after = with_definitions(r, defs, scope, path, files);
            &&& kept_elsewhere(r, after, scope)
            &&& after.table[scope as int].definitions == r.table[scope as int].definitions
                + non_modules(defs)
            &&& after.table[scope as int].imports == r.table[scope as int].imports
        }),
    decreases defs,
{
    let own = r.table[scope as int].definitions;
    if defs.len() == 0 {
        assert(own + non_modules(defs) =~= own);
    } else {
        let before = with_definitions(r, defs.drop_last(), scope, path, files);
        let after = with_definitions(r, defs, scope, path, files);
        definitions_go_to_their_scope(r, defs.drop_last(), scope, path, files);
        match defs.last() {
            Definition::Module(m) => {
                module_scope_holds_its_definitions(
                    before,
                    crate::order::inner(m),
                    scope,
                    path,
                    files,
                );
            },
            d => {
                assert(own + non_modules(defs) =~= (own + non_modules(defs.drop_last())).push(d));
            },
        }
        lemma_kept_on(r, before, after, scope);
    }
}

/// What is kept by one step and by the next is kept by both.
proof fn lemma_kept_on(r: Registry, before: Registry, after: Registry, scope: nat)
    requires
        kept_elsewhere(r, before, scope),
        kept_elsewhere(before, after, scope) || kept_elsewhere(before, after, before.table.len()),
    ensures
        kept_elsewhere(r, after, scope),
{
    assert forall|s: int| 0 <= s < r.table.len() && s != scope implies same_content(
        r.table[s],
        #[trigger] after.table[s],
    ) by {
        assert(same_content(r.table[s], before.table[s]));
        assert(same_content(before.table[s], after.table[s]));
    }
    assert forall|i: int| 0 <= i < r.queue.len() implies #[trigger] after.queue[i] == r.queue[i] by {
        assert(before.queue[i] == r.queue[i]);
    }
    assert forall|i: int| r.queue.len() <= i < after.queue.len() implies (
    #[trigger] after.queue[i]).0 >= r.table.len() by {
        if i < before.queue.len() {
            assert(after.queue[i] == before.queue[i]);
        }
    }
}

/// Registering what stands at the top level of a file adds to its scope the definitions that are not
/// modules, whatever their kind, and the imports, all in order; no other scope that there was is
/// changed.
pub proof fn children_go_to_their_scope(
    r: Registry,
    children: Seq<NodeKind>,
    scope: nat,
    path: Seq<char>,
    files: Map<Seq<char>, Seq<char>>,
)
    requires
        scope < r.table.len(),
    ensures
        ({
            let after = with_children(r, children, scope, path, files);
            &&& kept_elsewhere(r, after, scope)
            &&& after.table[scope as int].definitions == r.table[scope as int].definitions
                + non_modules(definitions_among(children))
            &&& after.table[scope as int].imports == r.table[scope as int].imports + imports_among(
                children,
            )
        }),
    decreases children.len(),
{
    let own = r.table[scope as int].definitions;
    let imports = r.table[scope as int].imports;
    if children.len() == 0 {
        assert(own + non_modules(definitions_among(children)) =~= own);
        assert(imports + imports_among(children) =~= imports);
    } else {
        let fewer = children.drop_last();
        let before = with_children(r, fewer, scope, path, files);
        let after = with_children(r, children, scope, path, files);
        children_go_to_their_scope(r, fewer, scope, path, files);
        match children.last() {
            NodeKind::Directive(Directive::Use(u)) => {
                assert(imports + imports_among(children) =~= (imports + imports_among(fewer)).push(
                    u,
                ));
            },
            NodeKind::Definition(d) => {
                let defs = definitions_among(children);
                assert(defs.drop_last() =~= definitions_among(fewer));
                match d {
                    Definition::Module(m) => {
                        module_scope_holds_its_definitions(
                            before,
                            crate::order::inner(m),
                            scope,
                            path,
                            files,
                        );
                    },
                    _ => {
                        assert(own + non_modules(defs) =~= (own + non_modules(
                            definitions_among(fewer),
                        )).push(d));
                    },
                }
            },
            _ => {},
        }
        lemma_kept_on(r, before, after, scope);
    }
}

/// A definition is a module exactly where a module is written.
pub proof fn only_modules_become_modules(i: ItemV, id: int, out: Definition)
    requires
        is_item(i, id, out),
    ensures
        out is Module <==> i is Mod,
{
}

/// The definitions of a module that are not modules are those items that are neither `use` nor
/// modules, in order: as many, and each with what is written of it.
pub proof fn module_definitions_are_its_items(s: Seq<ItemV>, id: int, out: Seq<Definition>)
    requires
        is_definitions(s, id, out),
        definitions_ok(s),
    ensures
        defs_written(non_modules(out)) == plain_item_trees(s),
        non_modules(out).len() == plain_items(s),
    decreases s.len(),
{
    reveal(Seq::filter);
    if s.len() > 0 {
        let fewer = s.drop_last();
        if is_use_item(s.last()) {
            module_definitions_are_its_items(fewer, id, out);
        } else {
            module_definitions_are_its_items(fewer, id, out.drop_last());
            item_is_as_written(s.last(), id + definitions_ids(fewer), out.last());
            let defs = non_modules(out.drop_last());
            only_modules_become_modules(s.last(), id + definitions_ids(fewer), out.last());
            if !(s.last() is Mod) {
                assert(non_modules(out) == defs.push(out.last()));
                assert(non_modules(out).drop_last() =~= defs);
                assert(non_modules(out).last() == out.last());
            }
        }
    }
}

/// The definitions of a file that are not modules are those of its items that are neither `use` nor
/// modules, in order, and its imports are those that are `use`: as many, and each with what is written
/// of it.
pub proof fn file_definitions_are_its_items(s: Seq<ItemV>, id: int, out: Seq<NodeKind>)
    requires
        is_children(s, id, out),
        definitions_ok(s),
    ensures
        defs_written(non_modules(definitions_among(out))) == plain_item_trees(s),
        non_modules(definitions_among(out)).len() == plain_items(s),
        uses_written(imports_among(out)) == import_trees(s),
    decreases s.len(),
{
    reveal(Seq::filter);
    if s.len() == 0 {
        assert(uses_written(imports_among(out)) =~= import_trees(s));
    } else {
        let fewer = s.drop_last();
        let nodes = out.drop_last();
        let at = id + items_ids(fewer);
        file_definitions_are_its_items(fewer, id, nodes);
        match s.last() {
            ItemV::Use(u) => {
                let x = out.last()->Directive_0->Use_0;
                use_is_as_written(u, at, crate::order::inner(x));
                assert(uses_written(imports_among(out)) =~= uses_written(imports_among(nodes)).push(
                    written_use(*x),
                ));
            },
            _ => {
                let d = out.last()->Definition_0;
                let defs = definitions_among(nodes);
                item_is_as_written(s.last(), at, d);
                assert(defs.push(d).drop_last() =~= defs);
                assert(non_modules(defs).push(d).drop_last() =~= non_modules(defs));
            },
        }
    }
}

/// Whether `s` is the scope of none of the files in the queue.
pub open spec fn not_queued(r: Registry, s: nat) -> bool {
    forall|i: int| 0 <= i < r.queue.len() ==> (#[trigger] r.queue[i]).0 != s
}

/// One turn of a run fills one scope: what is added to it is what is written in its file, the
/// definitions that are not modules and the imports, each in order. No other scope that there was is
/// changed, and only files of new scopes are put into the queue.
pub proof fn turn_fills_its_scope(before: ParserCtx, after: ParserCtx)
    requires
        turn(before, after),
        scopes_known(registry(before)),
        definitions_ok(source_of(before.file_provider@, before.queue@.last().1@).items),
    ensures
        ({
            let scope = before.queue@.last().0 as int;
            let items = source_of(before.file_provider@, before.queue@.last().1@).items;
            let had = before.table@[scope];
            let has = after.table@[scope];
            &&& scope < after.table@.len()
            &&& had.definitions.is_prefix_of(has.definitions)
            &&& defs_written(has.definitions.skip(had.definitions.len() as int))
                == plain_item_trees(items)
            &&& has.definitions.len() == had.definitions.len() + plain_items(items)
            &&& had.imports.is_prefix_of(has.imports)
            &&& uses_written(has.imports.skip(had.imports.len() as int)) == import_trees(items)
            &&& forall|s: int|
                0 <= s < before.table@.len() && s != scope ==> same_content(
                    before.table@[s],
                    #[trigger] after.table@[s],
                )
        }),
{
    let next = before.queue@.last();
    let (read, file) = choose|read: ParserCtx, file: Rc<File>|
        {
            &&& #[trigger] file_added(
                ParserCtx { queue: read.queue, ..before },
                read,
                next.1@,
                file,
            )
            &&& read.queue@ == before.queue@.drop_last()
            &&& after == (ParserCtx { queue: after.queue, table: after.table, ..read })
            &&& registry(after) == with_children(
                registry(read),
                file.children@,
                next.0 as nat,
                next.1@,
                before.file_provider@,
            )
        };
    let scope = next.0 as nat;
    let items = source_of(before.file_provider@, next.1@).items;
    assert(registry(before).queue.last().0 == scope);
    children_go_to_their_scope(
        registry(read),
        file.children@,
        scope,
        next.1@,
        before.file_provider@,
    );
    file_definitions_are_its_items(items, before.id + 1, file.children@);
    let had = before.table@[scope as int];
    let has = after.table@[scope as int];
    let defs = non_modules(definitions_among(file.children@));
    let uses = imports_among(file.children@);
    assert(registry(after).table == after.table@);
    assert(registry(read).table == before.table@);
    assert(has.definitions == had.definitions + defs);
    assert(has.imports == had.imports + uses);
    assert(has.definitions.skip(had.definitions.len() as int) =~= defs);
    assert(has.imports.skip(had.imports.len() as int) =~= uses);
    assert(had.definitions =~= has.definitions.take(had.definitions.len() as int));
    assert(had.imports =~= has.imports.take(had.imports.len() as int));
}

/// One turn leaves a scope alone whose file is not in the queue, and does not put it there.
proof fn lemma_turn_leaves_alone(before: ParserCtx, after: ParserCtx, s: nat)
    requires
        turn(before, after),
        scopes_known(registry(before)),
        s < before.table@.len(),
    ensures
        s != before.queue@.last().0 ==> same_content(
            before.table@[s as int],
            after.table@[s as int],
        ),
        not_queued(
            Registry { queue: registry(before).queue.drop_last(), ..registry(before) },
            s,
        ) ==> not_queued(registry(after), s),
        s < after.table@.len(),
{
    let next = before.queue@.last();
    let (read, file) = choose|read: ParserCtx, file: Rc<File>|
        {
            &&& #[trigger] file_added(
                ParserCtx { queue: read.queue, ..before },
                read,
                next.1@,
                file,
            )
            &&& read.queue@ == before.queue@.drop_last()
            &&& after == (ParserCtx { queue: after.queue, table: after.table, ..read })
            &&& registry(after) == with_children(
                registry(read),
                file.children@,
                next.0 as nat,
                next.1@,
                before.file_provider@,
            )
        };
    assert(registry(before).queue.last().0 == next.0 as nat);
    children_go_to_their_scope(
        registry(read),
        file.children@,
        next.0 as nat,
        next.1@,
        before.file_provider@,
    );
    assert(registry(read).queue =~= registry(before).queue.drop_last());
    assert(registry(read).table == before.table@);
    assert(registry(after).table == after.table@);
}

/// A run that begins with one file fills the scope of that file with what is written in it: after the
/// run the scope holds what it held before, then the definitions of the file that are not modules, and
/// the imports, all of them, in order, and nothing else.
pub proof fn run_fills_the_scope_of_its_file(n: nat, before: ParserCtx, after: ParserCtx)
    requires
        turns(n, before, after),
        n > 0,
        scopes_known(registry(before)),
        before.queue@.len() > 0,
        not_queued(
            Registry { queue: registry(before).queue.drop_last(), ..registry(before) },
            before.queue@.last().0 as nat,
        ),
        definitions_ok(source_of(before.file_provider@, before.queue@.last().1@).items),
    ensures
        ({
            let scope = before.queue@.last().0 as int;
            let items = source_of(before.file_provider@, before.queue@.last().1@).items;
            let had = before.table@[scope];
            let has = after.table@[scope];
            &&& scope < after.table@.len()
            &&& had.definitions.is_prefix_of(has.definitions)
            &&& defs_written(has.definitions.skip(had.definitions.len() as int))
                == plain_item_trees(items)
            &&& has.definitions.len() == had.definitions.len() + plain_items(items)
            &&& had.imports.is_prefix_of(has.imports)
            &&& uses_written(has.imports.skip(had.imports.len() as int)) == import_trees(items)
        }),
{
    run_is_traced(n, before, after);
    let calls = all_turns(n);
    let trace = choose|trace: Seq<ParserCtx>|
        {
            &&& #[trigger] traced(trace, calls)
            &&& trace[0] == before
            &&& trace.last() == after
        };
    let s = before.queue@.last().0 as nat;
    assert(registry(before).queue.last().0 == s);
    let first: int = 0;
    assert(leads(calls[first], trace[first], trace[first + 1]));
    turn_fills_its_scope(trace[0], trace[1]);
    lemma_turn_leaves_alone(trace[0], trace[1], s);
    crate::scope_laws::lemma_turn(trace[0], trace[1]);
    lemma_left_alone(trace, n, s, n as int);
}

proof fn lemma_left_alone(trace: Seq<ParserCtx>, n: nat, s: nat, k: int)
    requires
        traced(trace, all_turns(n)),
        1 <= k <= n,
        scopes_known(registry(trace[1])),
        s < trace[1].table@.len(),
        not_queued(registry(trace[1]), s),
    ensures
        scopes_known(registry(trace[k])),
        s < trace[k].table@.len(),
        not_queued(registry(trace[k]), s),
        same_content(trace[1].table@[s as int], trace[k].table@[s as int]),
    decreases k,
{
    if k > 1 {
        let a = trace[k - 1];
        lemma_left_alone(trace, n, s, k - 1);
        assert(leads(all_turns(n)[k - 1], trace[k - 1], trace[k - 1 + 1]));
        assert(registry(a).queue.last().0 == a.queue@.last().0 as nat);
        assert(registry(a).queue[registry(a).queue.len() - 1].0 != s);
        lemma_turn_leaves_alone(a, trace[k], s);
        crate::scope_laws::lemma_turn(a, trace[k]);
    }
}

/// The names of the scopes that a module brings with it, where it stands in a scope called `above`: its
/// own, and those of the modules that are written in it, in order. A module whose file is not there
/// brings none.
pub open spec fn scope_names(
    m: Module,
    above: Seq<char>,
    path: Seq<char>,
    files: Map<Seq<char>, Seq<char>>,
) -> Seq<Seq<char>>
    decreases m,
{
    let own = above + seq![':', ':'] + m.name@;
    match m.definitions {
        Some(defs) => seq![own] + all_scope_names(defs@, own, path, files),
        None => if submodule_path(path, m.name@, files) is Some {
            seq![own]
        } else {
            Seq::empty()
        },
    }
}

/// The names of the scopes that definitions bring with them.
pub open spec fn all_scope_names(
    defs: Seq<Definition>,
    above: Seq<char>,
    path: Seq<char>,
    files: Map<Seq<char>, Seq<char>>,
) -> Seq<Seq<char>>
    decreases defs,
{
    if defs.len() == 0 {
        Seq::empty()
    } else {
        all_scope_names(defs.drop_last(), above, path, files) + (match defs.last() {
            Definition::Module(m) => scope_names(*m, above, path, files),
            _ => Seq::empty(),
        })
    }
}

/// The names of scopes.
pub open spec fn names_in(t: Seq<ScopeV>) -> Seq<Seq<char>> {
    Seq::new(t.len(), |i: int| t[i].name)
}

/// Registering a module makes a scope for it and for each module that is written in it, however deep,
/// each named after the scope that it stands in; no scope is renamed, and none is made besides.
pub proof fn every_module_gets_its_scope(
    r: Registry,
    m: Module,
    scope: nat,
    path: Seq<char>,
    files: Map<Seq<char>, Seq<char>>,
)
    requires
        scope < r.table.len(),
    ensures
        names_in(with_module(r, m, scope, path, files).table) == names_in(r.table) + scope_names(
            m,
            r.table[scope as int].name,
            path,
            files,
        ),
    decreases m,
{
    let above = r.table[scope as int].name;
    let own = above + seq![':', ':'] + m.name@;
    let table = with_scope(r.table, m.id, m.name@, scope);
    let opened = Registry { table, ..r };
    let before = names_in(r.table);
    assert(table[r.table.len() as int].name == own);
    assert(names_in(table) =~= before.push(own));
    assert(before.push(own) =~= before + seq![own]);
    match m.definitions {
        Some(defs) => {
            let inner = all_scope_names(defs@, own, path, files);
            every_inner_module_gets_its_scope(opened, defs@, r.table.len(), path, files);
            assert(before + seq![own] + inner =~= before + (seq![own] + inner));
        },
        None => {
            assert(before + Seq::<Seq<char>>::empty() =~= before);
        },
    }
}

/// Registering definitions makes a scope for each module among them and in them.
pub proof fn every_inner_module_gets_its_scope(
    r: Registry,
    defs: Seq<Definition>,
    scope: nat,
    path: Seq<char>,
    files: Map<Seq<char>, Seq<char>>,
)
    requires
        scope < r.table.len(),
    ensures
        names_in(with_definitions(r, defs, scope, path, files).table) == names_in(r.table)
            + all_scope_names(defs, r.table[scope as int].name, path, files),
    decreases defs,
{
    let above = r.table[scope as int].name;
    let names = names_in(r.table);
    if defs.len() == 0 {
        assert(names + all_scope_names(defs, above, path, files) =~= names);
    } else {
        let fewer = defs.drop_last();
        let before = with_definitions(r, fewer, scope, path, files);
        let after = with_definitions(r, defs, scope, path, files);
        let first = all_scope_names(fewer, above, path, files);
        every_inner_module_gets_its_scope(r, fewer, scope, path, files);
        assert(before.table.len() == names_in(before.table).len());
        assert(before.table[scope as int].name == names_in(before.table)[scope as int]);
        assert(above == names[scope as int]);
        match defs.last() {
            Definition::Module(m) => {
                every_module_gets_its_scope(before, crate::order::inner(m), scope, path, files);
                let last = scope_names(crate::order::inner(m), above, path, files);
                assert(names + first + last =~= names + (first + last));
            },
            d => {
                assert(names_in(after.table) =~= names_in(before.table));
                assert(names + first =~= names + (first + Seq::<Seq<char>>::empty()));
            },
        }
    }
}

/// Registering what stands at the top level of a file makes a scope for each module that is written in
/// it, however deep, each named after the scope that it stands in, and no other.
pub proof fn every_module_of_a_file_gets_its_scope(
    r: Registry,
    children: Seq<NodeKind>,
    scope: nat,
    path: Seq<char>,
    files: Map<Seq<char>, Seq<char>>,
)
    requires
        scope < r.table.len(),
    ensures
        names_in(with_children(r, children, scope, path, files).table) == names_in(r.table)
            + all_scope_names(
            definitions_among(children),
            r.table[scope as int].name,
            path,
            files,
        ),
    decreases children.len(),
{
    let above = r.table[scope as int].name;
    let names = names_in(r.table);
    let defs = definitions_among(children);
    if children.len() == 0 {
        assert(names + all_scope_names(defs, above, path, files) =~= names);
    } else {
        let fewer = children.drop_last();
        let before = with_children(r, fewer, scope, path, files);
        let after = with_children(r, children, scope, path, files);
        let some = definitions_among(fewer);
        let first = all_scope_names(some, above, path, files);
        every_module_of_a_file_gets_its_scope(r, fewer, scope, path, files);
        assert(before.table.len() == names_in(before.table).len());
        assert(before.table[scope as int].name == names_in(before.table)[scope as int]);
        assert(above == names[scope as int]);
        match children.last() {
            NodeKind::Definition(d) => {
                assert(defs.drop_last() =~= some);
                assert(defs.last() == d);
                match d {
                    Definition::Module(m) => {
                        every_module_gets_its_scope(
                            before,
                            crate::order::inner(m),
                            scope,
                            path,
                            files,
                        );
                        let last = scope_names(crate::order::inner(m), above, path, files);
                        assert(names + first + last =~= names + (first + last));
                    },
                    _ => {
                        assert(names_in(after.table) =~= names_in(before.table));
                        assert(names + first =~= names + (first + Seq::<Seq<char>>::empty()));
                    },
                }
            },
            _ => {
                assert(names_in(after.table) =~= names_in(before.table));
            },
        }
    }
}

} // verus!
