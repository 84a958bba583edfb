//! From source texts to nodes and scopes: reading files, building them, and following modules into
//! files of their own.
use crate::ast::{Definition, Directive, File, Module, NodeKind};
use crate::build_item::extract_attrs;
use crate::context::{advanced, ParserCtx, SkipReason, SkipReasonV, SkippedFile};
use crate::count::{
    definitions_ids, definitions_ok, file_ids, file_ok, is_use_item, item_ids, item_ok, items_ids,
};
use crate::file_provider::{find_submodule_path, submodule_path, FileProvider};
use crate::lists::lemma_definitions_prefix;
use crate::outside::parsed;
use crate::paths::{file_name, file_name_text};
use crate::reader::{empty_file, new_empty_file, read_source};
use crate::record::{child_log, children_log, file_log};
use crate::shape::{is_child, is_children, is_definitions, is_file, is_item};
use crate::symbol_table::{
    empty_scope, process_definition, with_child_scope, with_definition, with_import, Scope,
    ScopeRef, ScopeV,
};
use crate::syntax::{items_view, FileV, ItemV, SrcFile, SrcItem};
use crate::text::{push_segment, segment, texts};
use crate::weigh::weigh_file;
use std::rc::Rc;
use vstd::prelude::*;

verus! {

/// What is read from `path`: an empty file where there is no text, or not that of a source file.
pub open spec fn source_of(files: Map<Seq<char>, Seq<char>>, path: Seq<char>) -> FileV {
    if files.contains_key(path) && parsed(files[path]) is Ok {
        parsed(files[path])->Ok_0
    } else {
        empty_file()
    }
}

/// Why `path` is taken as an empty file, where it is.
pub open spec fn skip_reason(files: Map<Seq<char>, Seq<char>>, path: Seq<char>) -> Option<
    SkipReasonV,
> {
    if !files.contains_key(path) {
        Some(SkipReasonV::Unreadable)
    } else {
        match parsed(files[path]) {
            Ok(_) => None,
            Err(e) => Some(SkipReasonV::Unparseable(e)),
        }
    }
}

/// What an optional reason holds.
pub open spec fn opt_reason(o: Option<SkipReason>) -> Option<SkipReasonV> {
    match o {
        Some(r) => Some(r@),
        None => None,
    }
}

/// The paths and reasons of a list of skipped files.
pub open spec fn skipped_view(s: Seq<SkippedFile>) -> Seq<(Seq<char>, SkipReasonV)> {
    Seq::new(s.len(), |i: int| (s[i].path@, s[i].reason@))
}

/// The list with `path` behind it, where there is a reason to skip it.
pub open spec fn with_skipped(
    s: Seq<(Seq<char>, SkipReasonV)>,
    path: Seq<char>,
    reason: Option<SkipReasonV>,
) -> Seq<(Seq<char>, SkipReasonV)> {
    match reason {
        Some(r) => s.push((path, r)),
        None => s,
    }
}

/// Whether `file` is what is built from `path`, and `after` differs from `before` only in what that
/// adds: the ids drawn, the nodes stored, and a note where the file was skipped.
pub open spec fn file_added(
    before: ParserCtx,
    after: ParserCtx,
    path: Seq<char>,
    file: Rc<File>,
) -> bool {
    let f = source_of(before.file_provider@, path);
    &&& is_file(f, path, before.id as int, *file)
    &&& after.id == before.id + file_ids(f)
    &&& after.storage@ == before.storage@ + file_log(f, file)
    &&& skipped_view(after.skipped@) == with_skipped(
        skipped_view(before.skipped@),
        path,
        skip_reason(before.file_provider@, path),
    )
    &&& after.file_provider == before.file_provider
    &&& after.queue == before.queue
    &&& after.table == before.table
}

/// The files that are still to be read, by scope and path.
pub open spec fn queue_view(q: Seq<(ScopeRef, String)>) -> Seq<(nat, Seq<char>)> {
    Seq::new(q.len(), |i: int| (q[i].0 as nat, q[i].1@))
}

/// The scopes, and the files that are still to be read.
#[verifier::ext_equal]
pub struct Registry {
    pub table: Seq<ScopeV>,
    pub queue: Seq<(nat, Seq<char>)>,
}

/// The table with a scope for module `name` behind all others, as the last child of `scope`. It is
/// named after its parent and the module.
pub open spec fn with_scope(t: Seq<ScopeV>, id: u32, name: Seq<char>, scope: nat) -> Seq<
    ScopeV,
> {
    with_child_scope(t, scope, t.len()).push(
        empty_scope(id, segment(t[scope as int].name, name), Some(scope)),
    )
}

/// What registering module `m`, which stands in `scope` of the file `path`, makes of `r`.
///
/// A module that is written out gets a scope with its definitions in it. A module in a file of its
/// own gets a scope and puts that file into the queue, or nothing where there is no such file.
pub open spec fn with_module(
    r: Registry,
    m: Module,
    scope: nat,
    path: Seq<char>,
    files: Map<Seq<char>, Seq<char>>,
) -> Registry
    decreases m,
{
    let child = r.table.len();
    let table = with_scope(r.table, m.id, m.name@, scope);
    match m.definitions {
        Some(defs) => with_definitions(Registry { table, ..r }, defs@, child, path, files),
        None => match submodule_path(path, m.name@, files) {
            Some(p) => Registry { table, queue: r.queue.push((child, p)) },
            None => r,
        },
    }
}

/// What registering the definitions of a module makes of `r`.
pub open spec fn with_definitions(
    r: Registry,
    defs: Seq<Definition>,
    scope: nat,
    path: Seq<char>,
    files: Map<Seq<char>, Seq<char>>,
) -> Registry
    decreases defs,
{
    if defs.len() == 0 {
        r
    } else {
        let before = with_definitions(r, defs.drop_last(), scope, path, files);
        match defs.last() {
            Definition::Module(m) => with_module(before, *m, scope, path, files),
            d => Registry { table: with_definition(before.table, scope, d), ..before },
        }
    }
}

/// What registering one node at the top level of a file makes of `r`.
pub open spec fn with_child(
    r: Registry,
    child: NodeKind,
    scope: nat,
    path: Seq<char>,
    files: Map<Seq<char>, Seq<char>>,
) -> Registry {
    match child {
        NodeKind::Directive(Directive::Use(u)) => Registry {
            table: with_import(r.table, scope, u),
            ..r
        },
        NodeKind::Definition(Definition::Module(m)) => with_module(r, *m, scope, path, files),
        NodeKind::Definition(d) => Registry { table: with_definition(r.table, scope, d), ..r },
        _ => r,
    }
}

/// What registering the nodes at the top level of a file makes of `r`.
pub open spec fn with_children(
    r: Registry,
    children: Seq<NodeKind>,
    scope: nat,
    path: Seq<char>,
    files: Map<Seq<char>, Seq<char>>,
) -> Registry
    decreases children.len(),
{
    if children.len() == 0 {
        r
    } else {
        with_child(
            with_children(r, children.drop_last(), scope, path, files),
            children.last(),
            scope,
            path,
            files,
        )
    }
}

/// The files of the modules among `items`, in the order in which they are put into the queue.
pub open spec fn module_files(
    items: Seq<ItemV>,
    path: Seq<char>,
    files: Map<Seq<char>, Seq<char>>,
) -> Seq<Seq<char>>
    decreases items,
{
    if items.len() == 0 {
        Seq::empty()
    } else {
        module_files(items.drop_last(), path, files) + item_files(items.last(), path, files)
    }
}

/// The files of the modules that an item brings with it.
pub open spec fn item_files(
    item: ItemV,
    path: Seq<char>,
    files: Map<Seq<char>, Seq<char>>,
) -> Seq<Seq<char>>
    decreases item,
{
    match item {
        ItemV::Mod { name, content, .. } => match content {
            Some(inner) => module_files(inner, path, files),
            None => match submodule_path(path, name, files) {
                Some(p) => seq![p],
                None => Seq::empty(),
            },
        },
        _ => Seq::empty(),
    }
}

/// Whether a run can go on to its end: every file that is reached can be built, and there are ids
/// enough. `id` is the next id, and `queue` holds the paths that are still to be read.
pub open spec fn run_ok(
    id: nat,
    queue: Seq<Seq<char>>,
    files: Map<Seq<char>, Seq<char>>,
) -> bool
    decreases u32::MAX - id,
{
    if queue.len() == 0 {
        true
    } else {
        let path = queue.last();
        let f = source_of(files, path);
        &&& file_ok(f)
        &&& id + file_ids(f) <= u32::MAX
        &&& run_ok(
            id + file_ids(f),
            queue.drop_last() + module_files(f.items, path, files),
            files,
        )
    }
}

/// The paths in a queue.
pub open spec fn paths_of(q: Seq<(nat, Seq<char>)>) -> Seq<Seq<char>> {
    Seq::new(q.len(), |i: int| q[i].1)
}

/// One turn of a run: the file at the end of the queue is read and built, and what stands in it is
/// registered in its scope.
pub open spec fn turn(before: ParserCtx, after: ParserCtx) -> bool {
    let next = before.queue@.last();
    &&& before.queue@.len() > 0
    &&& exists|read: ParserCtx, file: Rc<File>|
        {
            &&& #[trigger] file_added(
                ParserCtx { queue: read.queue, ..before },
                read,
                next.1@,
                file,
            )
            &&& read.queue@ == before.queue@.drop_last()
            &&& after == (ParserCtx { queue: after.queue, table: after.table, ..read })
            &&& registry(after) == with_children(
                registry(read),
                file.children@,
                next.0 as nat,
                next.1@,
                before.file_provider@,
            )
        }
}

/// The scopes and the queue of a run.
pub open spec fn registry(c: ParserCtx) -> Registry {
    Registry { table: c.table@, queue: queue_view(c.queue@) }
}

/// Whether `n` turns lead from `before` to `after`.
pub open spec fn turns(n: nat, before: ParserCtx, after: ParserCtx) -> bool
    decreases n,
{
    if n == 0 {
        before == after
    } else {
        exists|last: ParserCtx|
            #![trigger turn(last, after)]
            turns((n - 1) as nat, before, last) && turn(last, after)
    }
}

/// Whether every file in the queue belongs to a scope that there is.
pub open spec fn scopes_known(r: Registry) -> bool {
    forall|i: int| 0 <= i < r.queue.len() ==> (#[trigger] r.queue[i]).0 < r.table.len()
}

/// Registering what is built from `items` puts the files of their modules into the queue.
proof fn lemma_definitions_files(
    items: Seq<ItemV>,
    id: int,
    defs: Seq<Definition>,
    r: Registry,
    scope: nat,
    path: Seq<char>,
    files: Map<Seq<char>, Seq<char>>,
)
    requires
        is_definitions(items, id, defs),
    ensures
        paths_of(with_definitions(r, defs, scope, path, files).queue) == paths_of(r.queue)
            + module_files(items, path, files),
    decreases items,
{
    if items.len() == 0 {
        assert(paths_of(r.queue) =~= paths_of(r.queue) + module_files(items, path, files));
    } else if is_use_item(items.last()) {
        lemma_definitions_files(items.drop_last(), id, defs, r, scope, path, files);
        assert(item_files(items.last(), path, files) =~= Seq::<Seq<char>>::empty());
        assert(module_files(items, path, files) =~= module_files(items.drop_last(), path, files));
    } else {
        lemma_definitions_files(items.drop_last(), id, defs.drop_last(), r, scope, path, files);
        let before = with_definitions(r, defs.drop_last(), scope, path, files);
        lemma_item_files(
            items.last(),
            id + definitions_ids(items.drop_last()),
            defs.last(),
            before,
            scope,
            path,
            files,
        );
        assert(paths_of(with_definitions(r, defs, scope, path, files).queue) =~= paths_of(r.queue)
            + module_files(items, path, files));
    }
}

/// Registering what is built from `item` puts the files of its modules into the queue.
proof fn lemma_item_files(
    item: ItemV,
    id: int,
    def: Definition,
    r: Registry,
    scope: nat,
    path: Seq<char>,
    files: Map<Seq<char>, Seq<char>>,
)
    requires
        is_item(item, id, def),
    ensures
        paths_of(with_child(r, NodeKind::Definition(def), scope, path, files).queue) == paths_of(
            r.queue,
        ) + item_files(item, path, files),
    decreases item,
{
    let after = with_child(r, NodeKind::Definition(def), scope, path, files);
    match def {
        Definition::Module(m) => {
            let child = r.table.len();
            let opened = Registry { table: with_scope(r.table, m.id, m.name@, scope), ..r };
            match item {
                ItemV::Mod { content: Some(inner), .. } => {
                    lemma_definitions_files(
                        inner,
                        id + 1,
                        m.definitions->0@,
                        opened,
                        child,
                        path,
                        files,
                    );
                },
                _ => {},
            }
        },
        _ => {},
    }
    assert(paths_of(after.queue) =~= paths_of(r.queue) + item_files(item, path, files));
}

/// Registering what stands at the top level of a file puts the files of its modules into the queue.
pub(crate) proof fn lemma_children_files(
    items: Seq<ItemV>,
    id: int,
    out: Seq<NodeKind>,
    r: Registry,
    scope: nat,
    path: Seq<char>,
    files: Map<Seq<char>, Seq<char>>,
)
    requires
        is_children(items, id, out),
    ensures
        paths_of(with_children(r, out, scope, path, files).queue) == paths_of(r.queue)
            + module_files(items, path, files),
    decreases items.len(),
{
    if items.len() > 0 {
        lemma_children_files(items.drop_last(), id, out.drop_last(), r, scope, path, files);
        let before = with_children(r, out.drop_last(), scope, path, files);
        match out.last() {
            NodeKind::Definition(d) => {
                lemma_item_files(
                    items.last(),
                    id + items_ids(items.drop_last()),
                    d,
                    before,
                    scope,
                    path,
                    files,
                );
            },
            _ => {
                assert(item_files(items.last(), path, files) =~= Seq::<Seq<char>>::empty());
            },
        }
    }
    assert(paths_of(with_children(r, out, scope, path, files).queue) =~= paths_of(r.queue)
        + module_files(items, path, files));
}

/// The files of the modules among `items`.
fn find_module_files(items: &Vec<SrcItem>, path: &str, file_provider: &FileProvider) -> (r: Vec<
    String,
>)
    ensures
        texts(r@) == module_files(items_view(items@), path@, file_provider@),
    decreases items,
{
    let ghost s = items_view(items@);
    let mut r: Vec<String> = Vec::new();
    for i in 0..items.len()
        invariant
            s == items_view(items@),
            texts(r@) == module_files(s.take(i as int), path@, file_provider@),
    {
        let ghost before = r@;
        proof {
            assert(s.take(i + 1).drop_last() =~= s.take(i as int));
            assert(decreases_to!(items@ => items@[i as int]));
        }
        if let SrcItem::Mod(m) = &items[i] {
            match &m.content {
                Some(inner) => {
                    let mut more = find_module_files(inner, path, file_provider);
                    let ghost added = more@;
                    r.append(&mut more);
                    assert(texts(r@) =~= texts(before) + texts(added));
                },
                None => {
                    if let Some(p) = find_submodule_path(path, m.name.as_str(), file_provider) {
                        r.push(p);
                        assert(texts(r@) =~= texts(before) + seq![p@]);
                    }
                },
            }
        }
        assert(texts(r@) =~= texts(before) + item_files(s[i as int], path@, file_provider@));
    }
    assert(s.take(s.len() as int) =~= s);
    r
}

impl ParserCtx {
    /// Builds a file and what stands in it. The file is stored before its content.
    pub fn build_file(&mut self, file_path: String, file_item: &SrcFile) -> (r: Rc<File>)
        requires
            file_ok(file_item@),
            old(self).id + file_ids(file_item@) <= u32::MAX,
        ensures
            is_file(file_item@, file_path@, old(self).id as int, *r),
            advanced(*old(self), *final(self), file_ids(file_item@), file_log(file_item@, r)),
    {
        let name = match file_name(file_path.as_str()) {
            Some(n) => n,
            None => String::new(),
        };
        assert(name@ =~= file_name_text(file_path@));
        let place: usize = self.storage.len();
        let id: u32 = self.get_node_id();
        let ghost s = items_view(file_item.items@);
        let mut children: Vec<NodeKind> = Vec::new();
        assert(self.storage@ =~= old(self).storage@ + children_log(s.take(0), children@, id));
        for i in 0..file_item.items.len()
            invariant
                s == items_view(file_item.items@),
                definitions_ok(s),
                id == old(self).id,
                old(self).id + 1 + items_ids(s) <= u32::MAX,
                is_children(s.take(i as int), id + 1, children@),
                advanced(
                    *old(self),
                    *self,
                    1 + items_ids(s.take(i as int)),
                    children_log(s.take(i as int), children@, id),
                ),
        {
            let ghost built = children@;
            proof {
                lemma_definitions_prefix(s, i + 1);
                assert(s.take(i + 1).drop_last() =~= s.take(i as int));
            }
            let child = self.build_child(&file_item.items[i], id);
            children.push(child);
            proof {
                assert(children@.drop_last() =~= built);
                assert(self.storage@ =~= old(self).storage@ + children_log(
                    s.take(i + 1),
                    children@,
                    id,
                ));
            }
        }
        assert(s.take(s.len() as int) =~= s);
        let file = Rc::new(
            File {
                id,
                children,
                name,
                path: file_path,
                attributes: extract_attrs(&file_item.attrs),
                source_code: file_item.source_code.clone(),
                location: file_item.at,
            },
        );
        self.storage.insert_node(place, NodeKind::File(file.clone()), 0);
        assert(self.storage@ =~= old(self).storage@ + file_log(file_item@, file));
        file
    }

    /// Builds an item at the top level of a file.
    fn build_child(&mut self, item: &SrcItem, id: u32) -> (r: NodeKind)
        requires
            is_use_item(item@) || item_ok(item@),
            old(self).id + item_ids(item@) <= u32::MAX,
        ensures
            is_child(item@, old(self).id as int, r),
            advanced(*old(self), *final(self), item_ids(item@), child_log(item@, r, id)),
    {
        match item {
            SrcItem::Use(u) => NodeKind::Directive(self.build_use_directive(u, id)),
            _ => NodeKind::Definition(self.build_definition(item, id)),
        }
    }

    /// Reads the file `path`, and tells why it was taken as empty, where it was.
    fn load(&self, path: &str) -> (r: (SrcFile, Option<SkipReason>))
        ensures
            r.0@ == source_of(self.file_provider@, path@),
            opt_reason(r.1) == skip_reason(self.file_provider@, path@),
    {
        match self.file_provider.read(path) {
            None => (new_empty_file(), Some(SkipReason::Unreadable)),
            Some(content) => match read_source(content) {
                Ok(f) => (f, None),
                Err(e) => (new_empty_file(), Some(SkipReason::Unparseable(e))),
            },
        }
    }

    /// Reads and builds the file `path`. A file that cannot be read, or whose text is not that of a
    /// source file, is noted and taken as empty.
    pub fn parse_file(&mut self, path: &str) -> (r: Rc<File>)
        requires
            file_ok(source_of(old(self).file_provider@, path@)),
            old(self).id + file_ids(source_of(old(self).file_provider@, path@)) <= u32::MAX,
        ensures
            file_added(*old(self), *final(self), path@, r),
    {
        let (file, reason) = self.load(path);
        let ghost why = opt_reason(reason);
        if let Some(reason) = reason {
            self.skipped.push(SkippedFile { path: path.to_owned(), reason });
        }
        assert(skipped_view(self.skipped@) =~= with_skipped(
            skipped_view(old(self).skipped@),
            path@,
            why,
        ));
        self.build_file(path.to_owned(), &file)
    }

    /// Reads and builds the file `path`, where it can be built and there are ids enough; else
    /// changes nothing.
    pub fn try_parse_file(&mut self, path: &str) -> (r: Option<Rc<File>>)
        ensures
            ({
                let f = source_of(old(self).file_provider@, path@);
                r is Some <==> file_ok(f) && old(self).id + file_ids(f) <= u32::MAX
            }),
            match r {
                Some(file) => file_added(*old(self), *final(self), path@, file),
                None => *final(self) == *old(self),
            },
    {
        let (file, _reason) = self.load(path);
        match weigh_file(&file) {
            Some(n) => if n <= u32::MAX - self.id {
                Some(self.parse_file(path))
            } else {
                None
            },
            None => None,
        }
    }

    /// Makes a scope for module `m` in `scope`, and registers what stands in it, or puts the file it
    /// stands in into the queue.
    pub fn process_module_rec(&mut self, m: &Rc<Module>, scope: ScopeRef, file_path: &str)
        requires
            scope < old(self).table@.len(),
        ensures
            registry(*final(self)) == with_module(
                registry(*old(self)),
                **m,
                scope as nat,
                file_path@,
                old(self).file_provider@,
            ),
            *final(self) == (ParserCtx {
                queue: final(self).queue,
                table: final(self).table,
                ..*old(self)
            }),
            final(self).table@.len() >= old(self).table@.len(),
            scopes_known(registry(*old(self))) ==> scopes_known(registry(*final(self))),
        decreases m,
    {
        match &m.definitions {
            None => {
                if let Some(mod_path) = find_submodule_path(
                    file_path,
                    m.name.as_str(),
                    &self.file_provider,
                ) {
                    let mod_scope = self.open_scope(m, scope);
                    self.push(mod_scope, mod_path);
                    proof {
                        let q = registry(*old(self)).queue;
                        assert(registry(*self).queue =~= q.push((mod_scope as nat, mod_path@)));
                        assert forall|i: int| 0 <= i < q.len() implies #[trigger] registry(
                            *self,
                        ).queue[i] == q[i] by {}
                    }
                }
            },
            Some(defs) => {
                let mod_scope = self.open_scope(m, scope);
                let ghost opened = *self;
                for i in 0..defs.len()
                    invariant
                        m.definitions matches Some(all) && all == *defs,
                        mod_scope < opened.table@.len(),
                        *self == (ParserCtx { queue: self.queue, table: self.table, ..opened }),
                        self.table@.len() >= opened.table@.len(),
                        scopes_known(registry(opened)) ==> scopes_known(registry(*self)),
                        registry(*self) == with_definitions(
                            registry(opened),
                            defs@.take(i as int),
                            mod_scope as nat,
                            file_path@,
                            opened.file_provider@,
                        ),
                {
                    proof {
                        assert(defs@.take(i + 1).drop_last() =~= defs@.take(i as int));
                        assert(decreases_to!(m => m.definitions));
                        assert(decreases_to!(m.definitions => *defs));
                        assert(decreases_to!(defs@ => defs@[i as int]));
                    }
                    if let Definition::Module(inner) = &defs[i] {
                        self.process_module_rec(inner, mod_scope, file_path);
                    } else {
                        let ghost before = *self;
                        process_definition(mod_scope, defs[i].clone(), &mut self.table);
                        assert(registry(*self).queue == registry(before).queue);
                    }
                }
                assert(defs@.take(defs@.len() as int) =~= defs@);
            },
        }
    }

    /// Makes a scope for module `m` in `scope`.
    fn open_scope(&mut self, m: &Rc<Module>, scope: ScopeRef) -> (r: ScopeRef)
        requires
            scope < old(self).table@.len(),
        ensures
            r == old(self).table@.len(),
            final(self).table@ == with_scope(old(self).table@, m.id, m.name@, scope as nat),
            *final(self) == (ParserCtx { table: final(self).table, ..*old(self) }),
            scopes_known(registry(*old(self))) ==> scopes_known(registry(*final(self))),
    {
        let name = push_segment(self.table.get(scope).name.as_str(), m.name.as_str());
        let child: ScopeRef = self.table.len();
        self.table.add_child(scope, child);
        let r: ScopeRef = self.table.insert_scope(Scope::new(m.id, name, Some(scope)));
        assert(registry(*self).queue == registry(*old(self)).queue);
        r
    }

    /// Reads and builds the files in the queue, and those that their modules stand in, until none is
    /// left.
    pub fn parse(&mut self)
        requires
            scopes_known(registry(*old(self))),
            run_ok(
                old(self).id as nat,
                paths_of(queue_view(old(self).queue@)),
                old(self).file_provider@,
            ),
        ensures
            exists|n: nat| turns(n, *old(self), *final(self)),
            final(self).queue@.len() == 0,
    {
        let ghost mut n: nat = 0;
        loop
            invariant
                turns(n, *old(self), *self),
                scopes_known(registry(*self)),
                run_ok(self.id as nat, paths_of(queue_view(self.queue@)), self.file_provider@),
            ensures
                self.queue@.len() == 0,
            decreases u32::MAX - self.id,
        {
            let ghost before = *self;
            match self.pop() {
                None => {
                    break ;
                },
                Some((scope, file_path)) => {
                    let ghost q = paths_of(queue_view(before.queue@));
                    proof {
                        assert(q.last() == file_path@);
                        assert(registry(before).queue.last().0 == scope);
                        assert(q.drop_last() =~= paths_of(queue_view(self.queue@)));
                        assert(registry(*self).queue =~= registry(before).queue.drop_last());
                    }
                    let file = self.parse_file(file_path.as_str());
                    let ghost read = *self;
                    self.register_children(&file, scope, file_path.as_str());
                    proof {
                        let f = source_of(before.file_provider@, file_path@);
                        lemma_children_files(
                            f.items,
                            before.id + 1,
                            file.children@,
                            registry(read),
                            scope as nat,
                            file_path@,
                            before.file_provider@,
                        );
                        assert(file_added(
                            ParserCtx { queue: read.queue, ..before },
                            read,
                            file_path@,
                            file,
                        ));
                        assert(turn(before, *self));
                        n = n + 1;
                        assert(turns(n, *old(self), *self));
                    }
                },
            }
        }
    }

    /// Registers what stands at the top level of a file in the scope of the file.
    fn register_children(&mut self, file: &Rc<File>, scope: ScopeRef, file_path: &str)
        requires
            scope < old(self).table@.len(),
            scopes_known(registry(*old(self))),
        ensures
            registry(*final(self)) == with_children(
                registry(*old(self)),
                file.children@,
                scope as nat,
                file_path@,
                old(self).file_provider@,
            ),
            *final(self) == (ParserCtx {
                queue: final(self).queue,
                table: final(self).table,
                ..*old(self)
            }),
            scopes_known(registry(*final(self))),
    {
        for i in 0..file.children.len()
            invariant
                scope < old(self).table@.len(),
                *self == (ParserCtx { queue: self.queue, table: self.table, ..*old(self) }),
                self.table@.len() >= old(self).table@.len(),
                scopes_known(registry(*self)),
                registry(*self) == with_children(
                    registry(*old(self)),
                    file.children@.take(i as int),
                    scope as nat,
                    file_path@,
                    old(self).file_provider@,
                ),
        {
            proof {
                assert(file.children@.take(i + 1).drop_last() =~= file.children@.take(i as int));
            }
            self.register_child(&file.children[i], scope, file_path);
        }
        assert(file.children@.take(file.children@.len() as int) =~= file.children@);
    }

    /// Registers a node at the top level of a file in the scope of the file: a `use` among its
    /// imports, a module with what stands in it, and any other definition among its definitions.
    fn register_child(&mut self, child: &NodeKind, scope: ScopeRef, file_path: &str)
        requires
            scope < old(self).table@.len(),
            scopes_known(registry(*old(self))),
        ensures
            registry(*final(self)) == with_child(
                registry(*old(self)),
                *child,
                scope as nat,
                file_path@,
                old(self).file_provider@,
            ),
            *final(self) == (ParserCtx {
                queue: final(self).queue,
                table: final(self).table,
                ..*old(self)
            }),
            final(self).table@.len() >= old(self).table@.len(),
            scopes_known(registry(*final(self))),
    {
        match child {
            NodeKind::Directive(Directive::Use(u)) => {
                self.table.add_import(scope, u.clone());
                assert(registry(*self).queue == registry(*old(self)).queue);
            },
            NodeKind::Definition(def) => {
                if let Definition::Module(m) = def {
                    self.process_module_rec(m, scope, file_path);
                } else {
                    process_definition(scope, def.clone(), &mut self.table);
                    assert(registry(*self).queue == registry(*old(self)).queue);
                }
            },
            _ => {},
        }
    }

    /// Whether a run can go on to its end.
    pub fn can_parse(&self) -> (r: bool)
        ensures
            r == run_ok(
                self.id as nat,
                paths_of(queue_view(self.queue@)),
                self.file_provider@,
            ),
    {
        let mut id: u32 = self.id;
        let mut queue: Vec<String> = Vec::new();
        for i in 0..self.queue.len()
            invariant
                queue@.len() == i,
                forall|j: int| 0 <= j < i ==> (#[trigger] queue@[j])@ == self.queue@[j].1@,
        {
            queue.push(self.queue[i].1.clone());
        }
        assert(texts(queue@) =~= paths_of(queue_view(self.queue@)));
        let ghost whole = run_ok(id as nat, texts(queue@), self.file_provider@);
        loop
            invariant
                run_ok(id as nat, texts(queue@), self.file_provider@) == whole,
                whole == run_ok(
                    self.id as nat,
                    paths_of(queue_view(self.queue@)),
                    self.file_provider@,
                ),
            decreases u32::MAX - id,
        {
            let ghost q = texts(queue@);
            match queue.pop() {
                None => {
                    return true;
                },
                Some(path) => {
                    let ghost rest = texts(queue@);
                    proof {
                        assert(rest =~= q.drop_last());
                        assert(q.last() == path@);
                    }
                    let (file, _reason) = self.load(path.as_str());
                    let n: u32 = match weigh_file(&file) {
                        Some(n) => n,
                        None => {
                            return false;
                        },
                    };
                    if n > u32::MAX - id {
                        return false;
                    }
                    id += n;
                    let mut more = find_module_files(
                        &file.items,
                        path.as_str(),
                        &self.file_provider,
                    );
                    let ghost added = texts(more@);
                    queue.append(&mut more);
                    assert(texts(queue@) =~= rest + added);
                },
            }
        }
    }

    /// Does as `parse` does where the run can go on to its end; else changes nothing.
    pub fn try_parse(&mut self) -> (r: bool)
        requires
            scopes_known(registry(*old(self))),
        ensures
            r == run_ok(
                old(self).id as nat,
                paths_of(queue_view(old(self).queue@)),
                old(self).file_provider@,
            ),
            r ==> exists|n: nat| turns(n, *old(self), *final(self)),
            r ==> final(self).queue@.len() == 0,
            !r ==> *final(self) == *old(self),
    {
        if self.can_parse() {
            self.parse();
            true
        } else {
            false
        }
    }
}

} // verus!
