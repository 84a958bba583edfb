//! Calls one after the other, and what they come to together.
use crate::ast::{File, NodeKind};
use crate::content_laws::{plain_item_trees, plain_items, run_fills_the_scope_of_its_file};
use crate::context::{ParserCtx, SkipReasonV};
use crate::file_provider::FileProvider;
use crate::laws::chosen_places_are_all;
use crate::parse::{paths_of, queue_view, registry, scopes_known, skipped_view, source_of, turns};
use crate::path_laws::{joined, joined_root_gives_path, same_path};
use crate::paths::{is_rust_file, relative_file_path, starts_with_path};
use crate::report::{get_scanner_metadata, scan_report, Json, JsonV};
use crate::scan::{
    available_detectors, chosen, chosen_places, excluded, execute_detectors, files_scanned,
    findings_view, ids_of, opt_texts, scanned_paths, selected_detectors, Action, DetectorInfo,
    DetectorResult, FindingV, Findings, Outcome, PathKind, Walk,
};
use crate::scan_laws::{
    every_file_is_listed, lemma_says_all, lists, metadata_tell_of_every_detector,
    report_tells_what_was_found, says_all, tells, tells_response,
};
use crate::storage::NodesStorage;
use crate::symbol_table::{ScopeRef, SymbolTable};
use crate::text::{opt_str, texts};
use crate::tree::{defs_written, import_trees, uses_written};
use std::rc::Rc;
use vstd::prelude::*;

verus! {

/// Makes a run and takes the first file from its queue: that is the file the run was made for, and no
/// other is left.
pub fn begin_run(
    id: u32,
    file_provider: FileProvider,
    scope: ScopeRef,
    storage: NodesStorage,
    table: SymbolTable,
    root_path: String,
) -> (r: (ParserCtx, Option<(ScopeRef, String)>))
    ensures
        r.1 == Some((scope, root_path)),
        r.0.queue@.len() == 0,
        r.0.skipped@.len() == 0,
        r.0.id == id,
        r.0.file_provider@ == file_provider@,
        r.0.storage@ == storage@,
        r.0.table@ == table@,
{
    let mut ctx = ParserCtx::new(id, file_provider, scope, storage, table, root_path);
    let next = ctx.pop();
    (ctx, next)
}

/// Puts a file into the queue and takes one out: it is the same file, and the run is as it was.
pub fn queue_and_take(ctx: &mut ParserCtx, scope: ScopeRef, path: String) -> (r: Option<
    (ScopeRef, String),
>)
    ensures
        r == Some((scope, path)),
        final(ctx).queue@ == old(ctx).queue@,
        *final(ctx) == (ParserCtx { queue: final(ctx).queue, ..*old(ctx) }),
{
    ctx.push(scope, path);
    let r = ctx.pop();
    assert(ctx.queue@ =~= old(ctx).queue@);
    r
}

/// Draws two ids: the second is the next one behind the first, and nothing else changes.
pub fn draw_two(ctx: &mut ParserCtx) -> (r: (u32, u32))
    requires
        old(ctx).id < u32::MAX - 1,
    ensures
        r.0 == old(ctx).id,
        r.1 == r.0 + 1,
        *final(ctx) == (ParserCtx { id: (old(ctx).id + 2) as u32, ..*old(ctx) }),
{
    let a: u32 = ctx.get_node_id();
    let b: u32 = ctx.get_node_id();
    (a, b)
}

/// Visits a directory and asks for the next one to go into: it is the directory itself, unless a
/// pattern stands in its canonical form; the walk is then as it was.
pub fn enter_directory<P>(walk: &mut Walk<P>, place: P, path: &str, canonical: &str) -> (r: Option<
    P,
>)
    requires
        !excluded(canonical@, texts(old(walk).exclude@)),
    ensures
        r == Some(place),
        final(walk).stack@ == old(walk).stack@,
        *final(walk) == (Walk { stack: final(walk).stack, ..*old(walk) }),
{
    walk.visit(place, path, canonical, PathKind::Directory);
    let r = walk.next_directory();
    assert(walk.stack@ =~= old(walk).stack@);
    r
}

/// Takes in the text of a file: it is then the text under its key, and no other text has changed.
pub fn take_in<P>(walk: &mut Walk<P>, key: String, content: String)
    ensures
        final(walk).corpus@.contains_key(key@),
        final(walk).corpus@[key@] == content@,
        forall|other: Seq<char>|
            other != key@ ==> (#[trigger] final(walk).corpus@.contains_key(other) <==> old(
                walk,
            ).corpus@.contains_key(other)) && final(walk).corpus@[other] == old(
                walk,
            ).corpus@[other],
        final(walk).stack@ == old(walk).stack@,
        final(walk).exclude@ == old(walk).exclude@,
{
    walk.add_file(key, content);
}

/// A new walk with one text in it lists one file: the one under whose path the text was taken in.
pub fn list_one_file(key: String, content: String) -> (r: Vec<String>)
    ensures
        texts(r@) == seq![key@],
{
    let ghost name = key@;
    let mut walk: Walk<u8> = Walk::new(Vec::new());
    walk.add_file(key, content);
    let r = files_scanned(&walk.corpus, None);
    proof {
        let paths = choose|paths: Seq<Seq<char>>|
            {
                &&& paths.no_duplicates()
                &&& paths.to_set() == walk.corpus@.dom()
                &&& texts(r@) == #[trigger] scanned_paths(paths, opt_str(None))
            };
        every_file_is_listed(paths, None);
        assert forall|x: Seq<char>| #[trigger] paths.contains(x) <==> x == name by {
            assert(paths.to_set().contains(x) == paths.contains(x));
        }
        assert(paths.contains(name));
        if paths.len() > 1 {
            assert(paths.contains(paths[0]));
            assert(paths.contains(paths[1]));
        }
        assert(paths.contains(paths[0]));
        assert(paths =~= seq![name]);
    }
    r
}

/// The path of a file where no root is given: the path itself.
pub fn path_without_root(path: &str) -> (r: String)
    ensures
        r@ == path@,
{
    relative_file_path(path, None)
}

/// The places of the detectors that run where no rules are given: all of them, in order.
pub fn all_places(detectors: Vec<DetectorInfo>) -> (r: Vec<usize>)
    ensures
        r@.len() == detectors@.len(),
        forall|i: int| 0 <= i < r@.len() ==> #[trigger] r@[i] == i,
{
    let all = available_detectors(detectors);
    let r = selected_detectors(&all, None);
    proof {
        let ids = ids_of(all@);
        lemma_all_places(ids);
        let places = r@.map_values(|i: usize| i as int);
        assert(places.len() == r@.len());
        assert forall|i: int| 0 <= i < r@.len() implies #[trigger] r@[i] == i by {
            assert(places[i] == r@[i] as int);
        }
    }
    r
}

proof fn lemma_all_places(ids: Seq<Seq<char>>)
    ensures
        chosen_places(ids, None).len() == ids.len(),
        forall|i: int| 0 <= i < ids.len() ==> #[trigger] chosen_places(ids, None)[i] == i,
    decreases ids.len(),
{
    if ids.len() > 0 {
        lemma_all_places(ids.drop_last());
    }
}

/// What is found by a single detector: what it found stands under its id, and nothing else does.
pub fn run_one(id: String, found: Vec<DetectorResult>) -> (r: Findings)
    ensures
        r@ == Map::<Seq<char>, Seq<FindingV>>::empty().insert(id@, findings_view(found@)),
        r.listed() == seq![(id@, findings_view(found@))],
{
    let ghost key = id@;
    let ghost value = findings_view(found@);
    let mut r = Findings::new();
    let ghost none = r.listed();
    r.insert(id, found);
    assert(none.push((key, value)) =~= seq![(key, value)]);
    r
}

/// Parses a file that is not there: it is built all the same, with nothing in it, and noted.
pub fn parse_missing(ctx: &mut ParserCtx, path: &str) -> (r: Option<Rc<File>>)
    requires
        !old(ctx).file_provider@.contains_key(path@),
    ensures
        r is Some <==> old(ctx).id < u32::MAX,
        r matches Some(file) ==> {
            &&& file.path@ == path@
            &&& file.children@.len() == 0
            &&& file.id == old(ctx).id
            &&& final(ctx).id == old(ctx).id + 1
            &&& skipped_view(final(ctx).skipped@) == skipped_view(old(ctx).skipped@).push(
                (path@, SkipReasonV::Unreadable),
            )
        },
        r is None ==> *final(ctx) == *old(ctx),
{
    ctx.try_parse_file(path)
}

/// The report of a scan in which one detector found something: the files are listed, and there is one
/// response, which stands under the id of the detector and tells of what it found.
pub fn report_one(
    scanned: &Vec<String>,
    id: String,
    found: Vec<DetectorResult>,
    project_root: Option<&str>,
) -> (r: Json)
    ensures
        exists|v: JsonV| #[trigger] tells(r@, "scanned"@, v) && lists(v, texts(scanned@)),
        exists|v: JsonV| #[trigger]
            tells(r@, "detector_responses"@, v) && v is Object && v->Object_0.len() == 1
                && v->Object_0[0].key == id@ && tells_response(
                v->Object_0[0].value,
                findings_view(found@),
                opt_str(project_root),
            ),
{
    let findings = run_one(id, found);
    let r = scan_report(scanned, &findings, project_root);
    proof {
        let listed = findings.listed();
        let root = opt_str(project_root);
        report_tells_what_was_found(texts(scanned@), listed, root);
        let v = choose|v: JsonV| #[trigger]
            tells(r@, "detector_responses"@, v) && v is Object && v->Object_0.len() == listed.len()
                && (forall|i: int|
                0 <= i < listed.len() ==> (#[trigger] v->Object_0[i]).key == listed[i].0
                    && tells_response(v->Object_0[i].value, listed[i].1, root));
        assert(v->Object_0[0].key == listed[0].0);
        assert(tells(r@, "detector_responses"@, v));
    }
    r
}

/// What is told of the scanner: its version is the one that is given, and it tells of as many detectors
/// as there are.
pub fn tell_metadata(version: &str, detectors: &Vec<DetectorInfo>) -> (r: Json)
    ensures
        tells(r@, "version"@, JsonV::Text(version@)),
        exists|v: JsonV| #[trigger]
            tells(r@, "detectors"@, v) && v is List && v->List_0.len() == detectors@.len(),
{
    let r = get_scanner_metadata(version, detectors);
    proof {
        metadata_tell_of_every_detector(version@, detectors@);
    }
    r
}

/// The path of a file as seen from a root that it lies below: joined on to the root it is the path
/// again.
pub fn path_below(path: &str, root: &str) -> (r: String)
    requires
        starts_with_path(path@, root@),
    ensures
        same_path(joined(root@, r@), path@),
{
    proof {
        joined_root_gives_path(path@, root@);
    }
    relative_file_path(path, Some(root))
}

/// Whether a path is read when it is visited as a file: where it is that of a Rust source file, and no
/// pattern stands in its canonical form. Nothing is then gone into.
pub fn reads_file<P>(walk: &mut Walk<P>, place: P, path: &str, canonical: &str) -> (r: bool)
    ensures
        r <==> is_rust_file(path@) && !excluded(canonical@, texts(old(walk).exclude@)),
        *final(walk) == (Walk { stack: final(walk).stack, ..*old(walk) }),
        final(walk).stack@ == old(walk).stack@,
{
    match walk.visit(place, path, canonical, PathKind::File) {
        Action::Read => true,
        _ => false,
    }
}

/// Whether the detector at a place runs under rules: where its id is one of them, or the only one is
/// `all`.
pub fn is_selected(detectors: &Vec<DetectorInfo>, rules: &Vec<String>, at: usize) -> (r: bool)
    requires
        at < detectors@.len(),
    ensures
        r <==> texts(rules@).contains(detectors@[at as int].id@) || (rules@.len() == 1 && says_all(
            rules@[0]@,
        )),
{
    let places = selected_detectors(detectors, Some(rules));
    let ghost all = chosen_places(ids_of(detectors@), opt_texts(Some(rules)));
    let mut found = false;
    proof {
        chosen_places_are_all(ids_of(detectors@), opt_texts(Some(rules)));
        lemma_says_all(texts(rules@)[0]);
        assert(places@.len() == places@.map_values(|i: usize| i as int).len());
    }
    for k in 0..places.len()
        invariant
            places@.len() == all.len(),
            forall|j: int| 0 <= j < places@.len() ==> #[trigger] places@[j] as int == all[j],
            found <==> exists|j: int| 0 <= j < k && #[trigger] places@[j] == at,
    {
        if places[k] == at {
            found = true;
        }
    }
    proof {
        let ids = ids_of(detectors@);
        let given = opt_texts(Some(rules));
        if found {
            let j = choose|j: int| 0 <= j < places@.len() && #[trigger] places@[j] == at;
            assert(all[j] == at as int);
        }
        if chosen(ids[at as int], given) {
            assert(all.contains(at as int));
            let j = choose|j: int| 0 <= j < all.len() && all[j] == at as int;
            assert(places@[j] == at);
        }
    }
    found
}

/// What the loaded detector found, where no other is run.
pub fn run_loaded(id: String, found: Vec<DetectorResult>) -> (r: Findings)
    ensures
        r@ == Map::<Seq<char>, Seq<FindingV>>::empty().insert(id@, findings_view(found@)),
{
    let none: Vec<Outcome> = Vec::new();
    execute_detectors(Some(Outcome { id, found: Some(found) }), none)
}

/// Stores a node and looks at what is stored last: it is the node, under its parent.
pub fn store_and_look(storage: &mut NodesStorage, node: NodeKind, parent: u32) -> (r: u32)
    ensures
        r == parent,
        final(storage)@.len() == old(storage)@.len() + 1,
        final(storage)@.last().node == node,
{
    let n: usize = storage.len();
    storage.add_node(node, parent);
    storage.get(n).parent
}

/// Parses what a run with one file in its queue leads to. Where it goes to its end, the scope of the
/// file holds as many more definitions as there are items in the file that are neither `use` nor
/// modules, each with what is written of it, and as many more imports as there are `use` items.
pub fn parse_crate(ctx: &mut ParserCtx) -> (r: bool)
    requires
        old(ctx).queue@.len() == 1,
        scopes_known(registry(*old(ctx))),
    ensures
        r ==> ({
            let scope = old(ctx).queue@[0].0 as int;
            let items = source_of(old(ctx).file_provider@, old(ctx).queue@[0].1@).items;
            let had = old(ctx).table@[scope];
            let has = final(ctx).table@[scope];
            &&& final(ctx).queue@.len() == 0
            &&& has.definitions.len() == had.definitions.len() + plain_items(items)
            &&& defs_written(has.definitions.skip(had.definitions.len() as int))
                == plain_item_trees(items)
            &&& uses_written(has.imports.skip(had.imports.len() as int)) == import_trees(items)
        }),
        !r ==> *final(ctx) == *old(ctx),
{
    let ghost before = *ctx;
    let r = ctx.try_parse();
    proof {
        if r {
            let n = choose|n: nat| turns(n, before, *ctx);
            assert(n > 0);
            let q = paths_of(queue_view(before.queue@));
            assert(q.last() == before.queue@[0].1@);
            assert(q.len() == 1);
            assert(before.queue@.last() == before.queue@[0]);
            assert(registry(before).queue.drop_last().len() == 0);
            run_fills_the_scope_of_its_file(n, before, *ctx);
        }
    }
    r
}

/// What the detectors found: the results of the last one are those under its id, whatever the others
/// and the one that was loaded found.
pub fn run_last(
    loaded: Option<Outcome>,
    mut outcomes: Vec<Outcome>,
    id: String,
    found: Vec<DetectorResult>,
) -> (r: Findings)
    ensures
        r@.contains_key(id@),
        r@[id@] == findings_view(found@),
{
    let ghost before = outcomes@;
    let last = Outcome { id, found: Some(found) };
    outcomes.push(last);
    let r = execute_detectors(loaded, outcomes);
    proof {
        assert(outcomes@.drop_last() =~= before);
        assert(outcomes@.last() == last);
    }
    r
}

} // verus!
