//! What holds of the ids that are drawn and of the nodes that are stored, whatever is called and in
//! whatever order.
use crate::ast::{File, Module};
use crate::context::{advanced, ParserCtx};
use crate::count::file_ids;
use crate::order::{file_keeps_order, lemma_join, lemma_rebase, run_keeps_order, storage_ok, tidy};
use crate::parse::{file_added, registry, source_of, turn, turns, with_children, with_module};
use crate::storage::StoredNode;
use crate::symbol_table::ScopeRef;
use std::rc::Rc;
use vstd::prelude::*;

verus! {

/// What can be called on a run.
pub enum Call {
    /// `push`.
    Push { at: ScopeRef, file_path: String },
    /// `pop`.
    Pop,
    /// `get_node_id`.
    Draw,
    /// `process_module_rec`.
    Register { module: Module, scope: nat, path: Seq<char> },
    /// One of the functions whose names begin with `build`, or `process_item_impl`, for something
    /// that takes `ids` ids and leaves `log` in the storage.
    Build { ids: nat, log: Seq<StoredNode> },
    /// `parse_file`, or `try_parse_file` where it does as that does.
    ParseFile { path: Seq<char> },
    /// One turn of `parse`, or of `try_parse` where it does as that does.
    Turn,
    /// `try_parse_file` or `try_parse` where they change nothing.
    Refused,
}

/// How many ids a call draws.
pub open spec fn drawn(call: Call, before: ParserCtx) -> nat {
    match call {
        Call::Draw => 1,
        Call::Build { ids, .. } => ids,
        Call::ParseFile { path } => file_ids(source_of(before.file_provider@, path)),
        Call::Turn => file_ids(source_of(before.file_provider@, before.queue@.last().1@)),
        _ => 0,
    }
}

/// Whether a call leads from `before` to `after`, by the contract of what is called.
pub open spec fn leads(call: Call, before: ParserCtx, after: ParserCtx) -> bool {
    match call {
        Call::Push { at, file_path } => {
            &&& after == (ParserCtx { queue: after.queue, ..before })
            &&& after.queue@ == before.queue@.push((at, file_path))
        },
        Call::Pop => {
            &&& after == (ParserCtx { queue: after.queue, ..before })
            &&& before.queue@.len() > 0 ==> after.queue@ == before.queue@.drop_last()
            &&& before.queue@.len() == 0 ==> after == before
        },
        Call::Draw => before.id < u32::MAX && after == (ParserCtx {
            id: (before.id + 1) as u32,
            ..before
        }),
        Call::Register { module, scope, path } => {
            &&& after == (ParserCtx { queue: after.queue, table: after.table, ..before })
            &&& registry(after) == with_module(
                registry(before),
                module,
                scope,
                path,
                before.file_provider@,
            )
        },
        Call::Build { ids, log } => advanced(before, after, ids, log),
        Call::ParseFile { path } => exists|file: Rc<File>| #[trigger]
            file_added(before, after, path, file),
        Call::Turn => turn(before, after),
        Call::Refused => after == before,
    }
}

/// Whether `calls`, one after the other, lead through the states of `trace`.
pub open spec fn traced(trace: Seq<ParserCtx>, calls: Seq<Call>) -> bool {
    &&& trace.len() == calls.len() + 1
    &&& forall|i: int|
        0 <= i < calls.len() ==> leads(#[trigger] calls[i], trace[i], trace[i + 1])
}

/// How many ids the first `n` calls draw.
pub open spec fn drawn_by(trace: Seq<ParserCtx>, calls: Seq<Call>, n: int) -> nat
    decreases n,
{
    if n <= 0 {
        0
    } else {
        drawn_by(trace, calls, n - 1) + drawn(calls[n - 1], trace[n - 1])
    }
}

/// Whether call `i` draws `id`.
pub open spec fn draws(trace: Seq<ParserCtx>, calls: Seq<Call>, i: int, id: int) -> bool {
    trace[i].id <= id < trace[i].id + drawn(calls[i], trace[i])
}

/// Whether one of the calls draws `id`.
pub open spec fn is_drawn(trace: Seq<ParserCtx>, calls: Seq<Call>, id: int) -> bool {
    exists|i: int| 0 <= i < calls.len() && #[trigger] draws(trace, calls, i, id)
}

/// One turn of a run, taken apart.
proof fn lemma_turn_ids(before: ParserCtx, after: ParserCtx)
    requires
        turn(before, after),
    ensures
        after.id == before.id + drawn(Call::Turn, before),
{
    let next = before.queue@.last();
    let (read, file) = choose|read: ParserCtx, file: Rc<File>|
        {
            &&& #[trigger] file_added(
                ParserCtx { queue: read.queue, ..before },
                read,
                next.1@,
                file,
            )
            &&& read.queue@ == before.queue@.drop_last()
            &&& after == (ParserCtx { queue: after.queue, table: after.table, ..read })
            &&& registry(after) == with_children(
                registry(read),
                file.children@,
                next.0 as nat,
                next.1@,
                before.file_provider@,
            )
        };
}

/// A call takes the next id further by as many as it draws. To put a file into the queue, to take one
/// out and to register a module draws none.
pub proof fn call_draws(call: Call, before: ParserCtx, after: ParserCtx)
    requires
        leads(call, before, after),
    ensures
        after.id == before.id + drawn(call, before),
        call is Push || call is Pop || call is Register ==> after.id == before.id,
{
    if call is Turn {
        lemma_turn_ids(before, after);
    }
}

/// Whatever is called, ids are drawn one after the other: where a run began at `start`, the next id
/// is `start` and as many more as were drawn.
pub proof fn ids_run_on(trace: Seq<ParserCtx>, calls: Seq<Call>, start: u32)
    requires
        traced(trace, calls),
        trace[0].id == start,
    ensures
        forall|n: int|
            0 <= n <= calls.len() ==> (#[trigger] trace[n]).id == start + drawn_by(trace, calls, n),
{
    assert forall|n: int| 0 <= n <= calls.len() implies (#[trigger] trace[n]).id == start
        + drawn_by(trace, calls, n) by {
        lemma_ids(trace, calls, n);
    }
}

proof fn lemma_ids(trace: Seq<ParserCtx>, calls: Seq<Call>, n: int)
    requires
        traced(trace, calls),
        0 <= n <= calls.len(),
    ensures
        trace[n].id == trace[0].id + drawn_by(trace, calls, n),
    decreases n,
{
    if n > 0 {
        lemma_ids(trace, calls, n - 1);
        assert(leads(calls[n - 1], trace[n - 1], trace[n - 1 + 1]));
        call_draws(calls[n - 1], trace[n - 1], trace[n]);
    }
}

proof fn lemma_upwards(trace: Seq<ParserCtx>, calls: Seq<Call>, i: int, j: int)
    requires
        traced(trace, calls),
        0 <= i <= j <= calls.len(),
    ensures
        drawn_by(trace, calls, i) <= drawn_by(trace, calls, j),
        i < j ==> drawn_by(trace, calls, i) + drawn(calls[i], trace[i]) <= drawn_by(
            trace,
            calls,
            j,
        ),
    decreases j - i,
{
    if i < j {
        lemma_upwards(trace, calls, i, j - 1);
    }
}

/// Whatever is called, no id is drawn twice, and none is left out: each id from the first one up to
/// but not the next one is drawn by exactly one of the calls, and the later of two calls draws the
/// greater ids.
pub proof fn no_id_is_drawn_twice(trace: Seq<ParserCtx>, calls: Seq<Call>)
    requires
        traced(trace, calls),
    ensures
        forall|i: int, j: int, a: int, b: int|
            0 <= i < j < calls.len() && #[trigger] draws(trace, calls, i, a) && #[trigger] draws(
                trace,
                calls,
                j,
                b,
            ) ==> a < b,
        forall|id: int|
            trace[0].id <= id < trace.last().id ==> #[trigger] is_drawn(trace, calls, id),
{
    assert forall|i: int, j: int, a: int, b: int|
        0 <= i < j < calls.len() && #[trigger] draws(trace, calls, i, a) && #[trigger] draws(
            trace,
            calls,
            j,
            b,
        ) implies a < b by {
        lemma_ids(trace, calls, i);
        lemma_ids(trace, calls, j);
        lemma_upwards(trace, calls, i, j);
    }
    assert forall|id: int| trace[0].id <= id < trace.last().id implies #[trigger] is_drawn(
        trace,
        calls,
        id,
    ) by {
        lemma_some_call_draws(trace, calls, calls.len() as int, id);
    }
}

proof fn lemma_some_call_draws(trace: Seq<ParserCtx>, calls: Seq<Call>, n: int, id: int)
    requires
        traced(trace, calls),
        0 <= n <= calls.len(),
        trace[0].id <= id < trace[n].id,
    ensures
        is_drawn(trace, calls, id),
    decreases n,
{
    if n > 0 {
        if id < trace[n - 1].id {
            lemma_some_call_draws(trace, calls, n - 1, id);
        } else {
            assert(leads(calls[n - 1], trace[n - 1], trace[n - 1 + 1]));
            call_draws(calls[n - 1], trace[n - 1], trace[n]);
            assert(draws(trace, calls, n - 1, id));
        }
    }
}

/// Whether what a call leaves in the storage is in order and stands under a node that is there, or
/// under none.
pub open spec fn leaves_order(call: Call, before: ParserCtx) -> bool {
    match call {
        Call::Build { ids, log } => exists|parent: u32|
            parent < before.id && #[trigger] tidy(
                log,
                parent,
                before.id as int,
                before.id as int,
                before.id + ids,
            ),
        _ => true,
    }
}

/// A call keeps the storage in order, and what was stored.
proof fn lemma_call_keeps_order(call: Call, before: ParserCtx, after: ParserCtx)
    requires
        leads(call, before, after),
        leaves_order(call, before),
        storage_ok(before.storage@, before.id as int),
        before.id > 0,
    ensures
        storage_ok(after.storage@, after.id as int),
        before.storage@.is_prefix_of(after.storage@),
        after.id > 0,
{
    let id = before.id as int;
    match call {
        Call::Draw => {
            assert(storage_ok(after.storage@, after.id as int));
        },
        Call::Build { ids, log } => {
            let parent = choose|parent: u32|
                parent < before.id && #[trigger] tidy(log, parent, id, id, id + ids);
            assert(tidy(before.storage@, 0, 1, 1, id)) by {
                reveal(tidy);
            }
            lemma_rebase(log, parent, id, 0, 1, id, id + ids);
            lemma_join(before.storage@, log, 0, 1, 1, id, id + ids);
            reveal(tidy);
        },
        Call::ParseFile { path } => {
            let file = choose|file: Rc<File>| #[trigger] file_added(before, after, path, file);
            file_keeps_order(before, after, path, file);
        },
        Call::Turn => {
            assert(turns(0, before, before));
            assert(turns(1, before, after));
            run_keeps_order(1, before, after);
        },
        _ => {},
    }
}

/// Whatever is called, the storage stays in order and only grows, as long as nothing is built under
/// an id that is still to be drawn.
pub proof fn calls_keep_order(trace: Seq<ParserCtx>, calls: Seq<Call>)
    requires
        traced(trace, calls),
        forall|i: int| 0 <= i < calls.len() ==> leaves_order(#[trigger] calls[i], trace[i]),
        storage_ok(trace[0].storage@, trace[0].id as int),
        trace[0].id > 0,
    ensures
        storage_ok(trace.last().storage@, trace.last().id as int),
        trace[0].storage@.is_prefix_of(trace.last().storage@),
{
    lemma_calls_keep_order(trace, calls, calls.len() as int);
}

proof fn lemma_calls_keep_order(trace: Seq<ParserCtx>, calls: Seq<Call>, n: int)
    requires
        traced(trace, calls),
        forall|i: int| 0 <= i < calls.len() ==> leaves_order(#[trigger] calls[i], trace[i]),
        storage_ok(trace[0].storage@, trace[0].id as int),
        trace[0].id > 0,
        0 <= n <= calls.len(),
    ensures
        storage_ok(trace[n].storage@, trace[n].id as int),
        trace[0].storage@.is_prefix_of(trace[n].storage@),
        trace[n].id > 0,
    decreases n,
{
    let first = trace[0].storage@;
    if n > 0 {
        lemma_calls_keep_order(trace, calls, n - 1);
        assert(leads(calls[n - 1], trace[n - 1], trace[n - 1 + 1]));
        lemma_call_keeps_order(calls[n - 1], trace[n - 1], trace[n]);
        assert(first =~= trace[n].storage@.take(first.len() as int)) by {
            assert(first =~= trace[n - 1].storage@.take(first.len() as int));
        }
    } else {
        assert(first =~= first.take(first.len() as int));
    }
}

/// `n` turns, as calls.
pub open spec fn all_turns(n: nat) -> Seq<Call> {
    Seq::new(n, |i: int| Call::Turn)
}

/// A whole run is as many calls as it has turns.
pub proof fn run_is_traced(n: nat, before: ParserCtx, after: ParserCtx)
    requires
        turns(n, before, after),
    ensures
        exists|trace: Seq<ParserCtx>|
            {
                &&& #[trigger] traced(trace, all_turns(n))
                &&& trace[0] == before
                &&& trace.last() == after
            },
    decreases n,
{
    let calls = all_turns(n);
    if n == 0 {
        assert(traced(seq![before], calls));
    } else {
        let last = choose|last: ParserCtx|
            #![trigger turn(last, after)]
            turns((n - 1) as nat, before, last) && turn(last, after);
        run_is_traced((n - 1) as nat, before, last);
        let earlier = all_turns((n - 1) as nat);
        let trace = choose|trace: Seq<ParserCtx>|
            {
                &&& #[trigger] traced(trace, earlier)
                &&& trace[0] == before
                &&& trace.last() == last
            };
        let longer = trace.push(after);
        assert forall|i: int| 0 <= i < calls.len() implies leads(
            #[trigger] calls[i],
            longer[i],
            longer[i + 1],
        ) by {
            if i < n - 1 {
                assert(leads(earlier[i], trace[i], trace[i + 1]));
            }
        }
        assert(traced(longer, calls));
    }
}

} // verus!
