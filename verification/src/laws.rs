//! What holds of the library as a whole.
use crate::ast::{Block, Expression, File, Function, NodeKind, Statement};
use crate::context::{ParserCtx, SkipReason, SkipReasonV, SkippedFile};
use crate::count::{expr_ids, expr_ok, file_ids, file_ok, is_use_stmt};
use crate::order::inner;
use crate::outside::parsed;
use crate::parse::{
    file_added, opt_reason, queue_view, registry, skip_reason, skipped_view, source_of, turn,
    with_children,
};
use crate::paths::is_rust_file;
use crate::reader::empty_file;
use crate::record::file_log;
use crate::scan::{
    action_for, chosen, chosen_places, excluded, findings_view, opt_texts, with_loaded, with_outcomes,
    Action, FindingV, Outcome, PathKind,
};
use crate::shape::{all_full_paths, full_paths, heads, is_block, is_expr, is_fn, is_stmts, under};
use crate::storage::StoredNode;
use crate::symbol_table::{empty_scope, Scope, ScopeRef};
use crate::syntax::{opt_text, BlockV, ExprV, FnV, Location, StmtV, UseTreeV};
use crate::text::{holds_text, opt_str, same_ignoring_case, segment, texts};
use crate::text_laws::{operator_is_read_from_its_token, token, visibility_is_as_written};
use crate::tree::{expr_tree, written};
use crate::tree_laws::expr_is_as_written;
use std::rc::Rc;
use vstd::prelude::*;

verus! {

/// A file that was put into the queue is the next one taken from it, and the queue is then as it was
/// before.
pub proof fn last_in_first_out(queue: Seq<(ScopeRef, String)>, scope: ScopeRef, path: String)
    ensures
        queue.push((scope, path)).last() == (scope, path),
        queue.push((scope, path)).drop_last() == queue,
{
    assert(queue.push((scope, path)).drop_last() =~= queue);
}

/// A file that cannot be read, or whose text is not that of a source file, does not stop a run: it is
/// noted, and becomes a file without content, which draws one id and is the only node stored.
pub proof fn skipped_file_is_empty(
    before: ParserCtx,
    after: ParserCtx,
    path: Seq<char>,
    file: Rc<File>,
)
    requires
        file_added(before, after, path, file),
        skip_reason(before.file_provider@, path) is Some,
    ensures
        file.children@.len() == 0,
        file.attributes@.len() == 0,
        file.path@ == path,
        after.id == before.id + 1,
        after.storage@ == before.storage@.push(
            StoredNode { node: NodeKind::File(file), parent: 0 },
        ),
        skipped_view(after.skipped@) == skipped_view(before.skipped@).push(
            (path, skip_reason(before.file_provider@, path)->0),
        ),
{
    let f = source_of(before.file_provider@, path);
    assert(f == empty_file());
    assert(texts(file.attributes@).len() == 0);
    assert(after.storage@ =~= before.storage@.push(
        StoredNode { node: NodeKind::File(file), parent: 0 },
    ));
}

/// A file that cannot be read, or whose text is not that of a source file, can always be built.
pub proof fn skipped_file_can_be_built(files: Map<Seq<char>, Seq<char>>, path: Seq<char>)
    requires
        skip_reason(files, path) is Some,
    ensures
        file_ok(source_of(files, path)),
        file_ids(source_of(files, path)) == 1,
{
    assert(source_of(files, path) == empty_file());
}

/// How many statements of a block are not `use`.
pub open spec fn kept_statements(s: Seq<StmtV>) -> nat
    decreases s.len(),
{
    if s.len() == 0 {
        0
    } else if is_use_stmt(s.last()) {
        kept_statements(s.drop_last())
    } else {
        kept_statements(s.drop_last()) + 1
    }
}

/// A block holds as many statements as are written in it, `use` left out.
pub proof fn block_leaves_out_use(b: BlockV, id: int, out: Block)
    requires
        is_block(b, id, out),
    ensures
        out.statements@.len() == kept_statements(b.stmts),
{
    stmts_leave_out_use(b.stmts, id + 1, out.statements@);
}

proof fn stmts_leave_out_use(s: Seq<StmtV>, id: int, out: Seq<Statement>)
    requires
        is_stmts(s, id, out),
    ensures
        out.len() == kept_statements(s),
    decreases s.len(),
{
    if s.len() > 0 {
        if is_use_stmt(s.last()) {
            stmts_leave_out_use(s.drop_last(), id, out);
        } else {
            stmts_leave_out_use(s.drop_last(), id, out.drop_last());
        }
    }
}

/// How many names a `use` tree brings in.
pub open spec fn leaves(tree: UseTreeV) -> nat
    decreases tree,
{
    match tree {
        UseTreeV::Path { tree, .. } => leaves(*tree),
        UseTreeV::Group { items } => all_leaves(items),
        _ => 1,
    }
}

/// How many names several trees bring in.
pub open spec fn all_leaves(trees: Seq<UseTreeV>) -> nat
    decreases trees,
{
    if trees.len() == 0 {
        0
    } else {
        all_leaves(trees.drop_last()) + leaves(trees.last())
    }
}

/// Whether `path` is `prefix` followed by `::` and more.
pub open spec fn lies_under(path: Seq<char>, prefix: Seq<char>) -> bool {
    exists|rest: Seq<char>| path == #[trigger] segment(prefix, rest)
}

/// Under a prefix, a `use` tree gives the full paths that it gives without one, each with the prefix
/// and `::` before it.
pub proof fn prefix_stands_before_each_path(tree: UseTreeV, prefix: Seq<char>)
    ensures
        full_paths(tree, Some(prefix)).len() == full_paths(tree, None).len(),
        forall|i: int|
            0 <= i < full_paths(tree, None).len() ==> #[trigger] full_paths(tree, Some(prefix))[i]
                == segment(prefix, full_paths(tree, None)[i]),
    decreases tree,
{
    match tree {
        UseTreeV::Path { ident, tree: inner } => {
            let next = segment(prefix, ident);
            let with = full_paths(tree, Some(prefix));
            let without = full_paths(tree, None);
            prefix_stands_before_each_path(*inner, next);
            prefix_stands_before_each_path(*inner, ident);
            assert(with == full_paths(*inner, Some(next)));
            assert(without == full_paths(*inner, Some(ident)));
            assert forall|i: int| 0 <= i < without.len() implies #[trigger] with[i] == segment(
                prefix,
                without[i],
            ) by {
                let rest = full_paths(*inner, None)[i];
                assert(without[i] == segment(ident, rest));
                assert(with[i] =~= segment(prefix, segment(ident, rest)));
            }
        },
        UseTreeV::Name { .. } => {},
        UseTreeV::Rename { ident, rename } => {
            assert(segment(prefix, ident) + seq!['%'] + rename =~= segment(
                prefix,
                ident + seq!['%'] + rename,
            ));
        },
        UseTreeV::Glob => {},
        UseTreeV::Group { items } => {
            prefix_stands_before_all_paths(items, prefix);
        },
    }
}

proof fn prefix_stands_before_all_paths(trees: Seq<UseTreeV>, prefix: Seq<char>)
    ensures
        all_full_paths(trees, Some(prefix)).len() == all_full_paths(trees, None).len(),
        forall|i: int|
            0 <= i < all_full_paths(trees, None).len() ==> #[trigger] all_full_paths(
                trees,
                Some(prefix),
            )[i] == segment(prefix, all_full_paths(trees, None)[i]),
    decreases trees,
{
    if trees.len() > 0 {
        prefix_stands_before_all_paths(trees.drop_last(), prefix);
        prefix_stands_before_each_path(trees.last(), prefix);
        let first = all_full_paths(trees.drop_last(), Some(prefix));
        let with = all_full_paths(trees, Some(prefix));
        let without = all_full_paths(trees, None);
        assert forall|i: int| 0 <= i < without.len() implies #[trigger] with[i] == segment(
            prefix,
            without[i],
        ) by {
            if i < first.len() {
                assert(with[i] == first[i]);
                assert(without[i] == all_full_paths(trees.drop_last(), None)[i]);
            } else {
                let j = i - first.len();
                assert(with[i] == full_paths(trees.last(), Some(prefix))[j]);
                assert(without[i] == full_paths(trees.last(), None)[j]);
            }
        }
    }
}

/// A `use` tree gives one full path for each name it brings in, and each of them begins with the
/// prefix.
pub proof fn full_paths_of_tree(tree: UseTreeV, prefix: Option<Seq<char>>)
    ensures
        full_paths(tree, prefix).len() == leaves(tree),
        prefix matches Some(p) ==> forall|i: int|
            0 <= i < full_paths(tree, prefix).len() ==> lies_under(
                #[trigger] full_paths(tree, prefix)[i],
                p,
            ),
    decreases tree,
{
    match tree {
        UseTreeV::Path { ident, tree: inner } => {
            let next = under(prefix, ident);
            full_paths_of_tree(*inner, Some(next));
            if let Some(p) = prefix {
                let all = full_paths(tree, prefix);
                assert(all == full_paths(*inner, Some(next)));
                assert forall|i: int| 0 <= i < all.len() implies lies_under(
                    #[trigger] all[i],
                    p,
                ) by {
                    let rest = choose|rest: Seq<char>| all[i] == #[trigger] segment(next, rest);
                    assert(all[i] =~= segment(p, segment(ident, rest)));
                }
            }
        },
        UseTreeV::Name { ident } => {
            if let Some(p) = prefix {
                assert(under(prefix, ident) == segment(p, ident));
            }
        },
        UseTreeV::Rename { ident, rename } => {
            if let Some(p) = prefix {
                assert(under(prefix, ident) + seq!['%'] + rename =~= segment(
                    p,
                    ident + seq!['%'] + rename,
                ));
            }
        },
        UseTreeV::Glob => {
            if let Some(p) = prefix {
                assert(under(prefix, seq!['*']) == segment(p, seq!['*']));
            }
        },
        UseTreeV::Group { items } => {
            full_paths_of_trees(items, prefix);
        },
    }
}

proof fn full_paths_of_trees(trees: Seq<UseTreeV>, prefix: Option<Seq<char>>)
    ensures
        all_full_paths(trees, prefix).len() == all_leaves(trees),
        prefix matches Some(p) ==> forall|i: int|
            0 <= i < all_full_paths(trees, prefix).len() ==> lies_under(
                #[trigger] all_full_paths(trees, prefix)[i],
                p,
            ),
    decreases trees,
{
    if trees.len() > 0 {
        full_paths_of_trees(trees.drop_last(), prefix);
        full_paths_of_tree(trees.last(), prefix);
        if let Some(p) = prefix {
            let first = all_full_paths(trees.drop_last(), prefix);
            let last = full_paths(trees.last(), prefix);
            let all = all_full_paths(trees, prefix);
            assert forall|i: int| 0 <= i < all.len() implies lies_under(#[trigger] all[i], p) by {
                if i < first.len() {
                    assert(all[i] == first[i]);
                } else {
                    assert(all[i] == last[i - first.len()]);
                }
            }
        }
    }
}

/// Without patterns nothing is excluded.
pub proof fn no_pattern_excludes_nothing(path: Seq<char>)
    ensures
        !excluded(path, Seq::empty()),
{
}

/// What is excluded is neither read nor gone into, whatever it is.
pub proof fn excluded_is_skipped(
    path: Seq<char>,
    canonical: Seq<char>,
    kind: PathKind,
    patterns: Seq<Seq<char>>,
)
    requires
        excluded(canonical, patterns),
    ensures
        action_for(path, canonical, kind, patterns) == Action::Skip,
{
}

/// More patterns exclude no less.
pub proof fn more_patterns_exclude_more(
    path: Seq<char>,
    patterns: Seq<Seq<char>>,
    more: Seq<Seq<char>>,
)
    requires
        excluded(path, patterns),
    ensures
        excluded(path, patterns + more),
{
    let i = choose|i: int| 0 <= i < patterns.len() && holds_text(path, #[trigger] patterns[i]);
    assert((patterns + more)[i] == patterns[i]);
}

/// Only Rust source files are read.
pub proof fn only_rust_files_are_read(
    path: Seq<char>,
    canonical: Seq<char>,
    kind: PathKind,
    patterns: Seq<Seq<char>>,
)
    requires
        action_for(path, canonical, kind, patterns) == Action::Read,
    ensures
        kind == PathKind::File,
        is_rust_file(path),
        !excluded(canonical, patterns),
{
}

/// The chosen places are those at which a chosen id stands, each once and in order.
pub proof fn chosen_places_are_all(ids: Seq<Seq<char>>, rules: Option<Seq<Seq<char>>>)
    ensures
        forall|k: int|
            0 <= k < chosen_places(ids, rules).len() ==> {
                let at = #[trigger] chosen_places(ids, rules)[k];
                0 <= at < ids.len() && chosen(ids[at], rules)
            },
        forall|k: int, l: int|
            0 <= k < l < chosen_places(ids, rules).len() ==> (#[trigger] chosen_places(
                ids,
                rules,
            )[k]) < (#[trigger] chosen_places(ids, rules)[l]),
        forall|i: int|
            0 <= i < ids.len() && chosen(#[trigger] ids[i], rules) ==> chosen_places(
                ids,
                rules,
            ).contains(i),
    decreases ids.len(),
{
    if ids.len() > 0 {
        let before = chosen_places(ids.drop_last(), rules);
        let all = chosen_places(ids, rules);
        chosen_places_are_all(ids.drop_last(), rules);
        assert forall|k: int| 0 <= k < all.len() implies {
            let at = #[trigger] all[k];
            0 <= at < ids.len() && chosen(ids[at], rules)
        } by {
            if k < before.len() {
                assert(all[k] == before[k]);
                assert(ids.drop_last()[before[k]] == ids[before[k]]);
            }
        }
        assert forall|k: int, l: int| 0 <= k < l < all.len() implies (#[trigger] all[k]) < (
        #[trigger] all[l]) by {
            assert(all[k] == before[k]);
            if l < before.len() {
                assert(all[l] == before[l]);
            }
        }
        assert forall|i: int| 0 <= i < ids.len()
            && chosen(#[trigger] ids[i], rules) implies all.contains(
            i,
        ) by {
            if i < ids.len() - 1 {
                assert(ids.drop_last()[i] == ids[i]);
                let k = choose|k: int| 0 <= k < before.len() && before[k] == i;
                assert(all[k] == i);
            } else {
                assert(all[all.len() - 1] == i);
            }
        }
    }
}

/// Without rules, and where the only rule is `all` in whatever case, every detector is chosen.
pub proof fn all_are_chosen(id: Seq<char>, rule: Seq<char>)
    requires
        same_ignoring_case(rule, "all"@),
    ensures
        chosen(id, None),
        chosen(id, Some(seq![rule])),
{
}

/// Where there is not exactly one rule, a detector is chosen exactly where its id is among them; `all`
/// is then a rule like any other.
pub proof fn several_rules_choose_by_id(id: Seq<char>, rules: Seq<Seq<char>>)
    requires
        rules.len() != 1,
    ensures
        chosen(id, Some(rules)) <==> rules.contains(id),
{
}

/// After all outcomes are taken in, something is found under an id exactly where there was something
/// before, or one of the outcomes with that id found something.
pub proof fn found_where_an_outcome_found(
    m: Map<Seq<char>, Seq<FindingV>>,
    outcomes: Seq<Outcome>,
    id: Seq<char>,
)
    ensures
        with_outcomes(m, outcomes).contains_key(id) <==> m.contains_key(id) || exists|i: int|
            0 <= i < outcomes.len() && (#[trigger] outcomes[i]).id@ == id
                && outcomes[i].found is Some,
    decreases outcomes.len(),
{
    if outcomes.len() > 0 {
        let first = outcomes.drop_last();
        found_where_an_outcome_found(m, first, id);
        if exists|i: int|
            0 <= i < first.len() && (#[trigger] first[i]).id@ == id && first[i].found is Some {
            let i = choose|i: int|
                0 <= i < first.len() && (#[trigger] first[i]).id@ == id && first[i].found is Some;
            assert(outcomes[i] == first[i]);
        }
        if exists|i: int|
            0 <= i < outcomes.len() && (#[trigger] outcomes[i]).id@ == id && outcomes[i].found
                is Some {
            let i = choose|i: int|
                0 <= i < outcomes.len() && (#[trigger] outcomes[i]).id@ == id && outcomes[i].found
                    is Some;
            if i < first.len() {
                assert(first[i] == outcomes[i]);
            }
        }
    }
}

/// Of two outcomes with one id the later counts.
pub proof fn later_outcome_counts(
    m: Map<Seq<char>, Seq<FindingV>>,
    outcomes: Seq<Outcome>,
    last: Outcome,
)
    requires
        last.found is Some,
    ensures
        with_outcomes(m, outcomes.push(last)).contains_key(last.id@),
        with_outcomes(m, outcomes.push(last))[last.id@] == findings_view(last.found->0@),
{
    assert(outcomes.push(last).drop_last() =~= outcomes);
}

/// Whether `outcomes` are those of running the chosen detectors, in order: detector `i` has the id
/// `ids[i]`, and running it finds `found[i]`.
pub open spec fn outcomes_of(
    ids: Seq<Seq<char>>,
    rules: Option<Seq<Seq<char>>>,
    found: Seq<Option<Seq<FindingV>>>,
    outcomes: Seq<Outcome>,
) -> bool {
    let places = chosen_places(ids, rules);
    &&& found.len() == ids.len()
    &&& outcomes.len() == places.len()
    &&& forall|k: int|
        0 <= k < outcomes.len() ==> {
            &&& (#[trigger] outcomes[k]).id@ == ids[places[k]]
            &&& found_of(outcomes[k]) == found[places[k]]
        }
}

/// What an outcome brings.
pub open spec fn found_of(outcome: Outcome) -> Option<Seq<FindingV>> {
    match outcome.found {
        Some(found) => Some(findings_view(found@)),
        None => None,
    }
}

/// Whether the detector at `i` is chosen, has this id and finds something.
pub open spec fn detects(
    ids: Seq<Seq<char>>,
    rules: Option<Seq<Seq<char>>>,
    found: Seq<Option<Seq<FindingV>>>,
    id: Seq<char>,
    i: int,
) -> bool {
    0 <= i < ids.len() && ids[i] == id && chosen(ids[i], rules) && found[i] is Some
}

/// Whether the detector at `i` is the last one that is chosen, has this id and finds something.
pub open spec fn detects_last(
    ids: Seq<Seq<char>>,
    rules: Option<Seq<Seq<char>>>,
    found: Seq<Option<Seq<FindingV>>>,
    id: Seq<char>,
    i: int,
) -> bool {
    &&& detects(ids, rules, found, id, i)
    &&& forall|j: int| i < j ==> !#[trigger] detects(ids, rules, found, id, j)
}

/// Whether `r` holds under `id` what was found: something exactly where a chosen detector with that
/// id found something, or the detector that was loaded has that id and did; and then what the last of
/// them found, the chosen ones being later than the one that was loaded.
pub open spec fn as_detected(
    r: Map<Seq<char>, Seq<FindingV>>,
    ids: Seq<Seq<char>>,
    rules: Option<Seq<Seq<char>>>,
    found: Seq<Option<Seq<FindingV>>>,
    loaded: Option<Outcome>,
    id: Seq<char>,
) -> bool {
    let from_loaded = loaded is Some && loaded->0.id@ == id && loaded->0.found is Some;
    &&& r.contains_key(id) <==> from_loaded || exists|i: int| #[trigger]
        detects(ids, rules, found, id, i)
    &&& forall|i: int| #[trigger]
        detects_last(ids, rules, found, id, i) ==> r[id] == found[i]->0
    &&& from_loaded && (forall|i: int| !#[trigger] detects(ids, rules, found, id, i)) ==> r[id]
        == findings_view(loaded->0.found->0@)
}

/// Running the chosen detectors, and before them the one that was loaded, leaves in the results under
/// each id what a detector with that id found, and nothing else.
pub proof fn found_where_a_chosen_detector_found(
    ids: Seq<Seq<char>>,
    rules: Option<Seq<Seq<char>>>,
    found: Seq<Option<Seq<FindingV>>>,
    loaded: Option<Outcome>,
    outcomes: Seq<Outcome>,
    id: Seq<char>,
)
    requires
        outcomes_of(ids, rules, found, outcomes),
    ensures
        as_detected(
            with_outcomes(with_loaded(loaded), outcomes),
            ids,
            rules,
            found,
            loaded,
            id,
        ),
    decreases ids.len(),
{
    let start = with_loaded(loaded);
    if ids.len() > 0 {
        let n = ids.len() - 1;
        let fewer = ids.drop_last();
        let less = found.drop_last();
        let places = chosen_places(fewer, rules);
        let is_last = chosen(ids.last(), rules);
        let rest = if is_last {
            outcomes.drop_last()
        } else {
            outcomes
        };
        chosen_places_are_all(fewer, rules);
        assert forall|k: int| 0 <= k < rest.len() implies {
            &&& (#[trigger] rest[k]).id@ == fewer[places[k]]
            &&& found_of(rest[k]) == less[places[k]]
        } by {
            assert(chosen_places(ids, rules)[k] == places[k]);
            assert(rest[k] == outcomes[k]);
            assert(0 <= places[k] < fewer.len());
        }
        found_where_a_chosen_detector_found(fewer, rules, less, loaded, rest, id);
        if is_last {
            assert(chosen_places(ids, rules)[outcomes.len() - 1] == n);
            assert(outcomes[outcomes.len() - 1].id@ == ids[n]);
        }
        lemma_one_more_detector(
            with_outcomes(start, rest),
            with_outcomes(start, outcomes),
            ids,
            rules,
            found,
            loaded,
            id,
        );
    }
}

/// What the results hold under an id, once the last detector has been run too.
proof fn lemma_one_more_detector(
    before: Map<Seq<char>, Seq<FindingV>>,
    after: Map<Seq<char>, Seq<FindingV>>,
    ids: Seq<Seq<char>>,
    rules: Option<Seq<Seq<char>>>,
    found: Seq<Option<Seq<FindingV>>>,
    loaded: Option<Outcome>,
    id: Seq<char>,
)
    requires
        ids.len() > 0,
        found.len() == ids.len(),
        as_detected(before, ids.drop_last(), rules, found.drop_last(), loaded, id),
        detects(ids, rules, found, id, ids.len() - 1) ==> after == before.insert(
            id,
            found.last()->0,
        ),
        !detects(ids, rules, found, id, ids.len() - 1) ==> after.contains_key(id)
            == before.contains_key(id) && after[id] == before[id],
    ensures
        as_detected(after, ids, rules, found, loaded, id),
{
    let n = ids.len() - 1;
    let fewer = ids.drop_last();
    let less = found.drop_last();
    assert forall|i: int| #[trigger]
        detects(fewer, rules, less, id, i) == (i < n && detects(ids, rules, found, id, i)) by {
        if 0 <= i < n {
            assert(fewer[i] == ids[i] && less[i] == found[i]);
        }
    }
    if exists|i: int| #[trigger] detects(ids, rules, found, id, i) {
        let i = choose|i: int| #[trigger] detects(ids, rules, found, id, i);
        assert(i == n || detects(fewer, rules, less, id, i));
    }
    if exists|i: int| #[trigger] detects(fewer, rules, less, id, i) {
        let i = choose|i: int| #[trigger] detects(fewer, rules, less, id, i);
        assert(detects(ids, rules, found, id, i));
    }
    assert forall|i: int| #[trigger] detects_last(ids, rules, found, id, i) implies after[id]
        == found[i]->0 by {
        if i < n {
            assert(!detects(ids, rules, found, id, n));
            assert(detects_last(fewer, rules, less, id, i));
            assert(less[i] == found[i]);
        }
    }
}

/// Of each attribute that has a name the first name is kept, in order.
pub proof fn attributes_keep_their_first_names(attrs: Seq<Seq<Seq<char>>>)
    requires
        forall|i: int| 0 <= i < attrs.len() ==> (#[trigger] attrs[i]).len() > 0,
    ensures
        heads(attrs).len() == attrs.len(),
        forall|i: int| 0 <= i < attrs.len() ==> #[trigger] heads(attrs)[i] == attrs[i][0],
    decreases attrs.len(),
{
    if attrs.len() > 0 {
        let fewer = attrs.drop_last();
        assert forall|i: int| 0 <= i < fewer.len() implies (#[trigger] fewer[i]).len() > 0 by {
            assert(fewer[i] == attrs[i]);
        }
        attributes_keep_their_first_names(fewer);
        assert(attrs[attrs.len() - 1].len() > 0);
        assert forall|i: int| 0 <= i < attrs.len() implies #[trigger] heads(attrs)[i]
            == attrs[i][0] by {
            if i < fewer.len() {
                assert(heads(attrs)[i] == heads(fewer)[i]);
                assert(fewer[i] == attrs[i]);
            }
        }
    }
}

/// A name is brought in as it is written, under its new name behind `%` where it has one, and a glob
/// as `*`; a path stands before what follows it; and a group brings in what its trees do, one after
/// the other.
pub proof fn use_trees_bring_in_what_is_written(
    ident: Seq<char>,
    rename: Seq<char>,
    tree: UseTreeV,
    a: Seq<UseTreeV>,
    b: Seq<UseTreeV>,
)
    ensures
        full_paths(UseTreeV::Name { ident }, None) == seq![ident],
        full_paths(UseTreeV::Rename { ident, rename }, None) == seq![ident.push('%') + rename],
        full_paths(UseTreeV::Glob, None) == seq![seq!['*']],
        full_paths(UseTreeV::Path { ident, tree: Box::new(tree) }, None) == full_paths(
            tree,
            None,
        ).map_values(|path: Seq<char>| ident.push(':').push(':') + path),
        full_paths(UseTreeV::Group { items: a + b }, None) == full_paths(
            UseTreeV::Group { items: a },
            None,
        ) + full_paths(UseTreeV::Group { items: b }, None),
        full_paths(UseTreeV::Group { items: seq![tree] }, None) == full_paths(tree, None),
{
    assert(ident.push('%') + rename =~= ident + seq!['%'] + rename);
    prefix_stands_before_each_path(tree, ident);
    let whole = full_paths(UseTreeV::Path { ident, tree: Box::new(tree) }, None);
    let mapped = full_paths(tree, None).map_values(
        |path: Seq<char>| ident.push(':').push(':') + path,
    );
    assert(whole == full_paths(tree, Some(ident)));
    assert forall|i: int| 0 <= i < mapped.len() implies whole[i] == mapped[i] by {
        assert(whole[i] == segment(ident, full_paths(tree, None)[i]));
        assert(segment(ident, full_paths(tree, None)[i]) =~= ident.push(':').push(':') + full_paths(
            tree,
            None,
        )[i]);
    }
    assert(whole =~= mapped);
    lemma_paths_of_sum(a, b);
    let one = seq![tree];
    assert(one.drop_last() =~= Seq::<UseTreeV>::empty());
    assert(all_full_paths(one.drop_last(), None) =~= Seq::<Seq<char>>::empty());
    assert(all_full_paths(one, None) =~= full_paths(tree, None));
}

proof fn lemma_paths_of_sum(a: Seq<UseTreeV>, b: Seq<UseTreeV>)
    ensures
        all_full_paths(a + b, None) == all_full_paths(a, None) + all_full_paths(b, None),
    decreases b.len(),
{
    if b.len() == 0 {
        assert(a + b =~= a);
        assert(all_full_paths(a, None) + all_full_paths(b, None) =~= all_full_paths(a, None));
    } else {
        lemma_paths_of_sum(a, b.drop_last());
        assert((a + b).drop_last() =~= a + b.drop_last());
        assert((a + b).last() == b.last());
        assert(all_full_paths(a + b, None) =~= all_full_paths(a, None) + all_full_paths(b, None));
    }
}

/// What is read from a path is what the text under it is parsed to. Where there is no text, or one
/// that is not that of a source file, nothing is read, and the reason is told: the latter with what
/// was said against the text.
pub proof fn source_is_what_the_text_parses_to(
    files: Map<Seq<char>, Seq<char>>,
    path: Seq<char>,
    text: Seq<char>,
)
    ensures
        ({
            let with = files.insert(path, text);
            match parsed(text) {
                Ok(f) => source_of(with, path) == f && skip_reason(with, path) is None,
                Err(e) => {
                    &&& source_of(with, path).items.len() == 0
                    &&& source_of(with, path).attrs.len() == 0
                    &&& source_of(with, path).source_code.len() == 0
                    &&& skip_reason(with, path) == Some(SkipReasonV::Unparseable(e))
                },
            }
        }),
        source_of(files.remove(path), path).items.len() == 0,
        skip_reason(files.remove(path), path) == Some(SkipReasonV::Unreadable),
{
}

/// In one turn the file that was put into the queue last is built: it is stored behind all that was
/// stored before, under no parent, with the id that was next. What was stored stays, and a file that
/// is skipped is noted.
pub proof fn turn_builds_the_last_file_of_the_queue(before: ParserCtx, after: ParserCtx)
    requires
        turn(before, after),
    ensures
        ({
            let path = before.queue@[before.queue@.len() - 1].1@;
            let at = before.storage@.len() as int;
            &&& after.storage@.len() > at
            &&& before.storage@ == after.storage@.take(at)
            &&& after.storage@[at].parent == 0
            &&& after.storage@[at].node is File
            &&& after.storage@[at].node->File_0.path@ == path
            &&& after.storage@[at].node->File_0.id == before.id
            &&& after.id > before.id
            &&& after.file_provider == before.file_provider
            &&& after.skipped@.len() == before.skipped@.len() + (if before.file_provider@
                .contains_key(path) && parsed(before.file_provider@[path]) is Ok {
                0int
            } else {
                1int
            })
        }),
{
    let next = before.queue@.last();
    let (read, file) = choose|read: ParserCtx, file: Rc<File>|
        {
            &&& #[trigger] file_added(
                ParserCtx { queue: read.queue, ..before },
                read,
                next.1@,
                file,
            )
            &&& read.queue@ == before.queue@.drop_last()
            &&& after == (ParserCtx { queue: after.queue, table: after.table, ..read })
            &&& registry(after) == with_children(
                registry(read),
                file.children@,
                next.0 as nat,
                next.1@,
                before.file_provider@,
            )
        };
    let f = source_of(before.file_provider@, next.1@);
    let at = before.storage@.len() as int;
    assert(before.storage@ =~= after.storage@.take(at));
    assert(after.storage@[at] == file_log(f, file)[0]);
    assert(skipped_view(after.skipped@).len() == after.skipped@.len());
    assert(skipped_view(before.skipped@).len() == before.skipped@.len());
}

/// A function that is built is public exactly where `pub` is written before it, inherits its
/// visibility exactly where nothing is, and is restricted otherwise; so of two functions that are
/// built differently visible ones were written so.
pub proof fn function_is_as_visible_as_written(
    f: FnV,
    g: FnV,
    own: Option<Seq<char>>,
    id: int,
    other: int,
    x: Function,
    y: Function,
)
    requires
        is_fn(f, own, id, x),
        is_fn(g, own, other, y),
    ensures
        x.visibility is Public <==> f.vis == seq!['p', 'u', 'b'],
        x.visibility is Inherited <==> f.vis == Seq::<char>::empty(),
        x.visibility is Restricted <==> f.vis != seq!['p', 'u', 'b'] && f.vis.len() > 0,
        f.vis == seq!['p', 'u', 'b'] && g.vis == Seq::<char>::empty() ==> x.visibility
            != y.visibility,
        f.sig.name == g.sig.name <==> x.name@ == y.name@,
{
    visibility_is_as_written(f.vis, g.vis);
    visibility_is_as_written(g.vis, f.vis);
}

/// The operator of a two-place expression that is built is the one that is written: its token is the
/// text that stands between the operands, and these are not exchanged.
pub proof fn binary_has_the_operator_that_is_written(
    at: Location,
    left: ExprV,
    op: Seq<char>,
    right: ExprV,
    value: bool,
    id: int,
    out: Expression,
)
    requires
        ({
            let e = ExprV::Binary { at, left: Box::new(left), op, right: Box::new(right) };
            is_expr(e, value, id, out) && expr_ok(e)
        }),
    ensures
        out is Binary,
        token(out->Binary_0.operator) == op,
        written(out->Binary_0.left) == expr_tree(left, false),
        written(out->Binary_0.right) == expr_tree(right, false),
{
    let x = inner(out->Binary_0);
    operator_is_read_from_its_token(op, x.operator);
    expr_is_as_written(left, false, id + 1, x.left);
    expr_is_as_written(right, false, id + 1 + expr_ids(left), x.right);
}

/// What may be absent is seen as absent exactly where it is, be it empty or not.
pub proof fn absence_is_seen_as_it_is(
    a: Option<&str>,
    b: Option<&Vec<String>>,
    c: Option<String>,
    d: Option<SkipReason>,
)
    ensures
        opt_str(a) is Some <==> a is Some,
        a matches Some(x) ==> opt_str(a)->0 == x@,
        opt_texts(b) is Some <==> b is Some,
        b matches Some(x) ==> opt_texts(b)->0 == texts(x@),
        opt_text(c) is Some <==> c is Some,
        c matches Some(x) ==> opt_text(c)->0 == x@,
        opt_reason(d) is Some <==> d is Some,
        d matches Some(SkipReason::Unparseable(e)) ==> opt_reason(d)->0
            == SkipReasonV::Unparseable(e@),
        d matches Some(SkipReason::Unreadable) ==> opt_reason(d)->0 == SkipReasonV::Unreadable,
{
}

/// A scope, the files still to be read and those that were skipped are seen as they are.
pub proof fn state_is_seen_as_it_is(
    scope: Scope,
    queue: Seq<(ScopeRef, String)>,
    skipped: Seq<SkippedFile>,
)
    ensures
        scope.view().id == scope.id,
        scope.view().name == scope.name@,
        scope.view().parent is Some <==> scope.parent is Some,
        scope.parent matches Some(p) ==> scope.view().parent->0 == p,
        scope.view().children.len() == scope.children@.len(),
        forall|i: int|
            0 <= i < scope.children@.len() ==> #[trigger] scope.view().children[i]
                == scope.children@[i],
        scope.view().imports == scope.imports@,
        scope.view().definitions == scope.definitions@,
        queue_view(queue).len() == queue.len(),
        forall|i: int|
            0 <= i < queue.len() ==> (#[trigger] queue_view(queue)[i]).0 == queue[i].0
                && queue_view(queue)[i].1 == queue[i].1@,
        skipped_view(skipped).len() == skipped.len(),
        forall|i: int|
            0 <= i < skipped.len() ==> (#[trigger] skipped_view(skipped)[i]).0 == skipped[i].path@
                && skipped_view(skipped)[i].1 == skipped[i].reason.view(),
{
}

/// A file that is skipped stands at the start of its text: on the first line, before the first
/// column, and with no length.
pub proof fn skipped_file_has_no_length(files: Map<Seq<char>, Seq<char>>, path: Seq<char>)
    requires
        skip_reason(files, path) is Some,
    ensures
        ({
            let at = source_of(files, path).at;
            &&& at.offset_start == 0 && at.offset_end == 0
            &&& at.start_line == 1 && at.end_line == 1
            &&& at.start_column == 0 && at.end_column == 0
        }),
{
}

/// What a scope is made with is what it has, and nothing is known in it yet.
pub proof fn new_scope_is_empty(id: u32, name: Seq<char>, parent: Option<nat>)
    ensures
        empty_scope(id, name, parent).id == id,
        empty_scope(id, name, parent).name == name,
        empty_scope(id, name, parent).parent == parent,
        empty_scope(id, name, parent).children.len() == 0,
        empty_scope(id, name, parent).imports.len() == 0,
        empty_scope(id, name, parent).definitions.len() == 0,
{
}

} // verus!
