//! What holds of a list holds of its beginning.
use crate::count::{
    arms_ids, arms_ok, definitions_ids, definitions_ok, exprs_ids, exprs_ok, field_values_ids,
    field_values_ok, impl_items_ids, impl_items_ok, imports_ids, items_ids, params_ids, stmts_ids,
    stmts_ok, trait_items_ids, trait_items_ok,
};
use crate::syntax::{ArgV, ArmV, ExprV, FieldValueV, ImplItemV, ItemV, StmtV, TraitItemV};
use vstd::prelude::*;

verus! {

pub proof fn lemma_exprs_prefix(s: Seq<ExprV>, i: int)
    requires
        0 <= i <= s.len(),
    ensures
        exprs_ids(s.take(i)) <= exprs_ids(s),
        exprs_ok(s) ==> exprs_ok(s.take(i)),
    decreases s.len() - i,
{
    if i < s.len() {
        assert(s.take(i + 1).drop_last() =~= s.take(i));
        lemma_exprs_prefix(s, i + 1);
    } else {
        assert(s.take(i) =~= s);
    }
}

pub proof fn lemma_arms_prefix(s: Seq<ArmV>, i: int)
    requires
        0 <= i <= s.len(),
    ensures
        arms_ids(s.take(i)) <= arms_ids(s),
        arms_ok(s) ==> arms_ok(s.take(i)),
    decreases s.len() - i,
{
    if i < s.len() {
        assert(s.take(i + 1).drop_last() =~= s.take(i));
        lemma_arms_prefix(s, i + 1);
    } else {
        assert(s.take(i) =~= s);
    }
}

pub proof fn lemma_field_values_prefix(s: Seq<FieldValueV>, i: int)
    requires
        0 <= i <= s.len(),
    ensures
        field_values_ids(s.take(i)) <= field_values_ids(s),
        field_values_ok(s) ==> field_values_ok(s.take(i)),
    decreases s.len() - i,
{
    if i < s.len() {
        assert(s.take(i + 1).drop_last() =~= s.take(i));
        lemma_field_values_prefix(s, i + 1);
    } else {
        assert(s.take(i) =~= s);
    }
}

pub proof fn lemma_stmts_prefix(s: Seq<StmtV>, i: int)
    requires
        0 <= i <= s.len(),
    ensures
        stmts_ids(s.take(i)) <= stmts_ids(s),
        stmts_ok(s) ==> stmts_ok(s.take(i)),
    decreases s.len() - i,
{
    if i < s.len() {
        assert(s.take(i + 1).drop_last() =~= s.take(i));
        lemma_stmts_prefix(s, i + 1);
    } else {
        assert(s.take(i) =~= s);
    }
}

pub proof fn lemma_params_prefix(s: Seq<ArgV>, i: int)
    requires
        0 <= i <= s.len(),
    ensures
        params_ids(s.take(i)) <= params_ids(s),
    decreases s.len() - i,
{
    if i < s.len() {
        assert(s.take(i + 1).drop_last() =~= s.take(i));
        lemma_params_prefix(s, i + 1);
    } else {
        assert(s.take(i) =~= s);
    }
}

pub proof fn lemma_definitions_prefix(s: Seq<ItemV>, i: int)
    requires
        0 <= i <= s.len(),
    ensures
        definitions_ids(s.take(i)) <= definitions_ids(s),
        imports_ids(s.take(i)) <= imports_ids(s),
        items_ids(s.take(i)) <= items_ids(s),
        definitions_ok(s) ==> definitions_ok(s.take(i)),
    decreases s.len() - i,
{
    if i < s.len() {
        assert(s.take(i + 1).drop_last() =~= s.take(i));
        lemma_definitions_prefix(s, i + 1);
    } else {
        assert(s.take(i) =~= s);
    }
}

pub proof fn lemma_impl_items_prefix(s: Seq<ImplItemV>, i: int)
    requires
        0 <= i <= s.len(),
    ensures
        impl_items_ids(s.take(i)) <= impl_items_ids(s),
        impl_items_ok(s) ==> impl_items_ok(s.take(i)),
    decreases s.len() - i,
{
    if i < s.len() {
        assert(s.take(i + 1).drop_last() =~= s.take(i));
        lemma_impl_items_prefix(s, i + 1);
    } else {
        assert(s.take(i) =~= s);
    }
}

pub proof fn lemma_trait_items_prefix(s: Seq<TraitItemV>, i: int)
    requires
        0 <= i <= s.len(),
    ensures
        trait_items_ids(s.take(i)) <= trait_items_ids(s),
        trait_items_ok(s) ==> trait_items_ok(s.take(i)),
    decreases s.len() - i,
{
    if i < s.len() {
        assert(s.take(i + 1).drop_last() =~= s.take(i));
        lemma_trait_items_prefix(s, i + 1);
    } else {
        assert(s.take(i) =~= s);
    }
}

} // verus!
