//! What can be built: whatever holds nothing that cannot.
use crate::ast::{BinOp, UnOp};
use crate::count::{
    arms_ok, block_ok, definitions_ok, expr_ok, exprs_ok, field_values_ok, file_ids, file_ok, fn_ok,
    impl_item_ok, impl_items_ok, is_use_item, item_ok, lit_ok, opt_expr_ok, stmt_ok, stmts_ok,
    trait_item_ok, trait_items_ok,
};
use crate::file_provider::submodule_path;
use crate::kinds::{bin_op_of, un_op_of};
use crate::outside::parsed;
use crate::parse::{item_files, module_files, run_ok, source_of};
use crate::syntax::{
    ArmV, BlockV, CaptureV, ExprV, FieldValueV, FileV, FnV, ImplItemV, ItemV, LitV, StmtV,
    TraitItemV,
};
use crate::text::no_spaces;
use crate::text_laws::{
    operator_is_read_from_its_token, token, unary_operator_is_read_from_its_token, unary_token,
};
use crate::tree::{
    all_supported, arg_trees, arm_trees, block_tree, capture_trees, definition_trees, expr_tree,
    expr_trees, field_trees, field_value_trees, file_tree, fn_tree, impl_item_tree, impl_item_trees,
    import_trees, item_tree, item_trees, lit_tree, opt_expr_tree, pat_tree, place_in_impl,
    stmt_tree, stmt_trees, struct_field_trees, supported, trait_item_tree, trait_item_trees,
    type_tree, use_tree, Tree,
};
use crate::tree_laws::attrs_are_named;
use vstd::prelude::*;

verus! {

proof fn lemma_parts0(t: Tree)
    requires
        t.parts.len() == 0,
    ensures
        supported(t) == (t.known),
{
}

proof fn lemma_parts1(t: Tree)
    requires
        t.parts.len() == 1,
    ensures
        supported(t) == (t.known && supported(t.parts[0])),
{
    if all_supported(t.parts) {
        assert(supported(t.parts[0]));
    }
}

proof fn lemma_parts2(t: Tree)
    requires
        t.parts.len() == 2,
    ensures
        supported(t) == (t.known && supported(t.parts[0]) && supported(t.parts[1])),
{
    if all_supported(t.parts) {
        assert(supported(t.parts[0]));
        assert(supported(t.parts[1]));
    }
}

proof fn lemma_parts3(t: Tree)
    requires
        t.parts.len() == 3,
    ensures
        supported(t) == (t.known && supported(t.parts[0])
            && supported(t.parts[1])
            && supported(t.parts[2])),
{
    if all_supported(t.parts) {
        assert(supported(t.parts[0]));
        assert(supported(t.parts[1]));
        assert(supported(t.parts[2]));
    }
}

proof fn lemma_parts4(t: Tree)
    requires
        t.parts.len() == 4,
    ensures
        supported(t) == (t.known && supported(t.parts[0])
            && supported(t.parts[1])
            && supported(t.parts[2])
            && supported(t.parts[3])),
{
    if all_supported(t.parts) {
        assert(supported(t.parts[0]));
        assert(supported(t.parts[1]));
        assert(supported(t.parts[2]));
        assert(supported(t.parts[3]));
    }
}

proof fn lemma_parts7(t: Tree)
    requires
        t.parts.len() == 7,
    ensures
        supported(t) == (t.known && supported(t.parts[0])
            && supported(t.parts[1])
            && supported(t.parts[2])
            && supported(t.parts[3])
            && supported(t.parts[4])
            && supported(t.parts[5])
            && supported(t.parts[6])),
{
    if all_supported(t.parts) {
        assert(supported(t.parts[0]));
        assert(supported(t.parts[1]));
        assert(supported(t.parts[2]));
        assert(supported(t.parts[3]));
        assert(supported(t.parts[4]));
        assert(supported(t.parts[5]));
        assert(supported(t.parts[6]));
    }
}

proof fn lemma_one_more(s: Seq<Tree>, t: Tree)
    ensures
        all_supported(s.push(t)) == (all_supported(s) && supported(t)),
{
    let all = s.push(t);
    if all_supported(all) {
        assert(supported(all[s.len() as int]));
        assert forall|i: int| 0 <= i < s.len() implies supported(#[trigger] s[i]) by {
            assert(all[i] == s[i]);
        }
    }
    if all_supported(s) && supported(t) {
        assert forall|i: int| 0 <= i < all.len() implies supported(#[trigger] all[i]) by {
            if i < s.len() {
                assert(all[i] == s[i]);
            }
        }
    }
}

proof fn operator_is_known(op: Seq<char>)
    ensures
        bin_op_of(op) is Some <==> exists|o: BinOp| #[trigger] token(o) == op,
{
    operator_is_read_from_its_token(op, BinOp::Add);
    if let Some(o) = bin_op_of(op) {
        operator_is_read_from_its_token(op, o);
        assert(token(o) == op);
    }
}

proof fn unary_operator_is_known(op: Seq<char>)
    ensures
        un_op_of(op) is Some <==> exists|o: UnOp| #[trigger] unary_token(o) == op,
{
    unary_operator_is_read_from_its_token(op, UnOp::Not);
    if let Some(o) = un_op_of(op) {
        unary_operator_is_read_from_its_token(op, o);
        assert(unary_token(o) == op);
    }
}

proof fn literal_is_supported(l: LitV)
    ensures
        lit_ok(l.value) == supported(lit_tree(l)),
{
    lemma_parts0(lit_tree(l));
}

proof fn captures_are_supported(c: Option<CaptureV>)
    ensures
        all_supported(capture_trees(c)) == (c matches Some(c) ==> c.text is Some),
{
    if let Some(x) = c {
        let s = capture_trees(c);
        lemma_parts0(s[0]);
        assert(s.len() == 1);
        if all_supported(s) {
            assert(supported(s[0]));
        }
    }
}

/// An expression can be built exactly where every operator in it is one that there is, every integer
/// one that `i128` holds, every struct expression has a name, and nothing in it is of a kind that is
/// not supported.
pub proof fn expr_is_supported(e: ExprV, value: bool)
    ensures
        expr_ok(e) == supported(expr_tree(e, value)),
    decreases e, 1nat,
{
    match e {
        ExprV::Array { .. }
        | ExprV::Assign { .. }
        | ExprV::Binary { .. }
        | ExprV::Unary { .. }
        | ExprV::Break { .. }
        | ExprV::Block { .. }
        | ExprV::Call { .. }
        | ExprV::Cast { .. } => {
            lemma_exprs_a(e, value);
        },
        ExprV::Closure { .. }
        | ExprV::Const { .. }
        | ExprV::ForLoop { .. }
        | ExprV::Field { .. }
        | ExprV::If { .. }
        | ExprV::Index { .. }
        | ExprV::Let { .. }
        | ExprV::Loop { .. } => {
            lemma_exprs_b(e, value);
        },
        ExprV::Match { .. }
        | ExprV::MethodCall { .. }
        | ExprV::Paren { .. }
        | ExprV::Range { .. }
        | ExprV::RawAddr { .. }
        | ExprV::Reference { .. }
        | ExprV::Repeat { .. }
        | ExprV::Return { .. } => {
            lemma_exprs_c(e, value);
        },
        ExprV::Struct { .. }
        | ExprV::Try { .. }
        | ExprV::TryBlock { .. }
        | ExprV::Tuple { .. }
        | ExprV::Unsafe { .. }
        | ExprV::While { .. }
        | ExprV::Lit { .. } => {
            lemma_exprs_d(e, value);
        },
        _ => {
            lemma_parts0(expr_tree(e, value));
        },
    }
}

proof fn lemma_exprs_a(e: ExprV, value: bool)
    requires
        e is Array
            || e is Assign
            || e is Binary
            || e is Unary
            || e is Break
            || e is Block
            || e is Call
            || e is Cast,
    ensures
        expr_ok(e) == supported(expr_tree(e, value)),
    decreases e, 0nat,
{
    let t = expr_tree(e, value);
    match e {
        ExprV::Array { elems, .. } => {
            exprs_are_supported(elems);
        },
        ExprV::Assign { left, right, .. } => {
            expr_is_supported(*left, false);
            expr_is_supported(*right, false);
            lemma_parts2(t);
        },
        ExprV::Binary { left, op, right, .. } => {
            operator_is_known(op);
            expr_is_supported(*left, false);
            expr_is_supported(*right, false);
            lemma_parts2(t);
        },
        ExprV::Unary { op, expr, .. } => {
            unary_operator_is_known(op);
            expr_is_supported(*expr, false);
            lemma_parts1(t);
        },
        ExprV::Break { expr, .. } => {
            opt_expr_is_supported(expr);
            lemma_parts1(t);
        },
        ExprV::Block { block, .. } => {
            block_is_supported(block);
            lemma_parts1(t);
        },
        ExprV::Call { func, args, .. } => {
            exprs_are_supported(args);
            expr_is_supported(*func, false);
            lemma_parts2(t);
        },
        ExprV::Cast { expr, ty, .. } => {
            lemma_parts0(type_tree(ty));
            expr_is_supported(*expr, false);
            lemma_parts2(t);
        },
        _ => {},
    }
}

proof fn lemma_exprs_b(e: ExprV, value: bool)
    requires
        e is Closure
            || e is Const
            || e is ForLoop
            || e is Field
            || e is If
            || e is Index
            || e is Let
            || e is Loop,
    ensures
        expr_ok(e) == supported(expr_tree(e, value)),
    decreases e, 0nat,
{
    let t = expr_tree(e, value);
    match e {
        ExprV::Closure { capture, body, .. } => {
            captures_are_supported(capture);
            lemma_parts0(t.parts[1]);
            expr_is_supported(*body, false);
            lemma_parts3(t);
        },
        ExprV::Const { block } => {
            block_is_supported(block);
            lemma_parts1(t);
        },
        ExprV::ForLoop { expr, body, .. } => {
            block_is_supported(body);
            expr_is_supported(*expr, false);
            lemma_parts2(t);
        },
        ExprV::Field { base, .. } => {
            expr_is_supported(*base, false);
            lemma_parts1(t);
        },
        ExprV::If { cond, then_branch, else_branch, .. } => {
            block_is_supported(then_branch);
            expr_is_supported(*cond, false);
            opt_expr_is_supported(else_branch);
            lemma_parts3(t);
        },
        ExprV::Index { expr, index, .. } => {
            expr_is_supported(*expr, false);
            expr_is_supported(*index, false);
            lemma_parts2(t);
        },
        ExprV::Let { pat, expr, .. } => {
            lemma_parts0(pat_tree(pat));
            expr_is_supported(*expr, false);
            lemma_parts2(t);
        },
        ExprV::Loop { body, .. } => {
            block_is_supported(body);
            lemma_parts1(t);
        },
        _ => {},
    }
}

proof fn lemma_exprs_c(e: ExprV, value: bool)
    requires
        e is Match
            || e is MethodCall
            || e is Paren
            || e is Range
            || e is RawAddr
            || e is Reference
            || e is Repeat
            || e is Return,
    ensures
        expr_ok(e) == supported(expr_tree(e, value)),
    decreases e, 0nat,
{
    let t = expr_tree(e, value);
    match e {
        ExprV::Match { expr, arms, .. } => {
            expr_is_supported(*expr, false);
            arms_are_supported(arms);
            lemma_parts2(t);
        },
        ExprV::MethodCall { receiver, args, .. } => {
            expr_is_supported(*receiver, false);
            exprs_are_supported(args);
            lemma_parts2(t);
        },
        ExprV::Paren { expr, .. } => {
            expr_is_supported(*expr, false);
            lemma_parts1(t);
        },
        ExprV::Range { start, end, .. } => {
            opt_expr_is_supported(start);
            opt_expr_is_supported(end);
            lemma_parts2(t);
        },
        ExprV::RawAddr { expr, .. } => {
            expr_is_supported(*expr, false);
            lemma_parts1(t);
        },
        ExprV::Reference { expr, .. } => {
            expr_is_supported(*expr, false);
            lemma_parts1(t);
        },
        ExprV::Repeat { expr, len, .. } => {
            expr_is_supported(*expr, false);
            expr_is_supported(*len, false);
            lemma_parts2(t);
        },
        ExprV::Return { expr, .. } => {
            opt_expr_is_supported(expr);
            lemma_parts1(t);
        },
        _ => {},
    }
}

proof fn lemma_exprs_d(e: ExprV, value: bool)
    requires
        e is Struct
            || e is Try
            || e is TryBlock
            || e is Tuple
            || e is Unsafe
            || e is While
            || e is Lit,
    ensures
        expr_ok(e) == supported(expr_tree(e, value)),
    decreases e, 0nat,
{
    let t = expr_tree(e, value);
    match e {
        ExprV::Struct { fields, rest, .. } => {
            field_values_are_supported(fields);
            opt_expr_is_supported(rest);
            lemma_parts2(t);
        },
        ExprV::Try { expr, .. } => {
            expr_is_supported(*expr, false);
            lemma_parts1(t);
        },
        ExprV::TryBlock { block } => {
            block_is_supported(block);
            lemma_parts1(t);
        },
        ExprV::Tuple { elems, .. } => {
            exprs_are_supported(elems);
        },
        ExprV::Unsafe { block, .. } => {
            block_is_supported(block);
            lemma_parts1(t);
        },
        ExprV::While { cond, body, .. } => {
            block_is_supported(body);
            expr_is_supported(*cond, false);
            lemma_parts2(t);
        },
        ExprV::Lit { lit, .. } => {
            literal_is_supported(lit);
            lemma_parts1(t);
        },
        _ => {},
    }
}

proof fn opt_expr_is_supported(o: Option<Box<ExprV>>)
    ensures
        opt_expr_ok(o) == supported(opt_expr_tree(o)),
    decreases o, 0nat,
{
    match o {
        Some(e) => {
            expr_is_supported(*e, false);
        },
        None => {
            lemma_parts0(opt_expr_tree(o));
        },
    }
}

proof fn exprs_are_supported(s: Seq<ExprV>)
    ensures
        exprs_ok(s) == all_supported(expr_trees(s)),
    decreases s, 0nat,
{
    if s.len() > 0 {
        exprs_are_supported(s.drop_last());
        expr_is_supported(s.last(), false);
        lemma_one_more(expr_trees(s.drop_last()), expr_tree(s.last(), false));
    }
}

proof fn arms_are_supported(s: Seq<ArmV>)
    ensures
        arms_ok(s) == all_supported(arm_trees(s)),
    decreases s, 0nat,
{
    if s.len() > 0 {
        let t = arm_trees(s).last();
        arms_are_supported(s.drop_last());
        expr_is_supported(s.last().body, false);
        lemma_parts0(pat_tree(s.last().pat));
        lemma_parts2(t);
        lemma_one_more(arm_trees(s.drop_last()), t);
    }
}

proof fn field_values_are_supported(s: Seq<FieldValueV>)
    ensures
        field_values_ok(s) == all_supported(field_value_trees(s)),
    decreases s, 0nat,
{
    if s.len() > 0 {
        let t = field_value_trees(s).last();
        field_values_are_supported(s.drop_last());
        expr_is_supported(s.last().expr, false);
        lemma_parts1(t);
        lemma_one_more(field_value_trees(s.drop_last()), t);
    }
}

/// A block can be built exactly where each of its statements that is not a `use` can.
pub proof fn block_is_supported(b: BlockV)
    ensures
        block_ok(b) == supported(block_tree(b)),
    decreases b, 0nat,
{
    stmts_are_supported(b.stmts);
}

proof fn stmts_are_supported(s: Seq<StmtV>)
    ensures
        stmts_ok(s) == all_supported(stmt_trees(s)),
    decreases s, 0nat,
{
    if s.len() > 0 {
        stmts_are_supported(s.drop_last());
        match s.last() {
            StmtV::Definition(ItemV::Use(_)) => {},
            _ => {
                stmt_is_supported(s.last());
                lemma_one_more(stmt_trees(s.drop_last()), stmt_tree(s.last()));
            },
        }
    }
}

proof fn stmt_is_supported(s: StmtV)
    requires
        !(s matches StmtV::Definition(ItemV::Use(_))),
    ensures
        stmt_ok(s) == supported(stmt_tree(s)),
    decreases s, 0nat,
{
    let t = stmt_tree(s);
    match s {
        StmtV::Expression { expr, semi } => {
            expr_is_supported(expr, !semi);
        },
        StmtV::Local { pat, init, .. } => {
            lemma_parts0(pat_tree(pat));
            match init {
                Some(i) => {
                    expr_is_supported(i.expr, false);
                    opt_expr_is_supported(i.diverge);
                },
                None => {
                    lemma_parts0(t.parts[1]);
                },
            }
            lemma_parts3(t);
        },
        StmtV::Macro { .. } => {
            lemma_parts0(t);
        },
        StmtV::Definition(item) => {
            item_is_supported(item);
        },
    }
}

proof fn args_are_supported(s: Seq<crate::syntax::ArgV>)
    ensures
        all_supported(arg_trees(s)),
    decreases s.len(),
{
    if s.len() > 0 {
        let fewer = arg_trees(s.drop_last());
        args_are_supported(s.drop_last());
        if arg_trees(s) != fewer {
            lemma_parts0(arg_trees(s).last());
            lemma_one_more(fewer, arg_trees(s).last());
        }
    }
}

proof fn fn_is_supported(f: FnV, self_name: Option<Seq<char>>)
    ensures
        fn_ok(f, self_name is Some) == supported(fn_tree(f, self_name)),
    decreases f, 0nat,
{
    let t = fn_tree(f, self_name);
    attrs_are_named(f.attrs);
    block_is_supported(f.block);
    args_are_supported(f.sig.inputs);
    lemma_parts0(t.parts[0]);
    lemma_parts0(t.parts[1]);
    lemma_parts4(t);
}

proof fn lemma_typed_fields(s: Seq<Tree>)
    requires
        forall|i: int|
            0 <= i < s.len() ==> (#[trigger] s[i]).known && s[i].parts.len() == 1
                && s[i].parts[0].known && s[i].parts[0].parts.len() == 0,
    ensures
        all_supported(s),
{
    assert forall|i: int| 0 <= i < s.len() implies supported(#[trigger] s[i]) by {
        lemma_parts0(s[i].parts[0]);
        lemma_parts1(s[i]);
    }
}

/// A definition can be built exactly where everything in it can: the attributes of every
/// function have names, no function returns `Self` where that stands for nothing, and so on down to
/// the expressions.
pub proof fn item_is_supported(i: ItemV)
    requires
        !(i is Use),
    ensures
        item_ok(i) == supported(item_tree(i)),
    decreases i, 1nat,
{
    let t = item_tree(i);
    match i {
        ItemV::Const(c) => {
            lemma_parts0(type_tree(c.ty));
            expr_is_supported(c.expr, false);
            lemma_parts2(t);
        },
        ItemV::Enum { .. } => {
            lemma_parts0(t.parts[0]);
            lemma_parts0(t.parts[1]);
            lemma_parts2(t);
        },
        ItemV::Fn(f) => {
            fn_is_supported(f, None);
        },
        ItemV::Impl { self_ty, items, .. } => {
            let own = no_spaces(self_ty.text);
            impl_items_are_supported(items, own);
            lemma_parts0(t.parts[0]);
            lemma_parts0(t.parts[1]);
            lemma_parts7(t);
        },
        ItemV::Mod { content, .. } => {
            lemma_parts0(t.parts[0]);
            match content {
                Some(items) => {
                    definitions_are_supported(items);
                    imports_are_supported(items);
                },
                None => {
                    lemma_parts0(t.parts[1]);
                    lemma_parts0(t.parts[2]);
                },
            }
            lemma_parts3(t);
        },
        ItemV::Static { ty, expr, .. } => {
            lemma_parts0(t.parts[0]);
            lemma_parts0(type_tree(ty));
            expr_is_supported(expr, false);
            lemma_parts3(t);
        },
        ItemV::Struct { fields, .. } => {
            lemma_parts0(t.parts[0]);
            lemma_typed_fields(struct_field_trees(fields));
            lemma_parts2(t);
        },
        ItemV::Trait { vis, items, .. } => {
            lemma_parts0(t.parts[0]);
            trait_items_are_supported(items, vis);
            lemma_parts2(t);
        },
        ItemV::TraitAlias { .. } => {
            lemma_parts0(t.parts[0]);
            lemma_parts1(t);
        },
        ItemV::TypeAlias(x) => {
            lemma_parts0(type_tree(x.ty));
            lemma_parts1(t);
        },
        ItemV::Union { fields, .. } => {
            lemma_parts0(t.parts[0]);
            lemma_typed_fields(field_trees(fields));
            lemma_parts2(t);
        },
        _ => {
            lemma_parts0(t);
        },
    }
}

proof fn use_is_supported(u: crate::syntax::UseV)
    ensures
        supported(use_tree(u)),
{
    lemma_parts0(use_tree(u).parts[0]);
    lemma_parts1(use_tree(u));
}

proof fn definitions_are_supported(s: Seq<ItemV>)
    ensures
        definitions_ok(s) == all_supported(definition_trees(s)),
    decreases s, 0nat,
{
    if s.len() > 0 {
        definitions_are_supported(s.drop_last());
        if !is_use_item(s.last()) {
            item_is_supported(s.last());
            lemma_one_more(definition_trees(s.drop_last()), item_tree(s.last()));
        }
    }
}

proof fn imports_are_supported(s: Seq<ItemV>)
    ensures
        all_supported(import_trees(s)),
    decreases s.len(),
{
    if s.len() > 0 {
        imports_are_supported(s.drop_last());
        if let ItemV::Use(u) = s.last() {
            use_is_supported(u);
            lemma_one_more(import_trees(s.drop_last()), use_tree(u));
        }
    }
}

/// Whether the items of all five lists can be built.
spec fn lists_supported(s: Seq<ImplItemV>, own: Seq<char>) -> bool {
    &&& all_supported(impl_item_trees(s, own, 0))
    &&& all_supported(impl_item_trees(s, own, 1))
    &&& all_supported(impl_item_trees(s, own, 2))
    &&& all_supported(impl_item_trees(s, own, 3))
    &&& all_supported(impl_item_trees(s, own, 4))
}

proof fn impl_items_are_supported(s: Seq<ImplItemV>, own: Seq<char>)
    ensures
        impl_items_ok(s) == lists_supported(s, own),
    decreases s, 0nat,
{
    if s.len() > 0 {
        let i = s.last();
        let place = place_in_impl(i);
        impl_items_are_supported(s.drop_last(), own);
        impl_item_is_supported(i, own);
        lemma_one_more(impl_item_trees(s.drop_last(), own, place), impl_item_tree(i, own));
    }
}

proof fn impl_item_is_supported(i: ImplItemV, own: Seq<char>)
    ensures
        impl_item_ok(i) == supported(impl_item_tree(i, own)),
    decreases i, 0nat,
{
    let t = impl_item_tree(i, own);
    match i {
        ImplItemV::Fn(f) => {
            fn_is_supported(f, Some(own));
        },
        ImplItemV::Const(c) => {
            lemma_parts0(type_tree(c.ty));
            expr_is_supported(c.expr, false);
            lemma_parts2(t);
        },
        ImplItemV::Type(x) => {
            lemma_parts0(type_tree(x.ty));
            lemma_parts1(t);
        },
        _ => {
            lemma_parts0(t);
        },
    }
}

proof fn trait_item_is_supported(i: TraitItemV, vis: Seq<char>)
    ensures
        trait_item_ok(i) == supported(trait_item_tree(i, vis)),
    decreases i, 0nat,
{
    let t = trait_item_tree(i, vis);
    match i {
        TraitItemV::Const { ty, default, .. } => {
            lemma_parts0(type_tree(ty));
            opt_expr_is_supported(default);
            lemma_parts2(t);
        },
        TraitItemV::Fn { attrs, sig, .. } => {
            attrs_are_named(attrs);
            args_are_supported(sig.inputs);
            lemma_parts0(t.parts[0]);
            lemma_parts0(t.parts[1]);
            lemma_parts0(t.parts[3]);
            lemma_parts4(t);
        },
        _ => {
            lemma_parts0(t);
        },
    }
}

proof fn trait_items_are_supported(s: Seq<TraitItemV>, vis: Seq<char>)
    ensures
        trait_items_ok(s) == all_supported(trait_item_trees(s, vis)),
    decreases s, 0nat,
{
    if s.len() > 0 {
        trait_items_are_supported(s.drop_last(), vis);
        trait_item_is_supported(s.last(), vis);
        lemma_one_more(trait_item_trees(s.drop_last(), vis), trait_item_tree(s.last(), vis));
    }
}

proof fn items_are_supported(s: Seq<ItemV>)
    ensures
        definitions_ok(s) == all_supported(item_trees(s)),
    decreases s.len(),
{
    if s.len() > 0 {
        items_are_supported(s.drop_last());
        match s.last() {
            ItemV::Use(u) => {
                use_is_supported(u);
            },
            _ => {
                item_is_supported(s.last());
            },
        }
        lemma_one_more(item_trees(s.drop_last()), item_tree(s.last()));
    }
}

/// A file can be built exactly where everything that is written in it can.
pub proof fn file_is_supported(f: FileV, path: Seq<char>)
    ensures
        file_ok(f) == supported(file_tree(f, path)),
{
    let t = file_tree(f, path);
    items_are_supported(f.items);
    lemma_parts0(t.parts[0]);
    lemma_parts2(t);
}

/// A run with nothing in its queue is at its end. One with a file in it can go on to its end exactly
/// where all that is written in the last file can be built, there are ids enough for it, and the run
/// can go on from there: with the other files, and behind them the files of the modules that are
/// written in this one.
pub proof fn run_goes_on_where_its_files_are_supported(
    id: nat,
    queue: Seq<Seq<char>>,
    path: Seq<char>,
    files: Map<Seq<char>, Seq<char>>,
)
    ensures
        run_ok(id, Seq::empty(), files),
        ({
            let f = source_of(files, path);
            run_ok(id, queue.push(path), files) <==> supported(file_tree(f, path)) && id + file_ids(
                f,
            ) <= u32::MAX && run_ok(
                id + file_ids(f),
                queue + module_files(f.items, path, files),
                files,
            )
        }),
{
    let all = queue.push(path);
    file_is_supported(source_of(files, path), path);
    assert(all.last() == path);
    assert(all.drop_last() =~= queue);
}

/// A file that is not there, or whose text is not that of a source file, never stops a run that has an
/// id left for it.
pub proof fn skipped_file_does_not_stop_a_run(
    id: nat,
    queue: Seq<Seq<char>>,
    path: Seq<char>,
    files: Map<Seq<char>, Seq<char>>,
)
    requires
        id < u32::MAX,
        !files.contains_key(path) || parsed(files[path]) is Err,
    ensures
        run_ok(id, queue.push(path), files) <==> run_ok(id + 1, queue, files),
{
    let f = source_of(files, path);
    let all = queue.push(path);
    assert(all.last() == path);
    assert(all.drop_last() =~= queue);
    assert(f.items.len() == 0);
    assert(module_files(f.items, path, files) =~= Seq::<Seq<char>>::empty());
    assert(queue + module_files(f.items, path, files) =~= queue);
    assert(file_ids(f) == 1);
}

/// The files of modules are looked for in the order in which the modules are written; one that is
/// written out brings those of the modules in it, and no other item brings any.
pub proof fn module_files_come_in_order(
    a: Seq<ItemV>,
    b: Seq<ItemV>,
    item: ItemV,
    path: Seq<char>,
    files: Map<Seq<char>, Seq<char>>,
)
    ensures
        module_files(a + b, path, files) == module_files(a, path, files) + module_files(
            b,
            path,
            files,
        ),
        !(item is Mod) ==> module_files(seq![item], path, files).len() == 0,
        item matches ItemV::Mod { content: Some(inner), .. } ==> module_files(
            seq![item],
            path,
            files,
        ) == module_files(inner, path, files),
        item matches ItemV::Mod { name, content: None, .. } ==> module_files(
            seq![item],
            path,
            files,
        ) == (match submodule_path(path, name, files) {
            Some(p) => seq![p],
            None => Seq::<Seq<char>>::empty(),
        }),
{
    lemma_files_of_sum(a, b, path, files);
    let one = seq![item];
    assert(one.drop_last() =~= Seq::<ItemV>::empty());
    assert(one.last() == item);
    assert(module_files(one.drop_last(), path, files) =~= Seq::<Seq<char>>::empty());
    assert(module_files(one, path, files) =~= item_files(item, path, files));
}

proof fn lemma_files_of_sum(
    a: Seq<ItemV>,
    b: Seq<ItemV>,
    path: Seq<char>,
    files: Map<Seq<char>, Seq<char>>,
)
    ensures
        module_files(a + b, path, files) == module_files(a, path, files) + module_files(
            b,
            path,
            files,
        ),
    decreases b.len(),
{
    let whole = module_files(a + b, path, files);
    let sum = module_files(a, path, files) + module_files(b, path, files);
    if b.len() == 0 {
        assert(a + b =~= a);
        assert(whole =~= sum);
    } else {
        lemma_files_of_sum(a, b.drop_last(), path, files);
        assert((a + b).drop_last() =~= a + b.drop_last());
        assert((a + b).last() == b.last());
        assert(whole =~= sum);
    }
}

} // verus!
