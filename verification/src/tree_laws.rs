//! What is built tells what was written: from each node the same can be read as from its source.
use crate::ast::{
    Block, Const, Definition, Expression, File, FnParameter, Function, Literal, MatchArm, NodeKind,
    NodeType, Pattern, Statement, Type, TypeAlias, Use,
};
use crate::count::{
    arms_ids, arms_ok, attrs_named, block_ids, block_ok, definitions_ids, definitions_ok, expr_ids,
    expr_ok, exprs_ids, exprs_ok, field_values_ids, field_values_ok, file_ok, fn_ok, impl_item_ok,
    impl_items_ids, impl_items_ok, imports_ids, is_param, is_use_item, item_ok, items_ids,
    opt_expr_ids, opt_expr_ok, params_ids, stmt_ok, stmts_ids, stmts_ok, trait_item_ok,
    trait_items_ids, trait_items_ok,
};
use crate::kinds::{is_return_type, visibility_of};
use crate::order::inner;
use crate::outside::type_source;
use crate::shape::{
    closure_output, is_arms, is_block, is_children, is_const, is_definitions, is_expr, is_exprs,
    is_field_values, is_file, is_fn, is_impl_const, is_impl_items, is_imports, is_item,
    is_last_part, is_literal, is_opt_expr, is_params, is_pattern, is_stmt, is_stmts, is_trait_item,
    is_trait_items, is_type, is_type_alias, is_use, marks_contract, parts_of, without_last,
    ImplParts,
};
use crate::syntax::{
    ArgV, ArmV, BlockV, ConstV, ExprV, FieldValueV, FileV, FnV, ImplItemV, ItemV, LitV, PatV, StmtV,
    TraitItemV, TypeAliasV, TypeV, UseV,
};
use crate::text::no_spaces;
use crate::text_laws::{
    operator_is_read_from_its_token, token, unary_operator_is_read_from_its_token, unary_token,
    visibility_is_as_written,
};
use crate::tree::{
    alias_tree, aliases_written, all_named, all_written, arg_trees, arm_trees, arms_written,
    block_tree, capture_trees, children_written, const_tree, consts_written, definition_trees,
    defs_written, expr_tree, expr_trees, field_trees, field_value_trees, fields_written, file_tree,
    fn_tree, fns_written, impl_item_tree, impl_item_trees, import_trees, item_tree, item_trees,
    lit_tree, macros_written, names_written, opt_expr_tree, opt_written, output_word,
    params_written, pat_tree, place_in_impl, planes_written, stmt_tree, stmt_trees, stmts_written,
    struct_field_trees, struct_fields_written, trait_item_tree, trait_item_trees, type_tree,
    union_fields_written, use_tree, uses_written, vis_word, written, written_alias, written_block,
    written_const, written_def, written_field, written_file, written_fn, written_lit,
    written_output, written_pat, written_stmt, written_type, written_use, written_vis, Tree,
};
use std::rc::Rc;
use vstd::prelude::*;

verus! {

/// Types.
pub proof fn type_is_as_written(t: TypeV, id: int, out: Type)
    requires
        is_type(t, id, out),
    ensures
        written_type(out) == type_tree(t),
{
}

/// Patterns.
pub proof fn pattern_is_as_written(p: PatV, id: int, out: Pattern)
    requires
        is_pattern(p, id, out),
    ensures
        written_pat(out) == pat_tree(p),
{
}

/// Literals: each is of the kind and has the value that is written.
pub proof fn literal_is_as_written(l: LitV, id: int, out: Literal)
    requires
        is_literal(l, id, out),
    ensures
        written_lit(out) == lit_tree(l),
{
}

/// Expressions: each node is of the kind that is written, with its operator, names and marks, and its
/// parts are those that are written, each in its place. Whether an expression gives the value of its
/// block is told by its mark.
pub proof fn expr_is_as_written(e: ExprV, value: bool, id: int, out: Expression)
    requires
        is_expr(e, value, id, out),
        expr_ok(e),
    ensures
        written(out) == expr_tree(e, value),
    decreases e, 1nat,
{
    match e {
        ExprV::Array { .. }
        | ExprV::Assign { .. }
        | ExprV::Binary { .. }
        | ExprV::Unary { .. }
        | ExprV::Break { .. }
        | ExprV::Block { .. }
        | ExprV::Call { .. }
        | ExprV::Cast { .. } => {
            lemma_exprs_a(e, value, id, out);
        },
        ExprV::Closure { .. }
        | ExprV::Const { .. }
        | ExprV::ForLoop { .. }
        | ExprV::Field { .. }
        | ExprV::If { .. }
        | ExprV::Index { .. }
        | ExprV::Let { .. }
        | ExprV::Loop { .. } => {
            lemma_exprs_b(e, value, id, out);
        },
        ExprV::Match { .. }
        | ExprV::MethodCall { .. }
        | ExprV::Paren { .. }
        | ExprV::Range { .. }
        | ExprV::RawAddr { .. }
        | ExprV::Reference { .. }
        | ExprV::Repeat { .. }
        | ExprV::Return { .. } => {
            lemma_exprs_c(e, value, id, out);
        },
        ExprV::Struct { .. }
        | ExprV::Try { .. }
        | ExprV::TryBlock { .. }
        | ExprV::Tuple { .. }
        | ExprV::Unsafe { .. }
        | ExprV::While { .. } => {
            lemma_exprs_d(e, value, id, out);
        },
        _ => {},
    }
}

proof fn lemma_exprs_a(e: ExprV, value: bool, id: int, out: Expression)
    requires
        is_expr(e, value, id, out),
        expr_ok(e),
        e is Array
            || e is Assign
            || e is Binary
            || e is Unary
            || e is Break
            || e is Block
            || e is Call
            || e is Cast,
    ensures
        written(out) == expr_tree(e, value),
    decreases e, 0nat,
{
    match e {
        ExprV::Array { elems, .. } => {
            let x = inner(out->Array_0);
            exprs_are_as_written(elems, id + 1, x.elements@);
            assert(written(out) == expr_tree(e, value));
        },
        ExprV::Assign { left, right, .. } => {
            let x = inner(out->Assign_0);
            expr_is_as_written(*left, false, id + 1, x.left);
            expr_is_as_written(*right, false, id + 1 + expr_ids(*left), x.right);
            assert(written(out) == expr_tree(e, value));
        },
        ExprV::Binary { left, op, right, .. } => {
            let x = inner(out->Binary_0);
            operator_is_read_from_its_token(op, x.operator);
            assert(token(x.operator) == op);
            expr_is_as_written(*left, false, id + 1, x.left);
            expr_is_as_written(*right, false, id + 1 + expr_ids(*left), x.right);
            assert(written(out) == expr_tree(e, value));
        },
        ExprV::Unary { op, expr, .. } => {
            let x = inner(out->Unary_0);
            unary_operator_is_read_from_its_token(op, x.operator);
            assert(unary_token(x.operator) == op);
            expr_is_as_written(*expr, false, id + 1, x.expression);
            assert(written(out) == expr_tree(e, value));
        },
        ExprV::Break { expr, .. } => {
            let x = inner(out->Break_0);
            opt_expr_is_as_written(expr, id + 1, x.expression);
            assert(written(out) == expr_tree(e, value));
        },
        ExprV::Block { block, .. } => {
            let x = inner(out->EBlock_0);
            block_is_as_written(block, id + 1, inner(x.block));
            assert(written(out) == expr_tree(e, value));
        },
        ExprV::Call { func, args, .. } => {
            let x = inner(out->FunctionCall_0);
            exprs_are_as_written(args, id + 1, x.parameters@);
            expr_is_as_written(*func, false, id + 1 + exprs_ids(args), x.expression);
            assert(written(out) == expr_tree(e, value));
        },
        ExprV::Cast { expr, .. } => {
            let x = inner(out->Cast_0);
            expr_is_as_written(*expr, false, id + 1, x.base);
            assert(written(out) == expr_tree(e, value));
        },
        _ => {},
    }
}

proof fn lemma_exprs_b(e: ExprV, value: bool, id: int, out: Expression)
    requires
        is_expr(e, value, id, out),
        expr_ok(e),
        e is Closure
            || e is Const
            || e is ForLoop
            || e is Field
            || e is If
            || e is Index
            || e is Let
            || e is Loop,
    ensures
        written(out) == expr_tree(e, value),
    decreases e, 0nat,
{
    match e {
        ExprV::Closure { capture, output, body, .. } => {
            let x = inner(out->Closure_0);
            assert(names_written(x.captures@) =~= capture_trees(capture));
            closure_type_is_as_written(output, x.returns);
            expr_is_as_written(*body, false, id + 1, x.body);
            let a = written(out);
            let b = expr_tree(e, value);
            assert(a.label == b.label);
            assert(a.at == b.at);
            assert(a.known == b.known);
            assert(a.words == b.words);
            assert(a.parts[0] == b.parts[0]);
            assert(a.parts[1] == b.parts[1]);
            assert(a.parts[2] == b.parts[2]);
            assert(a.parts =~= b.parts);
            assert(written(out) == expr_tree(e, value));
        },
        ExprV::Const { block } => {
            let x = inner(out->Const_0);
            block_is_as_written(block, id + 1, inner(x.block));
            assert(written(out) == expr_tree(e, value));
        },
        ExprV::ForLoop { expr, body, .. } => {
            let x = inner(out->ForLoop_0);
            block_is_as_written(body, id + 1, inner(x.block));
            expr_is_as_written(*expr, false, id + 1 + block_ids(body), x.expression);
            assert(written(out) == expr_tree(e, value));
        },
        ExprV::Field { base, .. } => {
            let x = inner(out->MemberAccess_0);
            expr_is_as_written(*base, false, id + 1, x.base);
            assert(written(out) == expr_tree(e, value));
        },
        ExprV::If { cond, then_branch, else_branch, .. } => {
            let x = inner(out->If_0);
            block_is_as_written(then_branch, id + 1, inner(x.then_branch));
            expr_is_as_written(*cond, false, id + 1 + block_ids(then_branch), x.condition);
            opt_expr_is_as_written(else_branch, id + 1 + block_ids(then_branch)
                + expr_ids(*cond), x.else_branch);
            assert(written(out) == expr_tree(e, value));
        },
        ExprV::Index { expr, index, .. } => {
            let x = inner(out->IndexAccess_0);
            expr_is_as_written(*expr, false, id + 1, x.base);
            expr_is_as_written(*index, false, id + 1 + expr_ids(*expr), x.index);
            assert(written(out) == expr_tree(e, value));
        },
        ExprV::Let { expr, .. } => {
            let x = inner(out->LetGuard_0);
            expr_is_as_written(*expr, false, id + 2, x.value);
            assert(written(out) == expr_tree(e, value));
        },
        ExprV::Loop { body, .. } => {
            let x = inner(out->Loop_0);
            block_is_as_written(body, id + 1, inner(x.block));
            assert(written(out) == expr_tree(e, value));
        },
        _ => {},
    }
}

proof fn lemma_exprs_c(e: ExprV, value: bool, id: int, out: Expression)
    requires
        is_expr(e, value, id, out),
        expr_ok(e),
        e is Match
            || e is MethodCall
            || e is Paren
            || e is Range
            || e is RawAddr
            || e is Reference
            || e is Repeat
            || e is Return,
    ensures
        written(out) == expr_tree(e, value),
    decreases e, 0nat,
{
    match e {
        ExprV::Match { expr, arms, .. } => {
            let x = inner(out->Match_0);
            expr_is_as_written(*expr, false, id + 1, x.expression);
            arms_are_as_written(arms, id + 1 + expr_ids(*expr), x.arms@);
            assert(written(out) == expr_tree(e, value));
        },
        ExprV::MethodCall { receiver, args, .. } => {
            let x = inner(out->MethodCall_0);
            expr_is_as_written(*receiver, false, id + 1, x.base);
            exprs_are_as_written(args, id + 1 + expr_ids(*receiver), x.parameters@);
            assert(written(out) == expr_tree(e, value));
        },
        ExprV::Paren { expr, .. } => {
            let x = inner(out->Parenthesized_0);
            expr_is_as_written(*expr, false, id + 1, x.expression);
            assert(written(out) == expr_tree(e, value));
        },
        ExprV::Range { start, end, .. } => {
            let x = inner(out->Range_0);
            opt_expr_is_as_written(start, id + 1, x.start);
            opt_expr_is_as_written(end, id + 1 + opt_expr_ids(start), x.end);
            assert(written(out) == expr_tree(e, value));
        },
        ExprV::RawAddr { expr, .. } => {
            let x = inner(out->Addr_0);
            expr_is_as_written(*expr, false, id + 1, x.expression);
            assert(written(out) == expr_tree(e, value));
        },
        ExprV::Reference { expr, .. } => {
            let x = inner(out->Reference_0);
            expr_is_as_written(*expr, false, id + 1, x.inner);
            assert(written(out) == expr_tree(e, value));
        },
        ExprV::Repeat { expr, len, .. } => {
            let x = inner(out->Repeat_0);
            expr_is_as_written(*expr, false, id + 1, x.expression);
            expr_is_as_written(*len, false, id + 1 + expr_ids(*expr), x.count);
            assert(written(out) == expr_tree(e, value));
        },
        ExprV::Return { expr, .. } => {
            let x = inner(out->Return_0);
            opt_expr_is_as_written(expr, id + 1, x.expression);
            assert(written(out) == expr_tree(e, value));
        },
        _ => {},
    }
}

proof fn lemma_exprs_d(e: ExprV, value: bool, id: int, out: Expression)
    requires
        is_expr(e, value, id, out),
        expr_ok(e),
        e is Struct || e is Try || e is TryBlock || e is Tuple || e is Unsafe || e is While,
    ensures
        written(out) == expr_tree(e, value),
    decreases e, 0nat,
{
    match e {
        ExprV::Struct { fields, rest, .. } => {
            let x = inner(out->EStruct_0);
            field_values_are_as_written(fields, id, x.fields@);
            opt_expr_is_as_written(rest, id + field_values_ids(fields), x.rest_dots);
            assert(written(out) == expr_tree(e, value));
        },
        ExprV::Try { expr, .. } => {
            let x = inner(out->Try_0);
            expr_is_as_written(*expr, false, id + 1, x.expression);
            assert(written(out) == expr_tree(e, value));
        },
        ExprV::TryBlock { block } => {
            let x = inner(out->EBlock_0);
            block_is_as_written(block, id + 1, inner(x.block));
            assert(written(out) == expr_tree(e, value));
        },
        ExprV::Tuple { elems, .. } => {
            let x = inner(out->Tuple_0);
            exprs_are_as_written(elems, id + 1, x.elements@);
            assert(written(out) == expr_tree(e, value));
        },
        ExprV::Unsafe { block, .. } => {
            let x = inner(out->Unsafe_0);
            block_is_as_written(block, id + 1, inner(x.block));
            assert(written(out) == expr_tree(e, value));
        },
        ExprV::While { cond, body, .. } => {
            let x = inner(out->While_0);
            block_is_as_written(body, id + 1, inner(x.block));
            expr_is_as_written(*cond, false, id + 1 + block_ids(body), x.condition);
            assert(written(out) == expr_tree(e, value));
        },
        _ => {},
    }
}

proof fn closure_type_is_as_written(output: Option<TypeV>, out: Type)
    requires
        exists|id: int| #[trigger] is_type(closure_output(output), id, out),
        output is None ==> out->Typename_0.name@ == "_"@,
    ensures
        written_type(out) == (match output {
            Some(t) => type_tree(t),
            None => type_tree(TypeV { at: type_source("_"@)->0.at, text: "_"@ }),
        }),
{
}

proof fn opt_expr_is_as_written(o: Option<Box<ExprV>>, id: int, out: Option<Expression>)
    requires
        is_opt_expr(o, id, out),
        opt_expr_ok(o),
    ensures
        opt_written(out) == opt_expr_tree(o),
    decreases o, 0nat,
{
    if let Some(e) = o {
        expr_is_as_written(*e, false, id, out->0);
    }
}

proof fn exprs_are_as_written(s: Seq<ExprV>, id: int, out: Seq<Expression>)
    requires
        is_exprs(s, id, out),
        exprs_ok(s),
    ensures
        all_written(out) == expr_trees(s),
    decreases s, 0nat,
{
    if s.len() > 0 {
        exprs_are_as_written(s.drop_last(), id, out.drop_last());
        expr_is_as_written(s.last(), false, id + exprs_ids(s.drop_last()), out.last());
    }
}

proof fn arms_are_as_written(s: Seq<ArmV>, id: int, out: Seq<MatchArm>)
    requires
        is_arms(s, id, out),
        arms_ok(s),
    ensures
        arms_written(out) == arm_trees(s),
    decreases s, 0nat,
{
    if s.len() > 0 {
        arms_are_as_written(s.drop_last(), id, out.drop_last());
        expr_is_as_written(
            s.last().body,
            false,
            id + arms_ids(s.drop_last()) + 1,
            out.last().expression,
        );
    }
}

proof fn field_values_are_as_written(s: Seq<FieldValueV>, id: int, out: Seq<(String, Expression)>)
    requires
        is_field_values(s, id, out),
        field_values_ok(s),
    ensures
        fields_written(out) == field_value_trees(s),
    decreases s, 0nat,
{
    if s.len() > 0 {
        field_values_are_as_written(s.drop_last(), id, out.drop_last());
        expr_is_as_written(
            s.last().expr,
            false,
            id + field_values_ids(s.drop_last()),
            out.last().1,
        );
    }
}

/// Blocks: the statements are those that are written, in order, `use` left out.
pub proof fn block_is_as_written(b: BlockV, id: int, out: Block)
    requires
        is_block(b, id, out),
        block_ok(b),
    ensures
        written_block(out) == block_tree(b),
    decreases b, 0nat,
{
    stmts_are_as_written(b.stmts, id + 1, out.statements@);
}

proof fn stmts_are_as_written(s: Seq<StmtV>, id: int, out: Seq<Statement>)
    requires
        is_stmts(s, id, out),
        stmts_ok(s),
    ensures
        stmts_written(out) == stmt_trees(s),
    decreases s, 0nat,
{
    if s.len() > 0 {
        match s.last() {
            StmtV::Definition(ItemV::Use(_)) => {
                stmts_are_as_written(s.drop_last(), id, out);
            },
            _ => {
                stmts_are_as_written(s.drop_last(), id, out.drop_last());
                stmt_is_as_written(s.last(), id + stmts_ids(s.drop_last()), out.last());
            },
        }
    }
}

/// Statements: an expression behind which no semicolon stands gives the value of its block.
pub proof fn stmt_is_as_written(s: StmtV, id: int, out: Statement)
    requires
        is_stmt(s, id, out),
        stmt_ok(s),
    ensures
        written_stmt(out) == stmt_tree(s),
    decreases s, 0nat,
{
    match s {
        StmtV::Expression { expr, semi } => {
            expr_is_as_written(expr, !semi, id, out->Expression_0);
        },
        StmtV::Local { pat, init, .. } => {
            let x = inner(out->Let_0);
            if let Some(i) = init {
                expr_is_as_written(i.expr, false, id + 2, x.initial_value->0);
                opt_expr_is_as_written(
                    i.diverge,
                    id + 2 + expr_ids(i.expr),
                    x.initial_value_alternative,
                );
            }
            let a = written_stmt(out);
            let b = stmt_tree(s);
            assert(a.parts[0] == b.parts[0]);
            assert(a.parts[1] == b.parts[1]);
            assert(a.parts[2] == b.parts[2]);
            assert(a.parts =~= b.parts);
        },
        StmtV::Macro { .. } => {},
        StmtV::Definition(item) => {
            item_is_as_written(item, id, out->Definition_0);
        },
    }
}

proof fn vis_is_as_written(vis: Seq<char>)
    ensures
        written_vis(visibility_of(vis)) == vis_word(vis),
{
    visibility_is_as_written(vis, vis);
}

proof fn params_are_as_written(s: Seq<ArgV>, id: int, out: Seq<Rc<FnParameter>>)
    requires
        is_params(s, id, out),
    ensures
        params_written(out) == arg_trees(s),
    decreases s.len(),
{
    if s.len() > 0 {
        if is_param(s.last()) {
            params_are_as_written(s.drop_last(), id, out.drop_last());
            assert(params_written(out) =~= params_written(out.drop_last()).push(
                params_written(out)[out.len() - 1],
            ));
        } else {
            params_are_as_written(s.drop_last(), id, out);
        }
    } else {
        assert(params_written(out) =~= arg_trees(s));
    }
}

/// Functions with a body: their names, visibility, attributes, generics, parameters and return types,
/// and what stands in their bodies, are those that are written; `Self` as a return type is what it
/// stands for.
pub proof fn fn_is_as_written(f: FnV, self_name: Option<Seq<char>>, id: int, out: Function)
    requires
        is_fn(f, self_name, id, out),
        fn_ok(f, self_name is Some),
    ensures
        written_fn(out) == fn_tree(f, self_name),
    decreases f, 0nat,
{
    fn_is_known(f, self_name);
    vis_is_as_written(f.vis);
    params_are_as_written(f.sig.inputs, id + 1, out.parameters@);
    block_is_as_written(f.block, id + 1 + params_ids(f.sig.inputs), inner(out.body->0));
    output_is_as_written(f.sig.output, self_name, out.returns);
    let a = written_fn(out);
    let b = fn_tree(f, self_name);
    assert(a.words[0] == b.words[0]);
    assert(a.words[1] == b.words[1]);
    assert(a.words[2] == b.words[2]);
    assert(a.words =~= b.words);
    assert(a.parts[0] == b.parts[0]);
    assert(a.parts[1] == b.parts[1]);
    assert(a.parts[2] == b.parts[2]);
    assert(a.parts[3] == b.parts[3]);
    assert(a.parts =~= b.parts);
}

proof fn fn_is_known(f: FnV, self_name: Option<Seq<char>>)
    requires
        fn_ok(f, self_name is Some),
    ensures
        fn_tree(f, self_name).known,
{
    attrs_are_named(f.attrs);
}

proof fn output_is_as_written(output: Option<TypeV>, self_name: Option<Seq<char>>, out: NodeType)
    requires
        is_return_type(output, self_name, out),
    ensures
        written_output(out) == output_word(output, self_name),
{
}

pub(crate) proof fn attrs_are_named(attrs: Seq<Seq<Seq<char>>>)
    ensures
        attrs_named(attrs) <==> all_named(attrs),
{
    let none = Seq::<Seq<char>>::empty();
    if attrs.contains(none) {
        let i = choose|i: int| 0 <= i < attrs.len() && attrs[i] == none;
        assert(attrs[i].len() == 0);
    }
    if !attrs_named(attrs) {
        let i = choose|i: int| 0 <= i < attrs.len() && (#[trigger] attrs[i]).len() == 0;
        assert(attrs[i] =~= none);
    }
}

proof fn const_is_as_written(c: ConstV, id: int, out: Const)
    requires
        is_const(c, id, out) || is_impl_const(c, id, out),
        expr_ok(c.expr),
    ensures
        written_const(out) == const_tree(c),
    decreases c, 0nat,
{
    vis_is_as_written(c.vis);
    if is_const(c, id, out) {
        expr_is_as_written(c.expr, false, id + 1, out.value->0);
    } else {
        expr_is_as_written(c.expr, false, id + 2, out.value->0);
    }
}

proof fn alias_is_as_written(t: TypeAliasV, id: int, out: TypeAlias)
    requires
        is_type_alias(t, id, out),
    ensures
        written_alias(out) == alias_tree(t),
{
    vis_is_as_written(t.vis);
}

/// `use` items: the names that they bring in are those that are written.
pub proof fn use_is_as_written(u: UseV, id: int, out: Use)
    requires
        is_use(u, id, out),
    ensures
        written_use(out) == use_tree(u),
{
    vis_is_as_written(u.vis);
}

/// Definitions: each is of the kind that is written, with its name, visibility and attributes, and
/// holds what is written in it, each in its place.
pub proof fn item_is_as_written(i: ItemV, id: int, out: Definition)
    requires
        is_item(i, id, out),
        item_ok(i),
    ensures
        written_def(out) == item_tree(i),
    decreases i, 1nat,
{
    match i {
        ItemV::Const(c) => {
            const_is_as_written(c, id, inner(out->Const_0));
            assert(written_def(out) == item_tree(i));
        },
        ItemV::Enum { vis, .. } => {
            vis_is_as_written(vis);
            assert(written_def(out) == item_tree(i));
        },
        ItemV::ExternCrate { vis, .. } => {
            vis_is_as_written(vis);
            assert(written_def(out) == item_tree(i));
        },
        ItemV::Fn(f) => {
            fn_is_as_written(f, None, id, inner(out->Function_0));
            assert(written_def(out) == item_tree(i));
        },
        ItemV::Impl { self_ty, items, .. } => {
            let own = no_spaces(self_ty.text);
            impl_items_are_as_written(items, own, id + 2, parts_of(inner(out->Implementation_0)));
            let a = written_def(out);
            let b = item_tree(i);
            assert(a.parts[0] == b.parts[0]);
            assert(a.parts[1] == b.parts[1]);
            assert(a.parts[2] == b.parts[2]);
            assert(a.parts[3] == b.parts[3]);
            assert(a.parts[4] == b.parts[4]);
            assert(a.parts[5] == b.parts[5]);
            assert(a.parts[6] == b.parts[6]);
            assert(a.parts =~= b.parts);
            assert(written_def(out) == item_tree(i));
        },
        ItemV::Mod { vis, content, .. } => {
            let x = inner(out->Module_0);
            vis_is_as_written(vis);
            if let Some(items) = content {
                definitions_are_as_written(items, id + 1, x.definitions->0@);
                imports_are_as_written(items, id + 1 + definitions_ids(items), x.imports->0@);
            }
            let a = written_def(out);
            let b = item_tree(i);
            assert(a.parts[0] == b.parts[0]);
            assert(a.parts[1] == b.parts[1]);
            assert(a.parts[2] == b.parts[2]);
            assert(a.parts =~= b.parts);
            assert(written_def(out) == item_tree(i));
        },
        ItemV::Static { vis, expr, .. } => {
            vis_is_as_written(vis);
            expr_is_as_written(expr, false, id + 2, inner(out->Static_0).value);
            assert(written_def(out) == item_tree(i));
        },
        ItemV::Struct { attrs, vis, fields, .. } => {
            let x = inner(out->Struct_0);
            vis_is_as_written(vis);
            contract_is_as_marked(attrs);
            assert(struct_fields_written(x.fields@) =~= struct_field_trees(fields));
            assert(written_def(out) == item_tree(i));
        },
        ItemV::Trait { vis, items, .. } => {
            vis_is_as_written(vis);
            trait_items_are_as_written(items, vis, id + 1, inner(out->Trait_0).items@);
            assert(written_def(out) == item_tree(i));
        },
        ItemV::TraitAlias { vis, .. } => {
            vis_is_as_written(vis);
            assert(written_def(out) == item_tree(i));
        },
        ItemV::TypeAlias(t) => {
            alias_is_as_written(t, id, inner(out->TypeAlias_0));
            assert(written_def(out) == item_tree(i));
        },
        ItemV::Union { vis, fields, .. } => {
            let x = inner(out->Union_0);
            vis_is_as_written(vis);
            assert forall|i: int| 0 <= i < fields.len() implies written_field(
                *#[trigger] x.fields@[i],
            ) == field_trees(fields)[i] by {
                vis_is_as_written(fields[i].vis);
            }
            assert(union_fields_written(x.fields@) =~= field_trees(fields));
            assert(written_def(out) == item_tree(i));
        },
        _ => {},
    }
}

/// A struct is a contract exactly where `contract` alone is one of its attributes.
pub proof fn contract_is_as_marked(attrs: Seq<Seq<Seq<char>>>)
    ensures
        marks_contract(attrs) <==> attrs.contains(seq!["contract"@]),
{
    let mark = seq!["contract"@];
    if marks_contract(attrs) {
        let i = choose|i: int|
            0 <= i < attrs.len() && crate::shape::is_contract_attr(#[trigger] attrs[i]);
        assert(attrs[i] =~= mark);
    }
    if attrs.contains(mark) {
        let i = choose|i: int| 0 <= i < attrs.len() && attrs[i] == mark;
        assert(crate::shape::is_contract_attr(attrs[i]));
    }
}

proof fn definitions_are_as_written(s: Seq<ItemV>, id: int, out: Seq<Definition>)
    requires
        is_definitions(s, id, out),
        definitions_ok(s),
    ensures
        defs_written(out) == definition_trees(s),
    decreases s, 0nat,
{
    if s.len() > 0 {
        if is_use_item(s.last()) {
            definitions_are_as_written(s.drop_last(), id, out);
        } else {
            definitions_are_as_written(s.drop_last(), id, out.drop_last());
            item_is_as_written(s.last(), id + definitions_ids(s.drop_last()), out.last());
        }
    }
}

proof fn imports_are_as_written(s: Seq<ItemV>, id: int, out: Seq<Rc<Use>>)
    requires
        is_imports(s, id, out),
    ensures
        uses_written(out) == import_trees(s),
    decreases s.len(),
{
    let all = uses_written(out);
    if s.len() == 0 {
        assert(all =~= import_trees(s));
    } else {
        match s.last() {
            ItemV::Use(u) => {
                let fewer = out.drop_last();
                imports_are_as_written(s.drop_last(), id, fewer);
                use_is_as_written(u, id + imports_ids(s.drop_last()), inner(out.last()));
                assert(all =~= uses_written(fewer).push(written_use(*out.last())));
            },
            _ => {
                imports_are_as_written(s.drop_last(), id, out);
            },
        }
    }
}

/// What the lists of an `impl` block are written as.
spec fn part_trees(p: ImplParts, place: int) -> Seq<Tree> {
    if place == 0 {
        fns_written(p.functions)
    } else if place == 1 {
        consts_written(p.constants)
    } else if place == 2 {
        aliases_written(p.type_aliases)
    } else if place == 3 {
        macros_written(p.macros)
    } else {
        planes_written(p.planes)
    }
}

proof fn impl_items_are_as_written(s: Seq<ImplItemV>, own: Seq<char>, id: int, p: ImplParts)
    requires
        is_impl_items(s, own, id, p),
        impl_items_ok(s),
    ensures
        part_trees(p, 0) == impl_item_trees(s, own, 0),
        part_trees(p, 1) == impl_item_trees(s, own, 1),
        part_trees(p, 2) == impl_item_trees(s, own, 2),
        part_trees(p, 3) == impl_item_trees(s, own, 3),
        part_trees(p, 4) == impl_item_trees(s, own, 4),
    decreases s, 0nat,
{
    if s.len() == 0 {
        assert(part_trees(p, 2) =~= Seq::empty());
        assert(part_trees(p, 3) =~= Seq::empty());
        assert(part_trees(p, 4) =~= Seq::empty());
    } else {
        let i = s.last();
        let q = without_last(p, i);
        let at = id + impl_items_ids(s.drop_last());
        let place = place_in_impl(i);
        impl_items_are_as_written(s.drop_last(), own, id, q);
        last_part_is_as_written(i, own, at, p);
        assert(part_trees(p, place) == part_trees(q, place).push(impl_item_tree(i, own)));
        if place != 0 {
            assert(part_trees(p, 0) == part_trees(q, 0));
        }
        if place != 1 {
            assert(part_trees(p, 1) == part_trees(q, 1));
        }
        if place != 2 {
            assert(part_trees(p, 2) == part_trees(q, 2));
        }
        if place != 3 {
            assert(part_trees(p, 3) == part_trees(q, 3));
        }
        if place != 4 {
            assert(part_trees(p, 4) == part_trees(q, 4));
        }
    }
}

proof fn last_part_is_as_written(i: ImplItemV, own: Seq<char>, id: int, p: ImplParts)
    requires
        is_last_part(i, own, id, p),
        impl_item_ok(i),
    ensures
        part_trees(p, place_in_impl(i)) == part_trees(without_last(p, i), place_in_impl(i)).push(
            impl_item_tree(i, own),
        ),
    decreases i, 0nat,
{
    let q = without_last(p, i);
    let place = place_in_impl(i);
    match i {
        ImplItemV::Fn(f) => {
            fn_is_as_written(f, Some(own), id, inner(p.functions.last()));
        },
        ImplItemV::Const(c) => {
            const_is_as_written(c, id, inner(p.constants.last()));
        },
        ImplItemV::Type(t) => {
            alias_is_as_written(t, id, inner(p.type_aliases.last()));
            assert(part_trees(p, place) =~= part_trees(q, place).push(impl_item_tree(i, own)));
        },
        ImplItemV::Macro(_) => {
            assert(part_trees(p, place) =~= part_trees(q, place).push(impl_item_tree(i, own)));
        },
        ImplItemV::Verbatim(_) => {
            assert(part_trees(p, place) =~= part_trees(q, place).push(impl_item_tree(i, own)));
        },
    }
}

/// Items of a trait: constants and functions are as visible as the trait.
pub proof fn trait_item_is_as_written(i: TraitItemV, vis: Seq<char>, id: int, out: Definition)
    requires
        is_trait_item(i, visibility_of(vis), id, out),
        trait_item_ok(i),
    ensures
        written_def(out) == trait_item_tree(i, vis),
    decreases i, 0nat,
{
    vis_is_as_written(vis);
    match i {
        TraitItemV::Const { default, .. } => {
            opt_expr_is_as_written(default, id + 2, inner(out->Const_0).value);
        },
        TraitItemV::Fn { attrs, sig, .. } => {
            attrs_are_named(attrs);
            params_are_as_written(sig.inputs, id + 1, inner(out->Function_0).parameters@);
            output_is_as_written(sig.output, None, inner(out->Function_0).returns);
            let a = written_def(out);
            let b = trait_item_tree(i, vis);
            assert(a.words[0] == b.words[0]);
            assert(a.words[1] == b.words[1]);
            assert(a.words[2] == b.words[2]);
            assert(a.words =~= b.words);
            assert(a.parts[0] == b.parts[0]);
            assert(a.parts[1] == b.parts[1]);
            assert(a.parts[2] == b.parts[2]);
            assert(a.parts[3] == b.parts[3]);
            assert(a.parts =~= b.parts);
        },
        _ => {},
    }
}

proof fn trait_items_are_as_written(
    s: Seq<TraitItemV>,
    vis: Seq<char>,
    id: int,
    out: Seq<Definition>,
)
    requires
        is_trait_items(s, visibility_of(vis), id, out),
        trait_items_ok(s),
    ensures
        defs_written(out) == trait_item_trees(s, vis),
    decreases s, 0nat,
{
    if s.len() > 0 {
        trait_items_are_as_written(s.drop_last(), vis, id, out.drop_last());
        trait_item_is_as_written(s.last(), vis, id + trait_items_ids(s.drop_last()), out.last());
    }
}

proof fn children_are_as_written(s: Seq<ItemV>, id: int, out: Seq<NodeKind>)
    requires
        is_children(s, id, out),
        definitions_ok(s),
    ensures
        children_written(out) == item_trees(s),
    decreases s.len(),
{
    if s.len() > 0 {
        let at = id + items_ids(s.drop_last());
        children_are_as_written(s.drop_last(), id, out.drop_last());
        match s.last() {
            ItemV::Use(u) => {
                use_is_as_written(u, at, inner(out.last()->Directive_0->Use_0));
            },
            _ => {
                item_is_as_written(s.last(), at, out.last()->Definition_0);
            },
        }
    }
}

/// Files: what stands at the top level of a file is what is written there, in order.
pub proof fn file_is_as_written(f: FileV, path: Seq<char>, id: int, out: File)
    requires
        is_file(f, path, id, out),
        file_ok(f),
    ensures
        written_file(out) == file_tree(f, path),
{
    children_are_as_written(f.items, id + 1, out.children@);
}

} // verus!
