//! What holds of the ids within what is built: they are the ones that were drawn for it, each once,
//! in the order of building.
use crate::ast::{
    Block, Definition, Expression, File, FnParameter, Function, Identifier, Literal, MatchArm,
    NodeKind, Statement, Type, Use,
};
use crate::count::{
    arms_ids, block_ids, definitions_ids, expr_ids, exprs_ids, field_values_ids, file_ids, fn_ids,
    impl_item_ids, impl_items_ids, imports_ids, is_param, is_use_item, is_use_stmt, item_ids,
    items_ids, opt_expr_ids, params_ids, stmt_ids, stmts_ids, trait_item_ids, trait_items_ids,
};
use crate::order::inner;
use crate::shape::{
    capture_ids, is_arms, is_block, is_captures, is_children, is_definitions, is_expr, is_exprs,
    is_field_values, is_file, is_fn, is_impl_items, is_imports, is_item, is_last_part, is_opt_expr,
    is_params, is_stmt, is_stmts, is_trait_item, is_trait_items, parts_of, without_last, ImplParts,
};
use crate::syntax::{
    ArgV, ArmV, BlockV, CaptureV, ExprV, FieldValueV, FileV, FnV, ImplItemV, ItemV, StmtV,
    TraitItemV,
};
use std::rc::Rc;
use vstd::prelude::*;

verus! {

/// `n` ids one after the other, from `id` on.
pub open spec fn run_of_ids(id: int, n: nat) -> Seq<int> {
    Seq::new(n, |i: int| id + i)
}

proof fn lemma_join(id: int, m: nat, n: nat)
    ensures
        run_of_ids(id, m) + run_of_ids(id + m, n) == run_of_ids(id, m + n),
{
    assert(run_of_ids(id, m) + run_of_ids(id + m, n) =~= run_of_ids(id, m + n));
}

proof fn lemma_one(id: int)
    ensures
        seq![id] == run_of_ids(id, 1),
        run_of_ids(id, 0) == Seq::<int>::empty(),
{
    assert(seq![id] =~= run_of_ids(id, 1));
    assert(run_of_ids(id, 0) =~= Seq::<int>::empty());
}

proof fn lemma_two(id: int)
    ensures
        seq![id, id + 1] == run_of_ids(id, 2),
{
    assert(seq![id, id + 1] =~= run_of_ids(id, 2));
}

/// The id of a type.
pub open spec fn type_id(t: Type) -> int {
    match t {
        Type::Typename(x) => x.id as int,
    }
}

/// The id of a literal.
pub open spec fn literal_id(l: Literal) -> int {
    match l {
        Literal::Bool(x) => x.id as int,
        Literal::Byte(x) => x.id as int,
        Literal::Char(x) => x.id as int,
        Literal::Float(x) => x.id as int,
        Literal::Int(x) => x.id as int,
        Literal::String(x) => x.id as int,
        Literal::BString(x) => x.id as int,
        Literal::CString(x) => x.id as int,
    }
}

/// The ids of names.
pub open spec fn names_id_list(s: Seq<Rc<Identifier>>) -> Seq<int> {
    Seq::new(s.len(), |i: int| s[i].id as int)
}

/// The ids of an expression and of all its parts, in the order in which they are built.
pub open spec fn expr_id_list(e: ExprV, out: Expression) -> Seq<int>
    decreases e,
{
    match e {
        ExprV::Array { elems, .. } => {
            let x = out->Array_0;
            seq![x.id as int] + exprs_id_list(elems, x.elements@)
        },
        ExprV::Assign { left, right, .. } => {
            let x = out->Assign_0;
            seq![x.id as int] + expr_id_list(*left, x.left) + expr_id_list(*right, x.right)
        },
        ExprV::Binary { left, right, .. } => {
            let x = out->Binary_0;
            seq![x.id as int] + expr_id_list(*left, x.left) + expr_id_list(*right, x.right)
        },
        ExprV::Unary { expr, .. } => {
            let x = out->Unary_0;
            seq![x.id as int] + expr_id_list(*expr, x.expression)
        },
        ExprV::Break { expr, .. } => {
            let x = out->Break_0;
            seq![x.id as int] + opt_expr_id_list(expr, x.expression)
        },
        ExprV::Block { block, .. } => {
            let x = out->EBlock_0;
            seq![x.id as int] + block_id_list(block, *x.block)
        },
        ExprV::Call { func, args, .. } => {
            let x = out->FunctionCall_0;
            seq![x.id as int] + exprs_id_list(args, x.parameters@)
                + expr_id_list(*func, x.expression)
        },
        ExprV::Cast { expr, .. } => {
            let x = out->Cast_0;
            seq![x.id as int] + expr_id_list(*expr, x.base) + seq![type_id(x.target_type)]
        },
        ExprV::Closure { body, .. } => {
            let x = out->Closure_0;
            seq![x.id as int] + expr_id_list(*body, x.body) + names_id_list(x.captures@)
                + seq![type_id(x.returns)]
        },
        ExprV::Const { block } => {
            let x = out->Const_0;
            seq![x.id as int] + block_id_list(block, *x.block)
        },
        ExprV::ForLoop { expr, body, .. } => {
            let x = out->ForLoop_0;
            seq![x.id as int] + block_id_list(body, *x.block) + expr_id_list(*expr, x.expression)
        },
        ExprV::Field { base, .. } => {
            let x = out->MemberAccess_0;
            seq![x.id as int] + expr_id_list(*base, x.base)
        },
        ExprV::If { cond, then_branch, else_branch, .. } => {
            let x = out->If_0;
            seq![x.id as int] + block_id_list(then_branch, *x.then_branch)
                + expr_id_list(*cond, x.condition) + opt_expr_id_list(else_branch, x.else_branch)
        },
        ExprV::Index { expr, index, .. } => {
            let x = out->IndexAccess_0;
            seq![x.id as int] + expr_id_list(*expr, x.base) + expr_id_list(*index, x.index)
        },
        ExprV::Let { expr, .. } => {
            let x = out->LetGuard_0;
            seq![x.id as int, x.guard.id as int] + expr_id_list(*expr, x.value)
        },
        ExprV::Loop { body, .. } => {
            let x = out->Loop_0;
            seq![x.id as int] + block_id_list(body, *x.block)
        },
        ExprV::Match { expr, arms, .. } => {
            let x = out->Match_0;
            seq![x.id as int] + expr_id_list(*expr, x.expression) + arms_id_list(arms, x.arms@)
        },
        ExprV::MethodCall { receiver, args, .. } => {
            let x = out->MethodCall_0;
            seq![x.id as int] + expr_id_list(*receiver, x.base) + exprs_id_list(args, x.parameters@)
        },
        ExprV::Paren { expr, .. } => {
            let x = out->Parenthesized_0;
            seq![x.id as int] + expr_id_list(*expr, x.expression)
        },
        ExprV::Range { start, end, .. } => {
            let x = out->Range_0;
            seq![x.id as int] + opt_expr_id_list(start, x.start) + opt_expr_id_list(end, x.end)
        },
        ExprV::RawAddr { expr, .. } => {
            let x = out->Addr_0;
            seq![x.id as int] + expr_id_list(*expr, x.expression)
        },
        ExprV::Reference { expr, .. } => {
            let x = out->Reference_0;
            seq![x.id as int] + expr_id_list(*expr, x.inner)
        },
        ExprV::Repeat { expr, len, .. } => {
            let x = out->Repeat_0;
            seq![x.id as int] + expr_id_list(*expr, x.expression) + expr_id_list(*len, x.count)
        },
        ExprV::Return { expr, .. } => {
            let x = out->Return_0;
            seq![x.id as int] + opt_expr_id_list(expr, x.expression)
        },
        ExprV::Struct { fields, rest, .. } => {
            let x = out->EStruct_0;
            field_values_id_list(fields, x.fields@) + opt_expr_id_list(rest, x.rest_dots)
                + seq![x.id as int]
        },
        ExprV::Try { expr, .. } => {
            let x = out->Try_0;
            seq![x.id as int] + expr_id_list(*expr, x.expression)
        },
        ExprV::TryBlock { block } => {
            let x = out->EBlock_0;
            seq![x.id as int] + block_id_list(block, *x.block)
        },
        ExprV::Tuple { elems, .. } => {
            let x = out->Tuple_0;
            seq![x.id as int] + exprs_id_list(elems, x.elements@)
        },
        ExprV::Unsafe { block, .. } => {
            let x = out->Unsafe_0;
            seq![x.id as int] + block_id_list(block, *x.block)
        },
        ExprV::While { cond, body, .. } => {
            let x = out->While_0;
            seq![x.id as int] + block_id_list(body, *x.block) + expr_id_list(*cond, x.condition)
        },
        ExprV::Continue { .. } => {
            let x = out->Continue_0;
            seq![x.id as int]
        },
        ExprV::Infer { .. } => {
            let x = out->Identifier_0;
            seq![x.id as int]
        },
        ExprV::Lit { .. } => {
            let x = out->Literal_0;
            seq![x.id as int, literal_id(x.value)]
        },
        ExprV::Macro { .. } => {
            let x = out->Macro_0;
            seq![x.id as int]
        },
        ExprV::Path { .. } => {
            let x = out->Identifier_0;
            seq![x.id as int]
        },
        _ => Seq::empty(),
    }
}

pub open spec fn opt_expr_id_list(o: Option<Box<ExprV>>, out: Option<Expression>) -> Seq<int>
    decreases o,
{
    match o {
        Some(e) => expr_id_list(*e, out->0),
        None => Seq::empty(),
    }
}

pub open spec fn exprs_id_list(s: Seq<ExprV>, out: Seq<Expression>) -> Seq<int>
    decreases s,
{
    if s.len() == 0 {
        Seq::empty()
    } else {
        exprs_id_list(s.drop_last(), out.drop_last()) + expr_id_list(s.last(), out.last())
    }
}

pub open spec fn arms_id_list(s: Seq<ArmV>, out: Seq<MatchArm>) -> Seq<int>
    decreases s,
{
    if s.len() == 0 {
        Seq::empty()
    } else {
        arms_id_list(s.drop_last(), out.drop_last()) + (seq![out.last().pattern.id as int]
            + expr_id_list(s.last().body, out.last().expression))
    }
}

pub open spec fn field_values_id_list(s: Seq<FieldValueV>, out: Seq<(String, Expression)>) -> Seq<
    int,
>
    decreases s,
{
    if s.len() == 0 {
        Seq::empty()
    } else {
        field_values_id_list(s.drop_last(), out.drop_last()) + expr_id_list(
            s.last().expr,
            out.last().1,
        )
    }
}

pub open spec fn block_id_list(b: BlockV, out: Block) -> Seq<int>
    decreases b,
{
    seq![out.id as int] + stmts_id_list(b.stmts, out.statements@)
}

pub open spec fn stmts_id_list(s: Seq<StmtV>, out: Seq<Statement>) -> Seq<int>
    decreases s,
{
    if s.len() == 0 {
        Seq::empty()
    } else if is_use_stmt(s.last()) {
        stmts_id_list(s.drop_last(), out)
    } else {
        stmts_id_list(s.drop_last(), out.drop_last()) + stmt_id_list(s.last(), out.last())
    }
}

/// The pattern of a `let` is built before the `let` itself.
pub open spec fn stmt_id_list(s: StmtV, out: Statement) -> Seq<int>
    decreases s,
{
    match s {
        StmtV::Expression { expr, .. } => expr_id_list(expr, out->Expression_0),
        StmtV::Local { init, .. } => {
            let x = out->Let_0;
            let own = seq![x.pattern.id as int, x.id as int];
            match init {
                Some(i) => own + expr_id_list(i.expr, x.initial_value->0) + opt_expr_id_list(
                    i.diverge,
                    x.initial_value_alternative,
                ),
                None => own,
            }
        },
        StmtV::Macro { .. } => seq![out->Macro_0.id as int],
        StmtV::Definition(item) => item_id_list(item, out->Definition_0),
    }
}

/// The ids of parameters.
pub open spec fn params_id_list(s: Seq<Rc<FnParameter>>) -> Seq<int> {
    Seq::new(s.len(), |i: int| s[i].id as int)
}

pub open spec fn fn_id_list(f: FnV, out: Function) -> Seq<int>
    decreases f,
{
    seq![out.id as int] + params_id_list(out.parameters@) + block_id_list(f.block, *out.body->0)
}

/// The ids of the items of an `impl` block, in the order in which they are written.
pub open spec fn impl_items_id_list(s: Seq<ImplItemV>, p: ImplParts) -> Seq<int>
    decreases s,
{
    if s.len() == 0 {
        Seq::empty()
    } else {
        impl_items_id_list(s.drop_last(), without_last(p, s.last())) + last_part_id_list(
            s.last(),
            p,
        )
    }
}

pub open spec fn last_part_id_list(i: ImplItemV, p: ImplParts) -> Seq<int>
    decreases i,
{
    match i {
        ImplItemV::Fn(f) => fn_id_list(f, *p.functions.last()),
        ImplItemV::Const(c) => {
            let x = p.constants.last();
            seq![x.id as int, type_id(x.type_)] + expr_id_list(c.expr, x.value->0)
        },
        ImplItemV::Type(_) => {
            let x = p.type_aliases.last();
            seq![x.id as int, type_id(x.ty)]
        },
        ImplItemV::Macro(_) => seq![p.macros.last().id as int],
        ImplItemV::Verbatim(_) => seq![p.planes.last().id as int],
    }
}

/// The ids of an item of a trait. Before the parameters of a function an id is drawn for them to stand
/// under, and after them the id of the function.
pub open spec fn trait_item_id_list(i: TraitItemV, out: Definition) -> Seq<int>
    decreases i,
{
    match i {
        TraitItemV::Const { default, .. } => {
            let x = out->Const_0;
            seq![x.id as int, type_id(x.type_)] + opt_expr_id_list(default, x.value)
        },
        TraitItemV::Fn { .. } => {
            let x = out->Function_0;
            seq![x.id - 1 - x.parameters@.len()] + params_id_list(x.parameters@) + seq![x.id as int]
        },
        TraitItemV::Macro(_) => seq![out->Macro_0.id as int],
        _ => seq![out->Plane_0.id as int],
    }
}

pub open spec fn trait_items_id_list(s: Seq<TraitItemV>, out: Seq<Definition>) -> Seq<int>
    decreases s,
{
    if s.len() == 0 {
        Seq::empty()
    } else {
        trait_items_id_list(s.drop_last(), out.drop_last()) + trait_item_id_list(
            s.last(),
            out.last(),
        )
    }
}

/// The ids of a definition and of all that stands in it, in the order in which they are built.
pub open spec fn item_id_list(i: ItemV, out: Definition) -> Seq<int>
    decreases i,
{
    match i {
        ItemV::Const(c) => {
            let x = out->Const_0;
            seq![x.id as int] + expr_id_list(c.expr, x.value->0) + seq![type_id(x.type_)]
        },
        ItemV::Enum { .. } => seq![out->Enum_0.id as int],
        ItemV::ExternCrate { .. } => seq![out->ExternCrate_0.id as int],
        ItemV::Fn(f) => fn_id_list(f, *out->Function_0),
        ItemV::ForeignMod(_) => seq![out->Plane_0.id as int],
        ItemV::Impl { items, .. } => {
            let x = out->Implementation_0;
            seq![x.id as int, type_id(x.for_type)] + impl_items_id_list(items, parts_of(*x))
        },
        ItemV::Macro(_) => seq![out->Macro_0.id as int],
        ItemV::Mod { content, .. } => {
            let x = out->Module_0;
            match content {
                Some(items) => seq![x.id as int] + definitions_id_list(items, x.definitions->0@)
                    + uses_id_list(x.imports->0@),
                None => seq![x.id as int],
            }
        },
        ItemV::Static { expr, .. } => {
            let x = out->Static_0;
            seq![x.id as int, type_id(x.ty)] + expr_id_list(expr, x.value)
        },
        ItemV::Struct { .. } => {
            let x = out->Struct_0;
            seq![x.id as int] + Seq::new(x.fields@.len(), |i: int| type_id(x.fields@[i].1))
        },
        ItemV::Trait { items, .. } => {
            let x = out->Trait_0;
            seq![x.id as int] + trait_items_id_list(items, x.items@)
        },
        ItemV::TraitAlias { .. } => seq![out->TraitAlias_0.id as int],
        ItemV::TypeAlias(_) => {
            let x = out->TypeAlias_0;
            seq![x.id as int, type_id(x.ty)]
        },
        ItemV::Union { .. } => {
            let x = out->Union_0;
            seq![x.id as int] + Seq::new(
                2 * x.fields@.len(),
                |i: int|
                    if i % 2 == 0 {
                        x.fields@[i / 2].id as int
                    } else {
                        type_id(x.fields@[i / 2].ty)
                    },
            )
        },
        ItemV::Use(_) => Seq::empty(),
        ItemV::Verbatim(_) => seq![out->Plane_0.id as int],
    }
}

pub open spec fn definitions_id_list(s: Seq<ItemV>, out: Seq<Definition>) -> Seq<int>
    decreases s,
{
    if s.len() == 0 {
        Seq::empty()
    } else if is_use_item(s.last()) {
        definitions_id_list(s.drop_last(), out)
    } else {
        definitions_id_list(s.drop_last(), out.drop_last()) + item_id_list(s.last(), out.last())
    }
}

/// The ids of imports.
pub open spec fn uses_id_list(s: Seq<Rc<Use>>) -> Seq<int> {
    Seq::new(s.len(), |i: int| s[i].id as int)
}

/// The ids of what stands at the top level of a file.
pub open spec fn children_id_list(s: Seq<ItemV>, out: Seq<NodeKind>) -> Seq<int>
    decreases s.len(),
{
    if s.len() == 0 {
        Seq::empty()
    } else {
        children_id_list(s.drop_last(), out.drop_last()) + (match s.last() {
            ItemV::Use(_) => seq![out.last()->Directive_0->Use_0.id as int],
            _ => item_id_list(s.last(), out.last()->Definition_0),
        })
    }
}

proof fn lemma_names(c: Option<CaptureV>, id: int, out: Seq<Rc<Identifier>>)
    requires
        is_captures(c, id, out),
    ensures
        names_id_list(out) == run_of_ids(id, capture_ids(c)),
{
    assert(names_id_list(out) =~= run_of_ids(id, capture_ids(c)));
}

/// The ids of an expression and of its parts are those that were drawn for it, each once, in the order
/// of building.
pub proof fn expr_ids_run_on(e: ExprV, value: bool, id: int, out: Expression)
    requires
        is_expr(e, value, id, out),
    ensures
        expr_id_list(e, out) == run_of_ids(id, expr_ids(e)),
    decreases e, 1nat,
{
    match e {
        ExprV::Array { .. }
        | ExprV::Assign { .. }
        | ExprV::Binary { .. }
        | ExprV::Unary { .. }
        | ExprV::Break { .. }
        | ExprV::Block { .. }
        | ExprV::Call { .. } => {
            lemma_exprs_a(e, value, id, out);
        },
        ExprV::Cast { .. }
        | ExprV::Closure { .. }
        | ExprV::Const { .. }
        | ExprV::ForLoop { .. }
        | ExprV::Field { .. }
        | ExprV::If { .. }
        | ExprV::Index { .. } => {
            lemma_exprs_b(e, value, id, out);
        },
        ExprV::Let { .. }
        | ExprV::Loop { .. }
        | ExprV::Match { .. }
        | ExprV::MethodCall { .. }
        | ExprV::Paren { .. }
        | ExprV::Range { .. }
        | ExprV::RawAddr { .. } => {
            lemma_exprs_c(e, value, id, out);
        },
        ExprV::Reference { .. }
        | ExprV::Repeat { .. }
        | ExprV::Return { .. }
        | ExprV::Struct { .. }
        | ExprV::Try { .. }
        | ExprV::TryBlock { .. }
        | ExprV::Tuple { .. } => {
            lemma_exprs_d(e, value, id, out);
        },
        ExprV::Unsafe { .. }
        | ExprV::While { .. }
        | ExprV::Continue { .. }
        | ExprV::Infer { .. }
        | ExprV::Lit { .. }
        | ExprV::Macro { .. }
        | ExprV::Path { .. } => {
            lemma_exprs_e(e, value, id, out);
        },
        _ => {},
    }
}

proof fn lemma_exprs_a(e: ExprV, value: bool, id: int, out: Expression)
    requires
        is_expr(e, value, id, out),
        e is Array
            || e is Assign
            || e is Binary
            || e is Unary
            || e is Break
            || e is Block
            || e is Call,
    ensures
        expr_id_list(e, out) == run_of_ids(id, expr_ids(e)),
    decreases e, 0nat,
{
    match e {
        ExprV::Array { elems, .. } => {
            let x = inner(out->Array_0);
            exprs_ids_run_on(elems, id + 1, x.elements@);
            lemma_one(id);
            lemma_join(id, 1, exprs_ids(elems));
        },
        ExprV::Assign { left, right, .. } => {
            let x = inner(out->Assign_0);
            expr_ids_run_on(*left, false, id + 1, x.left);
            expr_ids_run_on(*right, false, id + 1 + expr_ids(*left), x.right);
            lemma_one(id);
            lemma_join(id, 1, expr_ids(*left));
            lemma_join(id, 1 + expr_ids(*left), expr_ids(*right));
        },
        ExprV::Binary { left, right, .. } => {
            let x = inner(out->Binary_0);
            expr_ids_run_on(*left, false, id + 1, x.left);
            expr_ids_run_on(*right, false, id + 1 + expr_ids(*left), x.right);
            lemma_one(id);
            lemma_join(id, 1, expr_ids(*left));
            lemma_join(id, 1 + expr_ids(*left), expr_ids(*right));
        },
        ExprV::Unary { expr, .. } => {
            let x = inner(out->Unary_0);
            expr_ids_run_on(*expr, false, id + 1, x.expression);
            lemma_one(id);
            lemma_join(id, 1, expr_ids(*expr));
        },
        ExprV::Break { expr, .. } => {
            let x = inner(out->Break_0);
            opt_expr_ids_run_on(expr, id + 1, x.expression);
            lemma_one(id);
            lemma_join(id, 1, opt_expr_ids(expr));
        },
        ExprV::Block { block, .. } => {
            let x = inner(out->EBlock_0);
            block_ids_run_on(block, id + 1, inner(x.block));
            lemma_one(id);
            lemma_join(id, 1, block_ids(block));
        },
        ExprV::Call { func, args, .. } => {
            let x = inner(out->FunctionCall_0);
            exprs_ids_run_on(args, id + 1, x.parameters@);
            expr_ids_run_on(*func, false, id + 1 + exprs_ids(args), x.expression);
            lemma_one(id);
            lemma_join(id, 1, exprs_ids(args));
            lemma_join(id, 1 + exprs_ids(args), expr_ids(*func));
        },
        _ => {},
    }
}

proof fn lemma_exprs_b(e: ExprV, value: bool, id: int, out: Expression)
    requires
        is_expr(e, value, id, out),
        e is Cast
            || e is Closure
            || e is Const
            || e is ForLoop
            || e is Field
            || e is If
            || e is Index,
    ensures
        expr_id_list(e, out) == run_of_ids(id, expr_ids(e)),
    decreases e, 0nat,
{
    match e {
        ExprV::Cast { expr, .. } => {
            let x = inner(out->Cast_0);
            expr_ids_run_on(*expr, false, id + 1, x.base);
            lemma_one(id);
            lemma_one(id + 1 + expr_ids(*expr));
            lemma_join(id, 1, expr_ids(*expr));
            lemma_join(id, 1 + expr_ids(*expr), 1);
        },
        ExprV::Closure { capture, body, .. } => {
            let x = inner(out->Closure_0);
            lemma_names(capture, id + 1 + expr_ids(*body), x.captures@);
            expr_ids_run_on(*body, false, id + 1, x.body);
            lemma_one(id);
            lemma_one(id + 1 + expr_ids(*body) + capture_ids(capture));
            lemma_join(id + 1 + expr_ids(*body), capture_ids(capture), 1);
            lemma_join(id, 1, expr_ids(*body));
            lemma_join(id, 1 + expr_ids(*body), capture_ids(capture) + 1);
        },
        ExprV::Const { block } => {
            let x = inner(out->Const_0);
            block_ids_run_on(block, id + 1, inner(x.block));
            lemma_one(id);
            lemma_join(id, 1, block_ids(block));
        },
        ExprV::ForLoop { expr, body, .. } => {
            let x = inner(out->ForLoop_0);
            block_ids_run_on(body, id + 1, inner(x.block));
            expr_ids_run_on(*expr, false, id + 1 + block_ids(body), x.expression);
            lemma_one(id);
            lemma_join(id, 1, block_ids(body));
            lemma_join(id, 1 + block_ids(body), expr_ids(*expr));
        },
        ExprV::Field { base, .. } => {
            let x = inner(out->MemberAccess_0);
            expr_ids_run_on(*base, false, id + 1, x.base);
            lemma_one(id);
            lemma_join(id, 1, expr_ids(*base));
        },
        ExprV::If { cond, then_branch, else_branch, .. } => {
            let x = inner(out->If_0);
            block_ids_run_on(then_branch, id + 1, inner(x.then_branch));
            expr_ids_run_on(*cond, false, id + 1 + block_ids(then_branch), x.condition);
            opt_expr_ids_run_on(else_branch, id + 1 + block_ids(then_branch)
                + expr_ids(*cond), x.else_branch);
            lemma_one(id);
            lemma_join(id, 1, block_ids(then_branch));
            lemma_join(id, 1 + block_ids(then_branch), expr_ids(*cond));
            lemma_join(id, 1 + block_ids(then_branch) + expr_ids(*cond), opt_expr_ids(else_branch));
        },
        ExprV::Index { expr, index, .. } => {
            let x = inner(out->IndexAccess_0);
            expr_ids_run_on(*expr, false, id + 1, x.base);
            expr_ids_run_on(*index, false, id + 1 + expr_ids(*expr), x.index);
            lemma_one(id);
            lemma_join(id, 1, expr_ids(*expr));
            lemma_join(id, 1 + expr_ids(*expr), expr_ids(*index));
        },
        _ => {},
    }
}

proof fn lemma_exprs_c(e: ExprV, value: bool, id: int, out: Expression)
    requires
        is_expr(e, value, id, out),
        e is Let
            || e is Loop
            || e is Match
            || e is MethodCall
            || e is Paren
            || e is Range
            || e is RawAddr,
    ensures
        expr_id_list(e, out) == run_of_ids(id, expr_ids(e)),
    decreases e, 0nat,
{
    match e {
        ExprV::Let { expr, .. } => {
            let x = inner(out->LetGuard_0);
            expr_ids_run_on(*expr, false, id + 2, x.value);
            lemma_two(id);
            lemma_join(id, 2, expr_ids(*expr));
        },
        ExprV::Loop { body, .. } => {
            let x = inner(out->Loop_0);
            block_ids_run_on(body, id + 1, inner(x.block));
            lemma_one(id);
            lemma_join(id, 1, block_ids(body));
        },
        ExprV::Match { expr, arms, .. } => {
            let x = inner(out->Match_0);
            expr_ids_run_on(*expr, false, id + 1, x.expression);
            arms_ids_run_on(arms, id + 1 + expr_ids(*expr), x.arms@);
            lemma_one(id);
            lemma_join(id, 1, expr_ids(*expr));
            lemma_join(id, 1 + expr_ids(*expr), arms_ids(arms));
        },
        ExprV::MethodCall { receiver, args, .. } => {
            let x = inner(out->MethodCall_0);
            expr_ids_run_on(*receiver, false, id + 1, x.base);
            exprs_ids_run_on(args, id + 1 + expr_ids(*receiver), x.parameters@);
            lemma_one(id);
            lemma_join(id, 1, expr_ids(*receiver));
            lemma_join(id, 1 + expr_ids(*receiver), exprs_ids(args));
        },
        ExprV::Paren { expr, .. } => {
            let x = inner(out->Parenthesized_0);
            expr_ids_run_on(*expr, false, id + 1, x.expression);
            lemma_one(id);
            lemma_join(id, 1, expr_ids(*expr));
        },
        ExprV::Range { start, end, .. } => {
            let x = inner(out->Range_0);
            opt_expr_ids_run_on(start, id + 1, x.start);
            opt_expr_ids_run_on(end, id + 1 + opt_expr_ids(start), x.end);
            lemma_one(id);
            lemma_join(id, 1, opt_expr_ids(start));
            lemma_join(id, 1 + opt_expr_ids(start), opt_expr_ids(end));
        },
        ExprV::RawAddr { expr, .. } => {
            let x = inner(out->Addr_0);
            expr_ids_run_on(*expr, false, id + 1, x.expression);
            lemma_one(id);
            lemma_join(id, 1, expr_ids(*expr));
        },
        _ => {},
    }
}

proof fn lemma_exprs_d(e: ExprV, value: bool, id: int, out: Expression)
    requires
        is_expr(e, value, id, out),
        e is Reference
            || e is Repeat
            || e is Return
            || e is Struct
            || e is Try
            || e is TryBlock
            || e is Tuple,
    ensures
        expr_id_list(e, out) == run_of_ids(id, expr_ids(e)),
    decreases e, 0nat,
{
    match e {
        ExprV::Reference { expr, .. } => {
            let x = inner(out->Reference_0);
            expr_ids_run_on(*expr, false, id + 1, x.inner);
            lemma_one(id);
            lemma_join(id, 1, expr_ids(*expr));
        },
        ExprV::Repeat { expr, len, .. } => {
            let x = inner(out->Repeat_0);
            expr_ids_run_on(*expr, false, id + 1, x.expression);
            expr_ids_run_on(*len, false, id + 1 + expr_ids(*expr), x.count);
            lemma_one(id);
            lemma_join(id, 1, expr_ids(*expr));
            lemma_join(id, 1 + expr_ids(*expr), expr_ids(*len));
        },
        ExprV::Return { expr, .. } => {
            let x = inner(out->Return_0);
            opt_expr_ids_run_on(expr, id + 1, x.expression);
            lemma_one(id);
            lemma_join(id, 1, opt_expr_ids(expr));
        },
        ExprV::Struct { fields, rest, .. } => {
            let x = inner(out->EStruct_0);
            field_values_ids_run_on(fields, id, x.fields@);
            opt_expr_ids_run_on(rest, id + field_values_ids(fields), x.rest_dots);
            lemma_one(id + field_values_ids(fields) + opt_expr_ids(rest));
            lemma_join(id, field_values_ids(fields), opt_expr_ids(rest));
            lemma_join(id, field_values_ids(fields) + opt_expr_ids(rest), 1);
        },
        ExprV::Try { expr, .. } => {
            let x = inner(out->Try_0);
            expr_ids_run_on(*expr, false, id + 1, x.expression);
            lemma_one(id);
            lemma_join(id, 1, expr_ids(*expr));
        },
        ExprV::TryBlock { block } => {
            let x = inner(out->EBlock_0);
            block_ids_run_on(block, id + 1, inner(x.block));
            lemma_one(id);
            lemma_join(id, 1, block_ids(block));
        },
        ExprV::Tuple { elems, .. } => {
            let x = inner(out->Tuple_0);
            exprs_ids_run_on(elems, id + 1, x.elements@);
            lemma_one(id);
            lemma_join(id, 1, exprs_ids(elems));
        },
        _ => {},
    }
}

proof fn lemma_exprs_e(e: ExprV, value: bool, id: int, out: Expression)
    requires
        is_expr(e, value, id, out),
        e is Unsafe
            || e is While
            || e is Continue
            || e is Infer
            || e is Lit
            || e is Macro
            || e is Path,
    ensures
        expr_id_list(e, out) == run_of_ids(id, expr_ids(e)),
    decreases e, 0nat,
{
    match e {
        ExprV::Unsafe { block, .. } => {
            let x = inner(out->Unsafe_0);
            block_ids_run_on(block, id + 1, inner(x.block));
            lemma_one(id);
            lemma_join(id, 1, block_ids(block));
        },
        ExprV::While { cond, body, .. } => {
            let x = inner(out->While_0);
            block_ids_run_on(body, id + 1, inner(x.block));
            expr_ids_run_on(*cond, false, id + 1 + block_ids(body), x.condition);
            lemma_one(id);
            lemma_join(id, 1, block_ids(body));
            lemma_join(id, 1 + block_ids(body), expr_ids(*cond));
        },
        ExprV::Continue { .. } => {
            let x = inner(out->Continue_0);
            lemma_one(id);
        },
        ExprV::Infer { .. } => {
            let x = inner(out->Identifier_0);
            lemma_one(id);
        },
        ExprV::Lit { .. } => {
            let x = inner(out->Literal_0);
            lemma_two(id);
        },
        ExprV::Macro { .. } => {
            let x = inner(out->Macro_0);
            lemma_one(id);
        },
        ExprV::Path { .. } => {
            let x = inner(out->Identifier_0);
            lemma_one(id);
        },
        _ => {},
    }
}

proof fn opt_expr_ids_run_on(o: Option<Box<ExprV>>, id: int, out: Option<Expression>)
    requires
        is_opt_expr(o, id, out),
    ensures
        opt_expr_id_list(o, out) == run_of_ids(id, opt_expr_ids(o)),
    decreases o, 0nat,
{
    match o {
        Some(e) => {
            expr_ids_run_on(*e, false, id, out->0);
        },
        None => {
            lemma_one(id);
        },
    }
}

proof fn exprs_ids_run_on(s: Seq<ExprV>, id: int, out: Seq<Expression>)
    requires
        is_exprs(s, id, out),
    ensures
        exprs_id_list(s, out) == run_of_ids(id, exprs_ids(s)),
    decreases s, 0nat,
{
    lemma_one(id);
    if s.len() > 0 {
        let n = exprs_ids(s.drop_last());
        exprs_ids_run_on(s.drop_last(), id, out.drop_last());
        expr_ids_run_on(s.last(), false, id + n, out.last());
        lemma_join(id, n, expr_ids(s.last()));
    }
}

proof fn arms_ids_run_on(s: Seq<ArmV>, id: int, out: Seq<MatchArm>)
    requires
        is_arms(s, id, out),
    ensures
        arms_id_list(s, out) == run_of_ids(id, arms_ids(s)),
    decreases s, 0nat,
{
    lemma_one(id);
    if s.len() > 0 {
        let n = arms_ids(s.drop_last());
        arms_ids_run_on(s.drop_last(), id, out.drop_last());
        expr_ids_run_on(s.last().body, false, id + n + 1, out.last().expression);
        lemma_one(id + n);
        lemma_join(id + n, 1, expr_ids(s.last().body));
        lemma_join(id, n, 1 + expr_ids(s.last().body));
    }
}

proof fn field_values_ids_run_on(s: Seq<FieldValueV>, id: int, out: Seq<(String, Expression)>)
    requires
        is_field_values(s, id, out),
    ensures
        field_values_id_list(s, out) == run_of_ids(id, field_values_ids(s)),
    decreases s, 0nat,
{
    lemma_one(id);
    if s.len() > 0 {
        let n = field_values_ids(s.drop_last());
        field_values_ids_run_on(s.drop_last(), id, out.drop_last());
        expr_ids_run_on(s.last().expr, false, id + n, out.last().1);
        lemma_join(id, n, expr_ids(s.last().expr));
    }
}

/// Blocks.
pub proof fn block_ids_run_on(b: BlockV, id: int, out: Block)
    requires
        is_block(b, id, out),
    ensures
        block_id_list(b, out) == run_of_ids(id, block_ids(b)),
    decreases b, 0nat,
{
    stmts_ids_run_on(b.stmts, id + 1, out.statements@);
    lemma_one(id);
    lemma_join(id, 1, stmts_ids(b.stmts));
}

proof fn stmts_ids_run_on(s: Seq<StmtV>, id: int, out: Seq<Statement>)
    requires
        is_stmts(s, id, out),
    ensures
        stmts_id_list(s, out) == run_of_ids(id, stmts_ids(s)),
    decreases s, 0nat,
{
    lemma_one(id);
    if s.len() > 0 {
        let n = stmts_ids(s.drop_last());
        if is_use_stmt(s.last()) {
            stmts_ids_run_on(s.drop_last(), id, out);
        } else {
            stmts_ids_run_on(s.drop_last(), id, out.drop_last());
            stmt_ids_run_on(s.last(), id + n, out.last());
            lemma_join(id, n, stmt_ids(s.last()));
        }
    }
}

/// Statements.
pub proof fn stmt_ids_run_on(s: StmtV, id: int, out: Statement)
    requires
        is_stmt(s, id, out),
    ensures
        stmt_id_list(s, out) == run_of_ids(id, stmt_ids(s)),
    decreases s, 0nat,
{
    lemma_one(id);
    match s {
        StmtV::Expression { expr, semi } => {
            expr_ids_run_on(expr, !semi, id, out->Expression_0);
        },
        StmtV::Local { init, .. } => {
            let x = inner(out->Let_0);
            lemma_two(id);
            if let Some(i) = init {
                let n = expr_ids(i.expr);
                expr_ids_run_on(i.expr, false, id + 2, x.initial_value->0);
                opt_expr_ids_run_on(i.diverge, id + 2 + n, x.initial_value_alternative);
                lemma_join(id, 2, n);
                lemma_join(id, 2 + n, opt_expr_ids(i.diverge));
            }
        },
        StmtV::Macro { .. } => {},
        StmtV::Definition(item) => {
            item_ids_run_on(item, id, out->Definition_0);
        },
    }
}

proof fn params_ids_run_on(s: Seq<ArgV>, id: int, out: Seq<Rc<FnParameter>>)
    requires
        is_params(s, id, out),
    ensures
        params_id_list(out) == run_of_ids(id, params_ids(s)),
        out.len() == params_ids(s),
    decreases s.len(),
{
    if s.len() == 0 {
        assert(params_id_list(out) =~= run_of_ids(id, 0));
    } else if is_param(s.last()) {
        let n = params_ids(s.drop_last());
        params_ids_run_on(s.drop_last(), id, out.drop_last());
        lemma_one(id + n);
        lemma_join(id, n, 1);
        assert(params_id_list(out) =~= params_id_list(out.drop_last()) + seq![id + n]);
    } else {
        params_ids_run_on(s.drop_last(), id, out);
    }
}

/// Functions with a body.
pub proof fn fn_ids_run_on(f: FnV, own: Option<Seq<char>>, id: int, out: Function)
    requires
        is_fn(f, own, id, out),
    ensures
        fn_id_list(f, out) == run_of_ids(id, fn_ids(f)),
    decreases f, 0nat,
{
    let n = params_ids(f.sig.inputs);
    params_ids_run_on(f.sig.inputs, id + 1, out.parameters@);
    block_ids_run_on(f.block, id + 1 + n, inner(out.body->0));
    lemma_one(id);
    lemma_join(id, 1, n);
    lemma_join(id, 1 + n, block_ids(f.block));
}

/// Definitions.
pub proof fn item_ids_run_on(i: ItemV, id: int, out: Definition)
    requires
        is_item(i, id, out),
    ensures
        item_id_list(i, out) == run_of_ids(id, item_ids(i)),
    decreases i, 1nat,
{
    lemma_one(id);
    lemma_two(id);
    match i {
        ItemV::Const(c) => {
            let x = inner(out->Const_0);
            let n = expr_ids(c.expr);
            expr_ids_run_on(c.expr, false, id + 1, x.value->0);
            lemma_one(id + 1 + n);
            lemma_join(id, 1, n);
            lemma_join(id, 1 + n, 1);
        },
        ItemV::Fn(f) => {
            fn_ids_run_on(f, None, id, inner(out->Function_0));
        },
        ItemV::Impl { self_ty, items, .. } => {
            let x = inner(out->Implementation_0);
            let own = crate::text::no_spaces(self_ty.text);
            impl_items_ids_run_on(items, own, id + 2, parts_of(x));
            lemma_join(id, 2, impl_items_ids(items));
        },
        ItemV::Mod { content, .. } => {
            let x = inner(out->Module_0);
            if let Some(items) = content {
                let n = definitions_ids(items);
                definitions_ids_run_on(items, id + 1, x.definitions->0@);
                imports_ids_run_on(items, id + 1 + n, x.imports->0@);
                lemma_join(id, 1, n);
                lemma_join(id, 1 + n, imports_ids(items));
            }
        },
        ItemV::Static { expr, .. } => {
            let x = inner(out->Static_0);
            expr_ids_run_on(expr, false, id + 2, x.value);
            lemma_join(id, 2, expr_ids(expr));
        },
        ItemV::Struct { fields, .. } => {
            let x = inner(out->Struct_0);
            assert forall|i: int| 0 <= i < fields.len() implies type_id(#[trigger] x.fields@[i].1)
                == id + 1 + i by {}
            assert(item_id_list(i, out) =~= run_of_ids(id, item_ids(i)));
        },
        ItemV::Trait { vis, items, .. } => {
            let x = inner(out->Trait_0);
            trait_items_ids_run_on(items, crate::kinds::visibility_of(vis), id + 1, x.items@);
            lemma_join(id, 1, trait_items_ids(items));
        },
        ItemV::Union { fields, .. } => {
            let x = inner(out->Union_0);
            assert forall|i: int| 0 <= i < fields.len() implies (#[trigger] x.fields@[i]).id == id + 1
                + 2 * i && type_id(x.fields@[i].ty) == id + 2 + 2 * i by {}
            assert(item_id_list(i, out) =~= run_of_ids(id, item_ids(i)));
        },
        _ => {},
    }
}

proof fn definitions_ids_run_on(s: Seq<ItemV>, id: int, out: Seq<Definition>)
    requires
        is_definitions(s, id, out),
    ensures
        definitions_id_list(s, out) == run_of_ids(id, definitions_ids(s)),
    decreases s, 0nat,
{
    lemma_one(id);
    if s.len() > 0 {
        let n = definitions_ids(s.drop_last());
        if is_use_item(s.last()) {
            definitions_ids_run_on(s.drop_last(), id, out);
        } else {
            definitions_ids_run_on(s.drop_last(), id, out.drop_last());
            item_ids_run_on(s.last(), id + n, out.last());
            lemma_join(id, n, item_ids(s.last()));
        }
    }
}

proof fn imports_ids_run_on(s: Seq<ItemV>, id: int, out: Seq<Rc<Use>>)
    requires
        is_imports(s, id, out),
    ensures
        uses_id_list(out) == run_of_ids(id, imports_ids(s)),
    decreases s.len(),
{
    if s.len() == 0 {
        assert(uses_id_list(out) =~= run_of_ids(id, 0));
    } else if is_use_item(s.last()) {
        let n = imports_ids(s.drop_last());
        imports_ids_run_on(s.drop_last(), id, out.drop_last());
        lemma_one(id + n);
        lemma_join(id, n, 1);
        assert(uses_id_list(out) =~= uses_id_list(out.drop_last()) + seq![id + n]);
    } else {
        imports_ids_run_on(s.drop_last(), id, out);
    }
}

pub(crate) proof fn lemma_import_count(s: Seq<ItemV>, id: int, out: Seq<Rc<Use>>)
    requires
        is_imports(s, id, out),
    ensures
        out.len() == imports_ids(s),
{
    imports_ids_run_on(s, id, out);
    assert(uses_id_list(out).len() == out.len());
}

proof fn impl_items_ids_run_on(s: Seq<ImplItemV>, own: Seq<char>, id: int, p: ImplParts)
    requires
        is_impl_items(s, own, id, p),
    ensures
        impl_items_id_list(s, p) == run_of_ids(id, impl_items_ids(s)),
    decreases s, 0nat,
{
    lemma_one(id);
    if s.len() > 0 {
        let n = impl_items_ids(s.drop_last());
        impl_items_ids_run_on(s.drop_last(), own, id, without_last(p, s.last()));
        last_part_ids_run_on(s.last(), own, id + n, p);
        lemma_join(id, n, impl_item_ids(s.last()));
    }
}

proof fn last_part_ids_run_on(i: ImplItemV, own: Seq<char>, id: int, p: ImplParts)
    requires
        is_last_part(i, own, id, p),
    ensures
        last_part_id_list(i, p) == run_of_ids(id, impl_item_ids(i)),
    decreases i, 0nat,
{
    lemma_one(id);
    lemma_two(id);
    match i {
        ImplItemV::Fn(f) => {
            fn_ids_run_on(f, Some(own), id, inner(p.functions.last()));
        },
        ImplItemV::Const(c) => {
            let x = inner(p.constants.last());
            expr_ids_run_on(c.expr, false, id + 2, x.value->0);
            lemma_join(id, 2, expr_ids(c.expr));
        },
        _ => {},
    }
}

proof fn trait_items_ids_run_on(
    s: Seq<TraitItemV>,
    vis: crate::ast::Visibility,
    id: int,
    out: Seq<Definition>,
)
    requires
        is_trait_items(s, vis, id, out),
    ensures
        trait_items_id_list(s, out) == run_of_ids(id, trait_items_ids(s)),
    decreases s, 0nat,
{
    lemma_one(id);
    if s.len() > 0 {
        let n = trait_items_ids(s.drop_last());
        trait_items_ids_run_on(s.drop_last(), vis, id, out.drop_last());
        trait_item_ids_run_on(s.last(), vis, id + n, out.last());
        lemma_join(id, n, trait_item_ids(s.last()));
    }
}

proof fn trait_item_ids_run_on(
    i: TraitItemV,
    vis: crate::ast::Visibility,
    id: int,
    out: Definition,
)
    requires
        is_trait_item(i, vis, id, out),
    ensures
        trait_item_id_list(i, out) == run_of_ids(id, trait_item_ids(i)),
    decreases i, 0nat,
{
    lemma_one(id);
    lemma_two(id);
    match i {
        TraitItemV::Const { default, .. } => {
            let x = inner(out->Const_0);
            opt_expr_ids_run_on(default, id + 2, x.value);
            lemma_join(id, 2, opt_expr_ids(default));
        },
        TraitItemV::Fn { sig, .. } => {
            let x = inner(out->Function_0);
            let n = params_ids(sig.inputs);
            params_ids_run_on(sig.inputs, id + 1, x.parameters@);
            lemma_join(id, 1, n);
            lemma_one(id + 1 + n);
            lemma_join(id, 1 + n, 1);
        },
        _ => {},
    }
}

proof fn children_ids_run_on(s: Seq<ItemV>, id: int, out: Seq<NodeKind>)
    requires
        is_children(s, id, out),
    ensures
        children_id_list(s, out) == run_of_ids(id, items_ids(s)),
    decreases s.len(),
{
    lemma_one(id);
    if s.len() > 0 {
        let n = items_ids(s.drop_last());
        children_ids_run_on(s.drop_last(), id, out.drop_last());
        lemma_one(id + n);
        match s.last() {
            ItemV::Use(_) => {},
            _ => {
                item_ids_run_on(s.last(), id + n, out.last()->Definition_0);
            },
        }
        lemma_join(id, n, item_ids(s.last()));
    }
}

/// The ids of a file and of all that stands in it are those that were drawn for it: the file has the
/// first, and no id is left out or given twice.
pub proof fn file_ids_run_on(f: FileV, path: Seq<char>, id: int, out: File)
    requires
        is_file(f, path, id, out),
    ensures
        seq![out.id as int] + children_id_list(f.items, out.children@) == run_of_ids(
            id,
            file_ids(f),
        ),
{
    children_ids_run_on(f.items, id + 1, out.children@);
    lemma_one(id);
    lemma_join(id, 1, items_ids(f.items));
}

} // verus!
