//! How many nodes are stored for what is built: one for each, and one more where it is held twice.
use crate::ast::{Block, Definition, Expression, File, Function, MatchArm, NodeKind, Statement};
use crate::count::{
    arms_ids, block_ids, definitions_ids, expr_ids, exprs_ids, field_values_ids, impl_items_ids,
    imports_ids, is_use_item, is_use_stmt, items_ids, opt_expr_ids, params_ids, stmts_ids,
    trait_items_ids,
};
use crate::numbering_laws::lemma_import_count;
use crate::order::inner;
use crate::record::{
    arms_log, block_log, children_log, definitions_log, expr_log, exprs_log, field_values_log,
    file_log, fn_log, impl_items_log, item_log, last_part_log, opt_expr_log, stmt_log, stmts_log,
    trait_item_log, trait_items_log,
};
use crate::shape::{
    capture_ids, is_arms, is_block, is_children, is_definitions, is_expr, is_exprs, is_field_values,
    is_file, is_fn, is_impl_items, is_item, is_last_part, is_opt_expr, is_stmt, is_stmts,
    is_trait_item, is_trait_items, parts_of, without_last, ImplParts,
};
use crate::storage_laws::lemma_param_count;
use crate::syntax::{
    ArmV, BlockV, ExprV, FieldValueV, FileV, FnV, ImplItemV, InitV, ItemV, StmtV, TraitItemV,
};
use std::rc::Rc;
use vstd::prelude::*;

verus! {

/// How many nodes are stored for an expression: itself, and those of its parts. Types, patterns and
/// names that are taken over count once; a block that stands as an expression, and the body of a
/// closure, once more.
pub open spec fn expr_entries(e: ExprV) -> nat
    decreases e,
{
    match e {
        ExprV::Array { elems, .. } => 1 + exprs_entries(elems),
        ExprV::Assign { left, right, .. } => 1 + expr_entries(*left) + expr_entries(*right),
        ExprV::Binary { left, right, .. } => 1 + expr_entries(*left) + expr_entries(*right),
        ExprV::Unary { expr, .. } => 1 + expr_entries(*expr),
        ExprV::Break { expr, .. } => 1 + opt_expr_entries(expr),
        ExprV::Block { block, .. } => 1 + block_entries(block) + 1,
        ExprV::Call { func, args, .. } => 1 + exprs_entries(args) + expr_entries(*func),
        ExprV::Cast { expr, .. } => 1 + expr_entries(*expr) + 1,
        ExprV::Closure { capture, body, .. } => 1 + expr_entries(*body) + 2 + capture_ids(capture),
        ExprV::Const { block } => 1 + block_entries(block),
        ExprV::ForLoop { expr, body, .. } => 1 + block_entries(body) + expr_entries(*expr),
        ExprV::Field { base, .. } => 1 + expr_entries(*base),
        ExprV::If { cond, then_branch, else_branch, .. } => 1 + block_entries(then_branch)
            + expr_entries(*cond) + opt_expr_entries(else_branch),
        ExprV::Index { expr, index, .. } => 1 + expr_entries(*expr) + expr_entries(*index),
        ExprV::Let { expr, .. } => 1 + expr_entries(*expr) + 1,
        ExprV::Loop { body, .. } => 1 + block_entries(body),
        ExprV::Match { expr, arms, .. } => 1 + expr_entries(*expr) + arms_entries(arms),
        ExprV::MethodCall { receiver, args, .. } => 1 + expr_entries(*receiver)
            + exprs_entries(args),
        ExprV::Paren { expr, .. } => 1 + expr_entries(*expr),
        ExprV::Range { start, end, .. } => 1 + opt_expr_entries(start) + opt_expr_entries(end),
        ExprV::RawAddr { expr, .. } => 1 + expr_entries(*expr),
        ExprV::Reference { expr, .. } => 1 + expr_entries(*expr),
        ExprV::Repeat { expr, len, .. } => 1 + expr_entries(*expr) + expr_entries(*len),
        ExprV::Return { expr, .. } => 1 + opt_expr_entries(expr),
        ExprV::Struct { fields, rest, .. } => 1 + field_values_entries(fields)
            + opt_expr_entries(rest),
        ExprV::Try { expr, .. } => 1 + expr_entries(*expr),
        ExprV::TryBlock { block } => 1 + block_entries(block),
        ExprV::Tuple { elems, .. } => 1 + exprs_entries(elems),
        ExprV::Unsafe { block, .. } => 1 + block_entries(block),
        ExprV::While { cond, body, .. } => 1 + block_entries(body) + expr_entries(*cond),
        ExprV::Continue { .. } => 1,
        ExprV::Infer { .. } => 1,
        ExprV::Lit { .. } => 1,
        ExprV::Macro { .. } => 1,
        ExprV::Path { .. } => 1,
        _ => 0,
    }
}

pub open spec fn opt_expr_entries(o: Option<Box<ExprV>>) -> nat
    decreases o,
{
    match o {
        Some(e) => expr_entries(*e),
        None => 0,
    }
}

pub open spec fn exprs_entries(s: Seq<ExprV>) -> nat
    decreases s,
{
    if s.len() == 0 {
        0
    } else {
        exprs_entries(s.drop_last()) + expr_entries(s.last())
    }
}

pub open spec fn arms_entries(s: Seq<ArmV>) -> nat
    decreases s,
{
    if s.len() == 0 {
        0
    } else {
        arms_entries(s.drop_last()) + expr_entries(s.last().body)
    }
}

pub open spec fn field_values_entries(s: Seq<FieldValueV>) -> nat
    decreases s,
{
    if s.len() == 0 {
        0
    } else {
        field_values_entries(s.drop_last()) + expr_entries(s.last().expr)
    }
}

pub open spec fn block_entries(b: BlockV) -> nat
    decreases b,
{
    1 + stmts_entries(b.stmts)
}

pub open spec fn stmts_entries(s: Seq<StmtV>) -> nat
    decreases s,
{
    if s.len() == 0 {
        0
    } else if is_use_stmt(s.last()) {
        stmts_entries(s.drop_last())
    } else {
        stmts_entries(s.drop_last()) + stmt_entries(s.last())
    }
}

/// The values of a `let` are stored twice.
pub open spec fn init_entries(o: Option<InitV>) -> nat
    decreases o,
{
    match o {
        Some(i) => expr_entries(i.expr) + 1 + (match i.diverge {
            Some(d) => expr_entries(*d) + 1,
            None => 0,
        }),
        None => 0,
    }
}

pub open spec fn stmt_entries(s: StmtV) -> nat
    decreases s,
{
    match s {
        StmtV::Expression { expr, .. } => expr_entries(expr),
        StmtV::Local { init, .. } => 1 + init_entries(init),
        StmtV::Macro { .. } => 1,
        StmtV::Definition(item) => item_entries(item),
    }
}

/// The body of a function is stored twice.
pub open spec fn fn_entries(f: FnV) -> nat
    decreases f,
{
    2 + params_ids(f.sig.inputs) + block_entries(f.block)
}

/// How many nodes are stored for a definition: itself, and those that stand in it. The value of a
/// constant of a file or module is stored twice.
pub open spec fn item_entries(i: ItemV) -> nat
    decreases i,
{
    match i {
        ItemV::Const(c) => 2 + expr_entries(c.expr),
        ItemV::Fn(f) => fn_entries(f),
        ItemV::Impl { items, .. } => 1 + impl_items_entries(items),
        ItemV::Mod { content, .. } => match content {
            Some(items) => 1 + definitions_entries(items) + imports_ids(items),
            None => 1,
        },
        ItemV::Static { expr, .. } => 1 + expr_entries(expr),
        ItemV::Trait { items, .. } => 1 + trait_items_entries(items),
        ItemV::Union { fields, .. } => 1 + fields.len(),
        ItemV::Use(_) => 0,
        _ => 1,
    }
}

pub open spec fn definitions_entries(s: Seq<ItemV>) -> nat
    decreases s,
{
    if s.len() == 0 {
        0
    } else if is_use_item(s.last()) {
        definitions_entries(s.drop_last())
    } else {
        definitions_entries(s.drop_last()) + item_entries(s.last())
    }
}

pub open spec fn impl_items_entries(s: Seq<ImplItemV>) -> nat
    decreases s,
{
    if s.len() == 0 {
        0
    } else {
        impl_items_entries(s.drop_last()) + impl_item_entries(s.last())
    }
}

pub open spec fn impl_item_entries(i: ImplItemV) -> nat
    decreases i,
{
    match i {
        ImplItemV::Fn(f) => fn_entries(f),
        ImplItemV::Const(c) => 1 + expr_entries(c.expr),
        _ => 1,
    }
}

pub open spec fn trait_items_entries(s: Seq<TraitItemV>) -> nat
    decreases s,
{
    if s.len() == 0 {
        0
    } else {
        trait_items_entries(s.drop_last()) + trait_item_entries(s.last())
    }
}

/// An associated type of a trait is not stored.
pub open spec fn trait_item_entries(i: TraitItemV) -> nat
    decreases i,
{
    match i {
        TraitItemV::Const { default, .. } => 1 + opt_expr_entries(default),
        TraitItemV::Fn { sig, .. } => 1 + params_ids(sig.inputs),
        TraitItemV::Type { .. } => 0,
        _ => 1,
    }
}

pub open spec fn children_entries(s: Seq<ItemV>) -> nat
    decreases s.len(),
{
    if s.len() == 0 {
        0
    } else {
        children_entries(s.drop_last()) + (if s.last() is Use {
            1
        } else {
            item_entries(s.last())
        })
    }
}

/// As many nodes are stored for an expression as belong to it.
pub proof fn expr_is_stored_once(e: ExprV, value: bool, id: int, out: Expression, parent: u32)
    requires
        is_expr(e, value, id, out),
    ensures
        expr_log(e, out, parent).len() == expr_entries(e),
    decreases e, 1nat,
{
    match e {
        ExprV::Array { .. }
        | ExprV::Assign { .. }
        | ExprV::Binary { .. }
        | ExprV::Unary { .. }
        | ExprV::Break { .. }
        | ExprV::Block { .. }
        | ExprV::Call { .. }
        | ExprV::Cast { .. }
        | ExprV::Closure { .. } => {
            lemma_exprs_a(e, value, id, out, parent);
        },
        ExprV::Const { .. }
        | ExprV::ForLoop { .. }
        | ExprV::Field { .. }
        | ExprV::If { .. }
        | ExprV::Index { .. }
        | ExprV::Let { .. }
        | ExprV::Loop { .. }
        | ExprV::Match { .. }
        | ExprV::MethodCall { .. } => {
            lemma_exprs_b(e, value, id, out, parent);
        },
        ExprV::Paren { .. }
        | ExprV::Range { .. }
        | ExprV::RawAddr { .. }
        | ExprV::Reference { .. }
        | ExprV::Repeat { .. }
        | ExprV::Return { .. }
        | ExprV::Struct { .. }
        | ExprV::Try { .. }
        | ExprV::TryBlock { .. } => {
            lemma_exprs_c(e, value, id, out, parent);
        },
        ExprV::Tuple { .. }
        | ExprV::Unsafe { .. }
        | ExprV::While { .. }
        | ExprV::Continue { .. }
        | ExprV::Infer { .. }
        | ExprV::Lit { .. }
        | ExprV::Macro { .. }
        | ExprV::Path { .. } => {
            lemma_exprs_d(e, value, id, out, parent);
        },
        _ => {},
    }
}

proof fn lemma_exprs_a(e: ExprV, value: bool, id: int, out: Expression, parent: u32)
    requires
        is_expr(e, value, id, out),
        e is Array
            || e is Assign
            || e is Binary
            || e is Unary
            || e is Break
            || e is Block
            || e is Call
            || e is Cast
            || e is Closure,
    ensures
        expr_log(e, out, parent).len() == expr_entries(e),
    decreases e, 0nat,
{
    match e {
        ExprV::Array { elems, .. } => {
            let x = inner(out->Array_0);
            exprs_are_stored_once(elems, id + 1, x.elements@, x.id);
        },
        ExprV::Assign { left, right, .. } => {
            let x = inner(out->Assign_0);
            expr_is_stored_once(*left, false, id + 1, x.left, x.id);
            expr_is_stored_once(*right, false, id + 1 + expr_ids(*left), x.right, x.id);
        },
        ExprV::Binary { left, right, .. } => {
            let x = inner(out->Binary_0);
            expr_is_stored_once(*left, false, id + 1, x.left, x.id);
            expr_is_stored_once(*right, false, id + 1 + expr_ids(*left), x.right, x.id);
        },
        ExprV::Unary { expr, .. } => {
            let x = inner(out->Unary_0);
            expr_is_stored_once(*expr, false, id + 1, x.expression, x.id);
        },
        ExprV::Break { expr, .. } => {
            let x = inner(out->Break_0);
            opt_expr_is_stored_once(expr, id + 1, x.expression, x.id);
        },
        ExprV::Block { block, .. } => {
            let x = inner(out->EBlock_0);
            block_is_stored_once(block, id + 1, x.block, x.id);
        },
        ExprV::Call { func, args, .. } => {
            let x = inner(out->FunctionCall_0);
            exprs_are_stored_once(args, id + 1, x.parameters@, x.id);
            expr_is_stored_once(*func, false, id + 1 + exprs_ids(args), x.expression, x.id);
        },
        ExprV::Cast { expr, .. } => {
            let x = inner(out->Cast_0);
            expr_is_stored_once(*expr, false, id + 1, x.base, x.id);
        },
        ExprV::Closure { body, .. } => {
            let x = inner(out->Closure_0);
            expr_is_stored_once(*body, false, id + 1, x.body, x.id);
        },
        _ => {},
    }
}

proof fn lemma_exprs_b(e: ExprV, value: bool, id: int, out: Expression, parent: u32)
    requires
        is_expr(e, value, id, out),
        e is Const
            || e is ForLoop
            || e is Field
            || e is If
            || e is Index
            || e is Let
            || e is Loop
            || e is Match
            || e is MethodCall,
    ensures
        expr_log(e, out, parent).len() == expr_entries(e),
    decreases e, 0nat,
{
    match e {
        ExprV::Const { block } => {
            let x = inner(out->Const_0);
            block_is_stored_once(block, id + 1, x.block, parent);
        },
        ExprV::ForLoop { expr, body, .. } => {
            let x = inner(out->ForLoop_0);
            block_is_stored_once(body, id + 1, x.block, parent);
            expr_is_stored_once(*expr, false, id + 1 + block_ids(body), x.expression, x.id);
        },
        ExprV::Field { base, .. } => {
            let x = inner(out->MemberAccess_0);
            expr_is_stored_once(*base, false, id + 1, x.base, x.id);
        },
        ExprV::If { cond, then_branch, else_branch, .. } => {
            let x = inner(out->If_0);
            block_is_stored_once(then_branch, id + 1, x.then_branch, parent);
            expr_is_stored_once(*cond, false, id + 1 + block_ids(then_branch), x.condition, x.id);
            opt_expr_is_stored_once(else_branch, id + 1 + block_ids(then_branch)
                + expr_ids(*cond), x.else_branch, x.id);
        },
        ExprV::Index { expr, index, .. } => {
            let x = inner(out->IndexAccess_0);
            expr_is_stored_once(*expr, false, id + 1, x.base, x.id);
            expr_is_stored_once(*index, false, id + 1 + expr_ids(*expr), x.index, x.id);
        },
        ExprV::Let { expr, .. } => {
            let x = inner(out->LetGuard_0);
            expr_is_stored_once(*expr, false, id + 2, x.value, x.id);
        },
        ExprV::Loop { body, .. } => {
            let x = inner(out->Loop_0);
            block_is_stored_once(body, id + 1, x.block, parent);
        },
        ExprV::Match { expr, arms, .. } => {
            let x = inner(out->Match_0);
            expr_is_stored_once(*expr, false, id + 1, x.expression, x.id);
            arms_are_stored_once(arms, id + 1 + expr_ids(*expr), x.arms@, x.id);
        },
        ExprV::MethodCall { receiver, args, .. } => {
            let x = inner(out->MethodCall_0);
            expr_is_stored_once(*receiver, false, id + 1, x.base, x.id);
            exprs_are_stored_once(args, id + 1 + expr_ids(*receiver), x.parameters@, x.id);
        },
        _ => {},
    }
}

proof fn lemma_exprs_c(e: ExprV, value: bool, id: int, out: Expression, parent: u32)
    requires
        is_expr(e, value, id, out),
        e is Paren
            || e is Range
            || e is RawAddr
            || e is Reference
            || e is Repeat
            || e is Return
            || e is Struct
            || e is Try
            || e is TryBlock,
    ensures
        expr_log(e, out, parent).len() == expr_entries(e),
    decreases e, 0nat,
{
    match e {
        ExprV::Paren { expr, .. } => {
            let x = inner(out->Parenthesized_0);
            expr_is_stored_once(*expr, false, id + 1, x.expression, x.id);
        },
        ExprV::Range { start, end, .. } => {
            let x = inner(out->Range_0);
            opt_expr_is_stored_once(start, id + 1, x.start, x.id);
            opt_expr_is_stored_once(end, id + 1 + opt_expr_ids(start), x.end, x.id);
        },
        ExprV::RawAddr { expr, .. } => {
            let x = inner(out->Addr_0);
            expr_is_stored_once(*expr, false, id + 1, x.expression, x.id);
        },
        ExprV::Reference { expr, .. } => {
            let x = inner(out->Reference_0);
            expr_is_stored_once(*expr, false, id + 1, x.inner, x.id);
        },
        ExprV::Repeat { expr, len, .. } => {
            let x = inner(out->Repeat_0);
            expr_is_stored_once(*expr, false, id + 1, x.expression, x.id);
            expr_is_stored_once(*len, false, id + 1 + expr_ids(*expr), x.count, x.id);
        },
        ExprV::Return { expr, .. } => {
            let x = inner(out->Return_0);
            opt_expr_is_stored_once(expr, id + 1, x.expression, x.id);
        },
        ExprV::Struct { fields, rest, .. } => {
            let x = inner(out->EStruct_0);
            field_values_are_stored_once(fields, id, x.fields@, parent);
            opt_expr_is_stored_once(rest, id + field_values_ids(fields), x.rest_dots, parent);
        },
        ExprV::Try { expr, .. } => {
            let x = inner(out->Try_0);
            expr_is_stored_once(*expr, false, id + 1, x.expression, x.id);
        },
        ExprV::TryBlock { block } => {
            let x = inner(out->EBlock_0);
            block_is_stored_once(block, id + 1, x.block, parent);
        },
        _ => {},
    }
}

proof fn lemma_exprs_d(e: ExprV, value: bool, id: int, out: Expression, parent: u32)
    requires
        is_expr(e, value, id, out),
        e is Tuple
            || e is Unsafe
            || e is While
            || e is Continue
            || e is Infer
            || e is Lit
            || e is Macro
            || e is Path,
    ensures
        expr_log(e, out, parent).len() == expr_entries(e),
    decreases e, 0nat,
{
    match e {
        ExprV::Tuple { elems, .. } => {
            let x = inner(out->Tuple_0);
            exprs_are_stored_once(elems, id + 1, x.elements@, x.id);
        },
        ExprV::Unsafe { block, .. } => {
            let x = inner(out->Unsafe_0);
            block_is_stored_once(block, id + 1, x.block, parent);
        },
        ExprV::While { cond, body, .. } => {
            let x = inner(out->While_0);
            block_is_stored_once(body, id + 1, x.block, parent);
            expr_is_stored_once(*cond, false, id + 1 + block_ids(body), x.condition, x.id);
        },
        _ => {},
    }
}

proof fn opt_expr_is_stored_once(
    o: Option<Box<ExprV>>,
    id: int,
    out: Option<Expression>,
    parent: u32,
)
    requires
        is_opt_expr(o, id, out),
    ensures
        opt_expr_log(o, out, parent).len() == opt_expr_entries(o),
    decreases o, 0nat,
{
    if let Some(e) = o {
        expr_is_stored_once(*e, false, id, out->0, parent);
    }
}

proof fn exprs_are_stored_once(s: Seq<ExprV>, id: int, out: Seq<Expression>, parent: u32)
    requires
        is_exprs(s, id, out),
    ensures
        exprs_log(s, out, parent).len() == exprs_entries(s),
    decreases s, 0nat,
{
    if s.len() > 0 {
        exprs_are_stored_once(s.drop_last(), id, out.drop_last(), parent);
        expr_is_stored_once(s.last(), false, id + exprs_ids(s.drop_last()), out.last(), parent);
    }
}

proof fn arms_are_stored_once(s: Seq<ArmV>, id: int, out: Seq<MatchArm>, parent: u32)
    requires
        is_arms(s, id, out),
    ensures
        arms_log(s, out, parent).len() == arms_entries(s),
    decreases s, 0nat,
{
    if s.len() > 0 {
        arms_are_stored_once(s.drop_last(), id, out.drop_last(), parent);
        let at = id + arms_ids(s.drop_last());
        expr_is_stored_once(s.last().body, false, at + 1, out.last().expression, parent);
    }
}

proof fn field_values_are_stored_once(
    s: Seq<FieldValueV>,
    id: int,
    out: Seq<(String, Expression)>,
    parent: u32,
)
    requires
        is_field_values(s, id, out),
    ensures
        field_values_log(s, out, parent).len() == field_values_entries(s),
    decreases s, 0nat,
{
    if s.len() > 0 {
        field_values_are_stored_once(s.drop_last(), id, out.drop_last(), parent);
        let at = id + field_values_ids(s.drop_last());
        expr_is_stored_once(s.last().expr, false, at, out.last().1, parent);
    }
}

/// Blocks.
pub proof fn block_is_stored_once(b: BlockV, id: int, out: Rc<Block>, parent: u32)
    requires
        is_block(b, id, *out),
    ensures
        block_log(b, out, parent).len() == block_entries(b),
    decreases b, 0nat,
{
    stmts_are_stored_once(b.stmts, id + 1, out.statements@, out.id);
}

proof fn stmts_are_stored_once(s: Seq<StmtV>, id: int, out: Seq<Statement>, parent: u32)
    requires
        is_stmts(s, id, out),
    ensures
        stmts_log(s, out, parent).len() == stmts_entries(s),
    decreases s, 0nat,
{
    if s.len() > 0 {
        if is_use_stmt(s.last()) {
            stmts_are_stored_once(s.drop_last(), id, out, parent);
        } else {
            stmts_are_stored_once(s.drop_last(), id, out.drop_last(), parent);
            stmt_is_stored_once(s.last(), id + stmts_ids(s.drop_last()), out.last(), parent);
        }
    }
}

/// Statements.
pub proof fn stmt_is_stored_once(s: StmtV, id: int, out: Statement, parent: u32)
    requires
        is_stmt(s, id, out),
    ensures
        stmt_log(s, out, parent).len() == stmt_entries(s),
    decreases s, 0nat,
{
    match s {
        StmtV::Expression { expr, semi } => {
            expr_is_stored_once(expr, !semi, id, out->Expression_0, parent);
        },
        StmtV::Local { init, .. } => {
            let x = inner(out->Let_0);
            if let Some(i) = init {
                expr_is_stored_once(i.expr, false, id + 2, x.initial_value->0, x.id);
                if let Some(d) = i.diverge {
                    expr_is_stored_once(
                        *d,
                        false,
                        id + 2 + expr_ids(i.expr),
                        x.initial_value_alternative->0,
                        x.id,
                    );
                }
            }
        },
        StmtV::Macro { .. } => {},
        StmtV::Definition(item) => {
            item_is_stored_once(item, id, out->Definition_0, parent);
        },
    }
}

/// Functions with a body.
pub proof fn fn_is_stored_once(
    f: FnV,
    own: Option<Seq<char>>,
    id: int,
    out: Rc<Function>,
    parent: u32,
)
    requires
        is_fn(f, own, id, *out),
    ensures
        fn_log(f, out, parent).len() == fn_entries(f),
    decreases f, 0nat,
{
    lemma_param_count(f.sig.inputs, id + 1, out.parameters@);
    block_is_stored_once(f.block, id + 1 + params_ids(f.sig.inputs), out.body->0, out.id);
}

/// Definitions.
pub proof fn item_is_stored_once(i: ItemV, id: int, out: Definition, parent: u32)
    requires
        is_item(i, id, out),
    ensures
        item_log(i, out, parent).len() == item_entries(i),
    decreases i, 1nat,
{
    match i {
        ItemV::Const(c) => {
            let x = inner(out->Const_0);
            expr_is_stored_once(c.expr, false, id + 1, x.value->0, x.id);
        },
        ItemV::Fn(f) => {
            fn_is_stored_once(f, None, id, out->Function_0, parent);
        },
        ItemV::Impl { self_ty, items, .. } => {
            let x = inner(out->Implementation_0);
            let own = crate::text::no_spaces(self_ty.text);
            impl_items_are_stored_once(items, own, id + 2, parts_of(x), x.id);
        },
        ItemV::Mod { content, .. } => {
            let x = inner(out->Module_0);
            if let Some(items) = content {
                definitions_are_stored_once(items, id + 1, x.definitions->0@, x.id);
                lemma_import_count(items, id + 1 + definitions_ids(items), x.imports->0@);
            }
        },
        ItemV::Static { expr, .. } => {
            let x = inner(out->Static_0);
            expr_is_stored_once(expr, false, id + 2, x.value, x.id);
        },
        ItemV::Trait { vis, items, .. } => {
            let x = inner(out->Trait_0);
            trait_items_are_stored_once(
                items,
                crate::kinds::visibility_of(vis),
                id + 1,
                x.items@,
                x.id,
            );
        },
        _ => {},
    }
}

proof fn definitions_are_stored_once(s: Seq<ItemV>, id: int, out: Seq<Definition>, parent: u32)
    requires
        is_definitions(s, id, out),
    ensures
        definitions_log(s, out, parent).len() == definitions_entries(s),
    decreases s, 0nat,
{
    if s.len() > 0 {
        if is_use_item(s.last()) {
            definitions_are_stored_once(s.drop_last(), id, out, parent);
        } else {
            definitions_are_stored_once(s.drop_last(), id, out.drop_last(), parent);
            item_is_stored_once(s.last(), id + definitions_ids(s.drop_last()), out.last(), parent);
        }
    }
}

proof fn impl_items_are_stored_once(
    s: Seq<ImplItemV>,
    own: Seq<char>,
    id: int,
    p: ImplParts,
    parent: u32,
)
    requires
        is_impl_items(s, own, id, p),
    ensures
        impl_items_log(s, p, parent).len() == impl_items_entries(s),
    decreases s, 0nat,
{
    if s.len() > 0 {
        let at = id + impl_items_ids(s.drop_last());
        impl_items_are_stored_once(s.drop_last(), own, id, without_last(p, s.last()), parent);
        last_part_is_stored_once(s.last(), own, at, p, parent);
    }
}

proof fn last_part_is_stored_once(i: ImplItemV, own: Seq<char>, id: int, p: ImplParts, parent: u32)
    requires
        is_last_part(i, own, id, p),
    ensures
        last_part_log(i, p, parent).len() == impl_item_entries(i),
    decreases i, 0nat,
{
    match i {
        ImplItemV::Fn(f) => {
            fn_is_stored_once(f, Some(own), id, p.functions.last(), parent);
        },
        ImplItemV::Const(c) => {
            let x = inner(p.constants.last());
            expr_is_stored_once(c.expr, false, id + 2, x.value->0, x.id);
        },
        _ => {},
    }
}

proof fn trait_items_are_stored_once(
    s: Seq<TraitItemV>,
    vis: crate::ast::Visibility,
    id: int,
    out: Seq<Definition>,
    parent: u32,
)
    requires
        is_trait_items(s, vis, id, out),
    ensures
        trait_items_log(s, out, parent).len() == trait_items_entries(s),
    decreases s, 0nat,
{
    if s.len() > 0 {
        let at = id + trait_items_ids(s.drop_last());
        trait_items_are_stored_once(s.drop_last(), vis, id, out.drop_last(), parent);
        trait_item_is_stored_once(s.last(), vis, at, out.last(), parent);
    }
}

proof fn trait_item_is_stored_once(
    i: TraitItemV,
    vis: crate::ast::Visibility,
    id: int,
    out: Definition,
    parent: u32,
)
    requires
        is_trait_item(i, vis, id, out),
    ensures
        trait_item_log(i, out, parent).len() == trait_item_entries(i),
    decreases i, 0nat,
{
    match i {
        TraitItemV::Const { default, .. } => {
            let x = inner(out->Const_0);
            opt_expr_is_stored_once(default, id + 2, x.value, x.id);
        },
        TraitItemV::Fn { sig, .. } => {
            lemma_param_count(sig.inputs, id + 1, inner(out->Function_0).parameters@);
        },
        _ => {},
    }
}

proof fn children_are_stored_once(s: Seq<ItemV>, id: int, out: Seq<NodeKind>, parent: u32)
    requires
        is_children(s, id, out),
    ensures
        children_log(s, out, parent).len() == children_entries(s),
    decreases s.len(),
{
    if s.len() > 0 {
        children_are_stored_once(s.drop_last(), id, out.drop_last(), parent);
        match s.last() {
            ItemV::Use(_) => {},
            _ => {
                item_is_stored_once(
                    s.last(),
                    id + items_ids(s.drop_last()),
                    out.last()->Definition_0,
                    parent,
                );
            },
        }
    }
}

/// As many nodes are stored for a file as are written in it, and the file itself.
pub proof fn file_is_stored_once(f: FileV, path: Seq<char>, id: int, out: Rc<File>)
    requires
        is_file(f, path, id, *out),
    ensures
        file_log(f, out).len() == 1 + children_entries(f.items),
{
    children_are_stored_once(f.items, id + 1, out.children@, out.id);
}

} // verus!
