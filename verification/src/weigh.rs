//! Telling beforehand whether something can be built, and how many ids that will draw.
use crate::ast::{BinOp, UnOp};
use crate::count::{
    arms_ids, arms_ok, attrs_named, block_ids, block_ok, definitions_ids, definitions_ok, expr_ids,
    expr_ok, exprs_ids, exprs_ok, field_values_ids, field_values_ok, file_ids, file_ok, fn_ids,
    fn_ok, impl_item_ids, impl_item_ok, impl_items_ids, impl_items_ok, imports_ids, item_ids,
    item_ok, items_ids, lit_ok, opt_expr_ids, opt_expr_ok, params_ids, stmt_ids, stmt_ok, stmts_ids,
    stmts_ok, trait_item_ids, trait_item_ok, trait_items_ids, trait_items_ok,
};
use crate::lists::{
    lemma_arms_prefix, lemma_definitions_prefix, lemma_exprs_prefix, lemma_field_values_prefix,
    lemma_impl_items_prefix, lemma_stmts_prefix, lemma_trait_items_prefix,
};
use crate::shape::capture_ids;
use crate::syntax::{
    args_view, arms_view, attrs_view, exprs_view, field_values_view, impl_items_view, items_view,
    opt_capture_view, opt_expr_view, stmts_view, trait_items_view, ItemV, SrcArg, SrcArm, SrcArray,
    SrcAssign, SrcAttr, SrcBinary, SrcBlock, SrcBlockExpr, SrcBreak, SrcCall, SrcCapture, SrcCast,
    SrcClosure, SrcConstBlock, SrcExpr, SrcFieldValue, SrcFile, SrcFn, SrcForLoop, SrcIf,
    SrcImplItem, SrcIndex, SrcItem, SrcLetGuard, SrcLitValue, SrcLoop, SrcMatch, SrcMember,
    SrcMethodCall, SrcParen, SrcPatKind, SrcRange, SrcRawAddr, SrcReference, SrcRepeat, SrcReturn,
    SrcStmt, SrcStructExpr, SrcTraitItem, SrcTry, SrcTryBlock, SrcTuple, SrcUnary, SrcUnsafeBlock,
    SrcWhile,
};
use crate::text::{parse_decimal, same_text};
use vstd::prelude::*;

verus! {

/// How many ids are drawn for something, where it can be built and the ids are no more than there
/// are.
pub open spec fn weight(ok: bool, ids: nat) -> Option<u32> {
    if ok && ids <= u32::MAX {
        Some(ids as u32)
    } else {
        None
    }
}

/// The weight of two things together.
fn plus(a: Option<u32>, b: Option<u32>) -> (r: Option<u32>)
    ensures
        r == (if a is Some && b is Some {
            weight(true, (a->0 + b->0) as nat)
        } else {
            None
        }),
{
    match (a, b) {
        (Some(x), Some(y)) => x.checked_add(y),
        _ => None,
    }
}

/// Weighs an expression.
pub fn weigh_expr(expr: &SrcExpr) -> (r: Option<u32>)
    ensures
        r == weight(expr_ok(expr@), expr_ids(expr@)),
    decreases expr,
{
    match expr {
        SrcExpr::Array(x) => weigh_array(x),
        SrcExpr::Assign(x) => weigh_assign(x),
        SrcExpr::Binary(x) => weigh_binary(x),
        SrcExpr::Unary(x) => weigh_unary(x),
        SrcExpr::Break(x) => weigh_break(x),
        SrcExpr::Block(x) => weigh_block_expr(x),
        SrcExpr::Call(x) => weigh_call(x),
        SrcExpr::Cast(x) => weigh_cast(x),
        SrcExpr::Closure(x) => weigh_closure(x),
        SrcExpr::Const(x) => weigh_const_block(x),
        SrcExpr::Continue(_) => Some(1),
        SrcExpr::ForLoop(x) => weigh_for_loop(x),
        SrcExpr::Field(x) => weigh_field(x),
        SrcExpr::If(x) => weigh_if(x),
        SrcExpr::Index(x) => weigh_index(x),
        SrcExpr::Infer(_) => Some(1),
        SrcExpr::Let(x) => weigh_let_expr(x),
        SrcExpr::Lit(x) => weigh_literal(&x.lit.value),
        SrcExpr::Loop(x) => weigh_loop(x),
        SrcExpr::Macro(_) => Some(1),
        SrcExpr::Match(x) => weigh_match(x),
        SrcExpr::MethodCall(x) => weigh_method_call(x),
        SrcExpr::Paren(x) => weigh_paren(x),
        SrcExpr::Path(_) => Some(1),
        SrcExpr::Range(x) => weigh_range(x),
        SrcExpr::RawAddr(x) => weigh_raw_addr(x),
        SrcExpr::Reference(x) => weigh_reference(x),
        SrcExpr::Repeat(x) => weigh_repeat(x),
        SrcExpr::Return(x) => weigh_return(x),
        SrcExpr::Struct(x) => weigh_struct_expr(x),
        SrcExpr::Try(x) => weigh_try(x),
        SrcExpr::TryBlock(x) => weigh_try_block(x),
        SrcExpr::Tuple(x) => weigh_tuple(x),
        SrcExpr::Unsafe(x) => weigh_unsafe(x),
        SrcExpr::While(x) => weigh_while(x),
        SrcExpr::Async => None,
        SrcExpr::Await => None,
        SrcExpr::Yield => None,
        SrcExpr::Unsupported => None,
    }
}

fn weigh_array(x: &SrcArray) -> (r: Option<u32>)
    ensures
        r == weight(expr_ok(x@), expr_ids(x@)),
    decreases x,
{
    plus(Some(1), weigh_exprs(&x.elems))
}

fn weigh_assign(x: &SrcAssign) -> (r: Option<u32>)
    ensures
        r == weight(expr_ok(x@), expr_ids(x@)),
    decreases x,
{
    plus(plus(Some(1), weigh_expr(&x.left)), weigh_expr(&x.right))
}

fn weigh_binary(x: &SrcBinary) -> (r: Option<u32>)
    ensures
        r == weight(expr_ok(x@), expr_ids(x@)),
    decreases x,
{
    if BinOp::from_syn_item(x.op.as_str()).is_none() {
        None
    } else {
        plus(plus(Some(1), weigh_expr(&x.left)), weigh_expr(&x.right))
    }
}

fn weigh_unary(x: &SrcUnary) -> (r: Option<u32>)
    ensures
        r == weight(expr_ok(x@), expr_ids(x@)),
    decreases x,
{
    if UnOp::from_syn_item(x.op.as_str()).is_none() {
        None
    } else {
        plus(Some(1), weigh_expr(&x.expr))
    }
}

fn weigh_break(x: &SrcBreak) -> (r: Option<u32>)
    ensures
        r == weight(expr_ok(x@), expr_ids(x@)),
    decreases x,
{
    plus(Some(1), weigh_opt_expr(&x.expr))
}

fn weigh_block_expr(x: &SrcBlockExpr) -> (r: Option<u32>)
    ensures
        r == weight(expr_ok(x@), expr_ids(x@)),
    decreases x,
{
    plus(Some(1), weigh_block(&x.block))
}

fn weigh_call(x: &SrcCall) -> (r: Option<u32>)
    ensures
        r == weight(expr_ok(x@), expr_ids(x@)),
    decreases x,
{
    plus(plus(Some(1), weigh_exprs(&x.args)), weigh_expr(&x.func))
}

fn weigh_cast(x: &SrcCast) -> (r: Option<u32>)
    ensures
        r == weight(expr_ok(x@), expr_ids(x@)),
    decreases x,
{
    plus(Some(2), weigh_expr(&x.expr))
}

fn weigh_closure(x: &SrcClosure) -> (r: Option<u32>)
    ensures
        r == weight(expr_ok(x@), expr_ids(x@)),
    decreases x,
{
    plus(plus(Some(2), weigh_expr(&x.body)), weigh_capture(&x.capture))
}

fn weigh_const_block(x: &SrcConstBlock) -> (r: Option<u32>)
    ensures
        r == weight(expr_ok(x@), expr_ids(x@)),
    decreases x,
{
    plus(Some(1), weigh_block(&x.block))
}

fn weigh_for_loop(x: &SrcForLoop) -> (r: Option<u32>)
    ensures
        r == weight(expr_ok(x@), expr_ids(x@)),
    decreases x,
{
    plus(plus(Some(1), weigh_block(&x.body)), weigh_expr(&x.expr))
}

fn weigh_field(x: &SrcMember) -> (r: Option<u32>)
    ensures
        r == weight(expr_ok(x@), expr_ids(x@)),
    decreases x,
{
    plus(Some(1), weigh_expr(&x.base))
}

fn weigh_if(x: &SrcIf) -> (r: Option<u32>)
    ensures
        r == weight(expr_ok(x@), expr_ids(x@)),
    decreases x,
{
    plus(
        plus(plus(Some(1), weigh_block(&x.then_branch)), weigh_expr(&x.cond)),
        weigh_opt_expr(&x.else_branch),
    )
}

fn weigh_index(x: &SrcIndex) -> (r: Option<u32>)
    ensures
        r == weight(expr_ok(x@), expr_ids(x@)),
    decreases x,
{
    plus(plus(Some(1), weigh_expr(&x.expr)), weigh_expr(&x.index))
}

fn weigh_let_expr(x: &SrcLetGuard) -> (r: Option<u32>)
    ensures
        r == weight(expr_ok(x@), expr_ids(x@)),
    decreases x,
{
    plus(Some(2), weigh_expr(&x.expr))
}

fn weigh_loop(x: &SrcLoop) -> (r: Option<u32>)
    ensures
        r == weight(expr_ok(x@), expr_ids(x@)),
    decreases x,
{
    plus(Some(1), weigh_block(&x.body))
}

fn weigh_match(x: &SrcMatch) -> (r: Option<u32>)
    ensures
        r == weight(expr_ok(x@), expr_ids(x@)),
    decreases x,
{
    plus(plus(Some(1), weigh_expr(&x.expr)), weigh_arms(&x.arms))
}

fn weigh_method_call(x: &SrcMethodCall) -> (r: Option<u32>)
    ensures
        r == weight(expr_ok(x@), expr_ids(x@)),
    decreases x,
{
    plus(plus(Some(1), weigh_expr(&x.receiver)), weigh_exprs(&x.args))
}

fn weigh_paren(x: &SrcParen) -> (r: Option<u32>)
    ensures
        r == weight(expr_ok(x@), expr_ids(x@)),
    decreases x,
{
    plus(Some(1), weigh_expr(&x.expr))
}

fn weigh_range(x: &SrcRange) -> (r: Option<u32>)
    ensures
        r == weight(expr_ok(x@), expr_ids(x@)),
    decreases x,
{
    plus(plus(Some(1), weigh_opt_expr(&x.start)), weigh_opt_expr(&x.end))
}

fn weigh_raw_addr(x: &SrcRawAddr) -> (r: Option<u32>)
    ensures
        r == weight(expr_ok(x@), expr_ids(x@)),
    decreases x,
{
    plus(Some(1), weigh_expr(&x.expr))
}

fn weigh_reference(x: &SrcReference) -> (r: Option<u32>)
    ensures
        r == weight(expr_ok(x@), expr_ids(x@)),
    decreases x,
{
    plus(Some(1), weigh_expr(&x.expr))
}

fn weigh_repeat(x: &SrcRepeat) -> (r: Option<u32>)
    ensures
        r == weight(expr_ok(x@), expr_ids(x@)),
    decreases x,
{
    plus(plus(Some(1), weigh_expr(&x.expr)), weigh_expr(&x.len))
}

fn weigh_return(x: &SrcReturn) -> (r: Option<u32>)
    ensures
        r == weight(expr_ok(x@), expr_ids(x@)),
    decreases x,
{
    plus(Some(1), weigh_opt_expr(&x.expr))
}

fn weigh_struct_expr(x: &SrcStructExpr) -> (r: Option<u32>)
    ensures
        r == weight(expr_ok(x@), expr_ids(x@)),
    decreases x,
{
    if x.path.len() == 0 {
        None
    } else {
        plus(plus(weigh_field_values(&x.fields), weigh_opt_expr(&x.rest)), Some(1))
    }
}

fn weigh_try(x: &SrcTry) -> (r: Option<u32>)
    ensures
        r == weight(expr_ok(x@), expr_ids(x@)),
    decreases x,
{
    plus(Some(1), weigh_expr(&x.expr))
}

fn weigh_try_block(x: &SrcTryBlock) -> (r: Option<u32>)
    ensures
        r == weight(expr_ok(x@), expr_ids(x@)),
    decreases x,
{
    plus(Some(1), weigh_block(&x.block))
}

fn weigh_tuple(x: &SrcTuple) -> (r: Option<u32>)
    ensures
        r == weight(expr_ok(x@), expr_ids(x@)),
    decreases x,
{
    plus(Some(1), weigh_exprs(&x.elems))
}

fn weigh_unsafe(x: &SrcUnsafeBlock) -> (r: Option<u32>)
    ensures
        r == weight(expr_ok(x@), expr_ids(x@)),
    decreases x,
{
    plus(Some(1), weigh_block(&x.block))
}

fn weigh_while(x: &SrcWhile) -> (r: Option<u32>)
    ensures
        r == weight(expr_ok(x@), expr_ids(x@)),
    decreases x,
{
    plus(plus(Some(1), weigh_block(&x.body)), weigh_expr(&x.cond))
}

/// Weighs a literal that stands as an expression.
pub fn weigh_literal(value: &SrcLitValue) -> (r: Option<u32>)
    ensures
        r == weight(lit_ok(value@), 2),
{
    match value {
        SrcLitValue::Int(digits) => if parse_decimal(digits.as_str()).is_none() {
            None
        } else {
            Some(2)
        },
        SrcLitValue::Unsupported => None,
        _ => Some(2),
    }
}

/// Weighs what a closure takes over.
pub fn weigh_capture(capture: &Option<SrcCapture>) -> (r: Option<u32>)
    ensures
        r == weight(
            (opt_capture_view(*capture) matches Some(c) ==> c.text is Some),
            capture_ids(opt_capture_view(*capture)),
        ),
{
    match capture {
        Some(c) => if c.text.is_none() {
            None
        } else {
            Some(1)
        },
        None => Some(0),
    }
}

/// Weighs an expression that may be absent.
pub fn weigh_opt_expr(expr: &Option<Box<SrcExpr>>) -> (r: Option<u32>)
    ensures
        r == weight(opt_expr_ok(opt_expr_view(*expr)), opt_expr_ids(opt_expr_view(*expr))),
    decreases expr,
{
    match expr {
        Some(x) => weigh_expr(x),
        None => Some(0),
    }
}

/// Weighs expressions one behind the other.
fn weigh_exprs(list: &Vec<SrcExpr>) -> (r: Option<u32>)
    ensures
        r == weight(exprs_ok(exprs_view(list@)), exprs_ids(exprs_view(list@))),
    decreases list,
{
    let ghost s = exprs_view(list@);
    let mut total: Option<u32> = Some(0);
    for i in 0..list.len()
        invariant
            s == exprs_view(list@),
            total == weight(exprs_ok(s.take(i as int)), exprs_ids(s.take(i as int))),
    {
        proof {
            lemma_exprs_prefix(s, i + 1);
            assert(s.take(i + 1).drop_last() =~= s.take(i as int));
            assert(decreases_to!(list@ => list@[i as int]));
        }
        total = plus(total, weigh_expr(&list[i]));
    }
    assert(s.take(s.len() as int) =~= s);
    total
}

/// Weighs the arms of a `match`.
fn weigh_arms(list: &Vec<SrcArm>) -> (r: Option<u32>)
    ensures
        r == weight(arms_ok(arms_view(list@)), arms_ids(arms_view(list@))),
    decreases list,
{
    let ghost s = arms_view(list@);
    let mut total: Option<u32> = Some(0);
    for i in 0..list.len()
        invariant
            s == arms_view(list@),
            total == weight(arms_ok(s.take(i as int)), arms_ids(s.take(i as int))),
    {
        proof {
            lemma_arms_prefix(s, i + 1);
            assert(s.take(i + 1).drop_last() =~= s.take(i as int));
            assert(decreases_to!(list@ => list@[i as int]));
        }
        total = plus(plus(total, Some(1)), weigh_expr(&list[i].body));
    }
    assert(s.take(s.len() as int) =~= s);
    total
}

/// Weighs the fields of a struct expression.
fn weigh_field_values(list: &Vec<SrcFieldValue>) -> (r: Option<u32>)
    ensures
        r == weight(
            field_values_ok(field_values_view(list@)),
            field_values_ids(field_values_view(list@)),
        ),
    decreases list,
{
    let ghost s = field_values_view(list@);
    let mut total: Option<u32> = Some(0);
    for i in 0..list.len()
        invariant
            s == field_values_view(list@),
            total == weight(field_values_ok(s.take(i as int)), field_values_ids(s.take(i as int))),
    {
        proof {
            lemma_field_values_prefix(s, i + 1);
            assert(s.take(i + 1).drop_last() =~= s.take(i as int));
            assert(decreases_to!(list@ => list@[i as int]));
        }
        total = plus(total, weigh_expr(&list[i].expr));
    }
    assert(s.take(s.len() as int) =~= s);
    total
}

/// Weighs a block.
pub fn weigh_block(block: &SrcBlock) -> (r: Option<u32>)
    ensures
        r == weight(block_ok(block@), block_ids(block@)),
    decreases block,
{
    plus(Some(1), weigh_stmts(&block.stmts))
}

/// Weighs the statements of a block.
fn weigh_stmts(list: &Vec<SrcStmt>) -> (r: Option<u32>)
    ensures
        r == weight(stmts_ok(stmts_view(list@)), stmts_ids(stmts_view(list@))),
    decreases list,
{
    let ghost s = stmts_view(list@);
    let mut total: Option<u32> = Some(0);
    for i in 0..list.len()
        invariant
            s == stmts_view(list@),
            total == weight(stmts_ok(s.take(i as int)), stmts_ids(s.take(i as int))),
    {
        proof {
            lemma_stmts_prefix(s, i + 1);
            assert(s.take(i + 1).drop_last() =~= s.take(i as int));
            assert(decreases_to!(list@ => list@[i as int]));
        }
        match &list[i] {
            SrcStmt::Definition(SrcItem::Use(_)) => {},
            stmt => {
                total = plus(total, weigh_stmt(stmt));
            },
        }
    }
    assert(s.take(s.len() as int) =~= s);
    total
}

/// Weighs a statement.
pub fn weigh_stmt(stmt: &SrcStmt) -> (r: Option<u32>)
    ensures
        r == weight(stmt_ok(stmt@), stmt_ids(stmt@)),
    decreases stmt,
{
    match stmt {
        SrcStmt::Expression { expr, .. } => weigh_expr(expr),
        SrcStmt::Local(x) => match &x.init {
            Some(init) => plus(
                plus(Some(2), weigh_expr(&init.expr)),
                weigh_opt_expr(&init.diverge),
            ),
            None => Some(2),
        },
        SrcStmt::Macro(_) => Some(1),
        SrcStmt::Definition(x) => weigh_item(x),
    }
}

/// Whether every attribute has a name.
fn are_named(attrs: &Vec<SrcAttr>) -> (r: bool)
    ensures
        r == attrs_named(attrs_view(attrs@)),
{
    for i in 0..attrs.len()
        invariant
            forall|j: int| 0 <= j < i ==> (#[trigger] attrs_view(attrs@)[j]).len() > 0,
    {
        if attrs[i].path.len() == 0 {
            assert(attrs_view(attrs@)[i as int].len() == 0);
            return false;
        }
    }
    true
}

/// How many arguments become parameters.
fn weigh_params(list: &Vec<SrcArg>) -> (r: Option<u32>)
    ensures
        r == weight(true, params_ids(args_view(list@))),
{
    let ghost s = args_view(list@);
    let mut total: Option<u32> = Some(0);
    for i in 0..list.len()
        invariant
            s == args_view(list@),
            total == weight(true, params_ids(s.take(i as int))),
    {
        proof {
            assert(s.take(i + 1).drop_last() =~= s.take(i as int));
        }
        let counts = match &list[i] {
            SrcArg::Receiver { .. } => true,
            SrcArg::Typed { pat, .. } => matches!(pat.kind, SrcPatKind::Ident { .. }),
        };
        if counts {
            total = plus(total, Some(1));
        }
    }
    assert(s.take(s.len() as int) =~= s);
    total
}

/// Weighs a function with a body; `in_impl` tells whether `Self` has a meaning there.
pub fn weigh_fn(item: &SrcFn, in_impl: bool) -> (r: Option<u32>)
    ensures
        r == weight(fn_ok(item@, in_impl), fn_ids(item@)),
    decreases item,
{
    if !are_named(&item.attrs) {
        return None;
    }
    if !in_impl {
        if let Some(ty) = &item.sig.output {
            if same_text(ty.text.as_str(), "Self") {
                return None;
            }
        }
    }
    plus(plus(Some(1), weigh_params(&item.sig.inputs)), weigh_block(&item.block))
}

/// The number of entries in a list, `each` counted for every one of them.
fn weigh_len(n: usize, each: u32) -> (r: Option<u32>)
    requires
        1 <= each <= 2,
    ensures
        r == weight(true, (n * each) as nat),
{
    if n > u32::MAX as usize {
        assert(n * each >= n) by (nonlinear_arith)
            requires
                each >= 1,
        ;
        return None;
    }
    assert(n * each <= 2 * n) by (nonlinear_arith)
        requires
            each <= 2,
    ;
    let total: u64 = n as u64 * each as u64;
    if total <= u32::MAX as u64 {
        Some(total as u32)
    } else {
        None
    }
}

/// Weighs an item that becomes a definition.
pub fn weigh_item(item: &SrcItem) -> (r: Option<u32>)
    ensures
        r == weight(item_ok(item@), item_ids(item@)),
    decreases item,
{
    match item {
        SrcItem::Const(x) => plus(Some(2), weigh_expr(&x.expr)),
        SrcItem::Enum(_) => Some(1),
        SrcItem::ExternCrate(_) => Some(1),
        SrcItem::Fn(x) => weigh_fn(x, false),
        SrcItem::ForeignMod(_) => Some(1),
        SrcItem::Impl(x) => plus(Some(2), weigh_impl_items(&x.items)),
        SrcItem::Macro(_) => Some(1),
        SrcItem::Mod(x) => match &x.content {
            Some(items) => plus(plus(Some(1), weigh_definitions(items)), weigh_imports(items)),
            None => Some(1),
        },
        SrcItem::Static(x) => plus(Some(2), weigh_expr(&x.expr)),
        SrcItem::Struct(x) => plus(Some(1), weigh_len(x.fields.len(), 1)),
        SrcItem::Trait(x) => plus(Some(1), weigh_trait_items(&x.items)),
        SrcItem::TraitAlias(_) => Some(1),
        SrcItem::TypeAlias(_) => Some(2),
        SrcItem::Union(x) => plus(Some(1), weigh_len(x.fields.len(), 2)),
        SrcItem::Use(_) => None,
        SrcItem::Verbatim(_) => Some(1),
    }
}

/// Weighs the items that are not `use`.
fn weigh_definitions(list: &Vec<SrcItem>) -> (r: Option<u32>)
    ensures
        r == weight(definitions_ok(items_view(list@)), definitions_ids(items_view(list@))),
    decreases list,
{
    let ghost s = items_view(list@);
    let mut total: Option<u32> = Some(0);
    for i in 0..list.len()
        invariant
            s == items_view(list@),
            total == weight(definitions_ok(s.take(i as int)), definitions_ids(s.take(i as int))),
    {
        proof {
            lemma_definitions_prefix(s, i + 1);
            assert(s.take(i + 1).drop_last() =~= s.take(i as int));
            assert(decreases_to!(list@ => list@[i as int]));
        }
        match &list[i] {
            SrcItem::Use(_) => {},
            item => {
                total = plus(total, weigh_item(item));
            },
        }
    }
    assert(s.take(s.len() as int) =~= s);
    total
}

/// Weighs the items that are `use`.
fn weigh_imports(list: &Vec<SrcItem>) -> (r: Option<u32>)
    ensures
        r == weight(true, imports_ids(items_view(list@))),
{
    let ghost s = items_view(list@);
    let mut total: Option<u32> = Some(0);
    for i in 0..list.len()
        invariant
            s == items_view(list@),
            total == weight(true, imports_ids(s.take(i as int))),
    {
        proof {
            lemma_definitions_prefix(s, i + 1);
            assert(s.take(i + 1).drop_last() =~= s.take(i as int));
        }
        if let SrcItem::Use(_) = &list[i] {
            total = plus(total, Some(1));
        }
    }
    assert(s.take(s.len() as int) =~= s);
    total
}

/// Weighs an item of an `impl` block.
pub fn weigh_impl_item(item: &SrcImplItem) -> (r: Option<u32>)
    ensures
        r == weight(impl_item_ok(item@), impl_item_ids(item@)),
    decreases item,
{
    match item {
        SrcImplItem::Fn(x) => weigh_fn(&x.item, true),
        SrcImplItem::Const(x) => plus(Some(2), weigh_expr(&x.expr)),
        SrcImplItem::Type(_) => Some(2),
        SrcImplItem::Macro(_) => Some(1),
        SrcImplItem::Verbatim(_) => Some(1),
    }
}

/// Weighs the items of an `impl` block.
fn weigh_impl_items(list: &Vec<SrcImplItem>) -> (r: Option<u32>)
    ensures
        r == weight(impl_items_ok(impl_items_view(list@)), impl_items_ids(impl_items_view(list@))),
    decreases list,
{
    let ghost s = impl_items_view(list@);
    let mut total: Option<u32> = Some(0);
    for i in 0..list.len()
        invariant
            s == impl_items_view(list@),
            total == weight(impl_items_ok(s.take(i as int)), impl_items_ids(s.take(i as int))),
    {
        proof {
            lemma_impl_items_prefix(s, i + 1);
            assert(s.take(i + 1).drop_last() =~= s.take(i as int));
            assert(decreases_to!(list@ => list@[i as int]));
        }
        total = plus(total, weigh_impl_item(&list[i]));
    }
    assert(s.take(s.len() as int) =~= s);
    total
}

/// Weighs an item of a trait.
pub fn weigh_trait_item(item: &SrcTraitItem) -> (r: Option<u32>)
    ensures
        r == weight(trait_item_ok(item@), trait_item_ids(item@)),
    decreases item,
{
    match item {
        SrcTraitItem::Const(x) => plus(Some(2), weigh_opt_expr(&x.default)),
        SrcTraitItem::Fn(x) => if are_named(&x.attrs) {
            plus(Some(2), weigh_params(&x.sig.inputs))
        } else {
            None
        },
        SrcTraitItem::Type { .. } => Some(1),
        SrcTraitItem::Macro(_) => Some(1),
        SrcTraitItem::Verbatim(_) => Some(1),
    }
}

/// Weighs the items of a trait.
fn weigh_trait_items(list: &Vec<SrcTraitItem>) -> (r: Option<u32>)
    ensures
        r == weight(
            trait_items_ok(trait_items_view(list@)),
            trait_items_ids(trait_items_view(list@)),
        ),
    decreases list,
{
    let ghost s = trait_items_view(list@);
    let mut total: Option<u32> = Some(0);
    for i in 0..list.len()
        invariant
            s == trait_items_view(list@),
            total == weight(trait_items_ok(s.take(i as int)), trait_items_ids(s.take(i as int))),
    {
        proof {
            lemma_trait_items_prefix(s, i + 1);
            assert(s.take(i + 1).drop_last() =~= s.take(i as int));
            assert(decreases_to!(list@ => list@[i as int]));
        }
        total = plus(total, weigh_trait_item(&list[i]));
    }
    assert(s.take(s.len() as int) =~= s);
    total
}

/// The ids of all items of a file are those of its definitions and those of its imports.
proof fn lemma_items_ids(s: Seq<ItemV>)
    ensures
        items_ids(s) == definitions_ids(s) + imports_ids(s),
    decreases s.len(),
{
    if s.len() > 0 {
        lemma_items_ids(s.drop_last());
    }
}

/// Weighs a file.
pub fn weigh_file(file: &SrcFile) -> (r: Option<u32>)
    ensures
        r == weight(file_ok(file@), file_ids(file@)),
{
    proof {
        lemma_items_ids(items_view(file.items@));
    }
    plus(plus(Some(1), weigh_definitions(&file.items)), weigh_imports(&file.items))
}

} // verus!
