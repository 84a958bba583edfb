//! What holds of the nodes that are stored, whatever is built.
//!
//! Every stored node has an id that was drawn for what it was built from; it stands under a node
//! that drew its id before it did; and two stored nodes with one id are the same node.
use crate::ast::{
    Block, Definition, Directive, Expression, Field, File, FnParameter, Function, Identifier,
    MatchArm, Misc, NodeKind, Statement, Type, Use, Visibility,
};
use crate::context::ParserCtx;
use crate::count::{
    arms_ids, block_ids, definitions_ids, expr_ids, exprs_ids, field_values_ids, file_ids, fn_ids,
    impl_item_ids, impl_items_ids, imports_ids, is_param, is_use_item, is_use_stmt, item_ids,
    items_ids, opt_expr_ids, params_ids, stmt_ids, stmts_ids, trait_item_ids, trait_items_ids,
};
use crate::kinds::visibility_of;
use crate::parse::{file_added, registry, source_of, turn, turns, with_children};
use crate::record::{
    arms_log, block_log, captures_log, child_log, children_log, definitions_log, expr_log,
    exprs_log, field_values_log, fields_log, file_log, fn_log, impl_items_log, imports_log,
    item_log, last_part_log, opt_expr_log, params_log, stmt_log, stmts_log, stored, trait_item_log,
    trait_items_log,
};
use crate::shape::{
    capture_ids, is_arms, is_block, is_captures, is_children, is_definitions, is_expr, is_exprs,
    is_field, is_field_values, is_fields, is_file, is_fn, is_impl_items, is_imports, is_item,
    is_last_part, is_opt_expr, is_params, is_stmt, is_stmts, is_trait_item, is_trait_items,
    parts_of, without_last, ImplParts,
};
use crate::storage::StoredNode;
use crate::syntax::{
    ArgV, ArmV, BlockV, CaptureV, ExprV, FieldV, FieldValueV, FileV, FnV, ImplItemV, ItemV, StmtV,
    TraitItemV,
};
use crate::text::no_spaces;
use std::rc::Rc;
use vstd::prelude::*;

verus! {

/// The id of an expression.
pub open spec fn expr_id(x: Expression) -> u32 {
    match x {
        Expression::Addr(x) => x.id,
        Expression::Array(x) => x.id,
        Expression::Assign(x) => x.id,
        Expression::Binary(x) => x.id,
        Expression::Break(x) => x.id,
        Expression::Cast(x) => x.id,
        Expression::Closure(x) => x.id,
        Expression::Const(x) => x.id,
        Expression::Continue(x) => x.id,
        Expression::EBlock(x) => x.id,
        Expression::EStruct(x) => x.id,
        Expression::ForLoop(x) => x.id,
        Expression::FunctionCall(x) => x.id,
        Expression::Identifier(x) => x.id,
        Expression::If(x) => x.id,
        Expression::IndexAccess(x) => x.id,
        Expression::LetGuard(x) => x.id,
        Expression::Literal(x) => x.id,
        Expression::Loop(x) => x.id,
        Expression::Macro(x) => x.id,
        Expression::Match(x) => x.id,
        Expression::MemberAccess(x) => x.id,
        Expression::MethodCall(x) => x.id,
        Expression::Parenthesized(x) => x.id,
        Expression::Range(x) => x.id,
        Expression::Reference(x) => x.id,
        Expression::Repeat(x) => x.id,
        Expression::Return(x) => x.id,
        Expression::Try(x) => x.id,
        Expression::Tuple(x) => x.id,
        Expression::Unary(x) => x.id,
        Expression::Unsafe(x) => x.id,
        Expression::While(x) => x.id,
    }
}

/// The id of a definition.
pub open spec fn definition_id(d: Definition) -> u32 {
    match d {
        Definition::AssocType(x) => x.id,
        Definition::Const(x) => x.id,
        Definition::Enum(x) => x.id,
        Definition::ExternCrate(x) => x.id,
        Definition::Function(x) => x.id,
        Definition::Implementation(x) => x.id,
        Definition::Macro(x) => x.id,
        Definition::Module(x) => x.id,
        Definition::Plane(x) => x.id,
        Definition::Static(x) => x.id,
        Definition::Struct(x) => x.id,
        Definition::Trait(x) => x.id,
        Definition::TraitAlias(x) => x.id,
        Definition::TypeAlias(x) => x.id,
        Definition::Union(x) => x.id,
    }
}

/// The id of a statement: that of the expression or the definition that it is, where it is one.
pub open spec fn statement_id(s: Statement) -> u32 {
    match s {
        Statement::Block(x) => x.id,
        Statement::Expression(x) => expr_id(x),
        Statement::Let(x) => x.id,
        Statement::Macro(x) => x.id,
        Statement::Definition(d) => definition_id(d),
    }
}

/// The id of a node.
pub open spec fn node_id(n: NodeKind) -> u32 {
    match n {
        NodeKind::File(x) => x.id,
        NodeKind::Directive(Directive::Use(x)) => x.id,
        NodeKind::Definition(d) => definition_id(d),
        NodeKind::Statement(s) => statement_id(s),
        NodeKind::Expression(x) => expr_id(x),
        NodeKind::Pattern(p) => p.id,
        NodeKind::Type(Type::Typename(x)) => x.id,
        NodeKind::Misc(Misc::FnParameter(x)) => x.id,
        NodeKind::Misc(Misc::Field(x)) => x.id,
    }
}

/// A node, whether it is stored as an expression or as the statement that it is.
pub open spec fn plain_node(n: NodeKind) -> NodeKind {
    match n {
        NodeKind::Expression(x) => NodeKind::Statement(Statement::Expression(x)),
        _ => n,
    }
}

/// What a shared node holds.
pub open spec fn inner<T>(x: Rc<T>) -> T {
    *x
}

/// Whether every node of `log` has an id from `lo` up to but not `hi`, and stands under a node with
/// a smaller id: `p`, or one with an id from `base` on.
pub open spec fn placed(log: Seq<StoredNode>, p: u32, base: int, lo: int, hi: int) -> bool {
    forall|i: int|
        0 <= i < log.len() ==> {
            let id = node_id((#[trigger] log[i]).node);
            &&& lo <= id < hi
            &&& log[i].parent < id
            &&& log[i].parent == p || base <= log[i].parent < hi
        }
}

/// Whether nodes of `log` with one id are the same node.
pub open spec fn coherent(log: Seq<StoredNode>) -> bool {
    forall|i: int, j: int|
        0 <= i < log.len() && 0 <= j < log.len() && node_id((#[trigger] log[i]).node) == node_id(
            (#[trigger] log[j]).node,
        ) ==> plain_node(log[i].node) == plain_node(log[j].node)
}

/// Both.
#[verifier::opaque]
pub open spec fn tidy(log: Seq<StoredNode>, p: u32, base: int, lo: int, hi: int) -> bool {
    placed(log, p, base, lo, hi) && coherent(log)
}

proof fn lemma_empty(p: u32, base: int, lo: int, hi: int)
    ensures
        tidy(Seq::empty(), p, base, lo, hi),
{
    reveal(tidy);
}

pub(crate) proof fn lemma_rebase(log: Seq<StoredNode>, pa: u32, ba: int, p: u32, base: int, lo: int, hi: int)
    requires
        tidy(log, pa, ba, lo, hi),
        base <= ba,
        pa == p || base <= pa < hi,
    ensures
        tidy(log, p, base, lo, hi),
{
    reveal(tidy);
}

pub(crate) proof fn lemma_join(
    a: Seq<StoredNode>,
    b: Seq<StoredNode>,
    p: u32,
    base: int,
    lo: int,
    mid: int,
    hi: int,
)
    requires
        tidy(a, p, base, lo, mid),
        tidy(b, p, base, mid, hi),
        lo <= mid <= hi,
    ensures
        tidy(a + b, p, base, lo, hi),
{
    reveal(tidy);
    let c = a + b;
    assert forall|i: int| 0 <= i < c.len() implies {
        let id = node_id((#[trigger] c[i]).node);
        &&& lo <= id < hi
        &&& c[i].parent < id
        &&& c[i].parent == p || base <= c[i].parent < hi
    } by {
        if i < a.len() {
            assert(c[i] == a[i]);
        } else {
            assert(c[i] == b[i - a.len()]);
        }
    }
    assert forall|i: int, j: int|
        0 <= i < c.len() && 0 <= j < c.len() && node_id((#[trigger] c[i]).node) == node_id(
            (#[trigger] c[j]).node,
        ) implies plain_node(c[i].node) == plain_node(c[j].node) by {
        if i < a.len() {
            assert(c[i] == a[i]);
        } else {
            assert(c[i] == b[i - a.len()]);
        }
        if j < a.len() {
            assert(c[j] == a[j]);
        } else {
            assert(c[j] == b[j - a.len()]);
        }
    }
}

/// A node with an id that does not occur yet is added.
proof fn lemma_add(
    a: Seq<StoredNode>,
    p: u32,
    base: int,
    l: int,
    h: int,
    node: NodeKind,
    q: u32,
    lo: int,
    hi: int,
)
    requires
        tidy(a, p, base, l, h),
        lo <= l,
        h <= hi,
        lo <= node_id(node) < hi,
        !(l <= node_id(node) < h),
        q < node_id(node),
        q == p || base <= q < hi,
    ensures
        tidy(a + stored(node, q), p, base, lo, hi),
{
    reveal(tidy);
    let c = a + stored(node, q);
    assert forall|i: int| 0 <= i < c.len() implies (i < a.len() && #[trigger] c[i] == a[i]) || (i
        == a.len() && c[i] == (StoredNode { node, parent: q })) by {}
    assert forall|i: int, j: int|
        0 <= i < c.len() && 0 <= j < c.len() && node_id((#[trigger] c[i]).node) == node_id(
            (#[trigger] c[j]).node,
        ) implies plain_node(c[i].node) == plain_node(c[j].node) by {
        if i < a.len() && j < a.len() {
            assert(c[i] == a[i] && c[j] == a[j]);
        }
    }
}

/// A node that occurs already is added once more.
proof fn lemma_again(
    a: Seq<StoredNode>,
    p: u32,
    base: int,
    l: int,
    h: int,
    k: int,
    node: NodeKind,
    q: u32,
)
    requires
        tidy(a, p, base, l, h),
        0 <= k < a.len(),
        plain_node(a[k].node) == plain_node(node),
        q < node_id(node),
        q == p || base <= q < h,
    ensures
        tidy(a + stored(node, q), p, base, l, h),
{
    reveal(tidy);
    let c = a + stored(node, q);
    assert(node_id(a[k].node) == node_id(node));
    assert forall|i: int| 0 <= i < c.len() implies (i < a.len() && #[trigger] c[i] == a[i]) || (i
        == a.len() && c[i] == (StoredNode { node, parent: q })) by {}
    assert forall|i: int, j: int|
        0 <= i < c.len() && 0 <= j < c.len() && node_id((#[trigger] c[i]).node) == node_id(
            (#[trigger] c[j]).node,
        ) implies plain_node(c[i].node) == plain_node(c[j].node) by {
        let x = if i < a.len() {
            i
        } else {
            k
        };
        let y = if j < a.len() {
            j
        } else {
            k
        };
        assert(node_id(a[x].node) == node_id(c[i].node)
            && plain_node(a[x].node) == plain_node(c[i].node));
        assert(node_id(a[y].node) == node_id(c[j].node)
            && plain_node(a[y].node) == plain_node(c[j].node));
    }
}

/// Expressions.
pub proof fn tidy_expr(e: ExprV, is_ret: bool, id: int, out: Expression, parent: u32)
    requires
        is_expr(e, is_ret, id, out),
        parent < id,
    ensures
        tidy(expr_log(e, out, parent), parent, id, id, id + expr_ids(e)),
        id <= expr_id(out) < id + expr_ids(e),
        expr_log(e, out, parent).len() > 0,
        plain_node(expr_log(e, out, parent).last().node) == NodeKind::Statement(
            Statement::Expression(out),
        ),
    decreases e, 1nat,
{
    match e {
        ExprV::Array { .. } => {
            tidy_array_expr(e, is_ret, id, out, parent);
        },
        ExprV::Assign { .. } => {
            tidy_assign_expr(e, is_ret, id, out, parent);
        },
        ExprV::Binary { .. } => {
            tidy_binary_expr(e, is_ret, id, out, parent);
        },
        ExprV::Unary { .. } => {
            tidy_unary_expr(e, is_ret, id, out, parent);
        },
        ExprV::Break { .. } => {
            tidy_break_expr(e, is_ret, id, out, parent);
        },
        ExprV::Call { .. } => {
            tidy_call_expr(e, is_ret, id, out, parent);
        },
        ExprV::Const { .. } => {
            tidy_const_expr(e, is_ret, id, out, parent);
        },
        ExprV::Continue { .. } => {
            tidy_continue_expr(e, is_ret, id, out, parent);
        },
        ExprV::ForLoop { .. } => {
            tidy_for_loop_expr(e, is_ret, id, out, parent);
        },
        ExprV::Field { .. } => {
            tidy_field_expr(e, is_ret, id, out, parent);
        },
        ExprV::If { .. } => {
            tidy_if_expr(e, is_ret, id, out, parent);
        },
        ExprV::Index { .. } => {
            tidy_index_expr(e, is_ret, id, out, parent);
        },
        ExprV::Infer { .. } => {
            tidy_infer_expr(e, is_ret, id, out, parent);
        },
        ExprV::Lit { .. } => {
            tidy_lit_expr(e, is_ret, id, out, parent);
        },
        ExprV::Loop { .. } => {
            tidy_loop_expr(e, is_ret, id, out, parent);
        },
        ExprV::Macro { .. } => {
            tidy_macro_expr(e, is_ret, id, out, parent);
        },
        ExprV::Match { .. } => {
            tidy_match_expr(e, is_ret, id, out, parent);
        },
        ExprV::MethodCall { .. } => {
            tidy_method_call_expr(e, is_ret, id, out, parent);
        },
        ExprV::Paren { .. } => {
            tidy_paren_expr(e, is_ret, id, out, parent);
        },
        ExprV::Range { .. } => {
            tidy_range_expr(e, is_ret, id, out, parent);
        },
        ExprV::RawAddr { .. } => {
            tidy_raw_addr_expr(e, is_ret, id, out, parent);
        },
        ExprV::Reference { .. } => {
            tidy_reference_expr(e, is_ret, id, out, parent);
        },
        ExprV::Repeat { .. } => {
            tidy_repeat_expr(e, is_ret, id, out, parent);
        },
        ExprV::Return { .. } => {
            tidy_return_expr(e, is_ret, id, out, parent);
        },
        ExprV::Try { .. } => {
            tidy_try_expr(e, is_ret, id, out, parent);
        },
        ExprV::TryBlock { .. } => {
            tidy_try_block_expr(e, is_ret, id, out, parent);
        },
        ExprV::Tuple { .. } => {
            tidy_tuple_expr(e, is_ret, id, out, parent);
        },
        ExprV::Unsafe { .. } => {
            tidy_unsafe_expr(e, is_ret, id, out, parent);
        },
        ExprV::While { .. } => {
            tidy_while_expr(e, is_ret, id, out, parent);
        },
        ExprV::Block { .. } => {
            tidy_block_expr(e, is_ret, id, out, parent);
        },
        ExprV::Cast { .. } => {
            tidy_cast_expr(e, is_ret, id, out, parent);
        },
        ExprV::Closure { .. } => {
            tidy_closure_expr(e, is_ret, id, out, parent);
        },
        ExprV::Let { .. } => {
            tidy_let_expr(e, is_ret, id, out, parent);
        },
        ExprV::Path { .. } => {
            tidy_path_expr(e, is_ret, id, out, parent);
        },
        ExprV::Struct { .. } => {
            tidy_struct_expr(e, is_ret, id, out, parent);
        },
        _ => {},
    }
}

proof fn tidy_array_expr(e: ExprV, is_ret: bool, id: int, out: Expression, parent: u32)
    requires
        e is Array,
        is_expr(e, is_ret, id, out),
        parent < id,
    ensures
        tidy(expr_log(e, out, parent), parent, id, id, id + expr_ids(e)),
        id <= expr_id(out) < id + expr_ids(e),
        expr_log(e, out, parent).len() > 0,
        plain_node(expr_log(e, out, parent).last().node) == NodeKind::Statement(
            Statement::Expression(out),
        ),
    decreases e, 0nat,
{
    let end = id + expr_ids(e);
    let own = NodeKind::Statement(Statement::Expression(out));
    let elems = e->Array_elems;
    let x = inner(out->Array_0);
    let h0 = id + 1 + exprs_ids(elems);
    let l0 = exprs_log(elems, x.elements@, x.id);
    tidy_exprs(elems, id + 1, x.elements@, x.id);
    lemma_rebase(l0, x.id, id + 1, parent, id, id + 1, h0);
    lemma_add(l0, parent, id, id + 1, h0, own, parent, id, end);
}

proof fn tidy_assign_expr(e: ExprV, is_ret: bool, id: int, out: Expression, parent: u32)
    requires
        e is Assign,
        is_expr(e, is_ret, id, out),
        parent < id,
    ensures
        tidy(expr_log(e, out, parent), parent, id, id, id + expr_ids(e)),
        id <= expr_id(out) < id + expr_ids(e),
        expr_log(e, out, parent).len() > 0,
        plain_node(expr_log(e, out, parent).last().node) == NodeKind::Statement(
            Statement::Expression(out),
        ),
    decreases e, 0nat,
{
    let end = id + expr_ids(e);
    let own = NodeKind::Statement(Statement::Expression(out));
    let left = e->Assign_left;
    let right = e->Assign_right;
    let x = inner(out->Assign_0);
    let h0 = id + 1 + expr_ids(*left);
    let l0 = expr_log(*left, x.left, x.id);
    tidy_expr(*left, false, id + 1, x.left, x.id);
    lemma_rebase(l0, x.id, id + 1, parent, id, id + 1, h0);
    let h1 = h0 + expr_ids(*right);
    let l1 = expr_log(*right, x.right, x.id);
    tidy_expr(*right, false, h0, x.right, x.id);
    lemma_rebase(l1, x.id, h0, parent, id, h0, h1);
    lemma_join(l0, l1, parent, id, id + 1, h0, h1);
    lemma_add(l0 + l1, parent, id, id + 1, h1, own, parent, id, end);
}

proof fn tidy_binary_expr(e: ExprV, is_ret: bool, id: int, out: Expression, parent: u32)
    requires
        e is Binary,
        is_expr(e, is_ret, id, out),
        parent < id,
    ensures
        tidy(expr_log(e, out, parent), parent, id, id, id + expr_ids(e)),
        id <= expr_id(out) < id + expr_ids(e),
        expr_log(e, out, parent).len() > 0,
        plain_node(expr_log(e, out, parent).last().node) == NodeKind::Statement(
            Statement::Expression(out),
        ),
    decreases e, 0nat,
{
    let end = id + expr_ids(e);
    let own = NodeKind::Statement(Statement::Expression(out));
    let left = e->Binary_left;
    let right = e->Binary_right;
    let x = inner(out->Binary_0);
    let h0 = id + 1 + expr_ids(*left);
    let l0 = expr_log(*left, x.left, x.id);
    tidy_expr(*left, false, id + 1, x.left, x.id);
    lemma_rebase(l0, x.id, id + 1, parent, id, id + 1, h0);
    let h1 = h0 + expr_ids(*right);
    let l1 = expr_log(*right, x.right, x.id);
    tidy_expr(*right, false, h0, x.right, x.id);
    lemma_rebase(l1, x.id, h0, parent, id, h0, h1);
    lemma_join(l0, l1, parent, id, id + 1, h0, h1);
    lemma_add(l0 + l1, parent, id, id + 1, h1, own, parent, id, end);
}

proof fn tidy_unary_expr(e: ExprV, is_ret: bool, id: int, out: Expression, parent: u32)
    requires
        e is Unary,
        is_expr(e, is_ret, id, out),
        parent < id,
    ensures
        tidy(expr_log(e, out, parent), parent, id, id, id + expr_ids(e)),
        id <= expr_id(out) < id + expr_ids(e),
        expr_log(e, out, parent).len() > 0,
        plain_node(expr_log(e, out, parent).last().node) == NodeKind::Statement(
            Statement::Expression(out),
        ),
    decreases e, 0nat,
{
    let end = id + expr_ids(e);
    let own = NodeKind::Statement(Statement::Expression(out));
    let expr = e->Unary_expr;
    let x = inner(out->Unary_0);
    let h0 = id + 1 + expr_ids(*expr);
    let l0 = expr_log(*expr, x.expression, x.id);
    tidy_expr(*expr, false, id + 1, x.expression, x.id);
    lemma_rebase(l0, x.id, id + 1, parent, id, id + 1, h0);
    lemma_add(l0, parent, id, id + 1, h0, own, parent, id, end);
}

proof fn tidy_break_expr(e: ExprV, is_ret: bool, id: int, out: Expression, parent: u32)
    requires
        e is Break,
        is_expr(e, is_ret, id, out),
        parent < id,
    ensures
        tidy(expr_log(e, out, parent), parent, id, id, id + expr_ids(e)),
        id <= expr_id(out) < id + expr_ids(e),
        expr_log(e, out, parent).len() > 0,
        plain_node(expr_log(e, out, parent).last().node) == NodeKind::Statement(
            Statement::Expression(out),
        ),
    decreases e, 0nat,
{
    let end = id + expr_ids(e);
    let own = NodeKind::Statement(Statement::Expression(out));
    let expr = e->Break_expr;
    let x = inner(out->Break_0);
    let h0 = id + 1 + opt_expr_ids(expr);
    let l0 = opt_expr_log(expr, x.expression, x.id);
    tidy_opt_expr(expr, id + 1, x.expression, x.id);
    lemma_rebase(l0, x.id, id + 1, parent, id, id + 1, h0);
    lemma_add(l0, parent, id, id + 1, h0, own, parent, id, end);
}

proof fn tidy_call_expr(e: ExprV, is_ret: bool, id: int, out: Expression, parent: u32)
    requires
        e is Call,
        is_expr(e, is_ret, id, out),
        parent < id,
    ensures
        tidy(expr_log(e, out, parent), parent, id, id, id + expr_ids(e)),
        id <= expr_id(out) < id + expr_ids(e),
        expr_log(e, out, parent).len() > 0,
        plain_node(expr_log(e, out, parent).last().node) == NodeKind::Statement(
            Statement::Expression(out),
        ),
    decreases e, 0nat,
{
    let end = id + expr_ids(e);
    let own = NodeKind::Statement(Statement::Expression(out));
    let args = e->Call_args;
    let func = e->Call_func;
    let x = inner(out->FunctionCall_0);
    let h0 = id + 1 + exprs_ids(args);
    let l0 = exprs_log(args, x.parameters@, x.id);
    tidy_exprs(args, id + 1, x.parameters@, x.id);
    lemma_rebase(l0, x.id, id + 1, parent, id, id + 1, h0);
    let h1 = h0 + expr_ids(*func);
    let l1 = expr_log(*func, x.expression, x.id);
    tidy_expr(*func, false, h0, x.expression, x.id);
    lemma_rebase(l1, x.id, h0, parent, id, h0, h1);
    lemma_join(l0, l1, parent, id, id + 1, h0, h1);
    lemma_add(l0 + l1, parent, id, id + 1, h1, own, parent, id, end);
}

proof fn tidy_const_expr(e: ExprV, is_ret: bool, id: int, out: Expression, parent: u32)
    requires
        e is Const,
        is_expr(e, is_ret, id, out),
        parent < id,
    ensures
        tidy(expr_log(e, out, parent), parent, id, id, id + expr_ids(e)),
        id <= expr_id(out) < id + expr_ids(e),
        expr_log(e, out, parent).len() > 0,
        plain_node(expr_log(e, out, parent).last().node) == NodeKind::Statement(
            Statement::Expression(out),
        ),
    decreases e, 0nat,
{
    let end = id + expr_ids(e);
    let own = NodeKind::Statement(Statement::Expression(out));
    let block = e->Const_block;
    let x = inner(out->Const_0);
    let h0 = id + 1 + block_ids(block);
    let l0 = block_log(block, x.block, parent);
    tidy_block(block, id + 1, x.block, parent);
    lemma_rebase(l0, parent, id + 1, parent, id, id + 1, h0);
    lemma_add(l0, parent, id, id + 1, h0, own, parent, id, end);
}

proof fn tidy_continue_expr(e: ExprV, is_ret: bool, id: int, out: Expression, parent: u32)
    requires
        e is Continue,
        is_expr(e, is_ret, id, out),
        parent < id,
    ensures
        tidy(expr_log(e, out, parent), parent, id, id, id + expr_ids(e)),
        id <= expr_id(out) < id + expr_ids(e),
        expr_log(e, out, parent).len() > 0,
        plain_node(expr_log(e, out, parent).last().node) == NodeKind::Statement(
            Statement::Expression(out),
        ),
    decreases e, 0nat,
{
    let end = id + expr_ids(e);
    let own = NodeKind::Statement(Statement::Expression(out));
    lemma_empty(parent, id, id + 1, id + 1);
    lemma_add(Seq::empty(), parent, id, id + 1, id + 1, own, parent, id, end);
    assert(expr_log(e, out, parent) =~= Seq::empty() + stored(own, parent));
}

proof fn tidy_for_loop_expr(e: ExprV, is_ret: bool, id: int, out: Expression, parent: u32)
    requires
        e is ForLoop,
        is_expr(e, is_ret, id, out),
        parent < id,
    ensures
        tidy(expr_log(e, out, parent), parent, id, id, id + expr_ids(e)),
        id <= expr_id(out) < id + expr_ids(e),
        expr_log(e, out, parent).len() > 0,
        plain_node(expr_log(e, out, parent).last().node) == NodeKind::Statement(
            Statement::Expression(out),
        ),
    decreases e, 0nat,
{
    let end = id + expr_ids(e);
    let own = NodeKind::Statement(Statement::Expression(out));
    let body = e->ForLoop_body;
    let expr = e->ForLoop_expr;
    let x = inner(out->ForLoop_0);
    let h0 = id + 1 + block_ids(body);
    let l0 = block_log(body, x.block, parent);
    tidy_block(body, id + 1, x.block, parent);
    lemma_rebase(l0, parent, id + 1, parent, id, id + 1, h0);
    let h1 = h0 + expr_ids(*expr);
    let l1 = expr_log(*expr, x.expression, x.id);
    tidy_expr(*expr, false, h0, x.expression, x.id);
    lemma_rebase(l1, x.id, h0, parent, id, h0, h1);
    lemma_join(l0, l1, parent, id, id + 1, h0, h1);
    lemma_add(l0 + l1, parent, id, id + 1, h1, own, parent, id, end);
}

proof fn tidy_field_expr(e: ExprV, is_ret: bool, id: int, out: Expression, parent: u32)
    requires
        e is Field,
        is_expr(e, is_ret, id, out),
        parent < id,
    ensures
        tidy(expr_log(e, out, parent), parent, id, id, id + expr_ids(e)),
        id <= expr_id(out) < id + expr_ids(e),
        expr_log(e, out, parent).len() > 0,
        plain_node(expr_log(e, out, parent).last().node) == NodeKind::Statement(
            Statement::Expression(out),
        ),
    decreases e, 0nat,
{
    let end = id + expr_ids(e);
    let own = NodeKind::Statement(Statement::Expression(out));
    let base = e->Field_base;
    let x = inner(out->MemberAccess_0);
    let h0 = id + 1 + expr_ids(*base);
    let l0 = expr_log(*base, x.base, x.id);
    tidy_expr(*base, false, id + 1, x.base, x.id);
    lemma_rebase(l0, x.id, id + 1, parent, id, id + 1, h0);
    lemma_add(l0, parent, id, id + 1, h0, own, parent, id, end);
}

proof fn tidy_if_expr(e: ExprV, is_ret: bool, id: int, out: Expression, parent: u32)
    requires
        e is If,
        is_expr(e, is_ret, id, out),
        parent < id,
    ensures
        tidy(expr_log(e, out, parent), parent, id, id, id + expr_ids(e)),
        id <= expr_id(out) < id + expr_ids(e),
        expr_log(e, out, parent).len() > 0,
        plain_node(expr_log(e, out, parent).last().node) == NodeKind::Statement(
            Statement::Expression(out),
        ),
    decreases e, 0nat,
{
    let end = id + expr_ids(e);
    let own = NodeKind::Statement(Statement::Expression(out));
    let then_branch = e->If_then_branch;
    let cond = e->If_cond;
    let else_branch = e->If_else_branch;
    let x = inner(out->If_0);
    let h0 = id + 1 + block_ids(then_branch);
    let l0 = block_log(then_branch, x.then_branch, parent);
    tidy_block(then_branch, id + 1, x.then_branch, parent);
    lemma_rebase(l0, parent, id + 1, parent, id, id + 1, h0);
    let h1 = h0 + expr_ids(*cond);
    let l1 = expr_log(*cond, x.condition, x.id);
    tidy_expr(*cond, false, h0, x.condition, x.id);
    lemma_rebase(l1, x.id, h0, parent, id, h0, h1);
    lemma_join(l0, l1, parent, id, id + 1, h0, h1);
    let h2 = h1 + opt_expr_ids(else_branch);
    let l2 = opt_expr_log(else_branch, x.else_branch, x.id);
    tidy_opt_expr(else_branch, h1, x.else_branch, x.id);
    lemma_rebase(l2, x.id, h1, parent, id, h1, h2);
    lemma_join(l0 + l1, l2, parent, id, id + 1, h1, h2);
    lemma_add(l0 + l1 + l2, parent, id, id + 1, h2, own, parent, id, end);
}

proof fn tidy_index_expr(e: ExprV, is_ret: bool, id: int, out: Expression, parent: u32)
    requires
        e is Index,
        is_expr(e, is_ret, id, out),
        parent < id,
    ensures
        tidy(expr_log(e, out, parent), parent, id, id, id + expr_ids(e)),
        id <= expr_id(out) < id + expr_ids(e),
        expr_log(e, out, parent).len() > 0,
        plain_node(expr_log(e, out, parent).last().node) == NodeKind::Statement(
            Statement::Expression(out),
        ),
    decreases e, 0nat,
{
    let end = id + expr_ids(e);
    let own = NodeKind::Statement(Statement::Expression(out));
    let expr = e->Index_expr;
    let index = e->Index_index;
    let x = inner(out->IndexAccess_0);
    let h0 = id + 1 + expr_ids(*expr);
    let l0 = expr_log(*expr, x.base, x.id);
    tidy_expr(*expr, false, id + 1, x.base, x.id);
    lemma_rebase(l0, x.id, id + 1, parent, id, id + 1, h0);
    let h1 = h0 + expr_ids(*index);
    let l1 = expr_log(*index, x.index, x.id);
    tidy_expr(*index, false, h0, x.index, x.id);
    lemma_rebase(l1, x.id, h0, parent, id, h0, h1);
    lemma_join(l0, l1, parent, id, id + 1, h0, h1);
    lemma_add(l0 + l1, parent, id, id + 1, h1, own, parent, id, end);
}

proof fn tidy_infer_expr(e: ExprV, is_ret: bool, id: int, out: Expression, parent: u32)
    requires
        e is Infer,
        is_expr(e, is_ret, id, out),
        parent < id,
    ensures
        tidy(expr_log(e, out, parent), parent, id, id, id + expr_ids(e)),
        id <= expr_id(out) < id + expr_ids(e),
        expr_log(e, out, parent).len() > 0,
        plain_node(expr_log(e, out, parent).last().node) == NodeKind::Statement(
            Statement::Expression(out),
        ),
    decreases e, 0nat,
{
    let end = id + expr_ids(e);
    let own = NodeKind::Statement(Statement::Expression(out));
    lemma_empty(parent, id, id + 1, id + 1);
    lemma_add(Seq::empty(), parent, id, id + 1, id + 1, own, parent, id, end);
    assert(expr_log(e, out, parent) =~= Seq::empty() + stored(own, parent));
}

proof fn tidy_lit_expr(e: ExprV, is_ret: bool, id: int, out: Expression, parent: u32)
    requires
        e is Lit,
        is_expr(e, is_ret, id, out),
        parent < id,
    ensures
        tidy(expr_log(e, out, parent), parent, id, id, id + expr_ids(e)),
        id <= expr_id(out) < id + expr_ids(e),
        expr_log(e, out, parent).len() > 0,
        plain_node(expr_log(e, out, parent).last().node) == NodeKind::Statement(
            Statement::Expression(out),
        ),
    decreases e, 0nat,
{
    let end = id + expr_ids(e);
    let own = NodeKind::Statement(Statement::Expression(out));
    lemma_empty(parent, id, id + 1, id + 1);
    lemma_add(Seq::empty(), parent, id, id + 1, id + 1, own, parent, id, end);
    assert(expr_log(e, out, parent) =~= Seq::empty() + stored(own, parent));
}

proof fn tidy_loop_expr(e: ExprV, is_ret: bool, id: int, out: Expression, parent: u32)
    requires
        e is Loop,
        is_expr(e, is_ret, id, out),
        parent < id,
    ensures
        tidy(expr_log(e, out, parent), parent, id, id, id + expr_ids(e)),
        id <= expr_id(out) < id + expr_ids(e),
        expr_log(e, out, parent).len() > 0,
        plain_node(expr_log(e, out, parent).last().node) == NodeKind::Statement(
            Statement::Expression(out),
        ),
    decreases e, 0nat,
{
    let end = id + expr_ids(e);
    let own = NodeKind::Statement(Statement::Expression(out));
    let body = e->Loop_body;
    let x = inner(out->Loop_0);
    let h0 = id + 1 + block_ids(body);
    let l0 = block_log(body, x.block, parent);
    tidy_block(body, id + 1, x.block, parent);
    lemma_rebase(l0, parent, id + 1, parent, id, id + 1, h0);
    lemma_add(l0, parent, id, id + 1, h0, own, parent, id, end);
}

proof fn tidy_macro_expr(e: ExprV, is_ret: bool, id: int, out: Expression, parent: u32)
    requires
        e is Macro,
        is_expr(e, is_ret, id, out),
        parent < id,
    ensures
        tidy(expr_log(e, out, parent), parent, id, id, id + expr_ids(e)),
        id <= expr_id(out) < id + expr_ids(e),
        expr_log(e, out, parent).len() > 0,
        plain_node(expr_log(e, out, parent).last().node) == NodeKind::Statement(
            Statement::Expression(out),
        ),
    decreases e, 0nat,
{
    let end = id + expr_ids(e);
    let own = NodeKind::Statement(Statement::Expression(out));
    lemma_empty(parent, id, id + 1, id + 1);
    lemma_add(Seq::empty(), parent, id, id + 1, id + 1, own, parent, id, end);
    assert(expr_log(e, out, parent) =~= Seq::empty() + stored(own, parent));
}

proof fn tidy_match_expr(e: ExprV, is_ret: bool, id: int, out: Expression, parent: u32)
    requires
        e is Match,
        is_expr(e, is_ret, id, out),
        parent < id,
    ensures
        tidy(expr_log(e, out, parent), parent, id, id, id + expr_ids(e)),
        id <= expr_id(out) < id + expr_ids(e),
        expr_log(e, out, parent).len() > 0,
        plain_node(expr_log(e, out, parent).last().node) == NodeKind::Statement(
            Statement::Expression(out),
        ),
    decreases e, 0nat,
{
    let end = id + expr_ids(e);
    let own = NodeKind::Statement(Statement::Expression(out));
    let expr = e->Match_expr;
    let arms = e->Match_arms;
    let x = inner(out->Match_0);
    let h0 = id + 1 + expr_ids(*expr);
    let l0 = expr_log(*expr, x.expression, x.id);
    tidy_expr(*expr, false, id + 1, x.expression, x.id);
    lemma_rebase(l0, x.id, id + 1, parent, id, id + 1, h0);
    let h1 = h0 + arms_ids(arms);
    let l1 = arms_log(arms, x.arms@, x.id);
    tidy_arms(arms, h0, x.arms@, x.id);
    lemma_rebase(l1, x.id, h0, parent, id, h0, h1);
    lemma_join(l0, l1, parent, id, id + 1, h0, h1);
    lemma_add(l0 + l1, parent, id, id + 1, h1, own, parent, id, end);
}

proof fn tidy_method_call_expr(e: ExprV, is_ret: bool, id: int, out: Expression, parent: u32)
    requires
        e is MethodCall,
        is_expr(e, is_ret, id, out),
        parent < id,
    ensures
        tidy(expr_log(e, out, parent), parent, id, id, id + expr_ids(e)),
        id <= expr_id(out) < id + expr_ids(e),
        expr_log(e, out, parent).len() > 0,
        plain_node(expr_log(e, out, parent).last().node) == NodeKind::Statement(
            Statement::Expression(out),
        ),
    decreases e, 0nat,
{
    let end = id + expr_ids(e);
    let own = NodeKind::Statement(Statement::Expression(out));
    let receiver = e->MethodCall_receiver;
    let args = e->MethodCall_args;
    let x = inner(out->MethodCall_0);
    let h0 = id + 1 + expr_ids(*receiver);
    let l0 = expr_log(*receiver, x.base, x.id);
    tidy_expr(*receiver, false, id + 1, x.base, x.id);
    lemma_rebase(l0, x.id, id + 1, parent, id, id + 1, h0);
    let h1 = h0 + exprs_ids(args);
    let l1 = exprs_log(args, x.parameters@, x.id);
    tidy_exprs(args, h0, x.parameters@, x.id);
    lemma_rebase(l1, x.id, h0, parent, id, h0, h1);
    lemma_join(l0, l1, parent, id, id + 1, h0, h1);
    lemma_add(l0 + l1, parent, id, id + 1, h1, own, parent, id, end);
}

proof fn tidy_paren_expr(e: ExprV, is_ret: bool, id: int, out: Expression, parent: u32)
    requires
        e is Paren,
        is_expr(e, is_ret, id, out),
        parent < id,
    ensures
        tidy(expr_log(e, out, parent), parent, id, id, id + expr_ids(e)),
        id <= expr_id(out) < id + expr_ids(e),
        expr_log(e, out, parent).len() > 0,
        plain_node(expr_log(e, out, parent).last().node) == NodeKind::Statement(
            Statement::Expression(out),
        ),
    decreases e, 0nat,
{
    let end = id + expr_ids(e);
    let own = NodeKind::Statement(Statement::Expression(out));
    let expr = e->Paren_expr;
    let x = inner(out->Parenthesized_0);
    let h0 = id + 1 + expr_ids(*expr);
    let l0 = expr_log(*expr, x.expression, x.id);
    tidy_expr(*expr, false, id + 1, x.expression, x.id);
    lemma_rebase(l0, x.id, id + 1, parent, id, id + 1, h0);
    lemma_add(l0, parent, id, id + 1, h0, own, parent, id, end);
}

proof fn tidy_range_expr(e: ExprV, is_ret: bool, id: int, out: Expression, parent: u32)
    requires
        e is Range,
        is_expr(e, is_ret, id, out),
        parent < id,
    ensures
        tidy(expr_log(e, out, parent), parent, id, id, id + expr_ids(e)),
        id <= expr_id(out) < id + expr_ids(e),
        expr_log(e, out, parent).len() > 0,
        plain_node(expr_log(e, out, parent).last().node) == NodeKind::Statement(
            Statement::Expression(out),
        ),
    decreases e, 0nat,
{
    let end = id + expr_ids(e);
    let own = NodeKind::Statement(Statement::Expression(out));
    let start = e->Range_start;
    let upper = e->Range_end;
    let x = inner(out->Range_0);
    let h0 = id + 1 + opt_expr_ids(start);
    let l0 = opt_expr_log(start, x.start, x.id);
    tidy_opt_expr(start, id + 1, x.start, x.id);
    lemma_rebase(l0, x.id, id + 1, parent, id, id + 1, h0);
    let h1 = h0 + opt_expr_ids(upper);
    let l1 = opt_expr_log(upper, x.end, x.id);
    tidy_opt_expr(upper, h0, x.end, x.id);
    lemma_rebase(l1, x.id, h0, parent, id, h0, h1);
    lemma_join(l0, l1, parent, id, id + 1, h0, h1);
    lemma_add(l0 + l1, parent, id, id + 1, h1, own, parent, id, end);
}

proof fn tidy_raw_addr_expr(e: ExprV, is_ret: bool, id: int, out: Expression, parent: u32)
    requires
        e is RawAddr,
        is_expr(e, is_ret, id, out),
        parent < id,
    ensures
        tidy(expr_log(e, out, parent), parent, id, id, id + expr_ids(e)),
        id <= expr_id(out) < id + expr_ids(e),
        expr_log(e, out, parent).len() > 0,
        plain_node(expr_log(e, out, parent).last().node) == NodeKind::Statement(
            Statement::Expression(out),
        ),
    decreases e, 0nat,
{
    let end = id + expr_ids(e);
    let own = NodeKind::Statement(Statement::Expression(out));
    let expr = e->RawAddr_expr;
    let x = inner(out->Addr_0);
    let h0 = id + 1 + expr_ids(*expr);
    let l0 = expr_log(*expr, x.expression, x.id);
    tidy_expr(*expr, false, id + 1, x.expression, x.id);
    lemma_rebase(l0, x.id, id + 1, parent, id, id + 1, h0);
    lemma_add(l0, parent, id, id + 1, h0, own, parent, id, end);
}

proof fn tidy_reference_expr(e: ExprV, is_ret: bool, id: int, out: Expression, parent: u32)
    requires
        e is Reference,
        is_expr(e, is_ret, id, out),
        parent < id,
    ensures
        tidy(expr_log(e, out, parent), parent, id, id, id + expr_ids(e)),
        id <= expr_id(out) < id + expr_ids(e),
        expr_log(e, out, parent).len() > 0,
        plain_node(expr_log(e, out, parent).last().node) == NodeKind::Statement(
            Statement::Expression(out),
        ),
    decreases e, 0nat,
{
    let end = id + expr_ids(e);
    let own = NodeKind::Statement(Statement::Expression(out));
    let expr = e->Reference_expr;
    let x = inner(out->Reference_0);
    let h0 = id + 1 + expr_ids(*expr);
    let l0 = expr_log(*expr, x.inner, x.id);
    tidy_expr(*expr, false, id + 1, x.inner, x.id);
    lemma_rebase(l0, x.id, id + 1, parent, id, id + 1, h0);
    lemma_add(l0, parent, id, id + 1, h0, own, parent, id, end);
}

proof fn tidy_repeat_expr(e: ExprV, is_ret: bool, id: int, out: Expression, parent: u32)
    requires
        e is Repeat,
        is_expr(e, is_ret, id, out),
        parent < id,
    ensures
        tidy(expr_log(e, out, parent), parent, id, id, id + expr_ids(e)),
        id <= expr_id(out) < id + expr_ids(e),
        expr_log(e, out, parent).len() > 0,
        plain_node(expr_log(e, out, parent).last().node) == NodeKind::Statement(
            Statement::Expression(out),
        ),
    decreases e, 0nat,
{
    let end = id + expr_ids(e);
    let own = NodeKind::Statement(Statement::Expression(out));
    let expr = e->Repeat_expr;
    let len = e->Repeat_len;
    let x = inner(out->Repeat_0);
    let h0 = id + 1 + expr_ids(*expr);
    let l0 = expr_log(*expr, x.expression, x.id);
    tidy_expr(*expr, false, id + 1, x.expression, x.id);
    lemma_rebase(l0, x.id, id + 1, parent, id, id + 1, h0);
    let h1 = h0 + expr_ids(*len);
    let l1 = expr_log(*len, x.count, x.id);
    tidy_expr(*len, false, h0, x.count, x.id);
    lemma_rebase(l1, x.id, h0, parent, id, h0, h1);
    lemma_join(l0, l1, parent, id, id + 1, h0, h1);
    lemma_add(l0 + l1, parent, id, id + 1, h1, own, parent, id, end);
}

proof fn tidy_return_expr(e: ExprV, is_ret: bool, id: int, out: Expression, parent: u32)
    requires
        e is Return,
        is_expr(e, is_ret, id, out),
        parent < id,
    ensures
        tidy(expr_log(e, out, parent), parent, id, id, id + expr_ids(e)),
        id <= expr_id(out) < id + expr_ids(e),
        expr_log(e, out, parent).len() > 0,
        plain_node(expr_log(e, out, parent).last().node) == NodeKind::Statement(
            Statement::Expression(out),
        ),
    decreases e, 0nat,
{
    let end = id + expr_ids(e);
    let own = NodeKind::Statement(Statement::Expression(out));
    let expr = e->Return_expr;
    let x = inner(out->Return_0);
    let h0 = id + 1 + opt_expr_ids(expr);
    let l0 = opt_expr_log(expr, x.expression, x.id);
    tidy_opt_expr(expr, id + 1, x.expression, x.id);
    lemma_rebase(l0, x.id, id + 1, parent, id, id + 1, h0);
    lemma_add(l0, parent, id, id + 1, h0, own, parent, id, end);
}

proof fn tidy_try_expr(e: ExprV, is_ret: bool, id: int, out: Expression, parent: u32)
    requires
        e is Try,
        is_expr(e, is_ret, id, out),
        parent < id,
    ensures
        tidy(expr_log(e, out, parent), parent, id, id, id + expr_ids(e)),
        id <= expr_id(out) < id + expr_ids(e),
        expr_log(e, out, parent).len() > 0,
        plain_node(expr_log(e, out, parent).last().node) == NodeKind::Statement(
            Statement::Expression(out),
        ),
    decreases e, 0nat,
{
    let end = id + expr_ids(e);
    let own = NodeKind::Statement(Statement::Expression(out));
    let expr = e->Try_expr;
    let x = inner(out->Try_0);
    let h0 = id + 1 + expr_ids(*expr);
    let l0 = expr_log(*expr, x.expression, x.id);
    tidy_expr(*expr, false, id + 1, x.expression, x.id);
    lemma_rebase(l0, x.id, id + 1, parent, id, id + 1, h0);
    lemma_add(l0, parent, id, id + 1, h0, own, parent, id, end);
}

proof fn tidy_try_block_expr(e: ExprV, is_ret: bool, id: int, out: Expression, parent: u32)
    requires
        e is TryBlock,
        is_expr(e, is_ret, id, out),
        parent < id,
    ensures
        tidy(expr_log(e, out, parent), parent, id, id, id + expr_ids(e)),
        id <= expr_id(out) < id + expr_ids(e),
        expr_log(e, out, parent).len() > 0,
        plain_node(expr_log(e, out, parent).last().node) == NodeKind::Statement(
            Statement::Expression(out),
        ),
    decreases e, 0nat,
{
    let end = id + expr_ids(e);
    let own = NodeKind::Statement(Statement::Expression(out));
    let block = e->TryBlock_block;
    let x = inner(out->EBlock_0);
    let h0 = id + 1 + block_ids(block);
    let l0 = block_log(block, x.block, parent);
    tidy_block(block, id + 1, x.block, parent);
    lemma_rebase(l0, parent, id + 1, parent, id, id + 1, h0);
    lemma_add(l0, parent, id, id + 1, h0, own, parent, id, end);
}

proof fn tidy_tuple_expr(e: ExprV, is_ret: bool, id: int, out: Expression, parent: u32)
    requires
        e is Tuple,
        is_expr(e, is_ret, id, out),
        parent < id,
    ensures
        tidy(expr_log(e, out, parent), parent, id, id, id + expr_ids(e)),
        id <= expr_id(out) < id + expr_ids(e),
        expr_log(e, out, parent).len() > 0,
        plain_node(expr_log(e, out, parent).last().node) == NodeKind::Statement(
            Statement::Expression(out),
        ),
    decreases e, 0nat,
{
    let end = id + expr_ids(e);
    let own = NodeKind::Statement(Statement::Expression(out));
    let elems = e->Tuple_elems;
    let x = inner(out->Tuple_0);
    let h0 = id + 1 + exprs_ids(elems);
    let l0 = exprs_log(elems, x.elements@, x.id);
    tidy_exprs(elems, id + 1, x.elements@, x.id);
    lemma_rebase(l0, x.id, id + 1, parent, id, id + 1, h0);
    lemma_add(l0, parent, id, id + 1, h0, own, parent, id, end);
}

proof fn tidy_unsafe_expr(e: ExprV, is_ret: bool, id: int, out: Expression, parent: u32)
    requires
        e is Unsafe,
        is_expr(e, is_ret, id, out),
        parent < id,
    ensures
        tidy(expr_log(e, out, parent), parent, id, id, id + expr_ids(e)),
        id <= expr_id(out) < id + expr_ids(e),
        expr_log(e, out, parent).len() > 0,
        plain_node(expr_log(e, out, parent).last().node) == NodeKind::Statement(
            Statement::Expression(out),
        ),
    decreases e, 0nat,
{
    let end = id + expr_ids(e);
    let own = NodeKind::Statement(Statement::Expression(out));
    let block = e->Unsafe_block;
    let x = inner(out->Unsafe_0);
    let h0 = id + 1 + block_ids(block);
    let l0 = block_log(block, x.block, parent);
    tidy_block(block, id + 1, x.block, parent);
    lemma_rebase(l0, parent, id + 1, parent, id, id + 1, h0);
    lemma_add(l0, parent, id, id + 1, h0, own, parent, id, end);
}

proof fn tidy_while_expr(e: ExprV, is_ret: bool, id: int, out: Expression, parent: u32)
    requires
        e is While,
        is_expr(e, is_ret, id, out),
        parent < id,
    ensures
        tidy(expr_log(e, out, parent), parent, id, id, id + expr_ids(e)),
        id <= expr_id(out) < id + expr_ids(e),
        expr_log(e, out, parent).len() > 0,
        plain_node(expr_log(e, out, parent).last().node) == NodeKind::Statement(
            Statement::Expression(out),
        ),
    decreases e, 0nat,
{
    let end = id + expr_ids(e);
    let own = NodeKind::Statement(Statement::Expression(out));
    let body = e->While_body;
    let cond = e->While_cond;
    let x = inner(out->While_0);
    let h0 = id + 1 + block_ids(body);
    let l0 = block_log(body, x.block, parent);
    tidy_block(body, id + 1, x.block, parent);
    lemma_rebase(l0, parent, id + 1, parent, id, id + 1, h0);
    let h1 = h0 + expr_ids(*cond);
    let l1 = expr_log(*cond, x.condition, x.id);
    tidy_expr(*cond, false, h0, x.condition, x.id);
    lemma_rebase(l1, x.id, h0, parent, id, h0, h1);
    lemma_join(l0, l1, parent, id, id + 1, h0, h1);
    lemma_add(l0 + l1, parent, id, id + 1, h1, own, parent, id, end);
}

proof fn tidy_block_expr(e: ExprV, is_ret: bool, id: int, out: Expression, parent: u32)
    requires
        e is Block,
        is_expr(e, is_ret, id, out),
        parent < id,
    ensures
        tidy(expr_log(e, out, parent), parent, id, id, id + expr_ids(e)),
        id <= expr_id(out) < id + expr_ids(e),
        expr_log(e, out, parent).len() > 0,
        plain_node(expr_log(e, out, parent).last().node) == NodeKind::Statement(
            Statement::Expression(out),
        ),
    decreases e, 0nat,
{
    let end = id + expr_ids(e);
    let own = NodeKind::Statement(Statement::Expression(out));
    let block = e->Block_block;
    let x = inner(out->EBlock_0);
    let below = block_log(block, x.block, x.id);
    let again = NodeKind::Statement(Statement::Block(x.block));
    tidy_block(block, id + 1, x.block, x.id);
    lemma_rebase(below, x.id, id + 1, parent, id, id + 1, end);
    lemma_again(below, parent, id, id + 1, end, below.len() - 1, again, parent);
    lemma_add(
        below + stored(again, parent),
        parent,
        id,
        id + 1,
        end,
        own,
        parent,
        id,
        end,
    );
}

proof fn tidy_cast_expr(e: ExprV, is_ret: bool, id: int, out: Expression, parent: u32)
    requires
        e is Cast,
        is_expr(e, is_ret, id, out),
        parent < id,
    ensures
        tidy(expr_log(e, out, parent), parent, id, id, id + expr_ids(e)),
        id <= expr_id(out) < id + expr_ids(e),
        expr_log(e, out, parent).len() > 0,
        plain_node(expr_log(e, out, parent).last().node) == NodeKind::Statement(
            Statement::Expression(out),
        ),
    decreases e, 0nat,
{
    let end = id + expr_ids(e);
    let own = NodeKind::Statement(Statement::Expression(out));
    let expr = e->Cast_expr;
    let x = inner(out->Cast_0);
    let base = expr_log(*expr, x.base, x.id);
    let mid = id + 1 + expr_ids(*expr);
    let target = NodeKind::Type(x.target_type);
    tidy_expr(*expr, false, id + 1, x.base, x.id);
    lemma_rebase(base, x.id, id + 1, parent, id, id + 1, mid);
    lemma_add(base, parent, id, id + 1, mid, target, x.id, id + 1, end);
    lemma_add(
        base + stored(target, x.id),
        parent,
        id,
        id + 1,
        end,
        own,
        parent,
        id,
        end,
    );
}

proof fn tidy_closure_expr(e: ExprV, is_ret: bool, id: int, out: Expression, parent: u32)
    requires
        e is Closure,
        is_expr(e, is_ret, id, out),
        parent < id,
    ensures
        tidy(expr_log(e, out, parent), parent, id, id, id + expr_ids(e)),
        id <= expr_id(out) < id + expr_ids(e),
        expr_log(e, out, parent).len() > 0,
        plain_node(expr_log(e, out, parent).last().node) == NodeKind::Statement(
            Statement::Expression(out),
        ),
    decreases e, 0nat,
{
    let end = id + expr_ids(e);
    let own = NodeKind::Statement(Statement::Expression(out));
    let body = e->Closure_body;
    let capture = e->Closure_capture;
    let x = inner(out->Closure_0);
    let below = expr_log(*body, x.body, x.id);
    let mid = id + 1 + expr_ids(*body);
    let taken = captures_log(x.captures@, x.id);
    let last = mid + capture_ids(capture);
    let target = NodeKind::Type(x.returns);
    let again = NodeKind::Statement(Statement::Expression(x.body));
    tidy_expr(*body, false, id + 1, x.body, x.id);
    lemma_rebase(below, x.id, id + 1, parent, id, id + 1, mid);
    tidy_captures(capture, mid, x.captures@, x.id);
    lemma_rebase(taken, x.id, mid, parent, id, mid, last);
    lemma_join(below, taken, parent, id, id + 1, mid, last);
    lemma_add(below + taken, parent, id, id + 1, last, target, x.id, id + 1, end);
    let with_type = below + taken + stored(target, x.id);
    assert(with_type[below.len() - 1] == below.last());
    lemma_again(with_type, parent, id, id + 1, end, below.len() - 1, again, x.id);
    lemma_add(
        with_type + stored(again, x.id),
        parent,
        id,
        id + 1,
        end,
        own,
        parent,
        id,
        end,
    );
}

proof fn tidy_let_expr(e: ExprV, is_ret: bool, id: int, out: Expression, parent: u32)
    requires
        e is Let,
        is_expr(e, is_ret, id, out),
        parent < id,
    ensures
        tidy(expr_log(e, out, parent), parent, id, id, id + expr_ids(e)),
        id <= expr_id(out) < id + expr_ids(e),
        expr_log(e, out, parent).len() > 0,
        plain_node(expr_log(e, out, parent).last().node) == NodeKind::Statement(
            Statement::Expression(out),
        ),
    decreases e, 0nat,
{
    let end = id + expr_ids(e);
    let own = NodeKind::Statement(Statement::Expression(out));
    let expr = e->Let_expr;
    let x = inner(out->LetGuard_0);
    let guard = NodeKind::Pattern(x.guard);
    let value = expr_log(*expr, x.value, x.id);
    lemma_empty(parent, id, id + 1, id + 1);
    lemma_add(Seq::empty(), parent, id, id + 1, id + 1, guard, x.id, id + 1, id + 2);
    assert(Seq::empty() + stored(guard, x.id) =~= stored(guard, x.id));
    tidy_expr(*expr, false, id + 2, x.value, x.id);
    lemma_rebase(value, x.id, id + 2, parent, id, id + 2, end);
    lemma_join(stored(guard, x.id), value, parent, id, id + 1, id + 2, end);
    lemma_add(
        stored(guard, x.id) + value,
        parent,
        id,
        id + 1,
        end,
        own,
        parent,
        id,
        end,
    );
}

proof fn tidy_path_expr(e: ExprV, is_ret: bool, id: int, out: Expression, parent: u32)
    requires
        e is Path,
        is_expr(e, is_ret, id, out),
        parent < id,
    ensures
        tidy(expr_log(e, out, parent), parent, id, id, id + expr_ids(e)),
        id <= expr_id(out) < id + expr_ids(e),
        expr_log(e, out, parent).len() > 0,
        plain_node(expr_log(e, out, parent).last().node) == NodeKind::Statement(
            Statement::Expression(out),
        ),
    decreases e, 0nat,
{
    let end = id + expr_ids(e);
    let plain = NodeKind::Expression(out);
    lemma_empty(parent, id, id, id);
    lemma_add(Seq::empty(), parent, id, id, id, plain, parent, id, end);
    assert(expr_log(e, out, parent) =~= Seq::empty() + stored(plain, parent));
}

proof fn tidy_struct_expr(e: ExprV, is_ret: bool, id: int, out: Expression, parent: u32)
    requires
        e is Struct,
        is_expr(e, is_ret, id, out),
        parent < id,
    ensures
        tidy(expr_log(e, out, parent), parent, id, id, id + expr_ids(e)),
        id <= expr_id(out) < id + expr_ids(e),
        expr_log(e, out, parent).len() > 0,
        plain_node(expr_log(e, out, parent).last().node) == NodeKind::Statement(
            Statement::Expression(out),
        ),
    decreases e, 0nat,
{
    let end = id + expr_ids(e);
    let own = NodeKind::Statement(Statement::Expression(out));
    let fields = e->Struct_fields;
    let rest = e->Struct_rest;
    let x = inner(out->EStruct_0);
    let first = field_values_log(fields, x.fields@, parent);
    let mid = id + field_values_ids(fields);
    let second = opt_expr_log(rest, x.rest_dots, parent);
    tidy_field_values(fields, id, x.fields@, parent);
    tidy_opt_expr(rest, mid, x.rest_dots, parent);
    lemma_rebase(second, parent, mid, parent, id, mid, end - 1);
    lemma_join(first, second, parent, id, id, mid, end - 1);
    lemma_add(first + second, parent, id, id, end - 1, own, parent, id, end);
}


/// What a closure takes over.
pub proof fn tidy_captures(c: Option<CaptureV>, id: int, out: Seq<Rc<Identifier>>, parent: u32)
    requires
        is_captures(c, id, out),
        parent < id,
    ensures
        tidy(captures_log(out, parent), parent, id, id, id + capture_ids(c)),
{
    lemma_empty(parent, id, id, id);
    match c {
        Some(_) => {
            let node = NodeKind::Statement(Statement::Expression(Expression::Identifier(out[0])));
            lemma_add(Seq::empty(), parent, id, id, id, node, parent, id, id + 1);
            assert(captures_log(out, parent) =~= Seq::empty() + stored(node, parent));
        },
        None => {
            assert(captures_log(out, parent) =~= Seq::empty());
        },
    }
}

/// An expression that may be absent.
pub proof fn tidy_opt_expr(o: Option<Box<ExprV>>, id: int, out: Option<Expression>, parent: u32)
    requires
        is_opt_expr(o, id, out),
        parent < id,
    ensures
        tidy(opt_expr_log(o, out, parent), parent, id, id, id + opt_expr_ids(o)),
    decreases o, 0nat,
{
    match o {
        Some(e) => {
            tidy_expr(*e, false, id, out->0, parent);
        },
        None => {
            lemma_empty(parent, id, id, id);
        },
    }
}

/// Expressions one behind the other.
pub proof fn tidy_exprs(s: Seq<ExprV>, id: int, out: Seq<Expression>, parent: u32)
    requires
        is_exprs(s, id, out),
        parent < id,
    ensures
        tidy(exprs_log(s, out, parent), parent, id, id, id + exprs_ids(s)),
    decreases s, 0nat,
{
    if s.len() == 0 {
        lemma_empty(parent, id, id, id);
    } else {
        let at = id + exprs_ids(s.drop_last());
        let end = id + exprs_ids(s);
        let first = exprs_log(s.drop_last(), out.drop_last(), parent);
        let last = expr_log(s.last(), out.last(), parent);
        tidy_exprs(s.drop_last(), id, out.drop_last(), parent);
        tidy_expr(s.last(), false, at, out.last(), parent);
        lemma_rebase(last, parent, at, parent, id, at, end);
        lemma_join(first, last, parent, id, id, at, end);
    }
}

/// The fields of a struct expression.
pub proof fn tidy_field_values(
    s: Seq<FieldValueV>,
    id: int,
    out: Seq<(String, Expression)>,
    parent: u32,
)
    requires
        is_field_values(s, id, out),
        parent < id,
    ensures
        tidy(field_values_log(s, out, parent), parent, id, id, id + field_values_ids(s)),
    decreases s, 0nat,
{
    if s.len() == 0 {
        lemma_empty(parent, id, id, id);
    } else {
        let at = id + field_values_ids(s.drop_last());
        let end = id + field_values_ids(s);
        let first = field_values_log(s.drop_last(), out.drop_last(), parent);
        let last = expr_log(s.last().expr, out.last().1, parent);
        tidy_field_values(s.drop_last(), id, out.drop_last(), parent);
        tidy_expr(s.last().expr, false, at, out.last().1, parent);
        lemma_rebase(last, parent, at, parent, id, at, end);
        lemma_join(first, last, parent, id, id, at, end);
    }
}

/// Nodes stay as they are placed where more ids are drawn before them.
proof fn lemma_widen(log: Seq<StoredNode>, p: u32, base: int, l: int, h: int, lo: int, hi: int)
    requires
        tidy(log, p, base, l, h),
        lo <= l,
        h <= hi,
    ensures
        tidy(log, p, base, lo, hi),
{
    reveal(tidy);
}

/// The arms of a `match`.
pub proof fn tidy_arms(s: Seq<ArmV>, id: int, out: Seq<MatchArm>, parent: u32)
    requires
        is_arms(s, id, out),
        parent < id,
    ensures
        tidy(arms_log(s, out, parent), parent, id, id, id + arms_ids(s)),
    decreases s, 0nat,
{
    if s.len() == 0 {
        lemma_empty(parent, id, id, id);
    } else {
        let at = id + arms_ids(s.drop_last());
        let end = id + arms_ids(s);
        let first = arms_log(s.drop_last(), out.drop_last(), parent);
        let last = expr_log(s.last().body, out.last().expression, parent);
        tidy_arms(s.drop_last(), id, out.drop_last(), parent);
        tidy_expr(s.last().body, false, at + 1, out.last().expression, parent);
        lemma_rebase(last, parent, at + 1, parent, id, at + 1, end);
        lemma_widen(last, parent, id, at + 1, end, at, end);
        lemma_join(first, last, parent, id, id, at, end);
    }
}

/// Blocks.
pub proof fn tidy_block(b: BlockV, id: int, out: Rc<Block>, parent: u32)
    requires
        is_block(b, id, *out),
        parent < id,
    ensures
        tidy(block_log(b, out, parent), parent, id, id, id + block_ids(b)),
        out.id == id,
        block_log(b, out, parent).len() > 0,
        block_log(b, out, parent).last().node == NodeKind::Statement(Statement::Block(out)),
    decreases b, 0nat,
{
    let below = stmts_log(b.stmts, out.statements@, out.id);
    let end = id + block_ids(b);
    tidy_stmts(b.stmts, id + 1, out.statements@, out.id);
    lemma_rebase(below, out.id, id + 1, parent, id, id + 1, end);
    lemma_add(
        below,
        parent,
        id,
        id + 1,
        end,
        NodeKind::Statement(Statement::Block(out)),
        parent,
        id,
        end,
    );
}

/// The statements of a block.
pub proof fn tidy_stmts(s: Seq<StmtV>, id: int, out: Seq<Statement>, parent: u32)
    requires
        is_stmts(s, id, out),
        parent < id,
    ensures
        tidy(stmts_log(s, out, parent), parent, id, id, id + stmts_ids(s)),
    decreases s, 0nat,
{
    if s.len() == 0 {
        lemma_empty(parent, id, id, id);
    } else {
        let at = id + stmts_ids(s.drop_last());
        let end = id + stmts_ids(s);
        if is_use_stmt(s.last()) {
            tidy_stmts(s.drop_last(), id, out, parent);
        } else {
            let first = stmts_log(s.drop_last(), out.drop_last(), parent);
            let last = stmt_log(s.last(), out.last(), parent);
            tidy_stmts(s.drop_last(), id, out.drop_last(), parent);
            tidy_stmt(s.last(), at, out.last(), parent);
            lemma_rebase(last, parent, at, parent, id, at, end);
            lemma_join(first, last, parent, id, id, at, end);
        }
    }
}

/// Statements.
pub proof fn tidy_stmt(s: StmtV, id: int, out: Statement, parent: u32)
    requires
        is_stmt(s, id, out),
        parent < id,
    ensures
        tidy(stmt_log(s, out, parent), parent, id, id, id + stmt_ids(s)),
    decreases s, 0nat,
{
    let end = id + stmt_ids(s);
    let own = NodeKind::Statement(out);
    match s {
        StmtV::Expression { expr, semi } => {
            tidy_expr(expr, !semi, id, out->Expression_0, parent);
        },
        StmtV::Local { pat, init, .. } => {
            let x = inner(out->Let_0);
            lemma_empty(parent, id, id + 2, id + 2);
            match init {
                Some(i) => {
                    let v = x.initial_value->0;
                    let mid = id + 2 + expr_ids(i.expr);
                    let again = NodeKind::Statement(Statement::Expression(v));
                    let value = expr_log(i.expr, v, x.id);
                    tidy_expr(i.expr, false, id + 2, v, x.id);
                    lemma_rebase(value, x.id, id + 2, parent, id, id + 2, mid);
                    lemma_again(value, parent, id, id + 2, mid, value.len() - 1, again, x.id);
                    let first = value + stored(again, x.id);
                    match i.diverge {
                        Some(d) => {
                            let w = x.initial_value_alternative->0;
                            let other = NodeKind::Statement(Statement::Expression(w));
                            let branch = expr_log(*d, w, x.id);
                            tidy_expr(*d, false, mid, w, x.id);
                            lemma_rebase(branch, x.id, mid, parent, id, mid, end);
                            lemma_again(
                                branch,
                                parent,
                                id,
                                mid,
                                end,
                                branch.len() - 1,
                                other,
                                x.id,
                            );
                            let second = branch + stored(other, x.id);
                            lemma_join(first, second, parent, id, id + 2, mid, end);
                            lemma_add(
                                first + second,
                                parent,
                                id,
                                id + 2,
                                end,
                                own,
                                parent,
                                id,
                                end,
                            );
                        },
                        None => {
                            lemma_add(first, parent, id, id + 2, end, own, parent, id, end);
                            assert(stmt_log(s, out, parent) =~= first + stored(own, parent));
                        },
                    }
                },
                None => {
                    lemma_add(
                        Seq::empty(),
                        parent,
                        id,
                        id + 2,
                        id + 2,
                        own,
                        parent,
                        id,
                        end,
                    );
                },
            }
        },
        StmtV::Macro { .. } => {
            lemma_empty(parent, id, id, id);
            lemma_add(Seq::empty(), parent, id, id, id, own, parent, id, end);
            assert(stmt_log(s, out, parent) =~= Seq::empty() + stored(own, parent));
        },
        StmtV::Definition(item) => {
            tidy_item(item, id, out->Definition_0, parent);
        },
    }
}

/// The parameters of a function.
pub proof fn tidy_params(s: Seq<ArgV>, id: int, out: Seq<Rc<FnParameter>>, parent: u32)
    requires
        is_params(s, id, out),
        parent < id,
    ensures
        tidy(params_log(out, parent), parent, id, id, id + params_ids(s)),
    decreases s, 0nat,
{
    if s.len() == 0 {
        lemma_empty(parent, id, id, id);
        assert(params_log(out, parent) =~= Seq::empty());
    } else if is_param(s.last()) {
        let at = id + params_ids(s.drop_last());
        let first = params_log(out.drop_last(), parent);
        let node = NodeKind::Misc(Misc::FnParameter(out.last()));
        tidy_params(s.drop_last(), id, out.drop_last(), parent);
        lemma_add(first, parent, id, id, at, node, parent, id, at + 1);
        assert(params_log(out, parent) =~= first + stored(node, parent));
    } else {
        tidy_params(s.drop_last(), id, out, parent);
    }
}

/// Functions with a body.
pub proof fn tidy_fn(
    f: FnV,
    self_name: Option<Seq<char>>,
    id: int,
    out: Rc<Function>,
    parent: u32,
)
    requires
        is_fn(f, self_name, id, *out),
        parent < id,
    ensures
        tidy(fn_log(f, out, parent), parent, id, id, id + fn_ids(f)),
    decreases f, 0nat,
{
    let end = id + fn_ids(f);
    let mid = id + 1 + params_ids(f.sig.inputs);
    let first = params_log(out.parameters@, out.id);
    let body = block_log(f.block, out.body->0, out.id);
    let again = NodeKind::Statement(Statement::Block(out.body->0));
    tidy_params(f.sig.inputs, id + 1, out.parameters@, out.id);
    lemma_rebase(first, out.id, id + 1, parent, id, id + 1, mid);
    tidy_block(f.block, mid, out.body->0, out.id);
    lemma_rebase(body, out.id, mid, parent, id, mid, end);
    lemma_join(first, body, parent, id, id + 1, mid, end);
    let both = first + body;
    assert(both.last() == body.last());
    lemma_again(both, parent, id, id + 1, end, both.len() - 1, again, out.id);
    lemma_add(
        both + stored(again, out.id),
        parent,
        id,
        id + 1,
        end,
        NodeKind::Definition(Definition::Function(out)),
        parent,
        id,
        end,
    );
}

/// A node without parts.
proof fn lemma_single(node: NodeKind, parent: u32, id: int, end: int)
    requires
        node_id(node) == id,
        parent < id < end,
    ensures
        tidy(stored(node, parent), parent, id, id, end),
{
    lemma_empty(parent, id, id, id);
    lemma_add(Seq::empty(), parent, id, id, id, node, parent, id, end);
    assert(Seq::empty() + stored(node, parent) =~= stored(node, parent));
}

/// The fields of a union.
pub proof fn tidy_fields(s: Seq<FieldV>, id: int, out: Seq<Rc<Field>>, parent: u32)
    requires
        is_fields(s, id, out),
        parent < id,
    ensures
        tidy(fields_log(out, parent), parent, id, id, id + 2 * s.len()),
    decreases s.len(),
{
    if s.len() == 0 {
        lemma_empty(parent, id, id, id);
        assert(fields_log(out, parent) =~= Seq::empty());
    } else {
        let at = id + 2 * (s.len() - 1);
        let first = fields_log(out.drop_last(), parent);
        let node = NodeKind::Misc(Misc::Field(out.last()));
        assert(is_field(s.last(), at, *out[s.len() - 1]));
        assert forall|i: int| 0 <= i < s.len() - 1 implies is_field(
            s.drop_last()[i],
            id + 2 * i,
            *#[trigger] out.drop_last()[i],
        ) by {
            assert(is_field(s[i], id + 2 * i, *out[i]));
        }
        tidy_fields(s.drop_last(), id, out.drop_last(), parent);
        lemma_add(first, parent, id, id, at, node, parent, id, at + 2);
        assert(fields_log(out, parent) =~= first + stored(node, parent));
    }
}

/// Items.
pub proof fn tidy_item(i: ItemV, id: int, out: Definition, parent: u32)
    requires
        is_item(i, id, out),
        parent < id,
    ensures
        tidy(item_log(i, out, parent), parent, id, id, id + item_ids(i)),
    decreases i, 0nat,
{
    let end = id + item_ids(i);
    let own = NodeKind::Definition(out);
    match i {
        ItemV::Const(c) => {
            let x = inner(out->Const_0);
            let v = x.value->0;
            let mid = id + 1 + expr_ids(c.expr);
            let value = expr_log(c.expr, v, x.id);
            let again = NodeKind::Statement(Statement::Expression(v));
            tidy_expr(c.expr, false, id + 1, v, x.id);
            lemma_rebase(value, x.id, id + 1, parent, id, id + 1, mid);
            lemma_again(value, parent, id, id + 1, mid, value.len() - 1, again, x.id);
            lemma_add(
                value + stored(again, x.id),
                parent,
                id,
                id + 1,
                mid,
                own,
                parent,
                id,
                end,
            );
        },
        ItemV::Fn(f) => {
            tidy_fn(f, None, id, out->Function_0, parent);
        },
        ItemV::Impl { items, self_ty, .. } => {
            let x = inner(out->Implementation_0);
            let below = impl_items_log(items, parts_of(x), x.id);
            tidy_impl_items(items, no_spaces(self_ty.text), id + 2, parts_of(x), x.id);
            lemma_rebase(below, x.id, id + 2, parent, id, id + 2, end);
            lemma_add(below, parent, id, id + 2, end, own, parent, id, end);
        },
        ItemV::Macro(_) => {
            lemma_single(NodeKind::Statement(Statement::Definition(out)), parent, id, end);
        },
        ItemV::Mod { content, .. } => {
            let x = inner(out->Module_0);
            match content {
                Some(items) => {
                    let mid = id + 1 + definitions_ids(items);
                    let first = definitions_log(items, x.definitions->0@, x.id);
                    let second = imports_log(x.imports->0@, x.id);
                    tidy_definitions(items, id + 1, x.definitions->0@, x.id);
                    lemma_rebase(first, x.id, id + 1, parent, id, id + 1, mid);
                    tidy_imports(items, mid, x.imports->0@, x.id);
                    lemma_rebase(second, x.id, mid, parent, id, mid, end);
                    lemma_join(first, second, parent, id, id + 1, mid, end);
                    lemma_add(first + second, parent, id, id + 1, end, own, parent, id, end);
                },
                None => {
                    lemma_single(own, parent, id, end);
                    assert(item_log(i, out, parent) =~= stored(own, parent));
                },
            }
        },
        ItemV::Static { expr, .. } => {
            let x = inner(out->Static_0);
            let value = expr_log(expr, x.value, x.id);
            tidy_expr(expr, false, id + 2, x.value, x.id);
            lemma_rebase(value, x.id, id + 2, parent, id, id + 2, end);
            lemma_add(value, parent, id, id + 2, end, own, parent, id, end);
        },
        ItemV::Trait { items, vis, .. } => {
            let x = inner(out->Trait_0);
            let below = trait_items_log(items, x.items@, x.id);
            tidy_trait_items(items, visibility_of(vis), id + 1, x.items@, x.id);
            lemma_rebase(below, x.id, id + 1, parent, id, id + 1, end);
            lemma_add(below, parent, id, id + 1, end, own, parent, id, end);
        },
        ItemV::Union { fields, .. } => {
            let x = inner(out->Union_0);
            let below = fields_log(x.fields@, x.id);
            tidy_fields(fields, id + 1, x.fields@, x.id);
            lemma_rebase(below, x.id, id + 1, parent, id, id + 1, end);
            lemma_add(below, parent, id, id + 1, end, own, parent, id, end);
        },
        _ => {
            lemma_single(own, parent, id, end);
        },
    }
}

/// The definitions of a module.
pub proof fn tidy_definitions(s: Seq<ItemV>, id: int, out: Seq<Definition>, parent: u32)
    requires
        is_definitions(s, id, out),
        parent < id,
    ensures
        tidy(definitions_log(s, out, parent), parent, id, id, id + definitions_ids(s)),
    decreases s, 0nat,
{
    if s.len() == 0 {
        lemma_empty(parent, id, id, id);
    } else {
        let at = id + definitions_ids(s.drop_last());
        let end = id + definitions_ids(s);
        if is_use_item(s.last()) {
            tidy_definitions(s.drop_last(), id, out, parent);
        } else {
            let first = definitions_log(s.drop_last(), out.drop_last(), parent);
            let last = item_log(s.last(), out.last(), parent);
            tidy_definitions(s.drop_last(), id, out.drop_last(), parent);
            tidy_item(s.last(), at, out.last(), parent);
            lemma_rebase(last, parent, at, parent, id, at, end);
            lemma_join(first, last, parent, id, id, at, end);
        }
    }
}

/// The imports of a module.
pub proof fn tidy_imports(s: Seq<ItemV>, id: int, out: Seq<Rc<Use>>, parent: u32)
    requires
        is_imports(s, id, out),
        parent < id,
    ensures
        tidy(imports_log(out, parent), parent, id, id, id + imports_ids(s)),
    decreases s.len(),
{
    if s.len() == 0 {
        lemma_empty(parent, id, id, id);
        assert(imports_log(out, parent) =~= Seq::empty());
    } else if is_use_item(s.last()) {
        let at = id + imports_ids(s.drop_last());
        let first = imports_log(out.drop_last(), parent);
        let node = NodeKind::Directive(Directive::Use(out.last()));
        tidy_imports(s.drop_last(), id, out.drop_last(), parent);
        lemma_add(first, parent, id, id, at, node, parent, id, at + 1);
        assert(imports_log(out, parent) =~= first + stored(node, parent));
    } else {
        tidy_imports(s.drop_last(), id, out, parent);
    }
}

/// The items of an `impl` block.
pub proof fn tidy_impl_items(
    s: Seq<ImplItemV>,
    self_name: Seq<char>,
    id: int,
    p: ImplParts,
    parent: u32,
)
    requires
        is_impl_items(s, self_name, id, p),
        parent < id,
    ensures
        tidy(impl_items_log(s, p, parent), parent, id, id, id + impl_items_ids(s)),
    decreases s, 0nat,
{
    if s.len() == 0 {
        lemma_empty(parent, id, id, id);
    } else {
        let at = id + impl_items_ids(s.drop_last());
        let end = id + impl_items_ids(s);
        let before = without_last(p, s.last());
        let first = impl_items_log(s.drop_last(), before, parent);
        let last = last_part_log(s.last(), p, parent);
        tidy_impl_items(s.drop_last(), self_name, id, before, parent);
        tidy_last_part(s.last(), self_name, at, p, parent);
        lemma_rebase(last, parent, at, parent, id, at, end);
        lemma_join(first, last, parent, id, id, at, end);
    }
}

/// One item of an `impl` block.
pub proof fn tidy_last_part(
    i: ImplItemV,
    self_name: Seq<char>,
    id: int,
    p: ImplParts,
    parent: u32,
)
    requires
        is_last_part(i, self_name, id, p),
        parent < id,
    ensures
        tidy(last_part_log(i, p, parent), parent, id, id, id + impl_item_ids(i)),
    decreases i, 0nat,
{
    let end = id + impl_item_ids(i);
    match i {
        ImplItemV::Fn(f) => {
            tidy_fn(f, Some(self_name), id, p.functions.last(), parent);
        },
        ImplItemV::Const(c) => {
            let x = inner(p.constants.last());
            let value = expr_log(c.expr, x.value->0, x.id);
            tidy_expr(c.expr, false, id + 2, x.value->0, x.id);
            lemma_rebase(value, x.id, id + 2, parent, id, id + 2, end);
            lemma_add(
                value,
                parent,
                id,
                id + 2,
                end,
                NodeKind::Definition(Definition::Const(p.constants.last())),
                parent,
                id,
                end,
            );
        },
        ImplItemV::Type(_) => {
            let node = NodeKind::Definition(Definition::AssocType(p.type_aliases.last()));
            lemma_single(node, parent, id, end);
        },
        ImplItemV::Macro(_) => {
            let node = NodeKind::Definition(Definition::Macro(p.macros.last()));
            lemma_single(node, parent, id, end);
        },
        ImplItemV::Verbatim(_) => {
            let node = NodeKind::Definition(Definition::Plane(p.planes.last()));
            lemma_single(node, parent, id, end);
        },
    }
}

/// One item of a trait.
pub proof fn tidy_trait_item(
    i: TraitItemV,
    vis: Visibility,
    id: int,
    out: Definition,
    parent: u32,
)
    requires
        is_trait_item(i, vis, id, out),
        parent < id,
    ensures
        tidy(trait_item_log(i, out, parent), parent, id, id, id + trait_item_ids(i)),
    decreases i, 0nat,
{
    let end = id + trait_item_ids(i);
    let own = NodeKind::Definition(out);
    match i {
        TraitItemV::Const { default, .. } => {
            let x = inner(out->Const_0);
            let value = opt_expr_log(default, x.value, x.id);
            tidy_opt_expr(default, id + 2, x.value, x.id);
            lemma_rebase(value, x.id, id + 2, parent, id, id + 2, end);
            lemma_add(value, parent, id, id + 2, end, own, parent, id, end);
        },
        TraitItemV::Fn { sig, .. } => {
            let x = inner(out->Function_0);
            let first_id = (x.id - 1 - params_ids(sig.inputs)) as u32;
            let first = params_log(x.parameters@, first_id);
            tidy_params(sig.inputs, id + 1, x.parameters@, first_id);
            lemma_rebase(first, first_id, id + 1, parent, id, id + 1, end - 1);
            lemma_add(first, parent, id, id + 1, end - 1, own, parent, id, end);
        },
        TraitItemV::Type { .. } => {
            lemma_empty(parent, id, id, end);
        },
        _ => {
            lemma_single(own, parent, id, end);
        },
    }
}

/// The items of a trait.
pub proof fn tidy_trait_items(
    s: Seq<TraitItemV>,
    vis: Visibility,
    id: int,
    out: Seq<Definition>,
    parent: u32,
)
    requires
        is_trait_items(s, vis, id, out),
        parent < id,
    ensures
        tidy(trait_items_log(s, out, parent), parent, id, id, id + trait_items_ids(s)),
    decreases s, 0nat,
{
    if s.len() == 0 {
        lemma_empty(parent, id, id, id);
    } else {
        let at = id + trait_items_ids(s.drop_last());
        let end = id + trait_items_ids(s);
        let first = trait_items_log(s.drop_last(), out.drop_last(), parent);
        let last = trait_item_log(s.last(), out.last(), parent);
        tidy_trait_items(s.drop_last(), vis, id, out.drop_last(), parent);
        tidy_trait_item(s.last(), vis, at, out.last(), parent);
        lemma_rebase(last, parent, at, parent, id, at, end);
        lemma_join(first, last, parent, id, id, at, end);
    }
}

/// What stands at the top level of a file.
pub proof fn tidy_children(s: Seq<ItemV>, id: int, out: Seq<NodeKind>, parent: u32)
    requires
        is_children(s, id, out),
        parent < id,
    ensures
        tidy(children_log(s, out, parent), parent, id, id, id + items_ids(s)),
    decreases s, 0nat,
{
    if s.len() == 0 {
        lemma_empty(parent, id, id, id);
    } else {
        let at = id + items_ids(s.drop_last());
        let end = id + items_ids(s);
        let first = children_log(s.drop_last(), out.drop_last(), parent);
        let last = child_log(s.last(), out.last(), parent);
        tidy_children(s.drop_last(), id, out.drop_last(), parent);
        if is_use_item(s.last()) {
            lemma_single(out.last(), parent, at, end);
        } else {
            tidy_item(s.last(), at, out.last()->Definition_0, parent);
        }
        lemma_rebase(last, parent, at, parent, id, at, end);
        lemma_join(first, last, parent, id, id, at, end);
    }
}

/// Files.
pub proof fn tidy_file(f: FileV, path: Seq<char>, id: int, out: Rc<File>)
    requires
        is_file(f, path, id, *out),
        0 < id,
    ensures
        tidy(file_log(f, out), 0, id, id, id + file_ids(f)),
{
    let end = id + file_ids(f);
    let first = stored(NodeKind::File(out), 0);
    let rest = children_log(f.items, out.children@, out.id);
    lemma_single(NodeKind::File(out), 0, id, id + 1);
    tidy_children(f.items, id + 1, out.children@, out.id);
    lemma_rebase(rest, out.id, id + 1, 0, id, id + 1, end);
    lemma_join(first, rest, 0, id, id, id + 1, end);
}

/// Whether the nodes of a storage are in order: each has an id from 1 up to but not `next`, stands
/// under no node or under one that drew its id before it did, and nodes with one id are the same.
pub open spec fn storage_ok(storage: Seq<StoredNode>, next: int) -> bool {
    placed(storage, 0, 1, 1, next) && coherent(storage)
}

/// Building a file keeps the storage in order.
pub proof fn file_keeps_order(before: ParserCtx, after: ParserCtx, path: Seq<char>, file: Rc<File>)
    requires
        file_added(before, after, path, file),
        storage_ok(before.storage@, before.id as int),
        before.id > 0,
    ensures
        storage_ok(after.storage@, after.id as int),
{
    let f = source_of(before.file_provider@, path);
    let id = before.id as int;
    tidy_file(f, path, id, file);
    assert(tidy(before.storage@, 0, 1, 1, id)) by {
        reveal(tidy);
    }
    lemma_rebase(file_log(f, file), 0, id, 0, 1, id, id + file_ids(f));
    lemma_join(before.storage@, file_log(f, file), 0, 1, 1, id, id + file_ids(f));
    reveal(tidy);
}

/// A whole run keeps the storage in order, keeps what was stored, and draws ids upwards.
pub proof fn run_keeps_order(n: nat, before: ParserCtx, after: ParserCtx)
    requires
        turns(n, before, after),
        storage_ok(before.storage@, before.id as int),
        before.id > 0,
    ensures
        storage_ok(after.storage@, after.id as int),
        before.storage@.is_prefix_of(after.storage@),
        before.id + n <= after.id,
        after.file_provider == before.file_provider,
    decreases n,
{
    if n > 0 {
        let last = choose|last: ParserCtx|
            #![trigger turn(last, after)]
            turns((n - 1) as nat, before, last) && turn(last, after);
        run_keeps_order((n - 1) as nat, before, last);
        let next = last.queue@.last();
        let (read, file) = choose|read: ParserCtx, file: Rc<File>|
            {
                &&& #[trigger] file_added(
                    ParserCtx { queue: read.queue, ..last },
                    read,
                    next.1@,
                    file,
                )
                &&& read.queue@ == last.queue@.drop_last()
                &&& after == (ParserCtx { queue: after.queue, table: after.table, ..read })
                &&& registry(after) == with_children(
                    registry(read),
                    file.children@,
                    next.0 as nat,
                    next.1@,
                    last.file_provider@,
                )
            };
        file_keeps_order(ParserCtx { queue: read.queue, ..last }, read, next.1@, file);
        assert(last.storage@.is_prefix_of(after.storage@));
        assert(before.storage@ =~= after.storage@.take(before.storage@.len() as int)) by {
            assert(before.storage@ =~= last.storage@.take(before.storage@.len() as int));
        }
    }
}

} // verus!
