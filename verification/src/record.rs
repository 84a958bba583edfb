//! What the builder puts into the storage for each piece of syntax, in order.
//!
//! `.._log(source, out, parent)` is the list of nodes that are added, each with its parent, when
//! `out` is built from `source` under `parent`.
use crate::ast::{
    Block, Const, Definition, Directive, Expression, Field, File, FnParameter, Function, Identifier,
    MatchArm, Misc, NodeKind, Statement, Type, Use,
};
use crate::count::{is_use_item, is_use_stmt, params_ids};
use crate::shape::{parts_of, without_last, ImplParts};
use crate::storage::StoredNode;
use crate::syntax::{
    ArmV, BlockV, ConstV, ExprV, FieldValueV, FileV, FnV, ImplItemV, InitV, ItemV, StmtV,
    TraitItemV,
};
use std::rc::Rc;
use vstd::prelude::*;

verus! {

/// One node under one parent.
pub open spec fn stored(node: NodeKind, parent: u32) -> Seq<StoredNode> {
    seq![StoredNode { node, parent }]
}

/// An expression, stored as a statement.
pub open spec fn stored_expr(x: Expression, parent: u32) -> Seq<StoredNode> {
    stored(NodeKind::Statement(Statement::Expression(x)), parent)
}

/// A statement.
pub open spec fn stored_stmt(s: Statement, parent: u32) -> Seq<StoredNode> {
    stored(NodeKind::Statement(s), parent)
}

/// A definition.
pub open spec fn stored_def(d: Definition, parent: u32) -> Seq<StoredNode> {
    stored(NodeKind::Definition(d), parent)
}

/// A type.
pub open spec fn stored_type(t: Type, parent: u32) -> Seq<StoredNode> {
    stored(NodeKind::Type(t), parent)
}

/// The names that a closure takes over.
pub open spec fn captures_log(s: Seq<Rc<Identifier>>, parent: u32) -> Seq<StoredNode> {
    Seq::new(
        s.len(),
        |i: int|
            StoredNode {
                node: NodeKind::Statement(Statement::Expression(Expression::Identifier(s[i]))),
                parent,
            },
    )
}

/// The nodes added for an expression: those of its parts, each under the id of the expression or,
/// for the block of a loop, a condition or the like, under `parent`; last the expression itself.
pub open spec fn expr_log(e: ExprV, out: Expression, parent: u32) -> Seq<StoredNode>
    decreases e,
{
    match e {
        ExprV::Array { elems, .. } => {
            let x = out->Array_0;
            exprs_log(elems, x.elements@, x.id) + stored_expr(out, parent)
        },
        ExprV::Assign { left, right, .. } => {
            let x = out->Assign_0;
            expr_log(*left, x.left, x.id) + expr_log(*right, x.right, x.id) + stored_expr(
                out,
                parent,
            )
        },
        ExprV::Binary { left, right, .. } => {
            let x = out->Binary_0;
            expr_log(*left, x.left, x.id) + expr_log(*right, x.right, x.id) + stored_expr(
                out,
                parent,
            )
        },
        ExprV::Unary { expr, .. } => {
            let x = out->Unary_0;
            expr_log(*expr, x.expression, x.id) + stored_expr(out, parent)
        },
        ExprV::Break { expr, .. } => {
            let x = out->Break_0;
            opt_expr_log(expr, x.expression, x.id) + stored_expr(out, parent)
        },
        ExprV::Block { block, .. } => {
            let x = out->EBlock_0;
            block_log(block, x.block, x.id) + stored_stmt(Statement::Block(x.block), parent)
                + stored_expr(out, parent)
        },
        ExprV::Call { func, args, .. } => {
            let x = out->FunctionCall_0;
            exprs_log(args, x.parameters@, x.id) + expr_log(*func, x.expression, x.id)
                + stored_expr(out, parent)
        },
        ExprV::Cast { expr, .. } => {
            let x = out->Cast_0;
            expr_log(*expr, x.base, x.id) + stored_type(x.target_type, x.id) + stored_expr(
                out,
                parent,
            )
        },
        ExprV::Closure { body, .. } => {
            let x = out->Closure_0;
            expr_log(*body, x.body, x.id) + captures_log(x.captures@, x.id) + stored_type(
                x.returns,
                x.id,
            ) + stored_expr(x.body, x.id) + stored_expr(out, parent)
        },
        ExprV::Const { block } => {
            let x = out->Const_0;
            block_log(block, x.block, parent) + stored_expr(out, parent)
        },
        ExprV::Continue { .. } => stored_expr(out, parent),
        ExprV::ForLoop { expr, body, .. } => {
            let x = out->ForLoop_0;
            block_log(body, x.block, parent) + expr_log(*expr, x.expression, x.id) + stored_expr(
                out,
                parent,
            )
        },
        ExprV::Field { base, .. } => {
            let x = out->MemberAccess_0;
            expr_log(*base, x.base, x.id) + stored_expr(out, parent)
        },
        ExprV::If { cond, then_branch, else_branch, .. } => {
            let x = out->If_0;
            block_log(then_branch, x.then_branch, parent) + expr_log(*cond, x.condition, x.id)
                + opt_expr_log(else_branch, x.else_branch, x.id) + stored_expr(out, parent)
        },
        ExprV::Index { expr, index, .. } => {
            let x = out->IndexAccess_0;
            expr_log(*expr, x.base, x.id) + expr_log(*index, x.index, x.id) + stored_expr(
                out,
                parent,
            )
        },
        ExprV::Infer { .. } => stored_expr(out, parent),
        ExprV::Let { expr, .. } => {
            let x = out->LetGuard_0;
            stored(NodeKind::Pattern(x.guard), x.id) + expr_log(*expr, x.value, x.id) + stored_expr(
                out,
                parent,
            )
        },
        ExprV::Lit { .. } => stored_expr(out, parent),
        ExprV::Loop { body, .. } => {
            let x = out->Loop_0;
            block_log(body, x.block, parent) + stored_expr(out, parent)
        },
        ExprV::Macro { .. } => stored_expr(out, parent),
        ExprV::Match { expr, arms, .. } => {
            let x = out->Match_0;
            expr_log(*expr, x.expression, x.id) + arms_log(arms, x.arms@, x.id) + stored_expr(
                out,
                parent,
            )
        },
        ExprV::MethodCall { receiver, args, .. } => {
            let x = out->MethodCall_0;
            expr_log(*receiver, x.base, x.id) + exprs_log(args, x.parameters@, x.id) + stored_expr(
                out,
                parent,
            )
        },
        ExprV::Paren { expr, .. } => {
            let x = out->Parenthesized_0;
            expr_log(*expr, x.expression, x.id) + stored_expr(out, parent)
        },
        ExprV::Path { .. } => stored(NodeKind::Expression(out), parent),
        ExprV::Range { start, end, .. } => {
            let x = out->Range_0;
            opt_expr_log(start, x.start, x.id) + opt_expr_log(end, x.end, x.id) + stored_expr(
                out,
                parent,
            )
        },
        ExprV::RawAddr { expr, .. } => {
            let x = out->Addr_0;
            expr_log(*expr, x.expression, x.id) + stored_expr(out, parent)
        },
        ExprV::Reference { expr, .. } => {
            let x = out->Reference_0;
            expr_log(*expr, x.inner, x.id) + stored_expr(out, parent)
        },
        ExprV::Repeat { expr, len, .. } => {
            let x = out->Repeat_0;
            expr_log(*expr, x.expression, x.id) + expr_log(*len, x.count, x.id) + stored_expr(
                out,
                parent,
            )
        },
        ExprV::Return { expr, .. } => {
            let x = out->Return_0;
            opt_expr_log(expr, x.expression, x.id) + stored_expr(out, parent)
        },
        ExprV::Struct { fields, rest, .. } => {
            let x = out->EStruct_0;
            field_values_log(fields, x.fields@, parent) + opt_expr_log(rest, x.rest_dots, parent)
                + stored_expr(out, parent)
        },
        ExprV::Try { expr, .. } => {
            let x = out->Try_0;
            expr_log(*expr, x.expression, x.id) + stored_expr(out, parent)
        },
        ExprV::TryBlock { block } => {
            let x = out->EBlock_0;
            block_log(block, x.block, parent) + stored_expr(out, parent)
        },
        ExprV::Tuple { elems, .. } => {
            let x = out->Tuple_0;
            exprs_log(elems, x.elements@, x.id) + stored_expr(out, parent)
        },
        ExprV::Unsafe { block, .. } => {
            let x = out->Unsafe_0;
            block_log(block, x.block, parent) + stored_expr(out, parent)
        },
        ExprV::While { cond, body, .. } => {
            let x = out->While_0;
            block_log(body, x.block, parent) + expr_log(*cond, x.condition, x.id) + stored_expr(
                out,
                parent,
            )
        },
        ExprV::Async => Seq::empty(),
        ExprV::Await => Seq::empty(),
        ExprV::Yield => Seq::empty(),
        ExprV::Unsupported => Seq::empty(),
    }
}

pub open spec fn opt_expr_log(
    o: Option<Box<ExprV>>,
    out: Option<Expression>,
    parent: u32,
) -> Seq<StoredNode>
    decreases o,
{
    match o {
        Some(e) => expr_log(*e, out->0, parent),
        None => Seq::empty(),
    }
}

pub open spec fn exprs_log(s: Seq<ExprV>, out: Seq<Expression>, parent: u32) -> Seq<StoredNode>
    decreases s,
{
    if s.len() == 0 {
        Seq::empty()
    } else {
        exprs_log(s.drop_last(), out.drop_last(), parent) + expr_log(s.last(), out.last(), parent)
    }
}

pub open spec fn arms_log(s: Seq<ArmV>, out: Seq<MatchArm>, parent: u32) -> Seq<StoredNode>
    decreases s,
{
    if s.len() == 0 {
        Seq::empty()
    } else {
        arms_log(s.drop_last(), out.drop_last(), parent) + expr_log(
            s.last().body,
            out.last().expression,
            parent,
        )
    }
}

pub open spec fn field_values_log(
    s: Seq<FieldValueV>,
    out: Seq<(String, Expression)>,
    parent: u32,
) -> Seq<StoredNode>
    decreases s,
{
    if s.len() == 0 {
        Seq::empty()
    } else {
        field_values_log(s.drop_last(), out.drop_last(), parent) + expr_log(
            s.last().expr,
            out.last().1,
            parent,
        )
    }
}

pub open spec fn block_log(b: BlockV, out: Rc<Block>, parent: u32) -> Seq<StoredNode>
    decreases b,
{
    stmts_log(b.stmts, out.statements@, out.id) + stored_stmt(Statement::Block(out), parent)
}

pub open spec fn stmts_log(s: Seq<StmtV>, out: Seq<Statement>, parent: u32) -> Seq<StoredNode>
    decreases s,
{
    if s.len() == 0 {
        Seq::empty()
    } else if is_use_stmt(s.last()) {
        stmts_log(s.drop_last(), out, parent)
    } else {
        stmts_log(s.drop_last(), out.drop_last(), parent) + stmt_log(s.last(), out.last(), parent)
    }
}

/// The nodes added for the value and the `else` branch of a `let`. Each is added once as it is built
/// and once more as what the `let` holds.
pub open spec fn init_log(
    init: InitV,
    value: Expression,
    alternative: Option<Expression>,
    parent: u32,
) -> Seq<StoredNode>
    decreases init,
{
    expr_log(init.expr, value, parent) + stored_expr(value, parent) + (match init.diverge {
        Some(d) => expr_log(*d, alternative->0, parent) + stored_expr(alternative->0, parent),
        None => Seq::empty(),
    })
}

/// The nodes added for a statement.
pub open spec fn stmt_log(s: StmtV, out: Statement, parent: u32) -> Seq<StoredNode>
    decreases s,
{
    match s {
        StmtV::Expression { expr, .. } => expr_log(expr, out->Expression_0, parent),
        StmtV::Local { init, .. } => {
            let x = out->Let_0;
            (match init {
                Some(i) => init_log(i, x.initial_value->0, x.initial_value_alternative, x.id),
                None => Seq::empty(),
            }) + stored_stmt(out, parent)
        },
        StmtV::Macro { .. } => stored_stmt(out, parent),
        StmtV::Definition(item) => item_log(item, out->Definition_0, parent),
    }
}

pub open spec fn params_log(s: Seq<Rc<FnParameter>>, parent: u32) -> Seq<StoredNode> {
    Seq::new(
        s.len(),
        |i: int| StoredNode { node: NodeKind::Misc(Misc::FnParameter(s[i])), parent },
    )
}

pub open spec fn fields_log(s: Seq<Rc<Field>>, parent: u32) -> Seq<StoredNode> {
    Seq::new(s.len(), |i: int| StoredNode { node: NodeKind::Misc(Misc::Field(s[i])), parent })
}

/// The nodes added for a function with a body; the body is added once as it is built and once more
/// as what the function holds.
pub open spec fn fn_log(f: FnV, out: Rc<Function>, parent: u32) -> Seq<StoredNode>
    decreases f,
{
    params_log(out.parameters@, out.id) + block_log(f.block, out.body->0, out.id) + stored_stmt(
        Statement::Block(out.body->0),
        out.id,
    ) + stored_def(Definition::Function(out), parent)
}

/// The nodes added for a function that a trait declares; `id` is the first id drawn for it.
pub open spec fn trait_fn_log(out: Rc<Function>, id: u32, parent: u32) -> Seq<StoredNode> {
    params_log(out.parameters@, id) + stored_def(Definition::Function(out), parent)
}

pub open spec fn impl_const_log(c: ConstV, out: Rc<Const>, parent: u32) -> Seq<StoredNode>
    decreases c,
{
    expr_log(c.expr, out.value->0, out.id) + stored_def(Definition::Const(out), parent)
}

pub open spec fn use_log(out: Rc<Use>, parent: u32) -> Seq<StoredNode> {
    stored(NodeKind::Directive(Directive::Use(out)), parent)
}

/// The nodes added for an item.
pub open spec fn item_log(i: ItemV, out: Definition, parent: u32) -> Seq<StoredNode>
    decreases i,
{
    match i {
        ItemV::Const(c) => {
            let x = out->Const_0;
            expr_log(c.expr, x.value->0, x.id) + stored_expr(x.value->0, x.id) + stored_def(
                out,
                parent,
            )
        },
        ItemV::Fn(f) => fn_log(f, out->Function_0, parent),
        ItemV::Impl { items, .. } => {
            let x = out->Implementation_0;
            impl_items_log(items, parts_of(*x), x.id) + stored_def(out, parent)
        },
        ItemV::Macro(_) => stored_stmt(Statement::Definition(out), parent),
        ItemV::Mod { content, .. } => {
            let x = out->Module_0;
            (match content {
                Some(items) => definitions_log(items, x.definitions->0@, x.id) + imports_log(
                    x.imports->0@,
                    x.id,
                ),
                None => Seq::empty(),
            }) + stored_def(out, parent)
        },
        ItemV::Static { expr, .. } => {
            let x = out->Static_0;
            expr_log(expr, x.value, x.id) + stored_def(out, parent)
        },
        ItemV::Trait { items, .. } => {
            let x = out->Trait_0;
            trait_items_log(items, x.items@, x.id) + stored_def(out, parent)
        },
        ItemV::Union { .. } => {
            let x = out->Union_0;
            fields_log(x.fields@, x.id) + stored_def(out, parent)
        },
        ItemV::Use(_) => Seq::empty(),
        _ => stored_def(out, parent),
    }
}

pub open spec fn definitions_log(s: Seq<ItemV>, out: Seq<Definition>, parent: u32) -> Seq<
    StoredNode,
>
    decreases s,
{
    if s.len() == 0 {
        Seq::empty()
    } else if is_use_item(s.last()) {
        definitions_log(s.drop_last(), out, parent)
    } else {
        definitions_log(s.drop_last(), out.drop_last(), parent) + item_log(
            s.last(),
            out.last(),
            parent,
        )
    }
}

pub open spec fn imports_log(s: Seq<Rc<Use>>, parent: u32) -> Seq<StoredNode> {
    Seq::new(
        s.len(),
        |i: int| StoredNode { node: NodeKind::Directive(Directive::Use(s[i])), parent },
    )
}

pub open spec fn impl_items_log(s: Seq<ImplItemV>, p: ImplParts, parent: u32) -> Seq<StoredNode>
    decreases s,
{
    if s.len() == 0 {
        Seq::empty()
    } else {
        impl_items_log(s.drop_last(), without_last(p, s.last()), parent) + last_part_log(
            s.last(),
            p,
            parent,
        )
    }
}

pub open spec fn last_part_log(i: ImplItemV, p: ImplParts, parent: u32) -> Seq<StoredNode>
    decreases i,
{
    match i {
        ImplItemV::Fn(f) => fn_log(f, p.functions.last(), parent),
        ImplItemV::Const(c) => impl_const_log(c, p.constants.last(), parent),
        ImplItemV::Type(_) => stored_def(Definition::AssocType(p.type_aliases.last()), parent),
        ImplItemV::Macro(_) => stored_def(Definition::Macro(p.macros.last()), parent),
        ImplItemV::Verbatim(_) => stored_def(Definition::Plane(p.planes.last()), parent),
    }
}

/// The nodes added for an item of a trait; none for an associated type.
pub open spec fn trait_item_log(i: TraitItemV, out: Definition, parent: u32) -> Seq<StoredNode>
    decreases i,
{
    match i {
        TraitItemV::Const { default, .. } => {
            let x = out->Const_0;
            opt_expr_log(default, x.value, x.id) + stored_def(out, parent)
        },
        TraitItemV::Fn { sig, .. } => {
            let x = out->Function_0;
            trait_fn_log(x, (x.id - 1 - params_ids(sig.inputs)) as u32, parent)
        },
        TraitItemV::Type { .. } => Seq::empty(),
        _ => stored_def(out, parent),
    }
}

pub open spec fn trait_items_log(s: Seq<TraitItemV>, out: Seq<Definition>, parent: u32) -> Seq<
    StoredNode,
>
    decreases s,
{
    if s.len() == 0 {
        Seq::empty()
    } else {
        trait_items_log(s.drop_last(), out.drop_last(), parent) + trait_item_log(
            s.last(),
            out.last(),
            parent,
        )
    }
}

/// The nodes added for an item at the top level of a file.
pub open spec fn child_log(i: ItemV, out: NodeKind, parent: u32) -> Seq<StoredNode> {
    match i {
        ItemV::Use(_) => stored(out, parent),
        _ => item_log(i, out->Definition_0, parent),
    }
}

/// The nodes added for what stands at the top level of a file.
pub open spec fn children_log(s: Seq<ItemV>, out: Seq<NodeKind>, parent: u32) -> Seq<StoredNode>
    decreases s,
{
    if s.len() == 0 {
        Seq::empty()
    } else {
        children_log(s.drop_last(), out.drop_last(), parent) + child_log(
            s.last(),
            out.last(),
            parent,
        )
    }
}

/// The nodes added for a file: the file itself, under no parent, then what stands in it.
pub open spec fn file_log(f: FileV, out: Rc<File>) -> Seq<StoredNode> {
    stored(NodeKind::File(out), 0) + children_log(f.items, out.children@, out.id)
}

} // verus!
