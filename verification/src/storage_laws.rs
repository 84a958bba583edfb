//! What holds of the storage: whatever is stored, its parts are stored too, each under the node that
//! it stands in.
use crate::ast::{
    Block, Const, Definition, Directive, Expression, Field, File, FnParameter, Function, Identifier,
    MatchArm, Misc, NodeKind, Statement, Use,
};
use crate::count::{
    arms_ids, block_ids, definitions_ids, expr_ids, exprs_ids, field_values_ids, impl_items_ids,
    is_use_item, is_use_stmt, items_ids, opt_expr_ids, params_ids, stmts_ids, trait_items_ids,
};
use crate::context::ParserCtx;
use crate::order::{inner, node_id};
use crate::parse::{file_added, registry, source_of, turn, turns, with_children};
use crate::record::{
    arms_log, block_log, captures_log, child_log, children_log, definitions_log, expr_log,
    exprs_log, field_values_log, fields_log, file_log, fn_log, impl_items_log, imports_log,
    item_log, last_part_log, opt_expr_log, params_log, stmt_log, stmts_log, stored, stored_expr,
    stored_stmt, stored_type, trait_item_log, trait_items_log,
};
use crate::shape::{
    is_arms, is_block, is_children, is_definitions, is_expr, is_exprs, is_field_values, is_file,
    is_fn, is_impl_items, is_item, is_last_part, is_opt_expr, is_params, is_stmt, is_stmts,
    is_trait_item, is_trait_items, parts_of, without_last, ImplParts,
};
use crate::storage::StoredNode;
use crate::syntax::{
    ArmV, BlockV, CaptureV, ExprV, FieldValueV, FileV, FnV, ImplItemV, ItemV, StmtV, TraitItemV,
};
use std::rc::Rc;
use vstd::prelude::*;

verus! {

/// An expression as a node.
pub open spec fn node_of(x: Expression) -> NodeKind {
    NodeKind::Statement(Statement::Expression(x))
}

/// A block as a node.
pub open spec fn block_node(b: Rc<Block>) -> NodeKind {
    NodeKind::Statement(Statement::Block(b))
}

/// Expressions as nodes.
pub open spec fn nodes_of(s: Seq<Expression>) -> Seq<NodeKind> {
    Seq::new(s.len(), |i: int| node_of(s[i]))
}

/// An expression that may be absent.
pub open spec fn opt_node_of(o: Option<Expression>) -> Seq<NodeKind> {
    match o {
        Some(x) => seq![node_of(x)],
        None => Seq::empty(),
    }
}

/// Names as nodes.
pub open spec fn names_of(s: Seq<Rc<Identifier>>) -> Seq<NodeKind> {
    Seq::new(s.len(), |i: int| node_of(Expression::Identifier(s[i])))
}

/// The bodies of arms as nodes.
pub open spec fn arm_nodes(s: Seq<MatchArm>) -> Seq<NodeKind> {
    Seq::new(s.len(), |i: int| node_of(s[i].expression))
}

/// The values of fields as nodes.
pub open spec fn field_nodes(s: Seq<(String, Expression)>) -> Seq<NodeKind> {
    Seq::new(s.len(), |i: int| node_of(s[i].1))
}

/// The nodes that stand directly in an expression.
pub open spec fn expr_parts(x: Expression) -> Seq<NodeKind> {
    match x {
        Expression::Array(x) => nodes_of(x.elements@),
        Expression::Tuple(x) => nodes_of(x.elements@),
        Expression::Assign(x) => seq![node_of(x.left), node_of(x.right)],
        Expression::Binary(x) => seq![node_of(x.left), node_of(x.right)],
        Expression::Unary(x) => seq![node_of(x.expression)],
        Expression::Parenthesized(x) => seq![node_of(x.expression)],
        Expression::Try(x) => seq![node_of(x.expression)],
        Expression::Reference(x) => seq![node_of(x.inner)],
        Expression::Addr(x) => seq![node_of(x.expression)],
        Expression::MemberAccess(x) => seq![node_of(x.base)],
        Expression::Break(x) => opt_node_of(x.expression),
        Expression::Return(x) => opt_node_of(x.expression),
        Expression::EBlock(x) => seq![block_node(x.block)],
        Expression::Const(x) => seq![block_node(x.block)],
        Expression::Unsafe(x) => seq![block_node(x.block)],
        Expression::Loop(x) => seq![block_node(x.block)],
        Expression::FunctionCall(x) => nodes_of(x.parameters@) + seq![node_of(x.expression)],
        Expression::Cast(x) => seq![node_of(x.base), NodeKind::Type(x.target_type)],
        Expression::Closure(x) => seq![node_of(x.body), NodeKind::Type(x.returns)]
            + names_of(x.captures@),
        Expression::ForLoop(x) => seq![block_node(x.block), node_of(x.expression)],
        Expression::While(x) => seq![block_node(x.block), node_of(x.condition)],
        Expression::If(x) => seq![block_node(x.then_branch), node_of(x.condition)]
            + opt_node_of(x.else_branch),
        Expression::IndexAccess(x) => seq![node_of(x.base), node_of(x.index)],
        Expression::LetGuard(x) => seq![NodeKind::Pattern(x.guard), node_of(x.value)],
        Expression::Match(x) => seq![node_of(x.expression)] + arm_nodes(x.arms@),
        Expression::MethodCall(x) => seq![node_of(x.base)] + nodes_of(x.parameters@),
        Expression::Range(x) => opt_node_of(x.start) + opt_node_of(x.end),
        Expression::Repeat(x) => seq![node_of(x.expression), node_of(x.count)],
        Expression::EStruct(x) => field_nodes(x.fields@) + opt_node_of(x.rest_dots),
        _ => Seq::empty(),
    }
}

/// Definitions as nodes.
pub open spec fn def_nodes(s: Seq<Definition>) -> Seq<NodeKind> {
    Seq::new(s.len(), |i: int| NodeKind::Definition(s[i]))
}

/// Imports as nodes.
pub open spec fn use_nodes(s: Seq<Rc<Use>>) -> Seq<NodeKind> {
    Seq::new(s.len(), |i: int| NodeKind::Directive(Directive::Use(s[i])))
}

/// Parameters as nodes.
pub open spec fn param_nodes(s: Seq<Rc<FnParameter>>) -> Seq<NodeKind> {
    Seq::new(s.len(), |i: int| NodeKind::Misc(Misc::FnParameter(s[i])))
}

/// Fields as nodes.
pub open spec fn union_field_nodes(s: Seq<Rc<Field>>) -> Seq<NodeKind> {
    Seq::new(s.len(), |i: int| NodeKind::Misc(Misc::Field(s[i])))
}

/// Functions as nodes.
pub open spec fn fn_nodes(s: Seq<Rc<Function>>) -> Seq<NodeKind> {
    Seq::new(s.len(), |i: int| NodeKind::Definition(Definition::Function(s[i])))
}

/// Constants as nodes.
pub open spec fn const_nodes(s: Seq<Rc<Const>>) -> Seq<NodeKind> {
    Seq::new(s.len(), |i: int| NodeKind::Definition(Definition::Const(s[i])))
}

/// What stands in the lists of an `impl` block, as nodes.
pub open spec fn impl_nodes(p: ImplParts) -> Seq<NodeKind> {
    fn_nodes(p.functions) + const_nodes(p.constants) + Seq::new(
        p.type_aliases.len(),
        |i: int| NodeKind::Definition(Definition::AssocType(p.type_aliases[i])),
    ) + Seq::new(p.macros.len(), |i: int| NodeKind::Definition(Definition::Macro(p.macros[i])))
        + Seq::new(p.planes.len(), |i: int| NodeKind::Definition(Definition::Plane(p.planes[i])))
}

/// The items of a trait that are more than a text, as nodes.
pub open spec fn trait_nodes(s: Seq<Definition>) -> Seq<NodeKind>
    decreases s.len(),
{
    if s.len() == 0 {
        Seq::empty()
    } else if s.last() is Plane {
        trait_nodes(s.drop_last())
    } else {
        trait_nodes(s.drop_last()).push(NodeKind::Definition(s.last()))
    }
}

/// The nodes that stand directly in a definition.
pub open spec fn def_parts(d: Definition) -> Seq<NodeKind> {
    match d {
        Definition::Const(x) => opt_node_of(x.value),
        Definition::Function(x) => param_nodes(x.parameters@) + (match x.body {
            Some(b) => seq![block_node(b)],
            None => Seq::empty(),
        }),
        Definition::Implementation(x) => impl_nodes(parts_of(*x)),
        Definition::Module(x) => (match x.definitions {
            Some(v) => def_nodes(v@),
            None => Seq::empty(),
        }) + (match x.imports {
            Some(v) => use_nodes(v@),
            None => Seq::empty(),
        }),
        Definition::Static(x) => seq![node_of(x.value)],
        Definition::Trait(x) => trait_nodes(x.items@),
        Definition::Union(x) => union_field_nodes(x.fields@),
        _ => Seq::empty(),
    }
}

/// The nodes that stand directly in a node.
pub open spec fn parts(n: NodeKind) -> Seq<NodeKind> {
    match n {
        NodeKind::File(x) => x.children@,
        NodeKind::Definition(d) => def_parts(d),
        NodeKind::Statement(Statement::Block(b)) => Seq::new(
            b.statements@.len(),
            |i: int| NodeKind::Statement(b.statements@[i]),
        ),
        NodeKind::Statement(Statement::Expression(x)) => expr_parts(x),
        NodeKind::Statement(Statement::Let(x)) => opt_node_of(x.initial_value) + opt_node_of(
            x.initial_value_alternative,
        ),
        NodeKind::Statement(Statement::Definition(d)) => def_parts(d),
        NodeKind::Expression(x) => expr_parts(x),
        _ => Seq::empty(),
    }
}

/// A node, however it is stored: a definition may be stored as a statement, and an expression is.
pub open spec fn bare(n: NodeKind) -> NodeKind {
    match n {
        NodeKind::Expression(x) => NodeKind::Statement(Statement::Expression(x)),
        NodeKind::Statement(Statement::Definition(d)) => NodeKind::Definition(d),
        _ => n,
    }
}

/// The id under which the part `c` of the node `n` is stored, where `n` is stored under `parent`: that
/// of `n`; but the block of a loop, a condition or the like, and what stands in a struct expression,
/// is stored beside it, and the parameters of a function without a body are stored under an id that
/// was drawn before them.
pub open spec fn holder(n: NodeKind, c: NodeKind, parent: u32) -> int {
    match bare(n) {
        NodeKind::Statement(Statement::Expression(x)) => match x {
            Expression::EStruct(_) => parent as int,
            Expression::ForLoop(_)
            | Expression::While(_)
            | Expression::If(_)
            | Expression::Loop(_)
            | Expression::Unsafe(_)
            | Expression::Const(_)
            | Expression::EBlock(_) => if c matches NodeKind::Statement(Statement::Block(_)) {
                parent as int
            } else {
                node_id(n) as int
            },
            _ => node_id(n) as int,
        },
        NodeKind::Definition(Definition::Function(x)) => if x.body is None {
            ((x.id - 1 - x.parameters@.len()) as u32) as int
        } else {
            x.id as int
        },
        _ => node_id(n) as int,
    }
}

/// Whether `n` is stored under `parent`.
pub open spec fn held(log: Seq<StoredNode>, n: NodeKind, parent: int) -> bool {
    exists|i: int|
        0 <= i < log.len() && bare((#[trigger] log[i]).node) == bare(n) && log[i].parent == parent
}

/// Whether the parts of `n`, which is stored under `parent`, are stored where they belong.
pub open spec fn parts_held(log: Seq<StoredNode>, n: NodeKind, parent: u32) -> bool {
    forall|k: int|
        0 <= k < parts(n).len() ==> held(
            log,
            #[trigger] parts(n)[k],
            holder(n, parts(n)[k], parent),
        )
}

/// Whether of each node that is stored the parts are stored where they belong.
#[verifier::opaque]
pub open spec fn complete(log: Seq<StoredNode>) -> bool {
    forall|i: int| 0 <= i < log.len() ==> parts_held(log, (#[trigger] log[i]).node, log[i].parent)
}

proof fn lemma_held_in(a: Seq<StoredNode>, b: Seq<StoredNode>, n: NodeKind, parent: int)
    ensures
        held(a, n, parent) ==> held(a + b, n, parent),
        held(b, n, parent) ==> held(a + b, n, parent),
{
    let c = a + b;
    if held(a, n, parent) {
        let i = choose|i: int|
            0 <= i < a.len() && bare((#[trigger] a[i]).node) == bare(n) && a[i].parent == parent;
        assert(c[i] == a[i]);
    }
    if held(b, n, parent) {
        let i = choose|i: int|
            0 <= i < b.len() && bare((#[trigger] b[i]).node) == bare(n) && b[i].parent == parent;
        assert(c[a.len() + i] == b[i]);
    }
}

/// Two complete lists are complete together, and what is held by one is held by both.
proof fn lemma_cat(a: Seq<StoredNode>, b: Seq<StoredNode>)
    requires
        complete(a),
        complete(b),
    ensures
        complete(a + b),
        forall|n: NodeKind, p: int| held(a, n, p) ==> #[trigger] held(a + b, n, p),
        forall|n: NodeKind, p: int| held(b, n, p) ==> #[trigger] held(a + b, n, p),
{
    let c = a + b;
    assert forall|n: NodeKind, p: int| held(a, n, p) implies #[trigger] held(c, n, p) by {
        lemma_held_in(a, b, n, p);
    }
    assert forall|n: NodeKind, p: int| held(b, n, p) implies #[trigger] held(c, n, p) by {
        lemma_held_in(a, b, n, p);
    }
    reveal(complete);
    assert forall|i: int| 0 <= i < c.len() implies parts_held(
        c,
        (#[trigger] c[i]).node,
        c[i].parent,
    ) by {
        if i < a.len() {
            assert(c[i] == a[i]);
            assert(parts_held(a, a[i].node, a[i].parent));
        } else {
            assert(c[i] == b[i - a.len()]);
            assert(parts_held(b, b[i - a.len()].node, b[i - a.len()].parent));
        }
    }
}

/// A list is complete with one more node whose parts it holds, and holds that node.
proof fn lemma_own(a: Seq<StoredNode>, n: NodeKind, parent: u32)
    requires
        complete(a),
        parts_held(a, n, parent),
    ensures
        complete(a + stored(n, parent)),
        held(a + stored(n, parent), n, parent as int),
        forall|m: NodeKind, p: int| held(a, m, p) ==> #[trigger] held(a + stored(n, parent), m, p),
{
    let b = stored(n, parent);
    let c = a + b;
    assert(c[a.len() as int] == b[0]);
    assert forall|m: NodeKind, p: int| held(a, m, p) implies #[trigger] held(c, m, p) by {
        lemma_held_in(a, b, m, p);
    }
    reveal(complete);
    assert forall|i: int| 0 <= i < c.len() implies parts_held(
        c,
        (#[trigger] c[i]).node,
        c[i].parent,
    ) by {
        if i < a.len() {
            assert(c[i] == a[i]);
            assert(parts_held(a, a[i].node, a[i].parent));
        }
    }
}

/// A node without parts is complete by itself.
proof fn lemma_leaf(n: NodeKind, parent: u32)
    requires
        parts(n).len() == 0,
    ensures
        complete(stored(n, parent)),
        held(stored(n, parent), n, parent as int),
{
    lemma_nothing();
    let none = Seq::<StoredNode>::empty();
    lemma_own(none, n, parent);
    assert(none + stored(n, parent) =~= stored(n, parent));
}

proof fn lemma_nothing()
    ensures
        complete(Seq::<StoredNode>::empty()),
{
    reveal(complete);
}

/// The parts of a node that is held are held.
proof fn lemma_parts_of_held(a: Seq<StoredNode>, n: NodeKind, parent: u32)
    requires
        complete(a),
        held(a, n, parent as int),
    ensures
        bare(n) == n ==> (forall|k: int|
            0 <= k < parts(n).len() ==> held(
                a,
                #[trigger] parts(n)[k],
                holder(n, parts(n)[k], parent),
            )),
{
    reveal(complete);
    let i = choose|i: int|
        0 <= i < a.len() && bare((#[trigger] a[i]).node) == bare(n) && a[i].parent == parent as int;
    let m = a[i].node;
    assert(parts_held(a, m, a[i].parent));
    if bare(n) == n {
        assert(parts(m) == parts(n));
        assert(node_id(m) == node_id(n));
        assert forall|k: int| 0 <= k < parts(n).len() implies held(
            a,
            #[trigger] parts(n)[k],
            holder(n, parts(n)[k], parent),
        ) by {
            assert(held(a, parts(m)[k], holder(m, parts(m)[k], a[i].parent)));
        }
    }
}

proof fn lemma_names_stored(c: Option<CaptureV>, id: int, s: Seq<Rc<Identifier>>, parent: u32)
    ensures
        complete(captures_log(s, parent)),
        forall|k: int|
            0 <= k < s.len() ==> held(
                captures_log(s, parent),
                node_of(Expression::Identifier(#[trigger] s[k])),
                parent as int,
            ),
{
    let log = captures_log(s, parent);
    reveal(complete);
    assert forall|k: int| 0 <= k < s.len() implies held(
        log,
        node_of(Expression::Identifier(#[trigger] s[k])),
        parent as int,
    ) by {
        assert(log[k].node == node_of(Expression::Identifier(s[k])));
    }
}

/// An expression is stored under its parent, and of each node in it the parts are stored where they
/// belong.
pub proof fn expr_is_stored(e: ExprV, value: bool, id: int, out: Expression, parent: u32)
    requires
        is_expr(e, value, id, out),
    ensures
        complete(expr_log(e, out, parent)),
        held(expr_log(e, out, parent), node_of(out), parent as int),
    decreases e, 1nat,
{
    match e {
        ExprV::Array { .. }
        | ExprV::Assign { .. }
        | ExprV::Binary { .. }
        | ExprV::Unary { .. }
        | ExprV::Break { .. } => {
            lemma_exprs_a(e, value, id, out, parent);
        },
        ExprV::Block { .. }
        | ExprV::Call { .. }
        | ExprV::Cast { .. }
        | ExprV::Closure { .. }
        | ExprV::Const { .. } => {
            lemma_exprs_b(e, value, id, out, parent);
        },
        ExprV::ForLoop { .. }
        | ExprV::Field { .. }
        | ExprV::If { .. }
        | ExprV::Index { .. }
        | ExprV::Let { .. } => {
            lemma_exprs_c(e, value, id, out, parent);
        },
        ExprV::Loop { .. }
        | ExprV::Match { .. }
        | ExprV::MethodCall { .. }
        | ExprV::Paren { .. }
        | ExprV::Range { .. } => {
            lemma_exprs_d(e, value, id, out, parent);
        },
        ExprV::RawAddr { .. }
        | ExprV::Reference { .. }
        | ExprV::Repeat { .. }
        | ExprV::Return { .. }
        | ExprV::Struct { .. } => {
            lemma_exprs_e(e, value, id, out, parent);
        },
        ExprV::Try { .. }
        | ExprV::TryBlock { .. }
        | ExprV::Tuple { .. }
        | ExprV::Unsafe { .. }
        | ExprV::While { .. } => {
            lemma_exprs_f(e, value, id, out, parent);
        },
        ExprV::Continue { .. }
        | ExprV::Infer { .. }
        | ExprV::Lit { .. }
        | ExprV::Macro { .. }
        | ExprV::Path { .. } => {
            lemma_exprs_g(e, value, id, out, parent);
        },
        _ => {},
    }
}

proof fn lemma_exprs_a(e: ExprV, value: bool, id: int, out: Expression, parent: u32)
    requires
        is_expr(e, value, id, out),
        e is Array
            || e is Assign
            || e is Binary
            || e is Unary
            || e is Break,
    ensures
        complete(expr_log(e, out, parent)),
        held(expr_log(e, out, parent), node_of(out), parent as int),
    decreases e, 0nat,
{
    let own = node_of(out);
    lemma_nothing();
    match e {
        ExprV::Array { elems, .. } => {
            let x = inner(out->Array_0);
            exprs_are_stored(elems, id + 1, x.elements@, x.id);
            let l0 = exprs_log(elems, x.elements@, x.id);
            lemma_own(l0, own, parent);
        },
        ExprV::Assign { left, right, .. } => {
            let x = inner(out->Assign_0);
            expr_is_stored(*left, false, id + 1, x.left, x.id);
            expr_is_stored(*right, false, id + 1 + expr_ids(*left), x.right, x.id);
            let l0 = expr_log(*left, x.left, x.id);
            let l1 = expr_log(*right, x.right, x.id);
            lemma_cat(l0, l1);
            lemma_own(l0 + l1, own, parent);
        },
        ExprV::Binary { left, right, .. } => {
            let x = inner(out->Binary_0);
            expr_is_stored(*left, false, id + 1, x.left, x.id);
            expr_is_stored(*right, false, id + 1 + expr_ids(*left), x.right, x.id);
            let l0 = expr_log(*left, x.left, x.id);
            let l1 = expr_log(*right, x.right, x.id);
            lemma_cat(l0, l1);
            lemma_own(l0 + l1, own, parent);
        },
        ExprV::Unary { expr, .. } => {
            let x = inner(out->Unary_0);
            expr_is_stored(*expr, false, id + 1, x.expression, x.id);
            let l0 = expr_log(*expr, x.expression, x.id);
            lemma_own(l0, own, parent);
        },
        ExprV::Break { expr, .. } => {
            let x = inner(out->Break_0);
            opt_expr_is_stored(expr, id + 1, x.expression, x.id);
            let l0 = opt_expr_log(expr, x.expression, x.id);
            lemma_own(l0, own, parent);
        },
        _ => {},
    }
}

proof fn lemma_exprs_b(e: ExprV, value: bool, id: int, out: Expression, parent: u32)
    requires
        is_expr(e, value, id, out),
        e is Block
            || e is Call
            || e is Cast
            || e is Closure
            || e is Const,
    ensures
        complete(expr_log(e, out, parent)),
        held(expr_log(e, out, parent), node_of(out), parent as int),
    decreases e, 0nat,
{
    let own = node_of(out);
    lemma_nothing();
    match e {
        ExprV::Block { block, .. } => {
            let x = inner(out->EBlock_0);
            block_is_stored(block, id + 1, x.block, x.id);
            let l0 = block_log(block, x.block, x.id);
            let l1 = stored_stmt(Statement::Block(x.block), parent);
            lemma_parts_of_held(l0, block_node(x.block), x.id);
            lemma_own(l0, block_node(x.block), parent);
            lemma_own(l0 + l1, own, parent);
        },
        ExprV::Call { func, args, .. } => {
            let x = inner(out->FunctionCall_0);
            exprs_are_stored(args, id + 1, x.parameters@, x.id);
            expr_is_stored(*func, false, id + 1 + exprs_ids(args), x.expression, x.id);
            let l0 = exprs_log(args, x.parameters@, x.id);
            let l1 = expr_log(*func, x.expression, x.id);
            lemma_cat(l0, l1);
            lemma_own(l0 + l1, own, parent);
        },
        ExprV::Cast { expr, .. } => {
            let x = inner(out->Cast_0);
            expr_is_stored(*expr, false, id + 1, x.base, x.id);
            let l0 = expr_log(*expr, x.base, x.id);
            let l1 = stored_type(x.target_type, x.id);
            lemma_leaf(NodeKind::Type(x.target_type), x.id);
            lemma_cat(l0, l1);
            lemma_own(l0 + l1, own, parent);
        },
        ExprV::Closure { capture, body, .. } => {
            let x = inner(out->Closure_0);
            expr_is_stored(*body, false, id + 1, x.body, x.id);
            lemma_names_stored(capture, id + 1 + expr_ids(*body), x.captures@, x.id);
            let l0 = expr_log(*body, x.body, x.id);
            let l1 = captures_log(x.captures@, x.id);
            let l2 = stored_type(x.returns, x.id);
            let l3 = stored_expr(x.body, x.id);
            lemma_leaf(NodeKind::Type(x.returns), x.id);
            lemma_cat(l0, l1);
            lemma_cat(l0 + l1, l2);
            lemma_expr_again(l0 + l1 + l2, x.body, x.id);
            lemma_own(l0 + l1 + l2 + l3, own, parent);
        },
        ExprV::Const { block } => {
            let x = inner(out->Const_0);
            block_is_stored(block, id + 1, x.block, parent);
            let l0 = block_log(block, x.block, parent);
            lemma_own(l0, own, parent);
        },
        _ => {},
    }
}

proof fn lemma_exprs_c(e: ExprV, value: bool, id: int, out: Expression, parent: u32)
    requires
        is_expr(e, value, id, out),
        e is ForLoop
            || e is Field
            || e is If
            || e is Index
            || e is Let,
    ensures
        complete(expr_log(e, out, parent)),
        held(expr_log(e, out, parent), node_of(out), parent as int),
    decreases e, 0nat,
{
    let own = node_of(out);
    lemma_nothing();
    match e {
        ExprV::ForLoop { expr, body, .. } => {
            let x = inner(out->ForLoop_0);
            block_is_stored(body, id + 1, x.block, parent);
            expr_is_stored(*expr, false, id + 1 + block_ids(body), x.expression, x.id);
            let l0 = block_log(body, x.block, parent);
            let l1 = expr_log(*expr, x.expression, x.id);
            lemma_cat(l0, l1);
            lemma_own(l0 + l1, own, parent);
        },
        ExprV::Field { base, .. } => {
            let x = inner(out->MemberAccess_0);
            expr_is_stored(*base, false, id + 1, x.base, x.id);
            let l0 = expr_log(*base, x.base, x.id);
            lemma_own(l0, own, parent);
        },
        ExprV::If { cond, then_branch, else_branch, .. } => {
            let x = inner(out->If_0);
            block_is_stored(then_branch, id + 1, x.then_branch, parent);
            expr_is_stored(*cond, false, id + 1 + block_ids(then_branch), x.condition, x.id);
            opt_expr_is_stored(else_branch, id + 1 + block_ids(then_branch)
                + expr_ids(*cond), x.else_branch, x.id);
            let l0 = block_log(then_branch, x.then_branch, parent);
            let l1 = expr_log(*cond, x.condition, x.id);
            let l2 = opt_expr_log(else_branch, x.else_branch, x.id);
            lemma_cat(l0, l1);
            lemma_cat(l0 + l1, l2);
            lemma_own(l0 + l1 + l2, own, parent);
        },
        ExprV::Index { expr, index, .. } => {
            let x = inner(out->IndexAccess_0);
            expr_is_stored(*expr, false, id + 1, x.base, x.id);
            expr_is_stored(*index, false, id + 1 + expr_ids(*expr), x.index, x.id);
            let l0 = expr_log(*expr, x.base, x.id);
            let l1 = expr_log(*index, x.index, x.id);
            lemma_cat(l0, l1);
            lemma_own(l0 + l1, own, parent);
        },
        ExprV::Let { expr, .. } => {
            let x = inner(out->LetGuard_0);
            expr_is_stored(*expr, false, id + 2, x.value, x.id);
            let l0 = stored(NodeKind::Pattern(x.guard), x.id);
            let l1 = expr_log(*expr, x.value, x.id);
            lemma_leaf(NodeKind::Pattern(x.guard), x.id);
            lemma_cat(l0, l1);
            lemma_own(l0 + l1, own, parent);
        },
        _ => {},
    }
}

proof fn lemma_exprs_d(e: ExprV, value: bool, id: int, out: Expression, parent: u32)
    requires
        is_expr(e, value, id, out),
        e is Loop
            || e is Match
            || e is MethodCall
            || e is Paren
            || e is Range,
    ensures
        complete(expr_log(e, out, parent)),
        held(expr_log(e, out, parent), node_of(out), parent as int),
    decreases e, 0nat,
{
    let own = node_of(out);
    lemma_nothing();
    match e {
        ExprV::Loop { body, .. } => {
            let x = inner(out->Loop_0);
            block_is_stored(body, id + 1, x.block, parent);
            let l0 = block_log(body, x.block, parent);
            lemma_own(l0, own, parent);
        },
        ExprV::Match { expr, arms, .. } => {
            let x = inner(out->Match_0);
            expr_is_stored(*expr, false, id + 1, x.expression, x.id);
            arms_are_stored(arms, id + 1 + expr_ids(*expr), x.arms@, x.id);
            let l0 = expr_log(*expr, x.expression, x.id);
            let l1 = arms_log(arms, x.arms@, x.id);
            lemma_cat(l0, l1);
            lemma_own(l0 + l1, own, parent);
        },
        ExprV::MethodCall { receiver, args, .. } => {
            let x = inner(out->MethodCall_0);
            expr_is_stored(*receiver, false, id + 1, x.base, x.id);
            exprs_are_stored(args, id + 1 + expr_ids(*receiver), x.parameters@, x.id);
            let l0 = expr_log(*receiver, x.base, x.id);
            let l1 = exprs_log(args, x.parameters@, x.id);
            lemma_cat(l0, l1);
            lemma_own(l0 + l1, own, parent);
        },
        ExprV::Paren { expr, .. } => {
            let x = inner(out->Parenthesized_0);
            expr_is_stored(*expr, false, id + 1, x.expression, x.id);
            let l0 = expr_log(*expr, x.expression, x.id);
            lemma_own(l0, own, parent);
        },
        ExprV::Range { start, end, .. } => {
            let x = inner(out->Range_0);
            opt_expr_is_stored(start, id + 1, x.start, x.id);
            opt_expr_is_stored(end, id + 1 + opt_expr_ids(start), x.end, x.id);
            let l0 = opt_expr_log(start, x.start, x.id);
            let l1 = opt_expr_log(end, x.end, x.id);
            lemma_cat(l0, l1);
            lemma_own(l0 + l1, own, parent);
        },
        _ => {},
    }
}

proof fn lemma_exprs_e(e: ExprV, value: bool, id: int, out: Expression, parent: u32)
    requires
        is_expr(e, value, id, out),
        e is RawAddr
            || e is Reference
            || e is Repeat
            || e is Return
            || e is Struct,
    ensures
        complete(expr_log(e, out, parent)),
        held(expr_log(e, out, parent), node_of(out), parent as int),
    decreases e, 0nat,
{
    let own = node_of(out);
    lemma_nothing();
    match e {
        ExprV::RawAddr { expr, .. } => {
            let x = inner(out->Addr_0);
            expr_is_stored(*expr, false, id + 1, x.expression, x.id);
            let l0 = expr_log(*expr, x.expression, x.id);
            lemma_own(l0, own, parent);
        },
        ExprV::Reference { expr, .. } => {
            let x = inner(out->Reference_0);
            expr_is_stored(*expr, false, id + 1, x.inner, x.id);
            let l0 = expr_log(*expr, x.inner, x.id);
            lemma_own(l0, own, parent);
        },
        ExprV::Repeat { expr, len, .. } => {
            let x = inner(out->Repeat_0);
            expr_is_stored(*expr, false, id + 1, x.expression, x.id);
            expr_is_stored(*len, false, id + 1 + expr_ids(*expr), x.count, x.id);
            let l0 = expr_log(*expr, x.expression, x.id);
            let l1 = expr_log(*len, x.count, x.id);
            lemma_cat(l0, l1);
            lemma_own(l0 + l1, own, parent);
        },
        ExprV::Return { expr, .. } => {
            let x = inner(out->Return_0);
            opt_expr_is_stored(expr, id + 1, x.expression, x.id);
            let l0 = opt_expr_log(expr, x.expression, x.id);
            lemma_own(l0, own, parent);
        },
        ExprV::Struct { fields, rest, .. } => {
            let x = inner(out->EStruct_0);
            field_values_are_stored(fields, id, x.fields@, parent);
            opt_expr_is_stored(rest, id + field_values_ids(fields), x.rest_dots, parent);
            let l0 = field_values_log(fields, x.fields@, parent);
            let l1 = opt_expr_log(rest, x.rest_dots, parent);
            lemma_cat(l0, l1);
            lemma_own(l0 + l1, own, parent);
        },
        _ => {},
    }
}

proof fn lemma_exprs_f(e: ExprV, value: bool, id: int, out: Expression, parent: u32)
    requires
        is_expr(e, value, id, out),
        e is Try
            || e is TryBlock
            || e is Tuple
            || e is Unsafe
            || e is While,
    ensures
        complete(expr_log(e, out, parent)),
        held(expr_log(e, out, parent), node_of(out), parent as int),
    decreases e, 0nat,
{
    let own = node_of(out);
    lemma_nothing();
    match e {
        ExprV::Try { expr, .. } => {
            let x = inner(out->Try_0);
            expr_is_stored(*expr, false, id + 1, x.expression, x.id);
            let l0 = expr_log(*expr, x.expression, x.id);
            lemma_own(l0, own, parent);
        },
        ExprV::TryBlock { block } => {
            let x = inner(out->EBlock_0);
            block_is_stored(block, id + 1, x.block, parent);
            let l0 = block_log(block, x.block, parent);
            lemma_own(l0, own, parent);
        },
        ExprV::Tuple { elems, .. } => {
            let x = inner(out->Tuple_0);
            exprs_are_stored(elems, id + 1, x.elements@, x.id);
            let l0 = exprs_log(elems, x.elements@, x.id);
            lemma_own(l0, own, parent);
        },
        ExprV::Unsafe { block, .. } => {
            let x = inner(out->Unsafe_0);
            block_is_stored(block, id + 1, x.block, parent);
            let l0 = block_log(block, x.block, parent);
            lemma_own(l0, own, parent);
        },
        ExprV::While { cond, body, .. } => {
            let x = inner(out->While_0);
            block_is_stored(body, id + 1, x.block, parent);
            expr_is_stored(*cond, false, id + 1 + block_ids(body), x.condition, x.id);
            let l0 = block_log(body, x.block, parent);
            let l1 = expr_log(*cond, x.condition, x.id);
            lemma_cat(l0, l1);
            lemma_own(l0 + l1, own, parent);
        },
        _ => {},
    }
}

proof fn lemma_exprs_g(e: ExprV, value: bool, id: int, out: Expression, parent: u32)
    requires
        is_expr(e, value, id, out),
        e is Continue
            || e is Infer
            || e is Lit
            || e is Macro
            || e is Path,
    ensures
        complete(expr_log(e, out, parent)),
        held(expr_log(e, out, parent), node_of(out), parent as int),
    decreases e, 0nat,
{
    let own = node_of(out);
    lemma_nothing();
    match e {
        ExprV::Continue { .. } => {
            lemma_leaf(own, parent);
        },
        ExprV::Infer { .. } => {
            lemma_leaf(own, parent);
        },
        ExprV::Lit { .. } => {
            lemma_leaf(own, parent);
        },
        ExprV::Macro { .. } => {
            lemma_leaf(own, parent);
        },
        ExprV::Path { .. } => {
            lemma_leaf(NodeKind::Expression(out), parent);
            assert(bare(NodeKind::Expression(out)) == bare(own));
        },
        _ => {},
    }
}

proof fn opt_expr_is_stored(o: Option<Box<ExprV>>, id: int, out: Option<Expression>, parent: u32)
    requires
        is_opt_expr(o, id, out),
    ensures
        complete(opt_expr_log(o, out, parent)),
        out matches Some(x) ==> held(opt_expr_log(o, out, parent), node_of(x), parent as int),
    decreases o, 0nat,
{
    lemma_nothing();
    if let Some(e) = o {
        expr_is_stored(*e, false, id, out->0, parent);
    }
}

proof fn exprs_are_stored(s: Seq<ExprV>, id: int, out: Seq<Expression>, parent: u32)
    requires
        is_exprs(s, id, out),
    ensures
        complete(exprs_log(s, out, parent)),
        forall|k: int|
            0 <= k < out.len() ==> held(
                exprs_log(s, out, parent),
                node_of(#[trigger] out[k]),
                parent as int,
            ),
    decreases s, 0nat,
{
    lemma_nothing();
    if s.len() > 0 {
        let fewer = out.drop_last();
        let a = exprs_log(s.drop_last(), fewer, parent);
        let b = expr_log(s.last(), out.last(), parent);
        exprs_are_stored(s.drop_last(), id, fewer, parent);
        expr_is_stored(s.last(), false, id + exprs_ids(s.drop_last()), out.last(), parent);
        lemma_cat(a, b);
        assert forall|k: int| 0 <= k < out.len() implies held(
            a + b,
            node_of(#[trigger] out[k]),
            parent as int,
        ) by {
            if k < fewer.len() {
                assert(fewer[k] == out[k]);
                assert(held(a, node_of(fewer[k]), parent as int));
            }
        }
    }
}

proof fn arms_are_stored(s: Seq<ArmV>, id: int, out: Seq<MatchArm>, parent: u32)
    requires
        is_arms(s, id, out),
    ensures
        complete(arms_log(s, out, parent)),
        forall|k: int|
            0 <= k < out.len() ==> held(
                arms_log(s, out, parent),
                node_of((#[trigger] out[k]).expression),
                parent as int,
            ),
    decreases s, 0nat,
{
    lemma_nothing();
    if s.len() > 0 {
        let fewer = out.drop_last();
        let at = id + arms_ids(s.drop_last());
        let a = arms_log(s.drop_last(), fewer, parent);
        let b = expr_log(s.last().body, out.last().expression, parent);
        arms_are_stored(s.drop_last(), id, fewer, parent);
        expr_is_stored(s.last().body, false, at + 1, out.last().expression, parent);
        lemma_cat(a, b);
        assert forall|k: int| 0 <= k < out.len() implies held(
            a + b,
            node_of((#[trigger] out[k]).expression),
            parent as int,
        ) by {
            if k < fewer.len() {
                assert(fewer[k] == out[k]);
                assert(held(a, node_of(fewer[k].expression), parent as int));
            }
        }
    }
}

proof fn field_values_are_stored(
    s: Seq<FieldValueV>,
    id: int,
    out: Seq<(String, Expression)>,
    parent: u32,
)
    requires
        is_field_values(s, id, out),
    ensures
        complete(field_values_log(s, out, parent)),
        forall|k: int|
            0 <= k < out.len() ==> held(
                field_values_log(s, out, parent),
                node_of((#[trigger] out[k]).1),
                parent as int,
            ),
    decreases s, 0nat,
{
    lemma_nothing();
    if s.len() > 0 {
        let fewer = out.drop_last();
        let at = id + field_values_ids(s.drop_last());
        let a = field_values_log(s.drop_last(), fewer, parent);
        let b = expr_log(s.last().expr, out.last().1, parent);
        field_values_are_stored(s.drop_last(), id, fewer, parent);
        expr_is_stored(s.last().expr, false, at, out.last().1, parent);
        lemma_cat(a, b);
        assert forall|k: int| 0 <= k < out.len() implies held(
            a + b,
            node_of((#[trigger] out[k]).1),
            parent as int,
        ) by {
            if k < fewer.len() {
                assert(fewer[k] == out[k]);
                assert(held(a, node_of(fewer[k].1), parent as int));
            }
        }
    }
}

/// Blocks.
pub proof fn block_is_stored(b: BlockV, id: int, out: Rc<Block>, parent: u32)
    requires
        is_block(b, id, *out),
    ensures
        complete(block_log(b, out, parent)),
        held(block_log(b, out, parent), block_node(out), parent as int),
    decreases b, 0nat,
{
    stmts_are_stored(b.stmts, id + 1, out.statements@, out.id);
    let a = stmts_log(b.stmts, out.statements@, out.id);
    let n = block_node(out);
    assert forall|k: int| 0 <= k < parts(n).len() implies held(
        a,
        #[trigger] parts(n)[k],
        holder(n, parts(n)[k], parent),
    ) by {
        assert(parts(n)[k] == NodeKind::Statement(out.statements@[k]));
        assert(holder(n, parts(n)[k], parent) == out.id);
    }
    lemma_own(a, n, parent);
}

proof fn stmts_are_stored(s: Seq<StmtV>, id: int, out: Seq<Statement>, parent: u32)
    requires
        is_stmts(s, id, out),
    ensures
        complete(stmts_log(s, out, parent)),
        forall|k: int|
            0 <= k < out.len() ==> held(
                stmts_log(s, out, parent),
                NodeKind::Statement(#[trigger] out[k]),
                parent as int,
            ),
    decreases s, 0nat,
{
    lemma_nothing();
    if s.len() > 0 {
        if is_use_stmt(s.last()) {
            stmts_are_stored(s.drop_last(), id, out, parent);
        } else {
            let fewer = out.drop_last();
            let a = stmts_log(s.drop_last(), fewer, parent);
            let b = stmt_log(s.last(), out.last(), parent);
            stmts_are_stored(s.drop_last(), id, fewer, parent);
            stmt_is_stored(s.last(), id + stmts_ids(s.drop_last()), out.last(), parent);
            lemma_cat(a, b);
            assert forall|k: int| 0 <= k < out.len() implies held(
                a + b,
                NodeKind::Statement(#[trigger] out[k]),
                parent as int,
            ) by {
                if k < fewer.len() {
                    assert(fewer[k] == out[k]);
                    assert(held(a, NodeKind::Statement(fewer[k]), parent as int));
                }
            }
        }
    }
}

/// An expression that is held can be stored once more.
proof fn lemma_expr_again(a: Seq<StoredNode>, x: Expression, parent: u32)
    requires
        complete(a),
        held(a, node_of(x), parent as int),
    ensures
        complete(a + stored_expr(x, parent)),
        forall|m: NodeKind, p: int|
            held(a, m, p) ==> #[trigger] held(a + stored_expr(x, parent), m, p),
{
    lemma_parts_of_held(a, node_of(x), parent);
    lemma_own(a, node_of(x), parent);
}

/// Statements.
pub proof fn stmt_is_stored(s: StmtV, id: int, out: Statement, parent: u32)
    requires
        is_stmt(s, id, out),
    ensures
        complete(stmt_log(s, out, parent)),
        held(stmt_log(s, out, parent), NodeKind::Statement(out), parent as int),
    decreases s, 0nat,
{
    let n = NodeKind::Statement(out);
    lemma_nothing();
    match s {
        StmtV::Expression { expr, semi } => {
            expr_is_stored(expr, !semi, id, out->Expression_0, parent);
        },
        StmtV::Local { init, .. } => {
            let x = inner(out->Let_0);
            let none = Seq::<StoredNode>::empty();
            match init {
                Some(i) => {
                    let v = x.initial_value->0;
                    let l0 = expr_log(i.expr, v, x.id);
                    let l1 = l0 + stored_expr(v, x.id);
                    expr_is_stored(i.expr, false, id + 2, v, x.id);
                    lemma_expr_again(l0, v, x.id);
                    match i.diverge {
                        Some(d) => {
                            let w = x.initial_value_alternative->0;
                            let r0 = expr_log(*d, w, x.id);
                            let r1 = r0 + stored_expr(w, x.id);
                            expr_is_stored(*d, false, id + 2 + expr_ids(i.expr), w, x.id);
                            lemma_expr_again(r0, w, x.id);
                            lemma_cat(l1, r1);
                            lemma_own(l1 + r1, n, parent);
                        },
                        None => {
                            assert(l1 + none =~= l1);
                            lemma_own(l1, n, parent);
                        },
                    }
                },
                None => {
                    lemma_own(none, n, parent);
                },
            }
        },
        StmtV::Macro { .. } => {
            lemma_leaf(n, parent);
        },
        StmtV::Definition(item) => {
            let d = out->Definition_0;
            item_is_stored(item, id, d, parent);
            assert(bare(n) == bare(NodeKind::Definition(d)));
        },
    }
}

proof fn lemma_params_stored(s: Seq<Rc<FnParameter>>, parent: u32)
    ensures
        complete(params_log(s, parent)),
        forall|k: int|
            0 <= k < s.len() ==> held(
                params_log(s, parent),
                NodeKind::Misc(Misc::FnParameter(#[trigger] s[k])),
                parent as int,
            ),
{
    let log = params_log(s, parent);
    reveal(complete);
    assert forall|k: int| 0 <= k < s.len() implies held(
        log,
        NodeKind::Misc(Misc::FnParameter(#[trigger] s[k])),
        parent as int,
    ) by {
        assert(log[k].node == NodeKind::Misc(Misc::FnParameter(s[k])));
    }
}

proof fn lemma_fields_stored(s: Seq<Rc<Field>>, parent: u32)
    ensures
        complete(fields_log(s, parent)),
        forall|k: int|
            0 <= k < s.len() ==> held(
                fields_log(s, parent),
                NodeKind::Misc(Misc::Field(#[trigger] s[k])),
                parent as int,
            ),
{
    let log = fields_log(s, parent);
    reveal(complete);
    assert forall|k: int| 0 <= k < s.len() implies held(
        log,
        NodeKind::Misc(Misc::Field(#[trigger] s[k])),
        parent as int,
    ) by {
        assert(log[k].node == NodeKind::Misc(Misc::Field(s[k])));
    }
}

proof fn lemma_imports_stored(s: Seq<Rc<Use>>, parent: u32)
    ensures
        complete(imports_log(s, parent)),
        forall|k: int|
            0 <= k < s.len() ==> held(
                imports_log(s, parent),
                NodeKind::Directive(Directive::Use(#[trigger] s[k])),
                parent as int,
            ),
{
    let log = imports_log(s, parent);
    reveal(complete);
    assert forall|k: int| 0 <= k < s.len() implies held(
        log,
        NodeKind::Directive(Directive::Use(#[trigger] s[k])),
        parent as int,
    ) by {
        assert(log[k].node == NodeKind::Directive(Directive::Use(s[k])));
    }
}

/// Functions with a body.
pub proof fn fn_is_stored(f: FnV, own: Option<Seq<char>>, id: int, out: Rc<Function>, parent: u32)
    requires
        is_fn(f, own, id, *out),
    ensures
        complete(fn_log(f, out, parent)),
        held(fn_log(f, out, parent), NodeKind::Definition(Definition::Function(out)), parent as int),
    decreases f, 0nat,
{
    let n = NodeKind::Definition(Definition::Function(out));
    let b = out.body->0;
    let l0 = params_log(out.parameters@, out.id);
    let l1 = block_log(f.block, b, out.id);
    lemma_params_stored(out.parameters@, out.id);
    block_is_stored(f.block, id + 1 + params_ids(f.sig.inputs), b, out.id);
    lemma_cat(l0, l1);
    lemma_parts_of_held(l0 + l1, block_node(b), out.id);
    lemma_own(l0 + l1, block_node(b), out.id);
    let all = l0 + l1 + stored_stmt(Statement::Block(b), out.id);
    assert forall|k: int| 0 <= k < parts(n).len() implies held(
        all,
        #[trigger] parts(n)[k],
        holder(n, parts(n)[k], parent),
    ) by {
        if k < out.parameters@.len() {
            assert(parts(n)[k] == NodeKind::Misc(Misc::FnParameter(out.parameters@[k])));
            assert(held(l0, parts(n)[k], out.id as int));
            assert(held(l0 + l1, parts(n)[k], out.id as int));
        } else {
            assert(parts(n)[k] == block_node(b));
        }
    }
    lemma_own(all, n, parent);
}

/// Definitions: what stands in a definition is stored under it, whatever its kind.
pub proof fn item_is_stored(i: ItemV, id: int, out: Definition, parent: u32)
    requires
        is_item(i, id, out),
    ensures
        complete(item_log(i, out, parent)),
        held(item_log(i, out, parent), NodeKind::Definition(out), parent as int),
    decreases i, 1nat,
{
    let n = NodeKind::Definition(out);
    lemma_nothing();
    match i {
        ItemV::Const(c) => {
            let x = inner(out->Const_0);
            let v = x.value->0;
            let l0 = expr_log(c.expr, v, x.id);
            expr_is_stored(c.expr, false, id + 1, v, x.id);
            lemma_expr_again(l0, v, x.id);
            lemma_own(l0 + stored_expr(v, x.id), n, parent);
        },
        ItemV::Fn(f) => {
            fn_is_stored(f, None, id, out->Function_0, parent);
        },
        ItemV::Impl { self_ty, items, .. } => {
            let x = inner(out->Implementation_0);
            let own = crate::text::no_spaces(self_ty.text);
            impl_items_are_stored(items, own, id + 2, parts_of(x), x.id);
            lemma_own(impl_items_log(items, parts_of(x), x.id), n, parent);
        },
        ItemV::Macro(_) => {
            let m = NodeKind::Statement(Statement::Definition(out));
            lemma_leaf(m, parent);
            assert(bare(m) == bare(n));
        },
        ItemV::Mod { content, .. } => {
            module_is_stored(i, id, out, parent);
        },
        ItemV::Static { expr, .. } => {
            let x = inner(out->Static_0);
            expr_is_stored(expr, false, id + 2, x.value, x.id);
            lemma_own(expr_log(expr, x.value, x.id), n, parent);
        },
        ItemV::Trait { vis, items, .. } => {
            let x = inner(out->Trait_0);
            trait_items_are_stored(
                items,
                crate::kinds::visibility_of(vis),
                id + 1,
                x.items@,
                x.id,
            );
            lemma_own(trait_items_log(items, x.items@, x.id), n, parent);
        },
        ItemV::Union { .. } => {
            let x = inner(out->Union_0);
            lemma_fields_stored(x.fields@, x.id);
            let l0 = fields_log(x.fields@, x.id);
            assert forall|k: int| 0 <= k < parts(n).len() implies held(
                l0,
                #[trigger] parts(n)[k],
                holder(n, parts(n)[k], parent),
            ) by {
                assert(parts(n)[k] == NodeKind::Misc(Misc::Field(x.fields@[k])));
            }
            lemma_own(l0, n, parent);
        },
        _ => {
            lemma_leaf(n, parent);
        },
    }
}

proof fn module_is_stored(i: ItemV, id: int, out: Definition, parent: u32)
    requires
        i is Mod,
        is_item(i, id, out),
    ensures
        complete(item_log(i, out, parent)),
        held(item_log(i, out, parent), NodeKind::Definition(out), parent as int),
    decreases i, 0nat,
{
    let n = NodeKind::Definition(out);
    let x = inner(out->Module_0);
    lemma_nothing();
    match i {
        ItemV::Mod { content: Some(items), .. } => {
            let defs = x.definitions->0@;
            let uses = x.imports->0@;
            let l0 = definitions_log(items, defs, x.id);
            let l1 = imports_log(uses, x.id);
            definitions_are_stored(items, id + 1, defs, x.id);
            lemma_imports_stored(uses, x.id);
            lemma_cat(l0, l1);
            assert forall|k: int| 0 <= k < parts(n).len() implies held(
                l0 + l1,
                #[trigger] parts(n)[k],
                holder(n, parts(n)[k], parent),
            ) by {
                if k < defs.len() {
                    assert(parts(n)[k] == NodeKind::Definition(defs[k]));
                    assert(held(l0, parts(n)[k], x.id as int));
                } else {
                    let j = k - defs.len();
                    assert(parts(n)[k] == NodeKind::Directive(Directive::Use(uses[j])));
                    assert(held(l1, parts(n)[k], x.id as int));
                }
            }
            lemma_own(l0 + l1, n, parent);
        },
        _ => {
            lemma_own(Seq::empty(), n, parent);
        },
    }
}

proof fn definitions_are_stored(s: Seq<ItemV>, id: int, out: Seq<Definition>, parent: u32)
    requires
        is_definitions(s, id, out),
    ensures
        complete(definitions_log(s, out, parent)),
        forall|k: int|
            0 <= k < out.len() ==> held(
                definitions_log(s, out, parent),
                NodeKind::Definition(#[trigger] out[k]),
                parent as int,
            ),
    decreases s, 0nat,
{
    lemma_nothing();
    if s.len() > 0 {
        if is_use_item(s.last()) {
            definitions_are_stored(s.drop_last(), id, out, parent);
        } else {
            let fewer = out.drop_last();
            let a = definitions_log(s.drop_last(), fewer, parent);
            let b = item_log(s.last(), out.last(), parent);
            definitions_are_stored(s.drop_last(), id, fewer, parent);
            item_is_stored(s.last(), id + definitions_ids(s.drop_last()), out.last(), parent);
            lemma_cat(a, b);
            assert forall|k: int| 0 <= k < out.len() implies held(
                a + b,
                NodeKind::Definition(#[trigger] out[k]),
                parent as int,
            ) by {
                if k < fewer.len() {
                    assert(fewer[k] == out[k]);
                    assert(held(a, NodeKind::Definition(fewer[k]), parent as int));
                }
            }
        }
    }
}

/// What stands in the lists of an `impl` block is held.
spec fn impl_held(log: Seq<StoredNode>, p: ImplParts, parent: int) -> bool {
    &&& forall|k: int|
        0 <= k < p.functions.len() ==> held(
            log,
            NodeKind::Definition(Definition::Function(#[trigger] p.functions[k])),
            parent,
        )
    &&& forall|k: int|
        0 <= k < p.constants.len() ==> held(
            log,
            NodeKind::Definition(Definition::Const(#[trigger] p.constants[k])),
            parent,
        )
    &&& forall|k: int|
        0 <= k < p.type_aliases.len() ==> held(
            log,
            NodeKind::Definition(Definition::AssocType(#[trigger] p.type_aliases[k])),
            parent,
        )
    &&& forall|k: int|
        0 <= k < p.macros.len() ==> held(
            log,
            NodeKind::Definition(Definition::Macro(#[trigger] p.macros[k])),
            parent,
        )
    &&& forall|k: int|
        0 <= k < p.planes.len() ==> held(
            log,
            NodeKind::Definition(Definition::Plane(#[trigger] p.planes[k])),
            parent,
        )
}

proof fn impl_items_are_stored(
    s: Seq<ImplItemV>,
    own: Seq<char>,
    id: int,
    p: ImplParts,
    parent: u32,
)
    requires
        is_impl_items(s, own, id, p),
    ensures
        complete(impl_items_log(s, p, parent)),
        impl_held(impl_items_log(s, p, parent), p, parent as int),
        forall|k: int|
            0 <= k < impl_nodes(p).len() ==> held(
                impl_items_log(s, p, parent),
                #[trigger] impl_nodes(p)[k],
                parent as int,
            ),
    decreases s, 0nat,
{
    lemma_nothing();
    let all = impl_items_log(s, p, parent);
    if s.len() > 0 {
        let i = s.last();
        let q = without_last(p, i);
        let a = impl_items_log(s.drop_last(), q, parent);
        let b = last_part_log(i, p, parent);
        impl_items_are_stored(s.drop_last(), own, id, q, parent);
        last_part_is_stored(i, own, id + impl_items_ids(s.drop_last()), p, parent);
        lemma_cat(a, b);
        lemma_impl_held(a, b, p, i, parent);
    }
    lemma_impl_nodes(all, p, parent);
}

proof fn lemma_impl_nodes(log: Seq<StoredNode>, p: ImplParts, parent: u32)
    requires
        impl_held(log, p, parent as int),
    ensures
        forall|k: int|
            0 <= k < impl_nodes(p).len() ==> held(
                log,
                #[trigger] impl_nodes(p)[k],
                parent as int,
            ),
{
    let f = p.functions.len() as int;
    let c = f + p.constants.len();
    let t = c + p.type_aliases.len();
    let m = t + p.macros.len();
    assert forall|k: int| 0 <= k < impl_nodes(p).len() implies held(
        log,
        #[trigger] impl_nodes(p)[k],
        parent as int,
    ) by {
        if k < f {
            assert(impl_nodes(p)[k] == NodeKind::Definition(Definition::Function(p.functions[k])));
        } else if k < c {
            assert(impl_nodes(p)[k] == NodeKind::Definition(Definition::Const(p.constants[k - f])));
        } else if k < t {
            assert(impl_nodes(p)[k] == NodeKind::Definition(
                Definition::AssocType(p.type_aliases[k - c]),
            ));
        } else if k < m {
            assert(impl_nodes(p)[k] == NodeKind::Definition(Definition::Macro(p.macros[k - t])));
        } else {
            assert(impl_nodes(p)[k] == NodeKind::Definition(Definition::Plane(p.planes[k - m])));
        }
    }
}

/// The node that an item of an `impl` block becomes.
spec fn last_node(i: ImplItemV, p: ImplParts) -> NodeKind {
    NodeKind::Definition(
        match i {
            ImplItemV::Fn(_) => Definition::Function(p.functions.last()),
            ImplItemV::Const(_) => Definition::Const(p.constants.last()),
            ImplItemV::Type(_) => Definition::AssocType(p.type_aliases.last()),
            ImplItemV::Macro(_) => Definition::Macro(p.macros.last()),
            ImplItemV::Verbatim(_) => Definition::Plane(p.planes.last()),
        },
    )
}

proof fn lemma_impl_held(
    a: Seq<StoredNode>,
    b: Seq<StoredNode>,
    p: ImplParts,
    i: ImplItemV,
    parent: u32,
)
    requires
        impl_held(a, without_last(p, i), parent as int),
        held(b, last_node(i, p), parent as int),
        forall|n: NodeKind, p: int| held(a, n, p) ==> #[trigger] held(a + b, n, p),
        forall|n: NodeKind, p: int| held(b, n, p) ==> #[trigger] held(a + b, n, p),
    ensures
        impl_held(a + b, p, parent as int),
{
    let q = without_last(p, i);
    let h = parent as int;
    assert forall|k: int| 0 <= k < p.functions.len() implies held(
        a + b,
        NodeKind::Definition(Definition::Function(#[trigger] p.functions[k])),
        h,
    ) by {
        if k < q.functions.len() {
            assert(held(a, NodeKind::Definition(Definition::Function(q.functions[k])), h));
        }
    }
    assert forall|k: int| 0 <= k < p.constants.len() implies held(
        a + b,
        NodeKind::Definition(Definition::Const(#[trigger] p.constants[k])),
        h,
    ) by {
        if k < q.constants.len() {
            assert(held(a, NodeKind::Definition(Definition::Const(q.constants[k])), h));
        }
    }
    assert forall|k: int| 0 <= k < p.type_aliases.len() implies held(
        a + b,
        NodeKind::Definition(Definition::AssocType(#[trigger] p.type_aliases[k])),
        h,
    ) by {
        if k < q.type_aliases.len() {
            assert(held(a, NodeKind::Definition(Definition::AssocType(q.type_aliases[k])), h));
        }
    }
    assert forall|k: int| 0 <= k < p.macros.len() implies held(
        a + b,
        NodeKind::Definition(Definition::Macro(#[trigger] p.macros[k])),
        h,
    ) by {
        if k < q.macros.len() {
            assert(held(a, NodeKind::Definition(Definition::Macro(q.macros[k])), h));
        }
    }
    assert forall|k: int| 0 <= k < p.planes.len() implies held(
        a + b,
        NodeKind::Definition(Definition::Plane(#[trigger] p.planes[k])),
        h,
    ) by {
        if k < q.planes.len() {
            assert(held(a, NodeKind::Definition(Definition::Plane(q.planes[k])), h));
        }
    }
}

proof fn last_part_is_stored(i: ImplItemV, own: Seq<char>, id: int, p: ImplParts, parent: u32)
    requires
        is_last_part(i, own, id, p),
    ensures
        complete(last_part_log(i, p, parent)),
        held(last_part_log(i, p, parent), last_node(i, p), parent as int),
    decreases i, 0nat,
{
    let n = last_node(i, p);
    match i {
        ImplItemV::Fn(f) => {
            fn_is_stored(f, Some(own), id, p.functions.last(), parent);
        },
        ImplItemV::Const(c) => {
            let x = inner(p.constants.last());
            let v = x.value->0;
            expr_is_stored(c.expr, false, id + 2, v, x.id);
            lemma_own(expr_log(c.expr, v, x.id), n, parent);
        },
        _ => {
            lemma_leaf(n, parent);
        },
    }
}

proof fn trait_items_are_stored(
    s: Seq<TraitItemV>,
    vis: crate::ast::Visibility,
    id: int,
    out: Seq<Definition>,
    parent: u32,
)
    requires
        is_trait_items(s, vis, id, out),
    ensures
        complete(trait_items_log(s, out, parent)),
        forall|k: int|
            0 <= k < trait_nodes(out).len() ==> held(
                trait_items_log(s, out, parent),
                #[trigger] trait_nodes(out)[k],
                parent as int,
            ),
    decreases s, 0nat,
{
    lemma_nothing();
    if s.len() > 0 {
        let fewer = out.drop_last();
        let a = trait_items_log(s.drop_last(), fewer, parent);
        let b = trait_item_log(s.last(), out.last(), parent);
        trait_items_are_stored(s.drop_last(), vis, id, fewer, parent);
        trait_item_is_stored(
            s.last(),
            vis,
            id + trait_items_ids(s.drop_last()),
            out.last(),
            parent,
        );
        lemma_cat(a, b);
        assert forall|k: int| 0 <= k < trait_nodes(out).len() implies held(
            a + b,
            #[trigger] trait_nodes(out)[k],
            parent as int,
        ) by {
            if k < trait_nodes(fewer).len() {
                assert(trait_nodes(out)[k] == trait_nodes(fewer)[k]);
                assert(held(a, trait_nodes(fewer)[k], parent as int));
            }
        }
    }
}

proof fn trait_item_is_stored(
    i: TraitItemV,
    vis: crate::ast::Visibility,
    id: int,
    out: Definition,
    parent: u32,
)
    requires
        is_trait_item(i, vis, id, out),
    ensures
        complete(trait_item_log(i, out, parent)),
        !(out is Plane) ==> held(
            trait_item_log(i, out, parent),
            NodeKind::Definition(out),
            parent as int,
        ),
    decreases i, 0nat,
{
    let n = NodeKind::Definition(out);
    lemma_nothing();
    match i {
        TraitItemV::Const { default, .. } => {
            let x = inner(out->Const_0);
            opt_expr_is_stored(default, id + 2, x.value, x.id);
            lemma_own(opt_expr_log(default, x.value, x.id), n, parent);
        },
        TraitItemV::Fn { sig, .. } => {
            let x = inner(out->Function_0);
            let first = (x.id - 1 - params_ids(sig.inputs)) as u32;
            let l0 = params_log(x.parameters@, first);
            lemma_param_count(sig.inputs, id + 1, x.parameters@);
            lemma_params_stored(x.parameters@, first);
            assert forall|k: int| 0 <= k < parts(n).len() implies held(
                l0,
                #[trigger] parts(n)[k],
                holder(n, parts(n)[k], parent),
            ) by {
                assert(parts(n)[k] == NodeKind::Misc(Misc::FnParameter(x.parameters@[k])));
                assert(holder(n, parts(n)[k], parent) == first);
            }
            lemma_own(l0, n, parent);
        },
        TraitItemV::Type { .. } => {},
        _ => {
            lemma_leaf(n, parent);
        },
    }
}

pub(crate) proof fn lemma_param_count(s: Seq<crate::syntax::ArgV>, id: int, out: Seq<Rc<FnParameter>>)
    requires
        is_params(s, id, out),
    ensures
        out.len() == params_ids(s),
    decreases s.len(),
{
    if s.len() > 0 {
        if crate::count::is_param(s.last()) {
            lemma_param_count(s.drop_last(), id, out.drop_last());
        } else {
            lemma_param_count(s.drop_last(), id, out);
        }
    }
}

proof fn children_are_stored(s: Seq<ItemV>, id: int, out: Seq<NodeKind>, parent: u32)
    requires
        is_children(s, id, out),
    ensures
        complete(children_log(s, out, parent)),
        forall|k: int|
            0 <= k < out.len() ==> held(
                children_log(s, out, parent),
                #[trigger] out[k],
                parent as int,
            ),
    decreases s.len(),
{
    lemma_nothing();
    if s.len() > 0 {
        let fewer = out.drop_last();
        let a = children_log(s.drop_last(), fewer, parent);
        let b = child_log(s.last(), out.last(), parent);
        let at = id + items_ids(s.drop_last());
        children_are_stored(s.drop_last(), id, fewer, parent);
        match s.last() {
            ItemV::Use(_) => {
                lemma_leaf(out.last(), parent);
            },
            _ => {
                item_is_stored(s.last(), at, out.last()->Definition_0, parent);
            },
        }
        lemma_cat(a, b);
        assert forall|k: int| 0 <= k < out.len() implies held(
            a + b,
            #[trigger] out[k],
            parent as int,
        ) by {
            if k < fewer.len() {
                assert(fewer[k] == out[k]);
                assert(held(a, fewer[k], parent as int));
            }
        }
    }
}

/// A file is stored under no parent, and of each node in it the parts are stored where they belong: no
/// expression, statement, definition, import or parameter is left out.
pub proof fn file_is_stored(f: FileV, path: Seq<char>, id: int, out: Rc<File>)
    requires
        is_file(f, path, id, *out),
    ensures
        complete(file_log(f, out)),
        held(file_log(f, out), NodeKind::File(out), 0),
{
    let n = NodeKind::File(out);
    let own = stored(n, 0);
    let rest = children_log(f.items, out.children@, out.id);
    let all = own + rest;
    children_are_stored(f.items, id + 1, out.children@, out.id);
    assert(all[0] == own[0]);
    assert forall|m: NodeKind, p: int| held(rest, m, p) implies #[trigger] held(all, m, p) by {
        lemma_held_in(own, rest, m, p);
    }
    reveal(complete);
    assert forall|i: int| 0 <= i < all.len() implies parts_held(
        all,
        (#[trigger] all[i]).node,
        all[i].parent,
    ) by {
        if i > 0 {
            assert(all[i] == rest[i - 1]);
            assert(parts_held(rest, rest[i - 1].node, rest[i - 1].parent));
        }
    }
}

/// A whole run keeps the storage complete: of each node that is stored the parts are stored where they
/// belong.
pub proof fn run_keeps_storage_complete(n: nat, before: ParserCtx, after: ParserCtx)
    requires
        turns(n, before, after),
        complete(before.storage@),
    ensures
        complete(after.storage@),
    decreases n,
{
    if n > 0 {
        let last = choose|last: ParserCtx|
            #![trigger turn(last, after)]
            turns((n - 1) as nat, before, last) && turn(last, after);
        run_keeps_storage_complete((n - 1) as nat, before, last);
        let next = last.queue@.last();
        let (read, file) = choose|read: ParserCtx, file: Rc<File>|
            {
                &&& #[trigger] file_added(
                    ParserCtx { queue: read.queue, ..last },
                    read,
                    next.1@,
                    file,
                )
                &&& read.queue@ == last.queue@.drop_last()
                &&& after == (ParserCtx { queue: after.queue, table: after.table, ..read })
                &&& registry(after) == with_children(
                    registry(read),
                    file.children@,
                    next.0 as nat,
                    next.1@,
                    last.file_provider@,
                )
            };
        let f = source_of(last.file_provider@, next.1@);
        file_is_stored(f, next.1@, last.id as int, file);
        lemma_cat(last.storage@, file_log(f, file));
    }
}

} // verus!
