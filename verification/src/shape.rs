//! What the builder makes of each piece of syntax.
//!
//! `is_..(source, .., id, out)` says that `out` is what is built from `source` when `id` is the
//! next id to be drawn: every field of every node, down to the leaves.
use crate::ast::{
    Block, Const, Definition, Expression, Field, File, FnParameter, Function, Identifier,
    Implementation, Literal, Macro, MatchArm, Mutability, NodeKind, Pattern, Plane, Statement, Type,
    TypeAlias, Use,
};
use crate::count::{
    arms_ids, block_ids, definitions_ids, expr_ids, exprs_ids, field_values_ids, impl_items_ids,
    is_param, is_use_item, is_use_stmt, items_ids, opt_expr_ids, params_ids, stmts_ids,
    trait_items_ids,
};
use crate::kinds::{bin_op_of, is_return_type, un_op_of, visibility_of};
use crate::outside::{lossy_text, type_source};
use crate::paths::file_name_text;
use crate::syntax::{
    opt_text, ArgV, ArmV, BlockV, CaptureV, ConstV, ExprV, FieldV, FieldValueV, FileV, FnV,
    ImplItemV, ItemV, LitV, LitValueV, MacroV, PatKindV, PatV, SigV, StmtV, TokensV, TraitItemV,
    TypeAliasV, TypeV, UseTreeV, UseV,
};
use crate::text::{decimal_i128, no_spaces, segment, texts};
use std::rc::Rc;
use vstd::prelude::*;

verus! {

/// The first name of each attribute that has one.
pub open spec fn heads(attrs: Seq<Seq<Seq<char>>>) -> Seq<Seq<char>>
    decreases attrs.len(),
{
    if attrs.len() == 0 {
        Seq::empty()
    } else if attrs.last().len() > 0 {
        heads(attrs.drop_last()).push(attrs.last()[0])
    } else {
        heads(attrs.drop_last())
    }
}

/// Whether an attribute is the bare name `contract`.
pub open spec fn is_contract_attr(path: Seq<Seq<char>>) -> bool {
    path.len() == 1 && path[0] == "contract"@
}

/// Whether the attributes mark a struct as a contract.
pub open spec fn marks_contract(attrs: Seq<Seq<Seq<char>>>) -> bool {
    exists|i: int| 0 <= i < attrs.len() && is_contract_attr(#[trigger] attrs[i])
}

pub open spec fn is_type(t: TypeV, id: int, out: Type) -> bool {
    &&& out matches Type::Typename(x)
    &&& x.id == id
    &&& x.location == t.at
    &&& x.name@ == t.text
}

/// The pattern as written; `_` for the pattern that takes anything.
pub open spec fn pattern_text(p: PatV) -> Seq<char> {
    if p.kind is Wild {
        "_"@
    } else {
        p.text
    }
}

pub open spec fn is_pattern(p: PatV, id: int, out: Pattern) -> bool {
    &&& out.id == id
    &&& out.location == p.at
    &&& out.kind@ == pattern_text(p)
}

pub open spec fn is_literal(l: LitV, id: int, out: Literal) -> bool {
    match l.value {
        LitValueV::Bool(v) => {
            &&& out matches Literal::Bool(x)
            &&& x.id == id
            &&& x.location == l.at
            &&& x.value == v
        },
        LitValueV::Byte(v) => {
            &&& out matches Literal::Byte(x)
            &&& x.id == id
            &&& x.location == l.at
            &&& x.value == v
        },
        LitValueV::Char(v) => {
            &&& out matches Literal::Char(x)
            &&& x.id == id
            &&& x.location == l.at
            &&& x.value == v
        },
        LitValueV::Float(digits) => {
            &&& out matches Literal::Float(x)
            &&& x.id == id
            &&& x.location == l.at
            &&& x.value@ == digits
        },
        LitValueV::Int(digits) => {
            &&& out matches Literal::Int(x)
            &&& x.id == id
            &&& x.location == l.at
            &&& decimal_i128(digits) == Some(x.value)
        },
        LitValueV::Str(v) => {
            &&& out matches Literal::String(x)
            &&& x.id == id
            &&& x.location == l.at
            &&& x.value@ == v
        },
        LitValueV::ByteStr(bytes) => {
            &&& out matches Literal::BString(x)
            &&& x.id == id
            &&& x.location == l.at
            &&& x.value@ == lossy_text(bytes)
        },
        LitValueV::CStr(bytes) => {
            &&& out matches Literal::CString(x)
            &&& x.id == id
            &&& x.location == l.at
            &&& x.value@ == lossy_text(bytes)
        },
        LitValueV::Unsupported => false,
    }
}

/// The names that a closure takes over: its `move`, as written.
pub open spec fn is_captures(c: Option<CaptureV>, id: int, out: Seq<Rc<Identifier>>) -> bool {
    match c {
        Some(c) => {
            &&& out.len() == 1
            &&& out[0].id == id
            &&& out[0].location == c.at
            &&& Some(out[0].name@) == c.text
            &&& !out[0].is_ret
        },
        None => out.len() == 0,
    }
}

/// The return type of a closure; where none is written, the type that is written `_`.
pub open spec fn closure_output(output: Option<TypeV>) -> TypeV {
    match output {
        Some(t) => t,
        None => type_source("_"@)->0,
    }
}

/// How many ids a capture draws.
pub open spec fn capture_ids(c: Option<CaptureV>) -> nat {
    if c is Some {
        1
    } else {
        0
    }
}

/// Whether `out` is the expression `e`; `is_ret` is whether its value is the value of the block
/// that it ends.
pub open spec fn is_expr(e: ExprV, is_ret: bool, id: int, out: Expression) -> bool
    decreases e,
{
    match e {
        ExprV::Array { at, elems } => {
            &&& out matches Expression::Array(x)
            &&& x.id == id
            &&& x.location == at
            &&& x.is_ret == is_ret
            &&& is_exprs(elems, id + 1, x.elements@)
        },
        ExprV::Assign { at, left, right } => {
            &&& out matches Expression::Assign(x)
            &&& x.id == id
            &&& x.location == at
            &&& x.is_ret == is_ret
            &&& is_expr(*left, false, id + 1, x.left)
            &&& is_expr(*right, false, id + 1 + expr_ids(*left), x.right)
        },
        ExprV::Binary { at, left, op, right } => {
            &&& out matches Expression::Binary(x)
            &&& x.id == id
            &&& x.location == at
            &&& x.is_ret == is_ret
            &&& bin_op_of(op) == Some(x.operator)
            &&& is_expr(*left, false, id + 1, x.left)
            &&& is_expr(*right, false, id + 1 + expr_ids(*left), x.right)
        },
        ExprV::Unary { at, op, expr } => {
            &&& out matches Expression::Unary(x)
            &&& x.id == id
            &&& x.location == at
            &&& x.is_ret == is_ret
            &&& un_op_of(op) == Some(x.operator)
            &&& is_expr(*expr, false, id + 1, x.expression)
        },
        ExprV::Break { at, expr } => {
            &&& out matches Expression::Break(x)
            &&& x.id == id
            &&& x.location == at
            &&& !x.is_ret
            &&& is_opt_expr(expr, id + 1, x.expression)
        },
        ExprV::Block { at, block } => {
            &&& out matches Expression::EBlock(x)
            &&& x.id == id
            &&& x.location == at
            &&& is_block(block, id + 1, *x.block)
        },
        ExprV::Call { at, callee, func, args } => {
            &&& out matches Expression::FunctionCall(x)
            &&& x.id == id
            &&& x.location == at
            &&& x.is_ret == is_ret
            &&& x.function_name@ == callee
            &&& is_exprs(args, id + 1, x.parameters@)
            &&& is_expr(*func, false, id + 1 + exprs_ids(args), x.expression)
        },
        ExprV::Cast { at, expr, ty } => {
            &&& out matches Expression::Cast(x)
            &&& x.id == id
            &&& x.location == at
            &&& x.is_ret == is_ret
            &&& is_expr(*expr, false, id + 1, x.base)
            &&& is_type(ty, id + 1 + expr_ids(*expr), x.target_type)
        },
        ExprV::Closure { at, capture, output, body } => {
            &&& out matches Expression::Closure(x)
            &&& x.id == id
            &&& x.location == at
            &&& x.is_ret == is_ret
            &&& is_expr(*body, false, id + 1, x.body)
            &&& is_captures(capture, id + 1 + expr_ids(*body), x.captures@)
            &&& is_type(
                closure_output(output),
                id + 1 + expr_ids(*body) + capture_ids(capture),
                x.returns,
            )
            &&& output is None ==> x.returns->Typename_0.name@ == "_"@
        },
        ExprV::Const { block } => {
            &&& out matches Expression::Const(x)
            &&& x.id == id
            &&& x.location == block.at
            &&& is_block(block, id + 1, *x.block)
        },
        ExprV::Continue { at } => {
            &&& out matches Expression::Continue(x)
            &&& x.id == id
            &&& x.location == at
        },
        ExprV::ForLoop { at, expr, body } => {
            &&& out matches Expression::ForLoop(x)
            &&& x.id == id
            &&& x.location == at
            &&& x.is_ret == is_ret
            &&& is_block(body, id + 1, *x.block)
            &&& is_expr(*expr, false, id + 1 + block_ids(body), x.expression)
        },
        ExprV::Field { at, base, member } => {
            &&& out matches Expression::MemberAccess(x)
            &&& x.id == id
            &&& x.location == at
            &&& x.is_ret == is_ret
            &&& x.member_name@ == member
            &&& is_expr(*base, false, id + 1, x.base)
        },
        ExprV::If { at, cond, then_branch, else_branch } => {
            &&& out matches Expression::If(x)
            &&& x.id == id
            &&& x.location == at
            &&& x.is_ret == is_ret
            &&& is_block(then_branch, id + 1, *x.then_branch)
            &&& is_expr(*cond, false, id + 1 + block_ids(then_branch), x.condition)
            &&& is_opt_expr(
                else_branch,
                id + 1 + block_ids(then_branch) + expr_ids(*cond),
                x.else_branch,
            )
        },
        ExprV::Index { at, expr, index } => {
            &&& out matches Expression::IndexAccess(x)
            &&& x.id == id
            &&& x.location == at
            &&& x.is_ret == is_ret
            &&& is_expr(*expr, false, id + 1, x.base)
            &&& is_expr(*index, false, id + 1 + expr_ids(*expr), x.index)
        },
        ExprV::Infer { at } => {
            &&& out matches Expression::Identifier(x)
            &&& x.id == id
            &&& x.location == at
            &&& !x.is_ret
            &&& x.name@ == "_"@
        },
        ExprV::Let { at, pat, expr } => {
            &&& out matches Expression::LetGuard(x)
            &&& x.id == id
            &&& x.location == at
            &&& x.is_ret == is_ret
            &&& is_pattern(pat, id + 1, x.guard)
            &&& is_expr(*expr, false, id + 2, x.value)
        },
        ExprV::Lit { at, lit } => {
            &&& out matches Expression::Literal(x)
            &&& x.id == id
            &&& x.location == at
            &&& x.is_ret == is_ret
            &&& is_literal(lit, id + 1, x.value)
        },
        ExprV::Loop { at, body } => {
            &&& out matches Expression::Loop(x)
            &&& x.id == id
            &&& x.location == at
            &&& x.is_ret == is_ret
            &&& is_block(body, id + 1, *x.block)
        },
        ExprV::Macro { at, name, text } => {
            &&& out matches Expression::Macro(x)
            &&& x.id == id
            &&& x.location == at
            &&& x.name@ == name
            &&& x.text@ == text
        },
        ExprV::Match { at, expr, arms } => {
            &&& out matches Expression::Match(x)
            &&& x.id == id
            &&& x.location == at
            &&& x.is_ret == is_ret
            &&& is_expr(*expr, false, id + 1, x.expression)
            &&& is_arms(arms, id + 1 + expr_ids(*expr), x.arms@)
        },
        ExprV::MethodCall { at, receiver, method, args } => {
            &&& out matches Expression::MethodCall(x)
            &&& x.id == id
            &&& x.location == at
            &&& x.is_ret == is_ret
            &&& x.method_name@ == method
            &&& is_expr(*receiver, false, id + 1, x.base)
            &&& is_exprs(args, id + 1 + expr_ids(*receiver), x.parameters@)
        },
        ExprV::Paren { at, expr } => {
            &&& out matches Expression::Parenthesized(x)
            &&& x.id == id
            &&& x.location == at
            &&& x.is_ret == is_ret
            &&& is_expr(*expr, false, id + 1, x.expression)
        },
        ExprV::Path { at, text } => {
            &&& out matches Expression::Identifier(x)
            &&& x.id == id
            &&& x.location == at
            &&& x.is_ret == is_ret
            &&& x.name@ == text
        },
        ExprV::Range { at, start, end, is_closed } => {
            &&& out matches Expression::Range(x)
            &&& x.id == id
            &&& x.location == at
            &&& x.is_ret == is_ret
            &&& x.is_closed == is_closed
            &&& is_opt_expr(start, id + 1, x.start)
            &&& is_opt_expr(end, id + 1 + opt_expr_ids(start), x.end)
        },
        ExprV::RawAddr { at, is_mut, expr } => {
            &&& out matches Expression::Addr(x)
            &&& x.id == id
            &&& x.location == at
            &&& x.is_ret == is_ret
            &&& x.mutability == mutability_of(is_mut)
            &&& is_expr(*expr, false, id + 1, x.expression)
        },
        ExprV::Reference { at, is_mut, expr } => {
            &&& out matches Expression::Reference(x)
            &&& x.id == id
            &&& x.location == at
            &&& x.is_ret == is_ret
            &&& x.is_mutable == is_mut
            &&& is_expr(*expr, false, id + 1, x.inner)
        },
        ExprV::Repeat { at, expr, len } => {
            &&& out matches Expression::Repeat(x)
            &&& x.id == id
            &&& x.location == at
            &&& x.is_ret == is_ret
            &&& is_expr(*expr, false, id + 1, x.expression)
            &&& is_expr(*len, false, id + 1 + expr_ids(*expr), x.count)
        },
        ExprV::Return { at, expr } => {
            &&& out matches Expression::Return(x)
            &&& x.id == id
            &&& x.location == at
            &&& x.is_ret
            &&& is_opt_expr(expr, id + 1, x.expression)
        },
        ExprV::Struct { at, path, fields, rest } => {
            &&& out matches Expression::EStruct(x)
            &&& x.id == id + field_values_ids(fields) + opt_expr_ids(rest)
            &&& x.location == at
            &&& x.is_ret == is_ret
            &&& path.len() > 0
            &&& x.name@ == path.last()
            &&& is_field_values(fields, id, x.fields@)
            &&& is_opt_expr(rest, id + field_values_ids(fields), x.rest_dots)
        },
        ExprV::Try { at, expr } => {
            &&& out matches Expression::Try(x)
            &&& x.id == id
            &&& x.location == at
            &&& x.is_ret == is_ret
            &&& is_expr(*expr, false, id + 1, x.expression)
        },
        ExprV::TryBlock { block } => {
            &&& out matches Expression::EBlock(x)
            &&& x.id == id
            &&& x.location == block.at
            &&& is_block(block, id + 1, *x.block)
        },
        ExprV::Tuple { at, elems } => {
            &&& out matches Expression::Tuple(x)
            &&& x.id == id
            &&& x.location == at
            &&& x.is_ret == is_ret
            &&& is_exprs(elems, id + 1, x.elements@)
        },
        ExprV::Unsafe { at, block } => {
            &&& out matches Expression::Unsafe(x)
            &&& x.id == id
            &&& x.location == at
            &&& is_block(block, id + 1, *x.block)
        },
        ExprV::While { at, label, cond, body } => {
            &&& out matches Expression::While(x)
            &&& x.id == id
            &&& x.location == at
            &&& x.is_ret == is_ret
            &&& opt_text(x.label) == label
            &&& is_block(body, id + 1, *x.block)
            &&& is_expr(*cond, false, id + 1 + block_ids(body), x.condition)
        },
        ExprV::Async => false,
        ExprV::Await => false,
        ExprV::Yield => false,
        ExprV::Unsupported => false,
    }
}

/// What `mut` or its absence says of a pointer.
pub open spec fn mutability_of(is_mut: bool) -> Mutability {
    if is_mut {
        Mutability::Mutable
    } else {
        Mutability::Constant
    }
}

pub open spec fn is_opt_expr(o: Option<Box<ExprV>>, id: int, out: Option<Expression>) -> bool
    decreases o,
{
    match o {
        Some(e) => out matches Some(x) && is_expr(*e, false, id, x),
        None => out is None,
    }
}

pub open spec fn is_exprs(s: Seq<ExprV>, id: int, out: Seq<Expression>) -> bool
    decreases s,
{
    &&& out.len() == s.len()
    &&& s.len() > 0 ==> {
        &&& is_exprs(s.drop_last(), id, out.drop_last())
        &&& is_expr(s.last(), false, id + exprs_ids(s.drop_last()), out.last())
    }
}

pub open spec fn is_arms(s: Seq<ArmV>, id: int, out: Seq<MatchArm>) -> bool
    decreases s,
{
    &&& out.len() == s.len()
    &&& s.len() > 0 ==> {
        let at = id + arms_ids(s.drop_last());
        &&& is_arms(s.drop_last(), id, out.drop_last())
        &&& is_pattern(s.last().pat, at, out.last().pattern)
        &&& is_expr(s.last().body, false, at + 1, out.last().expression)
    }
}

/// The name of a field of a struct expression; empty for a field given by its index.
pub open spec fn field_value_name(f: FieldValueV) -> Seq<char> {
    match f.name {
        Some(n) => n,
        None => Seq::empty(),
    }
}

pub open spec fn is_field_values(
    s: Seq<FieldValueV>,
    id: int,
    out: Seq<(String, Expression)>,
) -> bool
    decreases s,
{
    &&& out.len() == s.len()
    &&& s.len() > 0 ==> {
        &&& is_field_values(s.drop_last(), id, out.drop_last())
        &&& out.last().0@ == field_value_name(s.last())
        &&& is_expr(s.last().expr, false, id + field_values_ids(s.drop_last()), out.last().1)
    }
}

pub open spec fn is_block(b: BlockV, id: int, out: Block) -> bool
    decreases b,
{
    &&& out.id == id
    &&& out.location == b.at
    &&& is_stmts(b.stmts, id + 1, out.statements@)
}

/// The statements of a block, `use` left out.
pub open spec fn is_stmts(s: Seq<StmtV>, id: int, out: Seq<Statement>) -> bool
    decreases s,
{
    if s.len() == 0 {
        out.len() == 0
    } else if is_use_stmt(s.last()) {
        is_stmts(s.drop_last(), id, out)
    } else {
        &&& out.len() > 0
        &&& is_stmts(s.drop_last(), id, out.drop_last())
        &&& is_stmt(s.last(), id + stmts_ids(s.drop_last()), out.last())
    }
}

/// The name that a `let` is known by: the name it binds, or else the pattern as written.
pub open spec fn let_name(p: PatV) -> Seq<char> {
    match p.kind {
        PatKindV::Ident { ident, .. } => ident,
        PatKindV::Typed(inner) => match inner.kind {
            PatKindV::Ident { ident, .. } => ident,
            _ => inner.text,
        },
        _ => p.text,
    }
}

pub open spec fn is_stmt(s: StmtV, id: int, out: Statement) -> bool
    decreases s,
{
    match s {
        StmtV::Expression { expr, semi } => {
            &&& out matches Statement::Expression(x)
            &&& is_expr(expr, !semi, id, x)
        },
        StmtV::Local { at, pat, init } => {
            &&& out matches Statement::Let(x)
            &&& is_pattern(pat, id, x.pattern)
            &&& x.id == id + 1
            &&& x.location == at
            &&& x.name@ == let_name(pat)
            &&& match init {
                Some(i) => {
                    &&& x.initial_value matches Some(v)
                    &&& is_expr(i.expr, false, id + 2, v)
                    &&& is_opt_expr(
                        i.diverge,
                        id + 2 + expr_ids(i.expr),
                        x.initial_value_alternative,
                    )
                },
                None => x.initial_value is None && x.initial_value_alternative is None,
            }
        },
        StmtV::Macro { at, name, text } => {
            &&& out matches Statement::Macro(x)
            &&& x.id == id
            &&& x.location == at
            &&& x.name@ == name
            &&& x.text@ == no_spaces(text)
        },
        StmtV::Definition(item) => {
            &&& out matches Statement::Definition(d)
            &&& is_item(item, id, d)
        },
    }
}

/// The parameter that an argument becomes.
pub open spec fn is_parameter(a: ArgV, id: int, out: FnParameter) -> bool {
    match a {
        ArgV::Receiver { at, ty, is_mut } => {
            &&& out.id == id
            &&& out.name@ == "self"@
            &&& out.location == at
            &&& out.type_text@ == ty
            &&& out.is_self
            &&& out.is_mut == is_mut
        },
        ArgV::Typed { at, pat, ty } => {
            &&& pat.kind matches PatKindV::Ident { ident, is_mut }
            &&& out.id == id
            &&& out.name@ == ident
            &&& out.location == at
            &&& out.type_text@ == ty
            &&& out.is_self == (ident == "self"@)
            &&& out.is_mut == is_mut
        },
    }
}

pub open spec fn is_params(s: Seq<ArgV>, id: int, out: Seq<Rc<FnParameter>>) -> bool
    decreases s,
{
    if s.len() == 0 {
        out.len() == 0
    } else if is_param(s.last()) {
        &&& out.len() > 0
        &&& is_params(s.drop_last(), id, out.drop_last())
        &&& is_parameter(s.last(), id + params_ids(s.drop_last()), *out.last())
    } else {
        is_params(s.drop_last(), id, out)
    }
}

/// A function with a body; `self_name` is what `Self` stands for, if it stands for anything.
pub open spec fn is_fn(f: FnV, self_name: Option<Seq<char>>, id: int, out: Function) -> bool
    decreases f,
{
    &&& out.id == id
    &&& texts(out.attributes@) == heads(f.attrs)
    &&& out.location == f.at
    &&& out.name@ == f.sig.name
    &&& out.visibility == visibility_of(f.vis)
    &&& texts(out.generics@) == f.sig.generics
    &&& is_params(f.sig.inputs, id + 1, out.parameters@)
    &&& is_return_type(f.sig.output, self_name, out.returns)
    &&& out.body matches Some(b)
    &&& is_block(f.block, id + 1 + params_ids(f.sig.inputs), *b)
}

/// A function that a trait declares. Its parameters stand under the first id that is drawn for it,
/// and it is known by the last.
pub open spec fn is_trait_fn(
    at: crate::syntax::Location,
    attrs: Seq<Seq<Seq<char>>>,
    sig: SigV,
    vis: crate::ast::Visibility,
    id: int,
    out: Function,
) -> bool {
    &&& out.id == id + 1 + params_ids(sig.inputs)
    &&& texts(out.attributes@) == heads(attrs)
    &&& out.location == at
    &&& out.name@ == sig.name
    &&& out.visibility == vis
    &&& texts(out.generics@) == sig.generics
    &&& is_params(sig.inputs, id + 1, out.parameters@)
    &&& is_return_type(sig.output, None, out.returns)
    &&& out.body is None
}

/// A constant of a file or of a module: its value is built before its type.
pub open spec fn is_const(c: ConstV, id: int, out: Const) -> bool
    decreases c,
{
    &&& out.id == id
    &&& out.location == c.at
    &&& out.name@ == c.name
    &&& out.visibility == visibility_of(c.vis)
    &&& out.value matches Some(v)
    &&& is_expr(c.expr, false, id + 1, v)
    &&& is_type(c.ty, id + 1 + expr_ids(c.expr), out.type_)
}

/// A constant of an `impl` block: its type is built before its value.
pub open spec fn is_impl_const(c: ConstV, id: int, out: Const) -> bool
    decreases c,
{
    &&& out.id == id
    &&& out.location == c.at
    &&& out.name@ == c.name
    &&& out.visibility == visibility_of(c.vis)
    &&& is_type(c.ty, id + 1, out.type_)
    &&& out.value matches Some(v)
    &&& is_expr(c.expr, false, id + 2, v)
}

pub open spec fn is_type_alias(t: TypeAliasV, id: int, out: TypeAlias) -> bool {
    &&& out.id == id
    &&& out.location == t.at
    &&& out.name@ == t.name
    &&& out.visibility == visibility_of(t.vis)
    &&& is_type(t.ty, id + 1, out.ty)
}

pub open spec fn is_macro(m: MacroV, id: int, out: Macro) -> bool {
    &&& out.id == id
    &&& out.location == m.at
    &&& out.name@ == m.name
    &&& out.text@ == m.text
}

pub open spec fn is_plane(t: TokensV, id: int, out: Plane) -> bool {
    &&& out.id == id
    &&& out.location == t.at
    &&& out.value@ == t.text
}

/// The fields of a struct: the name of each, or `unnamed`, and its type.
pub open spec fn is_struct_fields(s: Seq<FieldV>, id: int, out: Seq<(String, Type)>) -> bool {
    &&& out.len() == s.len()
    &&& forall|i: int|
        0 <= i < s.len() ==> {
            &&& (#[trigger] out[i]).0@ == (match s[i].name {
                Some(n) => n,
                None => "unnamed"@,
            })
            &&& is_type(s[i].ty, id + i, out[i].1)
        }
}

pub open spec fn is_field(f: FieldV, id: int, out: Field) -> bool {
    &&& out.id == id
    &&& out.location == f.at
    &&& opt_text(out.name) == f.name
    &&& out.visibility == visibility_of(f.vis)
    &&& out.mutability == mutability_of(f.mutable)
    &&& is_type(f.ty, id + 1, out.ty)
}

pub open spec fn is_fields(s: Seq<FieldV>, id: int, out: Seq<Rc<Field>>) -> bool {
    &&& out.len() == s.len()
    &&& forall|i: int| 0 <= i < s.len() ==> is_field(s[i], id + 2 * i, *#[trigger] out[i])
}

/// `prefix::name`, or `name` alone where there is no prefix.
pub open spec fn under(prefix: Option<Seq<char>>, name: Seq<char>) -> Seq<char> {
    match prefix {
        Some(p) => segment(p, name),
        None => name,
    }
}

/// The full path of each name that a `use` tree brings in, in the order in which they are written.
/// A renamed name is followed by `%` and its new name; a glob ends in `*`.
pub open spec fn full_paths(tree: UseTreeV, prefix: Option<Seq<char>>) -> Seq<Seq<char>>
    decreases tree,
{
    match tree {
        UseTreeV::Path { ident, tree } => full_paths(*tree, Some(under(prefix, ident))),
        UseTreeV::Name { ident } => seq![under(prefix, ident)],
        UseTreeV::Rename { ident, rename } => seq![under(prefix, ident) + seq!['%'] + rename],
        UseTreeV::Glob => seq![under(prefix, seq!['*'])],
        UseTreeV::Group { items } => all_full_paths(items, prefix),
    }
}

/// The full paths of several trees, one behind the other.
pub open spec fn all_full_paths(trees: Seq<UseTreeV>, prefix: Option<Seq<char>>) -> Seq<Seq<char>>
    decreases trees,
{
    if trees.len() == 0 {
        Seq::empty()
    } else {
        all_full_paths(trees.drop_last(), prefix) + full_paths(trees.last(), prefix)
    }
}

pub open spec fn is_use(u: UseV, id: int, out: Use) -> bool {
    &&& out.id == id
    &&& out.location == u.at
    &&& out.visibility == visibility_of(u.vis)
    &&& out.path@ == u.path
    &&& texts(out.imported_types@) == full_paths(u.tree, None)
    &&& out.target@.len() == 0
}

/// The definition that an item becomes.
pub open spec fn is_item(i: ItemV, id: int, out: Definition) -> bool
    decreases i,
{
    match i {
        ItemV::Const(c) => {
            &&& out matches Definition::Const(x)
            &&& is_const(c, id, *x)
        },
        ItemV::Enum { at, attrs, name, vis, variants } => {
            &&& out matches Definition::Enum(x)
            &&& x.id == id
            &&& texts(x.attributes@) == heads(attrs)
            &&& x.location == at
            &&& x.name@ == name
            &&& x.visibility == visibility_of(vis)
            &&& texts(x.variants@) == variants
        },
        ItemV::ExternCrate { at, name, vis, rename } => {
            &&& out matches Definition::ExternCrate(x)
            &&& x.id == id
            &&& x.location == at
            &&& x.name@ == name
            &&& x.visibility == visibility_of(vis)
            &&& opt_text(x.alias) == rename
        },
        ItemV::Fn(f) => {
            &&& out matches Definition::Function(x)
            &&& is_fn(f, None, id, *x)
        },
        ItemV::ForeignMod(t) => {
            &&& out matches Definition::Plane(x)
            &&& is_plane(t, id, *x)
        },
        ItemV::Impl { at, attrs, self_ty, items } => {
            &&& out matches Definition::Implementation(x)
            &&& x.id == id
            &&& texts(x.attributes@) == heads(attrs)
            &&& x.location == at
            &&& is_type(self_ty, id + 1, x.for_type)
            &&& is_impl_items(items, no_spaces(self_ty.text), id + 2, parts_of(*x))
        },
        ItemV::Macro(m) => {
            &&& out matches Definition::Macro(x)
            &&& is_macro(m, id, *x)
        },
        ItemV::Mod { at, attrs, name, vis, content } => {
            &&& out matches Definition::Module(x)
            &&& x.id == id
            &&& texts(x.attributes@) == heads(attrs)
            &&& x.location == at
            &&& x.name@ == name
            &&& x.visibility == visibility_of(vis)
            &&& match content {
                Some(items) => {
                    &&& x.definitions matches Some(defs)
                    &&& is_definitions(items, id + 1, defs@)
                    &&& x.imports matches Some(uses)
                    &&& is_imports(items, id + 1 + definitions_ids(items), uses@)
                },
                None => x.definitions is None && x.imports is None,
            }
        },
        ItemV::Static { at, attrs, name, vis, mutable, ty, expr } => {
            &&& out matches Definition::Static(x)
            &&& x.id == id
            &&& texts(x.attributes@) == heads(attrs)
            &&& x.location == at
            &&& x.name@ == name
            &&& x.visibility == visibility_of(vis)
            &&& x.mutable == mutable
            &&& is_type(ty, id + 1, x.ty)
            &&& is_expr(expr, false, id + 2, x.value)
        },
        ItemV::Struct { at, attrs, name, vis, fields } => {
            &&& out matches Definition::Struct(x)
            &&& x.id == id
            &&& texts(x.attributes@) == heads(attrs)
            &&& x.location == at
            &&& x.name@ == name
            &&& is_struct_fields(fields, id + 1, x.fields@)
            &&& x.is_contract == marks_contract(attrs)
            &&& x.visibility == visibility_of(vis)
        },
        ItemV::Trait { at, attrs, name, vis, supertraits, items } => {
            &&& out matches Definition::Trait(x)
            &&& x.id == id
            &&& texts(x.attributes@) == heads(attrs)
            &&& x.location == at
            &&& x.name@ == name
            &&& x.visibility == visibility_of(vis)
            &&& x.supertraits@ == supertraits
            &&& is_trait_items(items, visibility_of(vis), id + 1, x.items@)
        },
        ItemV::TraitAlias { at, attrs, name, vis, bounds } => {
            &&& out matches Definition::TraitAlias(x)
            &&& x.id == id
            &&& texts(x.attributes@) == heads(attrs)
            &&& x.location == at
            &&& x.name@ == name
            &&& x.visibility == visibility_of(vis)
            &&& x.bounds@ == bounds
        },
        ItemV::TypeAlias(t) => {
            &&& out matches Definition::TypeAlias(x)
            &&& is_type_alias(t, id, *x)
        },
        ItemV::Union { at, attrs, name, vis, fields } => {
            &&& out matches Definition::Union(x)
            &&& x.id == id
            &&& texts(x.attributes@) == heads(attrs)
            &&& x.location == at
            &&& x.name@ == name
            &&& x.visibility == visibility_of(vis)
            &&& is_fields(fields, id + 1, x.fields@)
        },
        ItemV::Use(_) => false,
        ItemV::Verbatim(t) => {
            &&& out matches Definition::Plane(x)
            &&& is_plane(t, id, *x)
        },
    }
}

/// The definitions of a module: its items, `use` left out.
pub open spec fn is_definitions(s: Seq<ItemV>, id: int, out: Seq<Definition>) -> bool
    decreases s,
{
    if s.len() == 0 {
        out.len() == 0
    } else if is_use_item(s.last()) {
        is_definitions(s.drop_last(), id, out)
    } else {
        &&& out.len() > 0
        &&& is_definitions(s.drop_last(), id, out.drop_last())
        &&& is_item(s.last(), id + definitions_ids(s.drop_last()), out.last())
    }
}

/// The imports of a module: its `use` items.
pub open spec fn is_imports(s: Seq<ItemV>, id: int, out: Seq<Rc<Use>>) -> bool
    decreases s,
{
    if s.len() == 0 {
        out.len() == 0
    } else {
        match s.last() {
            ItemV::Use(u) => {
                &&& out.len() > 0
                &&& is_imports(s.drop_last(), id, out.drop_last())
                &&& is_use(u, id + crate::count::imports_ids(s.drop_last()), *out.last())
            },
            _ => is_imports(s.drop_last(), id, out),
        }
    }
}

/// What an `impl` block holds, by kind.
pub struct ImplParts {
    pub functions: Seq<Rc<Function>>,
    pub constants: Seq<Rc<Const>>,
    pub type_aliases: Seq<Rc<TypeAlias>>,
    pub macros: Seq<Rc<Macro>>,
    pub planes: Seq<Rc<Plane>>,
}

/// What an `impl` block holds, by kind.
pub open spec fn parts_of(x: Implementation) -> ImplParts {
    ImplParts {
        functions: x.functions@,
        constants: x.constants@,
        type_aliases: x.type_aliases@,
        macros: x.macros@,
        planes: x.plane_defs@,
    }
}

/// The same without the last node of the kind that `i` becomes.
pub open spec fn without_last(p: ImplParts, i: ImplItemV) -> ImplParts {
    match i {
        ImplItemV::Fn(_) => ImplParts { functions: p.functions.drop_last(), ..p },
        ImplItemV::Const(_) => ImplParts { constants: p.constants.drop_last(), ..p },
        ImplItemV::Type(_) => ImplParts { type_aliases: p.type_aliases.drop_last(), ..p },
        ImplItemV::Macro(_) => ImplParts { macros: p.macros.drop_last(), ..p },
        ImplItemV::Verbatim(_) => ImplParts { planes: p.planes.drop_last(), ..p },
    }
}

/// Whether the last node of its kind in `p` is what `i` becomes.
pub open spec fn is_last_part(i: ImplItemV, self_name: Seq<char>, id: int, p: ImplParts) -> bool
    decreases i,
{
    match i {
        ImplItemV::Fn(f) => p.functions.len() > 0 && is_fn(
            f,
            Some(self_name),
            id,
            *p.functions.last(),
        ),
        ImplItemV::Const(c) => p.constants.len() > 0 && is_impl_const(c, id, *p.constants.last()),
        ImplItemV::Type(t) => p.type_aliases.len() > 0 && is_type_alias(
            t,
            id,
            *p.type_aliases.last(),
        ),
        ImplItemV::Macro(m) => p.macros.len() > 0 && is_macro(m, id, *p.macros.last()),
        ImplItemV::Verbatim(t) => p.planes.len() > 0 && is_plane(t, id, *p.planes.last()),
    }
}

/// The items of an `impl` block, each put with those of its kind.
pub open spec fn is_impl_items(
    s: Seq<ImplItemV>,
    self_name: Seq<char>,
    id: int,
    p: ImplParts,
) -> bool
    decreases s,
{
    if s.len() == 0 {
        &&& p.functions.len() == 0
        &&& p.constants.len() == 0
        &&& p.type_aliases.len() == 0
        &&& p.macros.len() == 0
        &&& p.planes.len() == 0
    } else {
        &&& is_last_part(s.last(), self_name, id + impl_items_ids(s.drop_last()), p)
        &&& is_impl_items(s.drop_last(), self_name, id, without_last(p, s.last()))
    }
}

/// An item of a trait; constants and functions are as visible as the trait.
pub open spec fn is_trait_item(
    i: TraitItemV,
    vis: crate::ast::Visibility,
    id: int,
    out: Definition,
) -> bool
    decreases i,
{
    match i {
        TraitItemV::Const { at, name, ty, default } => {
            &&& out matches Definition::Const(x)
            &&& x.id == id
            &&& x.location == at
            &&& x.name@ == name
            &&& x.visibility == vis
            &&& is_type(ty, id + 1, x.type_)
            &&& is_opt_expr(default, id + 2, x.value)
        },
        TraitItemV::Fn { at, attrs, sig } => {
            &&& out matches Definition::Function(x)
            &&& is_trait_fn(at, attrs, sig, vis, id, *x)
        },
        TraitItemV::Type { at } => {
            &&& out matches Definition::Plane(x)
            &&& x.id == id
            &&& x.location == at
            &&& x.value@ == "TraitItemType"@
        },
        TraitItemV::Macro(m) => {
            &&& out matches Definition::Macro(x)
            &&& is_macro(m, id, *x)
        },
        TraitItemV::Verbatim(t) => {
            &&& out matches Definition::Plane(x)
            &&& is_plane(t, id, *x)
        },
    }
}

pub open spec fn is_trait_items(
    s: Seq<TraitItemV>,
    vis: crate::ast::Visibility,
    id: int,
    out: Seq<Definition>,
) -> bool
    decreases s,
{
    &&& out.len() == s.len()
    &&& s.len() > 0 ==> {
        &&& is_trait_items(s.drop_last(), vis, id, out.drop_last())
        &&& is_trait_item(s.last(), vis, id + trait_items_ids(s.drop_last()), out.last())
    }
}

/// What an item becomes at the top level of a file: a directive for a `use`, else a definition.
pub open spec fn is_child(i: ItemV, id: int, out: NodeKind) -> bool {
    match i {
        ItemV::Use(u) => {
            &&& out matches NodeKind::Directive(crate::ast::Directive::Use(x))
            &&& is_use(u, id, *x)
        },
        _ => {
            &&& out matches NodeKind::Definition(d)
            &&& is_item(i, id, d)
        },
    }
}

/// What stands at the top level of a file.
pub open spec fn is_children(s: Seq<ItemV>, id: int, out: Seq<NodeKind>) -> bool
    decreases s,
{
    &&& out.len() == s.len()
    &&& s.len() > 0 ==> {
        &&& is_children(s.drop_last(), id, out.drop_last())
        &&& is_child(s.last(), id + items_ids(s.drop_last()), out.last())
    }
}

/// The file that is read from `path` as `f`.
pub open spec fn is_file(f: FileV, path: Seq<char>, id: int, out: File) -> bool {
    &&& out.id == id
    &&& out.name@ == file_name_text(path)
    &&& out.path@ == path
    &&& texts(out.attributes@) == heads(f.attrs)
    &&& out.source_code@ == f.source_code
    &&& out.location == f.at
    &&& is_children(f.items, id + 1, out.children@)
}

} // verus!
