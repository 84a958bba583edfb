//! Building expressions.
//!
//! Each function draws an id for the node, builds the parts, puts them together and stores the
//! result. Its contract says which node comes out, how many ids were drawn, and what was stored.
use crate::ast::{
    Addr, Array, Assign, BinOp, Binary, Block, Break, Cast, Closure, ConstBlock, Continue, EBlock,
    EStruct, Expression, ForLoop, FunctionCall, Identifier, If, IndexAccess, LBString, LBool, LByte,
    LCString, LChar, LFloat, LInt, LString, LetGuard, Lit, Literal, Loop, Macro, Match, MatchArm,
    MemberAccess, MethodCall, Mutability, NodeKind, Parenthesized, Pattern, Range, Reference,
    Repeat, Return, Statement, Try, Tuple, Type, Typename, UnOp, Unary, Unsafe, While,
};
use crate::build_stmt::block_of;
use crate::context::{advanced, ParserCtx};
use crate::count::{
    arms_ids, arms_ok, expr_ids, expr_ok, exprs_ids, exprs_ok, field_values_ids, field_values_ok,
    lit_ok, opt_expr_ids, opt_expr_ok,
};
use crate::lists::{lemma_arms_prefix, lemma_exprs_prefix, lemma_field_values_prefix};
use crate::outside::decode_lossy;
use crate::reader::inferred_type;
use crate::record::{
    arms_log, captures_log, expr_log, exprs_log, field_values_log, opt_expr_log, stored_expr,
};
use crate::shape::{
    capture_ids, field_value_name, is_arms, is_captures, is_expr, is_exprs, is_field_values,
    is_literal, is_opt_expr, is_pattern, is_type,
};
use crate::storage::StoredNode;
use crate::syntax::{
    arms_view, exprs_view, field_values_view, opt_capture_view, opt_expr_view, SrcArm, SrcArray,
    SrcAssign, SrcBinary, SrcBlockExpr, SrcBreak, SrcCall, SrcCapture, SrcCast, SrcClosure,
    SrcConstBlock, SrcContinue, SrcExpr, SrcFieldValue, SrcForLoop, SrcIf, SrcIndex, SrcInfer,
    SrcLetGuard, SrcLit, SrcLitExpr, SrcLitValue, SrcLoop, SrcMacroExpr, SrcMatch, SrcMember,
    SrcMethodCall, SrcParen, SrcPat, SrcPatKind, SrcPath, SrcRange, SrcRawAddr, SrcReference,
    SrcRepeat, SrcReturn, SrcStructExpr, SrcTry, SrcTryBlock, SrcTuple, SrcType, SrcUnary,
    SrcUnsafeBlock, SrcWhile,
};
use crate::text::{parse_decimal, texts};
use std::rc::Rc;
use vstd::prelude::*;

verus! {

impl ParserCtx {
    /// Stores an expression as a statement.
    pub(crate) fn store_expression(&mut self, expr: &Expression, parent_id: u32)
        ensures
            advanced(*old(self), *final(self), 0, stored_expr(*expr, parent_id)),
    {
        self.storage.add_node(NodeKind::Statement(Statement::Expression(expr.clone())), parent_id);
        assert(self.storage@ =~= old(self).storage@ + stored_expr(*expr, parent_id));
    }

    /// Builds an expression; `is_ret` is whether its value is the value of the block that it ends.
    pub fn build_expression(&mut self, expr: &SrcExpr, is_ret: bool, parent_id: u32) -> (r:
        Expression)
        requires
            expr_ok(expr@),
            old(self).id + expr_ids(expr@) <= u32::MAX,
        ensures
            is_expr(expr@, is_ret, old(self).id as int, r),
            advanced(*old(self), *final(self), expr_ids(expr@), expr_log(expr@, r, parent_id)),
        decreases expr,
    {
        match expr {
            SrcExpr::Array(x) => self.build_array_expression(x, is_ret, parent_id),
            SrcExpr::Assign(x) => self.build_assign_expresison(x, is_ret, parent_id),
            SrcExpr::Binary(x) => self.build_binary_expression(x, is_ret, parent_id),
            SrcExpr::Unary(x) => self.build_unary_expression(x, is_ret, parent_id),
            SrcExpr::Break(x) => self.build_break_expression(x, parent_id),
            SrcExpr::Block(x) => self.build_block_expression(x, parent_id),
            SrcExpr::Call(x) => self.build_function_call_expression(x, is_ret, parent_id),
            SrcExpr::Cast(x) => self.build_cast_expression(x, is_ret, parent_id),
            SrcExpr::Closure(x) => self.build_closure_expression(x, is_ret, parent_id),
            SrcExpr::Const(x) => self.build_const_block_expression(x, parent_id),
            SrcExpr::Continue(x) => self.build_continue_expression(x, parent_id),
            SrcExpr::ForLoop(x) => self.build_for_loop_expression(x, is_ret, parent_id),
            SrcExpr::Field(x) => self.build_member_access_expression(x, is_ret, parent_id),
            SrcExpr::If(x) => self.build_if_expression(x, is_ret, parent_id),
            SrcExpr::Index(x) => self.build_index_access_expression(x, is_ret, parent_id),
            SrcExpr::Infer(x) => self.build_discarded_identifier(x, parent_id),
            SrcExpr::Let(x) => self.build_let_guard_expression(x, is_ret, parent_id),
            SrcExpr::Lit(x) => self.build_literal_expression(x, is_ret, parent_id),
            SrcExpr::Loop(x) => self.build_loop_expression(x, is_ret, parent_id),
            SrcExpr::Macro(x) => self.build_macro_expression(x, parent_id),
            SrcExpr::Match(x) => self.build_match_expression(x, is_ret, parent_id),
            SrcExpr::MethodCall(x) => self.build_method_call_expression(x, is_ret, parent_id),
            SrcExpr::Paren(x) => self.build_parenthesied_expression(x, is_ret, parent_id),
            SrcExpr::Path(x) => self.build_identifier(x, is_ret, parent_id),
            SrcExpr::Range(x) => self.build_range_expression(x, is_ret, parent_id),
            SrcExpr::RawAddr(x) => self.build_addr_expression(x, is_ret, parent_id),
            SrcExpr::Reference(x) => self.build_reference_expression(x, is_ret, parent_id),
            SrcExpr::Repeat(x) => self.build_repeat_expression(x, is_ret, parent_id),
            SrcExpr::Return(x) => self.build_return_expression(x, parent_id),
            SrcExpr::Struct(x) => self.build_struct_expression(x, is_ret, parent_id),
            SrcExpr::Try(x) => self.build_try_expression(x, is_ret, parent_id),
            SrcExpr::TryBlock(x) => self.build_try_block_expression(x, parent_id),
            SrcExpr::Tuple(x) => self.build_tuple_expression(x, is_ret, parent_id),
            SrcExpr::Unsafe(x) => self.build_unsafe_expression(x, parent_id),
            SrcExpr::While(x) => self.build_while_expression(x, is_ret, parent_id),
            _ => vstd::pervasive::unreached(),
        }
    }

    /// Builds expressions one behind the other.
    fn build_expressions(&mut self, exprs: &Vec<SrcExpr>, parent_id: u32) -> (r: Vec<Expression>)
        requires
            exprs_ok(exprs_view(exprs@)),
            old(self).id + exprs_ids(exprs_view(exprs@)) <= u32::MAX,
        ensures
            is_exprs(exprs_view(exprs@), old(self).id as int, r@),
            advanced(
                *old(self),
                *final(self),
                exprs_ids(exprs_view(exprs@)),
                exprs_log(exprs_view(exprs@), r@, parent_id),
            ),
        decreases exprs,
    {
        let ghost s = exprs_view(exprs@);
        let mut r: Vec<Expression> = Vec::new();
        for i in 0..exprs.len()
            invariant
                s == exprs_view(exprs@),
                exprs_ok(s),
                old(self).id + exprs_ids(s) <= u32::MAX,
                is_exprs(s.take(i as int), old(self).id as int, r@),
                advanced(
                    *old(self),
                    *self,
                    exprs_ids(s.take(i as int)),
                    exprs_log(s.take(i as int), r@, parent_id),
                ),
        {
            let ghost built = r@;
            proof {
                lemma_exprs_prefix(s, i + 1);
                assert(s.take(i + 1).drop_last() =~= s.take(i as int));
                assert(decreases_to!(exprs@ => exprs@[i as int]));
            }
            let expr = self.build_expression(&exprs[i], false, parent_id);
            r.push(expr);
            proof {
                assert(r@.drop_last() =~= built);
                assert(self.storage@ =~= old(self).storage@ + exprs_log(
                    s.take(i + 1),
                    r@,
                    parent_id,
                ));
            }
        }
        assert(s.take(s.len() as int) =~= s);
        r
    }

    /// Builds an expression where there is one.
    pub(crate) fn build_opt_expression(&mut self, expr: &Option<Box<SrcExpr>>, parent_id: u32) -> (r: Option<
        Expression,
    >)
        requires
            opt_expr_ok(opt_expr_view(*expr)),
            old(self).id + opt_expr_ids(opt_expr_view(*expr)) <= u32::MAX,
        ensures
            is_opt_expr(opt_expr_view(*expr), old(self).id as int, r),
            advanced(
                *old(self),
                *final(self),
                opt_expr_ids(opt_expr_view(*expr)),
                opt_expr_log(opt_expr_view(*expr), r, parent_id),
            ),
        decreases expr,
    {
        match expr {
            Some(e) => Some(self.build_expression(e, false, parent_id)),
            None => {
                assert(self.storage@ =~= old(self).storage@ + Seq::<StoredNode>::empty());
                None
            },
        }
    }

    /// Builds a literal.
    pub fn build_literal(&mut self, lit: &SrcLit) -> (r: Literal)
        requires
            lit_ok(lit@.value),
            old(self).id < u32::MAX,
        ensures
            is_literal(lit@, old(self).id as int, r),
            advanced(*old(self), *final(self), 1, Seq::empty()),
    {
        let id: u32 = self.get_node_id();
        let location = lit.at;
        assert(self.storage@ =~= old(self).storage@ + Seq::<StoredNode>::empty());
        match &lit.value {
            SrcLitValue::Bool(v) => Literal::Bool(Rc::new(LBool { id, location, value: *v })),
            SrcLitValue::Byte(v) => Literal::Byte(Rc::new(LByte { id, location, value: *v })),
            SrcLitValue::Char(v) => Literal::Char(Rc::new(LChar { id, location, value: *v })),
            SrcLitValue::Float(digits) => Literal::Float(
                Rc::new(LFloat { id, location, value: digits.clone() }),
            ),
            SrcLitValue::Int(digits) => match parse_decimal(digits.as_str()) {
                Some(value) => Literal::Int(Rc::new(LInt { id, location, value })),
                None => vstd::pervasive::unreached(),
            },
            SrcLitValue::Str(v) => Literal::String(
                Rc::new(LString { id, location, value: v.clone() }),
            ),
            SrcLitValue::ByteStr(bytes) => Literal::BString(
                Rc::new(LBString { id, location, value: decode_lossy(bytes) }),
            ),
            SrcLitValue::CStr(bytes) => Literal::CString(
                Rc::new(LCString { id, location, value: decode_lossy(bytes) }),
            ),
            SrcLitValue::Unsupported => vstd::pervasive::unreached(),
        }
    }

    /// Builds a type.
    pub fn build_type(&mut self, ty: &SrcType, _parent_id: u32) -> (r: Type)
        requires
            old(self).id < u32::MAX,
        ensures
            is_type(ty@, old(self).id as int, r),
            advanced(*old(self), *final(self), 1, Seq::empty()),
    {
        let id: u32 = self.get_node_id();
        assert(self.storage@ =~= old(self).storage@ + Seq::<StoredNode>::empty());
        Type::Typename(Rc::new(Typename { id, location: ty.at, name: ty.text.clone() }))
    }

    /// Builds a pattern.
    pub fn build_pattern(&mut self, pat: &SrcPat) -> (r: Pattern)
        requires
            old(self).id < u32::MAX,
        ensures
            is_pattern(pat@, old(self).id as int, r),
            advanced(*old(self), *final(self), 1, Seq::empty()),
    {
        let id: u32 = self.get_node_id();
        assert(self.storage@ =~= old(self).storage@ + Seq::<StoredNode>::empty());
        let kind = match pat.kind {
            SrcPatKind::Wild => "_".to_owned(),
            _ => pat.text.clone(),
        };
        Pattern { id, location: pat.at, kind }
    }

    /// Builds a literal that stands as an expression.
    pub fn build_literal_expression(
        &mut self,
        lit_expr: &SrcLitExpr,
        is_ret: bool,
        parent_id: u32,
    ) -> (r: Expression)
        requires
            expr_ok(lit_expr@),
            old(self).id + expr_ids(lit_expr@) <= u32::MAX,
        ensures
            is_expr(lit_expr@, is_ret, old(self).id as int, r),
            advanced(
                *old(self),
                *final(self),
                expr_ids(lit_expr@),
                expr_log(lit_expr@, r, parent_id),
            ),
        decreases lit_expr,
    {
        let id: u32 = self.get_node_id();
        let value = self.build_literal(&lit_expr.lit);
        let expr = Expression::Literal(Rc::new(Lit { id, location: lit_expr.at, value, is_ret }));
        self.store_expression(&expr, parent_id);
        assert(self.storage@ =~= old(self).storage@ + expr_log(lit_expr@, expr, parent_id));
        expr
    }

    /// Builds `[a, b]`.
    pub fn build_array_expression(
        &mut self,
        array_expr: &SrcArray,
        is_ret: bool,
        parent_id: u32,
    ) -> (r: Expression)
        requires
            expr_ok(array_expr@),
            old(self).id + expr_ids(array_expr@) <= u32::MAX,
        ensures
            is_expr(array_expr@, is_ret, old(self).id as int, r),
            advanced(
                *old(self),
                *final(self),
                expr_ids(array_expr@),
                expr_log(array_expr@, r, parent_id),
            ),
        decreases array_expr,
    {
        let id: u32 = self.get_node_id();
        let elements = self.build_expressions(&array_expr.elems, id);
        let expr = Expression::Array(
            Rc::new(Array { id, location: array_expr.at, elements, is_ret }),
        );
        self.store_expression(&expr, parent_id);
        assert(self.storage@ =~= old(self).storage@ + expr_log(array_expr@, expr, parent_id));
        expr
    }

    /// Builds `(a, b)`.
    pub fn build_tuple_expression(
        &mut self,
        expr_tuple: &SrcTuple,
        is_ret: bool,
        parent_id: u32,
    ) -> (r: Expression)
        requires
            expr_ok(expr_tuple@),
            old(self).id + expr_ids(expr_tuple@) <= u32::MAX,
        ensures
            is_expr(expr_tuple@, is_ret, old(self).id as int, r),
            advanced(
                *old(self),
                *final(self),
                expr_ids(expr_tuple@),
                expr_log(expr_tuple@, r, parent_id),
            ),
        decreases expr_tuple,
    {
        let id: u32 = self.get_node_id();
        let elements = self.build_expressions(&expr_tuple.elems, id);
        let expr = Expression::Tuple(
            Rc::new(Tuple { id, location: expr_tuple.at, elements, is_ret }),
        );
        self.store_expression(&expr, parent_id);
        assert(self.storage@ =~= old(self).storage@ + expr_log(expr_tuple@, expr, parent_id));
        expr
    }

    /// Builds `func(args)`: first the arguments, then what is called.
    pub fn build_function_call_expression(
        &mut self,
        expr_call: &SrcCall,
        is_ret: bool,
        parent_id: u32,
    ) -> (r: Expression)
        requires
            expr_ok(expr_call@),
            old(self).id + expr_ids(expr_call@) <= u32::MAX,
        ensures
            is_expr(expr_call@, is_ret, old(self).id as int, r),
            advanced(
                *old(self),
                *final(self),
                expr_ids(expr_call@),
                expr_log(expr_call@, r, parent_id),
            ),
        decreases expr_call,
    {
        let id: u32 = self.get_node_id();
        let parameters = self.build_expressions(&expr_call.args, id);
        let expression = self.build_expression(&expr_call.func, false, id);
        let expr = Expression::FunctionCall(
            Rc::new(
                FunctionCall {
                    id,
                    location: expr_call.at,
                    function_name: expr_call.callee.clone(),
                    expression,
                    parameters,
                    is_ret,
                },
            ),
        );
        self.store_expression(&expr, parent_id);
        assert(self.storage@ =~= old(self).storage@ + expr_log(expr_call@, expr, parent_id));
        expr
    }

    /// Builds `receiver.method(args)`.
    pub fn build_method_call_expression(
        &mut self,
        method_call: &SrcMethodCall,
        is_ret: bool,
        parent_id: u32,
    ) -> (r: Expression)
        requires
            expr_ok(method_call@),
            old(self).id + expr_ids(method_call@) <= u32::MAX,
        ensures
            is_expr(method_call@, is_ret, old(self).id as int, r),
            advanced(
                *old(self),
                *final(self),
                expr_ids(method_call@),
                expr_log(method_call@, r, parent_id),
            ),
        decreases method_call,
    {
        let id: u32 = self.get_node_id();
        let base = self.build_expression(&method_call.receiver, false, id);
        let parameters = self.build_expressions(&method_call.args, id);
        let expr = Expression::MethodCall(
            Rc::new(
                MethodCall {
                    id,
                    location: method_call.at,
                    method_name: method_call.method.clone(),
                    base,
                    parameters,
                    is_ret,
                },
            ),
        );
        self.store_expression(&expr, parent_id);
        assert(self.storage@ =~= old(self).storage@ + expr_log(method_call@, expr, parent_id));
        expr
    }

    /// Builds `&expr` or `&mut expr`.
    pub fn build_reference_expression(
        &mut self,
        expr_ref: &SrcReference,
        is_ret: bool,
        parent_id: u32,
    ) -> (r: Expression)
        requires
            expr_ok(expr_ref@),
            old(self).id + expr_ids(expr_ref@) <= u32::MAX,
        ensures
            is_expr(expr_ref@, is_ret, old(self).id as int, r),
            advanced(
                *old(self),
                *final(self),
                expr_ids(expr_ref@),
                expr_log(expr_ref@, r, parent_id),
            ),
        decreases expr_ref,
    {
        let id: u32 = self.get_node_id();
        let inner = self.build_expression(&expr_ref.expr, false, id);
        let expr = Expression::Reference(
            Rc::new(
                Reference { id, location: expr_ref.at, inner, is_mutable: expr_ref.is_mut, is_ret },
            ),
        );
        self.store_expression(&expr, parent_id);
        assert(self.storage@ =~= old(self).storage@ + expr_log(expr_ref@, expr, parent_id));
        expr
    }

    /// Builds `return`, whose value always leaves the function.
    pub fn build_return_expression(
        &mut self,
        expr_return: &SrcReturn,
        parent_id: u32,
    ) -> (r: Expression)
        requires
            expr_ok(expr_return@),
            old(self).id + expr_ids(expr_return@) <= u32::MAX,
        ensures
            forall|is_ret: bool| #[trigger] is_expr(expr_return@, is_ret, old(self).id as int, r),
            advanced(
                *old(self),
                *final(self),
                expr_ids(expr_return@),
                expr_log(expr_return@, r, parent_id),
            ),
        decreases expr_return,
    {
        let id: u32 = self.get_node_id();
        let expression = self.build_opt_expression(&expr_return.expr, id);
        let expr = Expression::Return(
            Rc::new(Return { id, location: expr_return.at, expression, is_ret: true }),
        );
        self.store_expression(&expr, parent_id);
        assert(self.storage@ =~= old(self).storage@ + expr_log(expr_return@, expr, parent_id));
        expr
    }

    /// Builds `[expr; len]`.
    pub fn build_repeat_expression(
        &mut self,
        expr_repeat: &SrcRepeat,
        is_ret: bool,
        parent_id: u32,
    ) -> (r: Expression)
        requires
            expr_ok(expr_repeat@),
            old(self).id + expr_ids(expr_repeat@) <= u32::MAX,
        ensures
            is_expr(expr_repeat@, is_ret, old(self).id as int, r),
            advanced(
                *old(self),
                *final(self),
                expr_ids(expr_repeat@),
                expr_log(expr_repeat@, r, parent_id),
            ),
        decreases expr_repeat,
    {
        let id: u32 = self.get_node_id();
        let expression = self.build_expression(&expr_repeat.expr, false, id);
        let count = self.build_expression(&expr_repeat.len, false, id);
        let expr = Expression::Repeat(
            Rc::new(Repeat { id, location: expr_repeat.at, expression, count, is_ret }),
        );
        self.store_expression(&expr, parent_id);
        assert(self.storage@ =~= old(self).storage@ + expr_log(expr_repeat@, expr, parent_id));
        expr
    }

    /// Builds a name or a path, which is stored as an expression.
    pub fn build_identifier(&mut self, expr_path: &SrcPath, is_ret: bool, parent_id: u32) -> (r:
        Expression)
        requires
            old(self).id + expr_ids(expr_path@) <= u32::MAX,
        ensures
            is_expr(expr_path@, is_ret, old(self).id as int, r),
            advanced(
                *old(self),
                *final(self),
                expr_ids(expr_path@),
                expr_log(expr_path@, r, parent_id),
            ),
    {
        let id: u32 = self.get_node_id();
        let expr = Expression::Identifier(
            Rc::new(
                Identifier { id, location: expr_path.at, name: expr_path.text.clone(), is_ret },
            ),
        );
        self.storage.add_node(NodeKind::Expression(expr.clone()), parent_id);
        assert(self.storage@ =~= old(self).storage@ + expr_log(expr_path@, expr, parent_id));
        expr
    }

    /// Builds `(expr)`.
    pub fn build_parenthesied_expression(
        &mut self,
        parenthesied: &SrcParen,
        is_ret: bool,
        parent_id: u32,
    ) -> (r: Expression)
        requires
            expr_ok(parenthesied@),
            old(self).id + expr_ids(parenthesied@) <= u32::MAX,
        ensures
            is_expr(parenthesied@, is_ret, old(self).id as int, r),
            advanced(
                *old(self),
                *final(self),
                expr_ids(parenthesied@),
                expr_log(parenthesied@, r, parent_id),
            ),
        decreases parenthesied,
    {
        let id: u32 = self.get_node_id();
        let expression = self.build_expression(&parenthesied.expr, false, id);
        let expr = Expression::Parenthesized(
            Rc::new(Parenthesized { id, location: parenthesied.at, expression, is_ret }),
        );
        self.store_expression(&expr, parent_id);
        assert(self.storage@ =~= old(self).storage@ + expr_log(parenthesied@, expr, parent_id));
        expr
    }

    /// Builds `start..end` or `start..=end`, each end where it is written.
    pub fn build_range_expression(
        &mut self,
        expr_range: &SrcRange,
        is_ret: bool,
        parent_id: u32,
    ) -> (r: Expression)
        requires
            expr_ok(expr_range@),
            old(self).id + expr_ids(expr_range@) <= u32::MAX,
        ensures
            is_expr(expr_range@, is_ret, old(self).id as int, r),
            advanced(
                *old(self),
                *final(self),
                expr_ids(expr_range@),
                expr_log(expr_range@, r, parent_id),
            ),
        decreases expr_range,
    {
        let id: u32 = self.get_node_id();
        let start = self.build_opt_expression(&expr_range.start, id);
        let end = self.build_opt_expression(&expr_range.end, id);
        let range = Expression::Range(
            Rc::new(
                Range {
                    id,
                    location: expr_range.at,
                    start,
                    end,
                    is_closed: expr_range.is_closed,
                    is_ret,
                },
            ),
        );
        self.store_expression(&range, parent_id);
        assert(self.storage@ =~= old(self).storage@ + expr_log(expr_range@, range, parent_id));
        range
    }

    /// Builds `base.member`.
    pub fn build_member_access_expression(
        &mut self,
        member_access: &SrcMember,
        is_ret: bool,
        parent_id: u32,
    ) -> (r: Expression)
        requires
            expr_ok(member_access@),
            old(self).id + expr_ids(member_access@) <= u32::MAX,
        ensures
            is_expr(member_access@, is_ret, old(self).id as int, r),
            advanced(
                *old(self),
                *final(self),
                expr_ids(member_access@),
                expr_log(member_access@, r, parent_id),
            ),
        decreases member_access,
    {
        let id: u32 = self.get_node_id();
        let base = self.build_expression(&member_access.base, false, id);
        let expr = Expression::MemberAccess(
            Rc::new(
                MemberAccess {
                    id,
                    location: member_access.at,
                    base,
                    member_name: member_access.member.clone(),
                    is_ret,
                },
            ),
        );
        self.store_expression(&expr, parent_id);
        assert(self.storage@ =~= old(self).storage@ + expr_log(member_access@, expr, parent_id));
        expr
    }

    /// Builds `left = right`.
    pub fn build_assign_expresison(
        &mut self,
        assign: &SrcAssign,
        is_ret: bool,
        parent_id: u32,
    ) -> (r: Expression)
        requires
            expr_ok(assign@),
            old(self).id + expr_ids(assign@) <= u32::MAX,
        ensures
            is_expr(assign@, is_ret, old(self).id as int, r),
            advanced(
                *old(self),
                *final(self),
                expr_ids(assign@),
                expr_log(assign@, r, parent_id),
            ),
        decreases assign,
    {
        let id: u32 = self.get_node_id();
        let left = self.build_expression(&assign.left, false, id);
        let right = self.build_expression(&assign.right, false, id);
        let expr = Expression::Assign(
            Rc::new(Assign { id, location: assign.at, left, right, is_ret }),
        );
        self.store_expression(&expr, parent_id);
        assert(self.storage@ =~= old(self).storage@ + expr_log(assign@, expr, parent_id));
        expr
    }

    /// Builds `left op right`.
    pub fn build_binary_expression(
        &mut self,
        binary: &SrcBinary,
        is_ret: bool,
        parent_id: u32,
    ) -> (r: Expression)
        requires
            expr_ok(binary@),
            old(self).id + expr_ids(binary@) <= u32::MAX,
        ensures
            is_expr(binary@, is_ret, old(self).id as int, r),
            advanced(
                *old(self),
                *final(self),
                expr_ids(binary@),
                expr_log(binary@, r, parent_id),
            ),
        decreases binary,
    {
        let id: u32 = self.get_node_id();
        let left = self.build_expression(&binary.left, false, id);
        let right = self.build_expression(&binary.right, false, id);
        let operator = match BinOp::from_syn_item(binary.op.as_str()) {
            Some(op) => op,
            None => vstd::pervasive::unreached(),
        };
        let expr = Expression::Binary(
            Rc::new(Binary { id, location: binary.at, left, right, operator, is_ret }),
        );
        self.store_expression(&expr, parent_id);
        assert(self.storage@ =~= old(self).storage@ + expr_log(binary@, expr, parent_id));
        expr
    }

    /// Builds `op expr`.
    pub fn build_unary_expression(
        &mut self,
        unary: &SrcUnary,
        is_ret: bool,
        parent_id: u32,
    ) -> (r: Expression)
        requires
            expr_ok(unary@),
            old(self).id + expr_ids(unary@) <= u32::MAX,
        ensures
            is_expr(unary@, is_ret, old(self).id as int, r),
            advanced(
                *old(self),
                *final(self),
                expr_ids(unary@),
                expr_log(unary@, r, parent_id),
            ),
        decreases unary,
    {
        let id: u32 = self.get_node_id();
        let expression = self.build_expression(&unary.expr, false, id);
        let operator = match UnOp::from_syn_item(unary.op.as_str()) {
            Some(op) => op,
            None => vstd::pervasive::unreached(),
        };
        let expr = Expression::Unary(
            Rc::new(Unary { id, location: unary.at, expression, operator, is_ret }),
        );
        self.store_expression(&expr, parent_id);
        assert(self.storage@ =~= old(self).storage@ + expr_log(unary@, expr, parent_id));
        expr
    }

    /// Builds `break`.
    pub fn build_break_expression(
        &mut self,
        expr_break: &SrcBreak,
        parent_id: u32,
    ) -> (r: Expression)
        requires
            expr_ok(expr_break@),
            old(self).id + expr_ids(expr_break@) <= u32::MAX,
        ensures
            forall|is_ret: bool| #[trigger] is_expr(expr_break@, is_ret, old(self).id as int, r),
            advanced(
                *old(self),
                *final(self),
                expr_ids(expr_break@),
                expr_log(expr_break@, r, parent_id),
            ),
        decreases expr_break,
    {
        let id: u32 = self.get_node_id();
        let expression = self.build_opt_expression(&expr_break.expr, id);
        let expr = Expression::Break(
            Rc::new(Break { id, location: expr_break.at, expression, is_ret: false }),
        );
        self.store_expression(&expr, parent_id);
        assert(self.storage@ =~= old(self).storage@ + expr_log(expr_break@, expr, parent_id));
        expr
    }

    /// Builds what a closure takes over.
    fn build_captures(&mut self, capture: &Option<SrcCapture>, id: u32) -> (r: Vec<Rc<Identifier>>)
        requires
            opt_capture_view(*capture) matches Some(c) ==> c.text is Some,
            old(self).id + capture_ids(opt_capture_view(*capture)) <= u32::MAX,
        ensures
            is_captures(opt_capture_view(*capture), old(self).id as int, r@),
            advanced(
                *old(self),
                *final(self),
                capture_ids(opt_capture_view(*capture)),
                captures_log(r@, id),
            ),
    {
        let mut captures: Vec<Rc<Identifier>> = Vec::new();
        if let Some(c) = capture {
            let name = match &c.text {
                Some(text) => text.clone(),
                None => vstd::pervasive::unreached(),
            };
            let own: u32 = self.get_node_id();
            let identifier = Rc::new(Identifier { id: own, location: c.at, name, is_ret: false });
            self.store_expression(&Expression::Identifier(identifier.clone()), id);
            captures.push(identifier);
        }
        assert(self.storage@ =~= old(self).storage@ + captures_log(captures@, id));
        captures
    }

    /// Builds a closure: its body, what it takes over, and its return type.
    pub fn build_closure_expression(
        &mut self,
        expr_closure: &SrcClosure,
        is_ret: bool,
        parent_id: u32,
    ) -> (r: Expression)
        requires
            expr_ok(expr_closure@),
            old(self).id + expr_ids(expr_closure@) <= u32::MAX,
        ensures
            is_expr(expr_closure@, is_ret, old(self).id as int, r),
            advanced(
                *old(self),
                *final(self),
                expr_ids(expr_closure@),
                expr_log(expr_closure@, r, parent_id),
            ),
        decreases expr_closure,
    {
        let id: u32 = self.get_node_id();
        let body = self.build_expression(&expr_closure.body, false, id);
        let captures = self.build_captures(&expr_closure.capture, id);
        let output = match &expr_closure.output {
            Some(ty) => self.build_type(ty, id),
            None => {
                let inferred = inferred_type();
                self.build_type(&inferred, id)
            },
        };
        self.storage.add_node(NodeKind::Type(output.clone()), id);
        self.store_expression(&body, id);
        let closure = Expression::Closure(
            Rc::new(
                Closure { id, location: expr_closure.at, captures, returns: output, body, is_ret },
            ),
        );
        self.store_expression(&closure, parent_id);
        assert(self.storage@ =~= old(self).storage@ + expr_log(expr_closure@, closure, parent_id));
        closure
    }

    /// Builds `expr as ty`.
    pub fn build_cast_expression(
        &mut self,
        expr_cast: &SrcCast,
        is_ret: bool,
        parent_id: u32,
    ) -> (r: Expression)
        requires
            expr_ok(expr_cast@),
            old(self).id + expr_ids(expr_cast@) <= u32::MAX,
        ensures
            is_expr(expr_cast@, is_ret, old(self).id as int, r),
            advanced(
                *old(self),
                *final(self),
                expr_ids(expr_cast@),
                expr_log(expr_cast@, r, parent_id),
            ),
        decreases expr_cast,
    {
        let id: u32 = self.get_node_id();
        let base = self.build_expression(&expr_cast.expr, false, id);
        let target_type = self.build_type(&expr_cast.ty, id);
        self.storage.add_node(NodeKind::Type(target_type.clone()), id);
        let expr = Expression::Cast(
            Rc::new(Cast { id, location: expr_cast.at, base, target_type, is_ret }),
        );
        self.store_expression(&expr, parent_id);
        assert(self.storage@ =~= old(self).storage@ + expr_log(expr_cast@, expr, parent_id));
        expr
    }

    /// Builds a block that stands as an expression. The block is stored under the expression, and
    /// once more beside it.
    pub fn build_block_expression(
        &mut self,
        block_expr: &SrcBlockExpr,
        parent_id: u32,
    ) -> (r: Expression)
        requires
            expr_ok(block_expr@),
            old(self).id + expr_ids(block_expr@) <= u32::MAX,
        ensures
            forall|is_ret: bool| #[trigger] is_expr(block_expr@, is_ret, old(self).id as int, r),
            advanced(
                *old(self),
                *final(self),
                expr_ids(block_expr@),
                expr_log(block_expr@, r, parent_id),
            ),
        decreases block_expr,
    {
        let id: u32 = self.get_node_id();
        let block = block_of(self.build_block_statement(&block_expr.block, id));
        self.storage.add_node(NodeKind::Statement(Statement::Block(block.clone())), parent_id);
        let expr = Expression::EBlock(Rc::new(EBlock { id, location: block_expr.at, block }));
        self.store_expression(&expr, parent_id);
        assert(self.storage@ =~= old(self).storage@ + expr_log(block_expr@, expr, parent_id));
        expr
    }

    /// The expression `id` that a block stands as.
    pub fn build_eblock_expression(block: &Rc<Block>, id: u32) -> (r: Expression)
        ensures
            r == Expression::EBlock(
                Rc::new(EBlock { id, location: block.location, block: *block }),
            ),
    {
        Expression::EBlock(Rc::new(EBlock { id, location: block.location, block: block.clone() }))
    }

    /// Builds `const { .. }`.
    pub fn build_const_block_expression(
        &mut self,
        expr_const: &SrcConstBlock,
        parent_id: u32,
    ) -> (r: Expression)
        requires
            expr_ok(expr_const@),
            old(self).id + expr_ids(expr_const@) <= u32::MAX,
        ensures
            forall|is_ret: bool| #[trigger] is_expr(expr_const@, is_ret, old(self).id as int, r),
            advanced(
                *old(self),
                *final(self),
                expr_ids(expr_const@),
                expr_log(expr_const@, r, parent_id),
            ),
        decreases expr_const,
    {
        let id: u32 = self.get_node_id();
        let block = block_of(self.build_block_statement(&expr_const.block, parent_id));
        let expr = Expression::Const(Rc::new(ConstBlock { id, location: block.location, block }));
        self.store_expression(&expr, parent_id);
        assert(self.storage@ =~= old(self).storage@ + expr_log(expr_const@, expr, parent_id));
        expr
    }

    /// Builds `continue`.
    pub fn build_continue_expression(
        &mut self,
        expr_continue: &SrcContinue,
        parent_id: u32,
    ) -> (r: Expression)
        requires
            expr_ok(expr_continue@),
            old(self).id + expr_ids(expr_continue@) <= u32::MAX,
        ensures
            forall|is_ret: bool| #[trigger] is_expr(expr_continue@, is_ret, old(self).id as int, r),
            advanced(
                *old(self),
                *final(self),
                expr_ids(expr_continue@),
                expr_log(expr_continue@, r, parent_id),
            ),
        decreases expr_continue,
    {
        let id: u32 = self.get_node_id();
        let expr = Expression::Continue(Rc::new(Continue { id, location: expr_continue.at }));
        self.store_expression(&expr, parent_id);
        assert(self.storage@ =~= old(self).storage@ + expr_log(expr_continue@, expr, parent_id));
        expr
    }

    /// Builds a `for` loop: first its block, then what it goes through.
    pub fn build_for_loop_expression(
        &mut self,
        for_loop: &SrcForLoop,
        is_ret: bool,
        parent_id: u32,
    ) -> (r: Expression)
        requires
            expr_ok(for_loop@),
            old(self).id + expr_ids(for_loop@) <= u32::MAX,
        ensures
            is_expr(for_loop@, is_ret, old(self).id as int, r),
            advanced(
                *old(self),
                *final(self),
                expr_ids(for_loop@),
                expr_log(for_loop@, r, parent_id),
            ),
        decreases for_loop,
    {
        let id: u32 = self.get_node_id();
        let block = block_of(self.build_block_statement(&for_loop.body, parent_id));
        let expression = self.build_expression(&for_loop.expr, false, id);
        let expr = Expression::ForLoop(
            Rc::new(ForLoop { id, location: for_loop.at, expression, block, is_ret }),
        );
        self.store_expression(&expr, parent_id);
        assert(self.storage@ =~= old(self).storage@ + expr_log(for_loop@, expr, parent_id));
        expr
    }

    /// Builds an `if`: first its block, then its condition, then its `else` branch.
    pub fn build_if_expression(
        &mut self,
        if_expr: &SrcIf,
        is_ret: bool,
        parent_id: u32,
    ) -> (r: Expression)
        requires
            expr_ok(if_expr@),
            old(self).id + expr_ids(if_expr@) <= u32::MAX,
        ensures
            is_expr(if_expr@, is_ret, old(self).id as int, r),
            advanced(
                *old(self),
                *final(self),
                expr_ids(if_expr@),
                expr_log(if_expr@, r, parent_id),
            ),
        decreases if_expr,
    {
        let id: u32 = self.get_node_id();
        let then_branch = block_of(self.build_block_statement(&if_expr.then_branch, parent_id));
        let condition = self.build_expression(&if_expr.cond, false, id);
        let else_branch = self.build_opt_expression(&if_expr.else_branch, id);
        let expr = Expression::If(
            Rc::new(If { id, location: if_expr.at, condition, then_branch, else_branch, is_ret }),
        );
        self.store_expression(&expr, parent_id);
        assert(self.storage@ =~= old(self).storage@ + expr_log(if_expr@, expr, parent_id));
        expr
    }

    /// Builds `loop { .. }`.
    pub fn build_loop_expression(
        &mut self,
        loop_expr: &SrcLoop,
        is_ret: bool,
        parent_id: u32,
    ) -> (r: Expression)
        requires
            expr_ok(loop_expr@),
            old(self).id + expr_ids(loop_expr@) <= u32::MAX,
        ensures
            is_expr(loop_expr@, is_ret, old(self).id as int, r),
            advanced(
                *old(self),
                *final(self),
                expr_ids(loop_expr@),
                expr_log(loop_expr@, r, parent_id),
            ),
        decreases loop_expr,
    {
        let id: u32 = self.get_node_id();
        let block = block_of(self.build_block_statement(&loop_expr.body, parent_id));
        let expr = Expression::Loop(Rc::new(Loop { id, location: loop_expr.at, block, is_ret }));
        self.store_expression(&expr, parent_id);
        assert(self.storage@ =~= old(self).storage@ + expr_log(loop_expr@, expr, parent_id));
        expr
    }

    /// Builds a `while` loop: first its block, then its condition.
    pub fn build_while_expression(
        &mut self,
        expr_while: &SrcWhile,
        is_ret: bool,
        parent_id: u32,
    ) -> (r: Expression)
        requires
            expr_ok(expr_while@),
            old(self).id + expr_ids(expr_while@) <= u32::MAX,
        ensures
            is_expr(expr_while@, is_ret, old(self).id as int, r),
            advanced(
                *old(self),
                *final(self),
                expr_ids(expr_while@),
                expr_log(expr_while@, r, parent_id),
            ),
        decreases expr_while,
    {
        let id: u32 = self.get_node_id();
        let label = match &expr_while.label {
            Some(text) => Some(text.clone()),
            None => None,
        };
        let block = block_of(self.build_block_statement(&expr_while.body, parent_id));
        let condition = self.build_expression(&expr_while.cond, false, id);
        let expr = Expression::While(
            Rc::new(While { id, location: expr_while.at, label, condition, block, is_ret }),
        );
        self.store_expression(&expr, parent_id);
        assert(self.storage@ =~= old(self).storage@ + expr_log(expr_while@, expr, parent_id));
        expr
    }

    /// Builds the placeholder `_`.
    pub fn build_discarded_identifier(
        &mut self,
        infer: &SrcInfer,
        parent_id: u32,
    ) -> (r: Expression)
        requires
            expr_ok(infer@),
            old(self).id + expr_ids(infer@) <= u32::MAX,
        ensures
            forall|is_ret: bool| #[trigger] is_expr(infer@, is_ret, old(self).id as int, r),
            advanced(
                *old(self),
                *final(self),
                expr_ids(infer@),
                expr_log(infer@, r, parent_id),
            ),
        decreases infer,
    {
        let id: u32 = self.get_node_id();
        let identifier = Expression::Identifier(
            Rc::new(Identifier { id, location: infer.at, name: "_".to_owned(), is_ret: false }),
        );
        self.store_expression(&identifier, parent_id);
        assert(self.storage@ =~= old(self).storage@ + expr_log(infer@, identifier, parent_id));
        identifier
    }

    /// Builds `expr[index]`.
    pub fn build_index_access_expression(
        &mut self,
        index_access: &SrcIndex,
        is_ret: bool,
        parent_id: u32,
    ) -> (r: Expression)
        requires
            expr_ok(index_access@),
            old(self).id + expr_ids(index_access@) <= u32::MAX,
        ensures
            is_expr(index_access@, is_ret, old(self).id as int, r),
            advanced(
                *old(self),
                *final(self),
                expr_ids(index_access@),
                expr_log(index_access@, r, parent_id),
            ),
        decreases index_access,
    {
        let id: u32 = self.get_node_id();
        let base = self.build_expression(&index_access.expr, false, id);
        let index = self.build_expression(&index_access.index, false, id);
        let expr = Expression::IndexAccess(
            Rc::new(IndexAccess { id, location: index_access.at, base, index, is_ret }),
        );
        self.store_expression(&expr, parent_id);
        assert(self.storage@ =~= old(self).storage@ + expr_log(index_access@, expr, parent_id));
        expr
    }

    /// Builds `let pat = expr` inside a condition.
    pub fn build_let_guard_expression(
        &mut self,
        let_guard: &SrcLetGuard,
        is_ret: bool,
        parent_id: u32,
    ) -> (r: Expression)
        requires
            expr_ok(let_guard@),
            old(self).id + expr_ids(let_guard@) <= u32::MAX,
        ensures
            is_expr(let_guard@, is_ret, old(self).id as int, r),
            advanced(
                *old(self),
                *final(self),
                expr_ids(let_guard@),
                expr_log(let_guard@, r, parent_id),
            ),
        decreases let_guard,
    {
        let id: u32 = self.get_node_id();
        let guard = self.build_pattern(&let_guard.pat);
        self.storage.add_node(NodeKind::Pattern(guard.clone()), id);
        let value = self.build_expression(&let_guard.expr, false, id);
        let expr = Expression::LetGuard(
            Rc::new(LetGuard { id, location: let_guard.at, guard, value, is_ret }),
        );
        self.store_expression(&expr, parent_id);
        assert(self.storage@ =~= old(self).storage@ + expr_log(let_guard@, expr, parent_id));
        expr
    }

    /// Builds a macro call that stands as an expression.
    pub fn build_macro_expression(
        &mut self,
        macro_expr: &SrcMacroExpr,
        parent_id: u32,
    ) -> (r: Expression)
        requires
            expr_ok(macro_expr@),
            old(self).id + expr_ids(macro_expr@) <= u32::MAX,
        ensures
            forall|is_ret: bool| #[trigger] is_expr(macro_expr@, is_ret, old(self).id as int, r),
            advanced(
                *old(self),
                *final(self),
                expr_ids(macro_expr@),
                expr_log(macro_expr@, r, parent_id),
            ),
        decreases macro_expr,
    {
        let id: u32 = self.get_node_id();
        let expr = Expression::Macro(
            Rc::new(
                Macro {
                    id,
                    location: macro_expr.at,
                    name: macro_expr.name.clone(),
                    text: macro_expr.text.clone(),
                },
            ),
        );
        self.store_expression(&expr, parent_id);
        assert(self.storage@ =~= old(self).storage@ + expr_log(macro_expr@, expr, parent_id));
        expr
    }

    /// Builds one arm of a `match`; its pattern is not stored.
    pub fn build_match_arm(&mut self, arm: &SrcArm, id: u32) -> (r: MatchArm)
        requires
            expr_ok(arm@.body),
            old(self).id + 1 + expr_ids(arm@.body) <= u32::MAX,
        ensures
            is_pattern(arm@.pat, old(self).id as int, r.pattern),
            is_expr(arm@.body, false, old(self).id + 1, r.expression),
            advanced(
                *old(self),
                *final(self),
                1 + expr_ids(arm@.body),
                expr_log(arm@.body, r.expression, id),
            ),
        decreases arm,
    {
        let pattern = self.build_pattern(&arm.pat);
        let expression = self.build_expression(&arm.body, false, id);
        assert(self.storage@ =~= old(self).storage@ + expr_log(arm@.body, expression, id));
        MatchArm { pattern, expression }
    }

    /// Builds the arms of a `match`.
    fn build_arms(&mut self, arms: &Vec<SrcArm>, id: u32) -> (r: Vec<MatchArm>)
        requires
            arms_ok(arms_view(arms@)),
            old(self).id + arms_ids(arms_view(arms@)) <= u32::MAX,
        ensures
            is_arms(arms_view(arms@), old(self).id as int, r@),
            advanced(
                *old(self),
                *final(self),
                arms_ids(arms_view(arms@)),
                arms_log(arms_view(arms@), r@, id),
            ),
        decreases arms,
    {
        let ghost s = arms_view(arms@);
        let mut r: Vec<MatchArm> = Vec::new();
        for i in 0..arms.len()
            invariant
                s == arms_view(arms@),
                arms_ok(s),
                old(self).id + arms_ids(s) <= u32::MAX,
                is_arms(s.take(i as int), old(self).id as int, r@),
                advanced(
                    *old(self),
                    *self,
                    arms_ids(s.take(i as int)),
                    arms_log(s.take(i as int), r@, id),
                ),
        {
            let ghost built = r@;
            proof {
                lemma_arms_prefix(s, i + 1);
                assert(s.take(i + 1).drop_last() =~= s.take(i as int));
                assert(decreases_to!(arms@ => arms@[i as int]));
            }
            let arm = self.build_match_arm(&arms[i], id);
            r.push(arm);
            proof {
                assert(r@.drop_last() =~= built);
                assert(self.storage@ =~= old(self).storage@ + arms_log(s.take(i + 1), r@, id));
            }
        }
        assert(s.take(s.len() as int) =~= s);
        r
    }

    /// Builds a `match`.
    pub fn build_match_expression(
        &mut self,
        match_expr: &SrcMatch,
        is_ret: bool,
        parent_id: u32,
    ) -> (r: Expression)
        requires
            expr_ok(match_expr@),
            old(self).id + expr_ids(match_expr@) <= u32::MAX,
        ensures
            is_expr(match_expr@, is_ret, old(self).id as int, r),
            advanced(
                *old(self),
                *final(self),
                expr_ids(match_expr@),
                expr_log(match_expr@, r, parent_id),
            ),
        decreases match_expr,
    {
        let id: u32 = self.get_node_id();
        let expression = self.build_expression(&match_expr.expr, false, id);
        let arms = self.build_arms(&match_expr.arms, id);
        let expr = Expression::Match(
            Rc::new(Match { id, location: match_expr.at, expression, arms, is_ret }),
        );
        self.store_expression(&expr, parent_id);
        assert(self.storage@ =~= old(self).storage@ + expr_log(match_expr@, expr, parent_id));
        expr
    }

    /// Builds `unsafe { .. }`.
    pub fn build_unsafe_expression(
        &mut self,
        unsafe_expr: &SrcUnsafeBlock,
        parent_id: u32,
    ) -> (r: Expression)
        requires
            expr_ok(unsafe_expr@),
            old(self).id + expr_ids(unsafe_expr@) <= u32::MAX,
        ensures
            forall|is_ret: bool| #[trigger] is_expr(unsafe_expr@, is_ret, old(self).id as int, r),
            advanced(
                *old(self),
                *final(self),
                expr_ids(unsafe_expr@),
                expr_log(unsafe_expr@, r, parent_id),
            ),
        decreases unsafe_expr,
    {
        let id: u32 = self.get_node_id();
        let block = block_of(self.build_block_statement(&unsafe_expr.block, parent_id));
        let expr = Expression::Unsafe(Rc::new(Unsafe { id, location: unsafe_expr.at, block }));
        self.store_expression(&expr, parent_id);
        assert(self.storage@ =~= old(self).storage@ + expr_log(unsafe_expr@, expr, parent_id));
        expr
    }

    /// Builds the fields of a struct expression.
    fn build_field_values(&mut self, fields: &Vec<SrcFieldValue>, parent_id: u32) -> (r: Vec<
        (String, Expression),
    >)
        requires
            field_values_ok(field_values_view(fields@)),
            old(self).id + field_values_ids(field_values_view(fields@)) <= u32::MAX,
        ensures
            is_field_values(field_values_view(fields@), old(self).id as int, r@),
            advanced(
                *old(self),
                *final(self),
                field_values_ids(field_values_view(fields@)),
                field_values_log(field_values_view(fields@), r@, parent_id),
            ),
        decreases fields,
    {
        let ghost s = field_values_view(fields@);
        let mut r: Vec<(String, Expression)> = Vec::new();
        for i in 0..fields.len()
            invariant
                s == field_values_view(fields@),
                field_values_ok(s),
                old(self).id + field_values_ids(s) <= u32::MAX,
                is_field_values(s.take(i as int), old(self).id as int, r@),
                advanced(
                    *old(self),
                    *self,
                    field_values_ids(s.take(i as int)),
                    field_values_log(s.take(i as int), r@, parent_id),
                ),
        {
            let ghost built = r@;
            proof {
                lemma_field_values_prefix(s, i + 1);
                assert(s.take(i + 1).drop_last() =~= s.take(i as int));
                assert(decreases_to!(fields@ => fields@[i as int]));
            }
            let name = match &fields[i].name {
                Some(ident) => ident.clone(),
                None => String::new(),
            };
            let value = self.build_expression(&fields[i].expr, false, parent_id);
            r.push((name, value));
            proof {
                assert(r@.drop_last() =~= built);
                assert(name@ =~= field_value_name(s[i as int]));
                assert(self.storage@ =~= old(self).storage@ + field_values_log(
                    s.take(i + 1),
                    r@,
                    parent_id,
                ));
            }
        }
        assert(s.take(s.len() as int) =~= s);
        r
    }

    /// Builds a struct expression. It draws its id after its fields, which stand under `parent_id`.
    pub fn build_struct_expression(
        &mut self,
        expr_struct: &SrcStructExpr,
        is_ret: bool,
        parent_id: u32,
    ) -> (r: Expression)
        requires
            expr_ok(expr_struct@),
            old(self).id + expr_ids(expr_struct@) <= u32::MAX,
        ensures
            is_expr(expr_struct@, is_ret, old(self).id as int, r),
            advanced(
                *old(self),
                *final(self),
                expr_ids(expr_struct@),
                expr_log(expr_struct@, r, parent_id),
            ),
        decreases expr_struct,
    {
        let last: usize = expr_struct.path.len() - 1;
        let name = expr_struct.path[last].clone();
        assert(name@ == texts(expr_struct.path@).last());
        let fields = self.build_field_values(&expr_struct.fields, parent_id);
        let rest_dots = self.build_opt_expression(&expr_struct.rest, parent_id);
        let id: u32 = self.get_node_id();
        let estruct = Expression::EStruct(
            Rc::new(EStruct { id, location: expr_struct.at, name, fields, rest_dots, is_ret }),
        );
        self.store_expression(&estruct, parent_id);
        assert(self.storage@ =~= old(self).storage@ + expr_log(expr_struct@, estruct, parent_id));
        estruct
    }

    /// Builds `&raw const expr` or `&raw mut expr`.
    pub fn build_addr_expression(
        &mut self,
        expr_raddr: &SrcRawAddr,
        is_ret: bool,
        parent_id: u32,
    ) -> (r: Expression)
        requires
            expr_ok(expr_raddr@),
            old(self).id + expr_ids(expr_raddr@) <= u32::MAX,
        ensures
            is_expr(expr_raddr@, is_ret, old(self).id as int, r),
            advanced(
                *old(self),
                *final(self),
                expr_ids(expr_raddr@),
                expr_log(expr_raddr@, r, parent_id),
            ),
        decreases expr_raddr,
    {
        let id: u32 = self.get_node_id();
        let expression = self.build_expression(&expr_raddr.expr, false, id);
        let mutability = if expr_raddr.is_mut {
            Mutability::Mutable
        } else {
            Mutability::Constant
        };
        let expr = Expression::Addr(
            Rc::new(Addr { id, location: expr_raddr.at, expression, mutability, is_ret }),
        );
        self.store_expression(&expr, parent_id);
        assert(self.storage@ =~= old(self).storage@ + expr_log(expr_raddr@, expr, parent_id));
        expr
    }

    /// Builds `expr?`.
    pub fn build_try_expression(
        &mut self,
        expr_try: &SrcTry,
        is_ret: bool,
        parent_id: u32,
    ) -> (r: Expression)
        requires
            expr_ok(expr_try@),
            old(self).id + expr_ids(expr_try@) <= u32::MAX,
        ensures
            is_expr(expr_try@, is_ret, old(self).id as int, r),
            advanced(
                *old(self),
                *final(self),
                expr_ids(expr_try@),
                expr_log(expr_try@, r, parent_id),
            ),
        decreases expr_try,
    {
        let id: u32 = self.get_node_id();
        let expression = self.build_expression(&expr_try.expr, false, id);
        let expr = Expression::Try(
            Rc::new(Try { id, location: expr_try.at, expression, is_ret }),
        );
        self.store_expression(&expr, parent_id);
        assert(self.storage@ =~= old(self).storage@ + expr_log(expr_try@, expr, parent_id));
        expr
    }

    /// Builds `try { .. }`.
    pub fn build_try_block_expression(
        &mut self,
        expr_try_block: &SrcTryBlock,
        parent_id: u32,
    ) -> (r: Expression)
        requires
            expr_ok(expr_try_block@),
            old(self).id + expr_ids(expr_try_block@) <= u32::MAX,
        ensures
            forall|is_ret: bool| #[trigger] is_expr(
                expr_try_block@,
                is_ret,
                old(self).id as int,
                r,
            ),
            advanced(
                *old(self),
                *final(self),
                expr_ids(expr_try_block@),
                expr_log(expr_try_block@, r, parent_id),
            ),
        decreases expr_try_block,
    {
        let id: u32 = self.get_node_id();
        let block = block_of(self.build_block_statement(&expr_try_block.block, parent_id));
        let expr = ParserCtx::build_eblock_expression(&block, id);
        self.store_expression(&expr, parent_id);
        assert(self.storage@ =~= old(self).storage@ + expr_log(expr_try_block@, expr, parent_id));
        expr
    }
}

} // verus!
