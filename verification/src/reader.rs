//! Reading source texts into the types of `syntax`.
use crate::outside::{
    arg_parts, arg_source, args_source, arms_source, attr_names, attr_source, attrs_source,
    capture_source, expr_bare_block, expr_block, expr_bracketed, expr_call, expr_cast, expr_closure,
    expr_elements, expr_if, expr_jump, expr_leaf, expr_literal, expr_loop, expr_match, expr_operand,
    expr_operands, expr_pointee, expr_range, expr_scalar, expr_source, expr_struct, expr_suspended,
    expr_text, exprs_source, field_values_source, fields_source, fn_parts, fn_source, impl_const,
    impl_fn, impl_item_source, impl_items_source, impl_tokens, impl_type, item_const, item_crate,
    item_enum, item_fields, item_fn, item_impl, item_macro, item_mod, item_source, item_static,
    item_struct, item_tokens, item_trait, item_trait_alias, item_type, item_union, item_use,
    items_source, location_of, opt_expr_source, opt_type_parts, parse_source, parse_type, parsed,
    pat_parts, pat_source, sig_parts, sig_source, stmt_parts, stmt_source, stmts_source,
    trait_const, trait_fn, trait_item_source, trait_items_source, trait_tokens, type_source,
    use_tree_parts, use_tree_source, use_trees_source, ArgParts, BlockParts, ConstParts, ExprParts,
    FieldParts, ImplItemParts, ItemParts, MacroParts, PatParts, StmtParts, TraitItemParts,
    TypeAliasParts, TypeParts, UseTreeParts,
};
use crate::syntax::{
    args_view, arms_view, attrs_view, exprs_view, field_values_view, fields_view, impl_items_view,
    items_view, opt_capture_view, opt_expr_view, opt_type_view, stmts_view, trait_items_view,
    use_trees_view, FileV, ItemV, Location, SrcArg, SrcArm, SrcArray, SrcAssign, SrcAttr, SrcBinary,
    SrcBlock, SrcBlockExpr, SrcBreak, SrcCall, SrcCapture, SrcCast, SrcClosure, SrcConst,
    SrcConstBlock, SrcContinue, SrcEnum, SrcExpr, SrcExternCrate, SrcField, SrcFieldValue, SrcFile,
    SrcFn, SrcForLoop, SrcIf, SrcImpl, SrcImplFn, SrcImplItem, SrcIndex, SrcInfer, SrcInit, SrcItem,
    SrcLetGuard, SrcLit, SrcLitExpr, SrcLitValue, SrcLocal, SrcLoop, SrcMacro, SrcMacroExpr,
    SrcMacroStmt, SrcMatch, SrcMember, SrcMethodCall, SrcMod, SrcParen, SrcPat, SrcPatKind, SrcPath,
    SrcRange, SrcRawAddr, SrcReference, SrcRepeat, SrcReturn, SrcSignature, SrcStatic, SrcStmt,
    SrcStruct, SrcStructExpr, SrcTokens, SrcTrait, SrcTraitAlias, SrcTraitConst, SrcTraitFn,
    SrcTraitItem, SrcTry, SrcTryBlock, SrcTuple, SrcType, SrcTypeAlias, SrcUnary, SrcUnion,
    SrcUnsafeBlock, SrcUse, SrcUseTree, SrcWhile,
};
use vstd::prelude::*;

verus! {

/// The type that is written `_`.
pub(crate) fn inferred_type() -> (r: SrcType)
    ensures
        Some(r@) == type_source("_"@),
        r@.text == "_"@,
{
    match parse_type("_") {
        Some(t) => read_type(t),
        None => vstd::pervasive::unreached(),
    }
}

/// Reads a type.
fn read_type(t: TypeParts) -> (r: SrcType)
    ensures
        r@ == t.view(),
{
    SrcType { at: location_of(t.at), text: t.text }
}

/// Reads a type that may be absent.
fn read_opt_type(o: Option<TypeParts>) -> (r: Option<SrcType>)
    ensures
        opt_type_view(r) == opt_type_parts(o),
{
    match o {
        Some(t) => Some(read_type(t)),
        None => None,
    }
}

/// Reads an attribute.
fn read_attr(a: &syn::Attribute) -> (r: SrcAttr)
    ensures
        r@ == attr_source(*a),
{
    SrcAttr { path: attr_names(a) }
}

/// Reads attributes.
fn read_attrs(list: &Vec<&syn::Attribute>) -> (r: Vec<SrcAttr>)
    ensures
        attrs_view(r@) == attrs_source(list@),
{
    let ghost s = attrs_source(list@);
    let mut r: Vec<SrcAttr> = Vec::new();
    for i in 0..list.len()
        invariant
            s == attrs_source(list@),
            r@.len() == i,
            forall|j: int| 0 <= j < i ==> (#[trigger] r@[j]).view() == s[j],
    {
        r.push(read_attr(list[i]));
    }
    assert(attrs_view(r@) =~= s);
    r
}

/// Reads a pattern.
pub fn read_pat(p: &syn::Pat) -> (r: SrcPat)
    ensures
        r@ == pat_source(*p),
    decreases pat_source(*p),
{
    let ghost v = pat_source(*p);
    let (at, text, parts) = pat_parts(p);
    let kind = match parts {
        PatParts::Ident { ident, is_mut } => SrcPatKind::Ident { ident, is_mut },
        PatParts::Typed(inner) => {
            proof {
                assert(decreases_to!(v => v.kind));
                assert(decreases_to!(v.kind => v.kind->Typed_0));
            }
            SrcPatKind::Typed(Box::new(read_pat(inner)))
        },
        PatParts::Wild => SrcPatKind::Wild,
        PatParts::Other => SrcPatKind::Other,
    };
    SrcPat { at: location_of(at), text, kind }
}

/// Reads an expression.
pub fn read_expr(e: &syn::Expr) -> (r: SrcExpr)
    ensures
        r@ == expr_source(*e),
    decreases expr_source(*e), 1nat,
{
    if let Some(p) = expr_leaf(e) {
        return read_expr_parts(p);
    }
    if let Some(p) = expr_text(e) {
        return read_expr_parts(p);
    }
    if let Some(p) = expr_scalar(e) {
        return read_expr_parts(p);
    }
    if let Some(p) = expr_elements(e) {
        return read_expr_parts(p);
    }
    if let Some(p) = expr_operands(e) {
        return read_expr_parts(p);
    }
    if let Some(p) = expr_bracketed(e) {
        return read_expr_parts(p);
    }
    if let Some(p) = expr_operand(e) {
        return read_expr_parts(p);
    }
    if let Some(p) = expr_pointee(e) {
        return read_expr_parts(p);
    }
    if let Some(p) = expr_jump(e) {
        return read_expr_parts(p);
    }
    if let Some(p) = expr_range(e) {
        return read_expr_parts(p);
    }
    if let Some(p) = expr_block(e) {
        return read_expr_parts(p);
    }
    if let Some(p) = expr_bare_block(e) {
        return read_expr_parts(p);
    }
    if let Some(p) = expr_if(e) {
        return read_expr_parts(p);
    }
    if let Some(p) = expr_loop(e) {
        return read_expr_parts(p);
    }
    if let Some(p) = expr_call(e) {
        return read_expr_parts(p);
    }
    if let Some(p) = expr_cast(e) {
        return read_expr_parts(p);
    }
    if let Some(p) = expr_closure(e) {
        return read_expr_parts(p);
    }
    if let Some(p) = expr_match(e) {
        return read_expr_parts(p);
    }
    if let Some(p) = expr_struct(e) {
        return read_expr_parts(p);
    }
    if let Some(p) = expr_suspended(e) {
        return read_expr_parts(p);
    }
    if let Some((at, lit_at)) = expr_literal(e) {
        let lit = SrcLit { at: location_of(lit_at), value: SrcLitValue::Unsupported };
        return SrcExpr::Lit(SrcLitExpr { at: location_of(at), lit });
    }
    SrcExpr::Unsupported
}

/// Puts an expression together from its parts.
fn read_expr_parts<'a>(p: ExprParts<'a>) -> (r: SrcExpr)
    ensures
        r@ == p.view(),
    decreases p.view(), 0nat,
{
    let ghost v = p.view();
    match p {
        ExprParts::Array { at, elems } => {
            proof {
                assert(decreases_to!(v => v->Array_elems));
            }
            let elems = read_exprs(&elems);
            SrcExpr::Array(SrcArray { at: location_of(at), elems })
        },
        ExprParts::Assign { at, left, right } => {
            proof {
                assert(decreases_to!(v => v->Assign_left));
                assert(decreases_to!(v => v->Assign_right));
            }
            let left = Box::new(read_expr(left));
            let right = Box::new(read_expr(right));
            SrcExpr::Assign(SrcAssign { at: location_of(at), left, right })
        },
        ExprParts::Binary { at, left, op, right } => {
            proof {
                assert(decreases_to!(v => v->Binary_left));
                assert(decreases_to!(v => v->Binary_right));
            }
            let left = Box::new(read_expr(left));
            let right = Box::new(read_expr(right));
            SrcExpr::Binary(SrcBinary { at: location_of(at), left, op, right })
        },
        ExprParts::Unary { at, op, expr } => {
            proof {
                assert(decreases_to!(v => v->Unary_expr));
            }
            let expr = Box::new(read_expr(expr));
            SrcExpr::Unary(SrcUnary { at: location_of(at), op, expr })
        },
        ExprParts::Break { at, expr } => {
            proof {
                assert(decreases_to!(v => v->Break_expr));
            }
            let expr = read_opt_expr(expr);
            SrcExpr::Break(SrcBreak { at: location_of(at), expr })
        },
        ExprParts::Block { at, block } => {
            proof {
                assert(decreases_to!(v => v->Block_block));
            }
            let block = read_block(block);
            SrcExpr::Block(SrcBlockExpr { at: location_of(at), block })
        },
        ExprParts::Call { at, callee, func, args } => {
            proof {
                assert(decreases_to!(v => v->Call_func));
                assert(decreases_to!(v => v->Call_args));
            }
            let func = Box::new(read_expr(func));
            let args = read_exprs(&args);
            SrcExpr::Call(SrcCall { at: location_of(at), callee, func, args })
        },
        ExprParts::Cast { at, expr, ty } => {
            proof {
                assert(decreases_to!(v => v->Cast_expr));
            }
            let expr = Box::new(read_expr(expr));
            SrcExpr::Cast(SrcCast { at: location_of(at), expr, ty: read_type(ty) })
        },
        ExprParts::Closure { at, capture, output, body } => {
            proof {
                assert(decreases_to!(v => v->Closure_body));
            }
            let body = Box::new(read_expr(body));
            SrcExpr::Closure(
                SrcClosure {
                    at: location_of(at),
                    capture: read_capture(capture),
                    output: read_opt_type(output),
                    body,
                },
            )
        },
        ExprParts::Const { block } => {
            proof {
                assert(decreases_to!(v => v->Const_block));
            }
            let block = read_block(block);
            SrcExpr::Const(SrcConstBlock { block })
        },
        ExprParts::Continue { at } => {
            SrcExpr::Continue(SrcContinue { at: location_of(at) })
        },
        ExprParts::ForLoop { at, expr, body } => {
            proof {
                assert(decreases_to!(v => v->ForLoop_expr));
                assert(decreases_to!(v => v->ForLoop_body));
            }
            let expr = Box::new(read_expr(expr));
            let body = read_block(body);
            SrcExpr::ForLoop(SrcForLoop { at: location_of(at), expr, body })
        },
        ExprParts::Field { at, base, member } => {
            proof {
                assert(decreases_to!(v => v->Field_base));
            }
            let base = Box::new(read_expr(base));
            SrcExpr::Field(SrcMember { at: location_of(at), base, member })
        },
        ExprParts::If { at, cond, then_branch, else_branch } => {
            proof {
                assert(decreases_to!(v => v->If_cond));
                assert(decreases_to!(v => v->If_then_branch));
                assert(decreases_to!(v => v->If_else_branch));
            }
            let cond = Box::new(read_expr(cond));
            let then_branch = read_block(then_branch);
            let else_branch = read_opt_expr(else_branch);
            SrcExpr::If(SrcIf { at: location_of(at), cond, then_branch, else_branch })
        },
        ExprParts::Index { at, expr, index } => {
            proof {
                assert(decreases_to!(v => v->Index_expr));
                assert(decreases_to!(v => v->Index_index));
            }
            let expr = Box::new(read_expr(expr));
            let index = Box::new(read_expr(index));
            SrcExpr::Index(SrcIndex { at: location_of(at), expr, index })
        },
        ExprParts::Infer { at } => {
            SrcExpr::Infer(SrcInfer { at: location_of(at) })
        },
        ExprParts::Let { at, pat, expr } => {
            proof {
                assert(decreases_to!(v => v->Let_expr));
            }
            let expr = Box::new(read_expr(expr));
            SrcExpr::Let(SrcLetGuard { at: location_of(at), pat: read_pat(pat), expr })
        },
        ExprParts::Lit { at, lit_at, value } => {
            SrcExpr::Lit(
                SrcLitExpr { at: location_of(at), lit: SrcLit { at: location_of(lit_at), value } },
            )
        },
        ExprParts::Loop { at, body } => {
            proof {
                assert(decreases_to!(v => v->Loop_body));
            }
            let body = read_block(body);
            SrcExpr::Loop(SrcLoop { at: location_of(at), body })
        },
        ExprParts::Macro { at, name, text } => {
            SrcExpr::Macro(SrcMacroExpr { at: location_of(at), name, text })
        },
        ExprParts::Match { at, expr, arms } => {
            proof {
                assert(decreases_to!(v => v->Match_expr));
                assert(decreases_to!(v => v->Match_arms));
            }
            let expr = Box::new(read_expr(expr));
            let arms = read_arms(&arms);
            SrcExpr::Match(SrcMatch { at: location_of(at), expr, arms })
        },
        ExprParts::MethodCall { at, receiver, method, args } => {
            proof {
                assert(decreases_to!(v => v->MethodCall_receiver));
                assert(decreases_to!(v => v->MethodCall_args));
            }
            let receiver = Box::new(read_expr(receiver));
            let args = read_exprs(&args);
            SrcExpr::MethodCall(SrcMethodCall { at: location_of(at), receiver, method, args })
        },
        ExprParts::Paren { at, expr } => {
            proof {
                assert(decreases_to!(v => v->Paren_expr));
            }
            let expr = Box::new(read_expr(expr));
            SrcExpr::Paren(SrcParen { at: location_of(at), expr })
        },
        ExprParts::Path { at, text } => {
            SrcExpr::Path(SrcPath { at: location_of(at), text })
        },
        ExprParts::Range { at, start, end, is_closed } => {
            proof {
                assert(decreases_to!(v => v->Range_start));
                assert(decreases_to!(v => v->Range_end));
            }
            let start = read_opt_expr(start);
            let end = read_opt_expr(end);
            SrcExpr::Range(SrcRange { at: location_of(at), start, end, is_closed })
        },
        ExprParts::RawAddr { at, is_mut, expr } => {
            proof {
                assert(decreases_to!(v => v->RawAddr_expr));
            }
            let expr = Box::new(read_expr(expr));
            SrcExpr::RawAddr(SrcRawAddr { at: location_of(at), is_mut, expr })
        },
        ExprParts::Reference { at, is_mut, expr } => {
            proof {
                assert(decreases_to!(v => v->Reference_expr));
            }
            let expr = Box::new(read_expr(expr));
            SrcExpr::Reference(SrcReference { at: location_of(at), is_mut, expr })
        },
        ExprParts::Repeat { at, expr, len } => {
            proof {
                assert(decreases_to!(v => v->Repeat_expr));
                assert(decreases_to!(v => v->Repeat_len));
            }
            let expr = Box::new(read_expr(expr));
            let len = Box::new(read_expr(len));
            SrcExpr::Repeat(SrcRepeat { at: location_of(at), expr, len })
        },
        ExprParts::Return { at, expr } => {
            proof {
                assert(decreases_to!(v => v->Return_expr));
            }
            let expr = read_opt_expr(expr);
            SrcExpr::Return(SrcReturn { at: location_of(at), expr })
        },
        ExprParts::Struct { at, path, fields, rest } => {
            proof {
                assert(decreases_to!(v => v->Struct_fields));
                assert(decreases_to!(v => v->Struct_rest));
            }
            let fields = read_field_values(fields);
            let rest = read_opt_expr(rest);
            SrcExpr::Struct(SrcStructExpr { at: location_of(at), path, fields, rest })
        },
        ExprParts::Try { at, expr } => {
            proof {
                assert(decreases_to!(v => v->Try_expr));
            }
            let expr = Box::new(read_expr(expr));
            SrcExpr::Try(SrcTry { at: location_of(at), expr })
        },
        ExprParts::TryBlock { block } => {
            proof {
                assert(decreases_to!(v => v->TryBlock_block));
            }
            let block = read_block(block);
            SrcExpr::TryBlock(SrcTryBlock { block })
        },
        ExprParts::Tuple { at, elems } => {
            proof {
                assert(decreases_to!(v => v->Tuple_elems));
            }
            let elems = read_exprs(&elems);
            SrcExpr::Tuple(SrcTuple { at: location_of(at), elems })
        },
        ExprParts::Unsafe { at, block } => {
            proof {
                assert(decreases_to!(v => v->Unsafe_block));
            }
            let block = read_block(block);
            SrcExpr::Unsafe(SrcUnsafeBlock { at: location_of(at), block })
        },
        ExprParts::While { at, label, cond, body } => {
            proof {
                assert(decreases_to!(v => v->While_cond));
                assert(decreases_to!(v => v->While_body));
            }
            let cond = Box::new(read_expr(cond));
            let body = read_block(body);
            SrcExpr::While(SrcWhile { at: location_of(at), label, cond, body })
        },
        ExprParts::Async => SrcExpr::Async,
        ExprParts::Await => SrcExpr::Await,
        ExprParts::Yield => SrcExpr::Yield,
    }
}

/// Reads what a closure takes over.
fn read_capture(c: Option<(proc_macro2::Span, Option<String>)>) -> (r: Option<SrcCapture>)
    ensures
        opt_capture_view(r) == capture_source(c),
{
    match c {
        Some((at, text)) => Some(SrcCapture { at: location_of(at), text }),
        None => None,
    }
}

/// Reads an expression that may be absent.
fn read_opt_expr(o: Option<&syn::Expr>) -> (r: Option<Box<SrcExpr>>)
    ensures
        opt_expr_view(r) == opt_expr_source(o),
    decreases opt_expr_source(o), 0nat,
{
    match o {
        Some(e) => {
            let ghost v = opt_expr_source(o);
            assert(decreases_to!(v => v->0));
            Some(Box::new(read_expr(e)))
        },
        None => None,
    }
}

/// Reads expressions.
fn read_exprs(list: &Vec<&syn::Expr>) -> (r: Vec<SrcExpr>)
    ensures
        exprs_view(r@) == exprs_source(list@),
    decreases exprs_source(list@), 0nat,
{
    let ghost s = exprs_source(list@);
    let mut r: Vec<SrcExpr> = Vec::new();
    for i in 0..list.len()
        invariant
            s == exprs_source(list@),
            r@.len() == i,
            forall|j: int| 0 <= j < i ==> (#[trigger] r@[j]).view() == s[j],
    {
        assert(decreases_to!(s => s[i as int]));
        r.push(read_expr(list[i]));
    }
    assert(exprs_view(r@) =~= s);
    r
}

/// Reads the arms of a `match`.
fn read_arms(list: &Vec<(&syn::Pat, &syn::Expr)>) -> (r: Vec<SrcArm>)
    ensures
        arms_view(r@) == arms_source(list@),
    decreases arms_source(list@), 0nat,
{
    let ghost s = arms_source(list@);
    let mut r: Vec<SrcArm> = Vec::new();
    for i in 0..list.len()
        invariant
            s == arms_source(list@),
            r@.len() == i,
            forall|j: int| 0 <= j < i ==> (#[trigger] r@[j]).view() == s[j],
    {
        proof {
            assert(decreases_to!(s => s[i as int]));
            assert(decreases_to!(s[i as int] => s[i as int].body));
        }
        r.push(SrcArm { pat: read_pat(list[i].0), body: read_expr(list[i].1) });
    }
    assert(arms_view(r@) =~= s);
    r
}

/// Reads the fields of a struct expression.
fn read_field_values(list: Vec<(Option<String>, &syn::Expr)>) -> (r: Vec<SrcFieldValue>)
    ensures
        field_values_view(r@) == field_values_source(list@),
    decreases field_values_source(list@), 0nat,
{
    let ghost s = field_values_source(list@);
    let mut r: Vec<SrcFieldValue> = Vec::new();
    for i in 0..list.len()
        invariant
            s == field_values_source(list@),
            r@.len() == i,
            forall|j: int| 0 <= j < i ==> (#[trigger] r@[j]).view() == s[j],
    {
        proof {
            assert(decreases_to!(s => s[i as int]));
            assert(decreases_to!(s[i as int] => s[i as int].expr));
        }
        let name = match &list[i].0 {
            Some(n) => Some(n.clone()),
            None => None,
        };
        r.push(SrcFieldValue { name, expr: read_expr(list[i].1) });
    }
    assert(field_values_view(r@) =~= s);
    r
}

/// Reads a block.
fn read_block<'a>(b: BlockParts<'a>) -> (r: SrcBlock)
    ensures
        r@ == b.view(),
    decreases b.view(), 0nat,
{
    let ghost v = b.view();
    assert(decreases_to!(v => v.stmts));
    SrcBlock { at: location_of(b.at), stmts: read_stmts(&b.stmts) }
}

/// Reads statements.
fn read_stmts(list: &Vec<&syn::Stmt>) -> (r: Vec<SrcStmt>)
    ensures
        stmts_view(r@) == stmts_source(list@),
    decreases stmts_source(list@), 0nat,
{
    let ghost s = stmts_source(list@);
    let mut r: Vec<SrcStmt> = Vec::new();
    for i in 0..list.len()
        invariant
            s == stmts_source(list@),
            r@.len() == i,
            forall|j: int| 0 <= j < i ==> (#[trigger] r@[j]).view() == s[j],
    {
        assert(decreases_to!(s => s[i as int]));
        r.push(read_stmt(list[i]));
    }
    assert(stmts_view(r@) =~= s);
    r
}

/// Reads a statement.
pub fn read_stmt(s: &syn::Stmt) -> (r: SrcStmt)
    ensures
        r@ == stmt_source(*s),
    decreases stmt_source(*s), 0nat,
{
    let ghost v = stmt_source(*s);
    match stmt_parts(s) {
        StmtParts::Expression { expr, semi } => {
            assert(decreases_to!(v => v->Expression_expr));
            SrcStmt::Expression { expr: read_expr(expr), semi }
        },
        StmtParts::Local { at, pat, init } => {
            let init = match init {
                Some((expr, diverge)) => {
                    proof {
                        let i = v->Local_init->0;
                        assert(decreases_to!(v => v->Local_init));
                        assert(decreases_to!(v->Local_init => i));
                        assert(decreases_to!(i => i.expr));
                        assert(decreases_to!(i => i.diverge));
                    }
                    Some(SrcInit { expr: read_expr(expr), diverge: read_opt_expr(diverge) })
                },
                None => None,
            };
            SrcStmt::Local(SrcLocal { at: location_of(at), pat: read_pat(pat), init })
        },
        StmtParts::Macro { at, name, text } => SrcStmt::Macro(
            SrcMacroStmt { at: location_of(at), name, text },
        ),
        StmtParts::Definition(item) => {
            assert(decreases_to!(v => v->Definition_0));
            SrcStmt::Definition(read_item(item))
        },
    }
}

/// Reads an argument.
fn read_arg(a: &syn::FnArg) -> (r: SrcArg)
    ensures
        r@ == arg_source(*a),
{
    match arg_parts(a) {
        ArgParts::Receiver { at, ty, is_mut } => SrcArg::Receiver {
            at: location_of(at),
            ty,
            is_mut,
        },
        ArgParts::Typed { at, pat, ty } => SrcArg::Typed {
            at: location_of(at),
            pat: read_pat(pat),
            ty,
        },
    }
}

/// Reads arguments.
fn read_args(list: &Vec<&syn::FnArg>) -> (r: Vec<SrcArg>)
    ensures
        args_view(r@) == args_source(list@),
{
    let ghost s = args_source(list@);
    let mut r: Vec<SrcArg> = Vec::new();
    for i in 0..list.len()
        invariant
            s == args_source(list@),
            r@.len() == i,
            forall|j: int| 0 <= j < i ==> (#[trigger] r@[j]).view() == s[j],
    {
        r.push(read_arg(list[i]));
    }
    assert(args_view(r@) =~= s);
    r
}

/// Reads the head of a function.
fn read_sig(s: &syn::Signature) -> (r: SrcSignature)
    ensures
        r@ == sig_source(*s),
{
    let p = sig_parts(s);
    SrcSignature {
        name: p.name,
        inputs: read_args(&p.inputs),
        output: read_opt_type(p.output),
        generics: p.generics,
    }
}

/// Reads a function with a body.
pub fn read_fn(f: &syn::ItemFn) -> (r: SrcFn)
    ensures
        r@ == fn_source(*f),
    decreases fn_source(*f), 0nat,
{
    let ghost v = fn_source(*f);
    let p = fn_parts(f);
    assert(decreases_to!(v => v.block));
    SrcFn {
        at: location_of(p.at),
        attrs: read_attrs(&p.attrs),
        vis: p.vis,
        sig: read_sig(p.sig),
        block: read_block(p.block),
    }
}

/// Reads the tree of a `use` item.
pub fn read_use_tree(t: &syn::UseTree) -> (r: SrcUseTree)
    ensures
        r@ == use_tree_source(*t),
    decreases use_tree_source(*t), 0nat,
{
    let ghost v = use_tree_source(*t);
    match use_tree_parts(t) {
        UseTreeParts::Path { ident, tree } => {
            assert(decreases_to!(v => v->tree));
            SrcUseTree::Path { ident, tree: Box::new(read_use_tree(tree)) }
        },
        UseTreeParts::Name { ident } => SrcUseTree::Name { ident },
        UseTreeParts::Rename { ident, rename } => SrcUseTree::Rename { ident, rename },
        UseTreeParts::Glob => SrcUseTree::Glob,
        UseTreeParts::Group { items } => {
            assert(decreases_to!(v => v->items));
            SrcUseTree::Group { items: read_use_trees(&items) }
        },
    }
}

/// Reads the trees of a group.
fn read_use_trees(list: &Vec<&syn::UseTree>) -> (r: Vec<SrcUseTree>)
    ensures
        use_trees_view(r@) == use_trees_source(list@),
    decreases use_trees_source(list@), 0nat,
{
    let ghost s = use_trees_source(list@);
    let mut r: Vec<SrcUseTree> = Vec::new();
    for i in 0..list.len()
        invariant
            s == use_trees_source(list@),
            r@.len() == i,
            forall|j: int| 0 <= j < i ==> (#[trigger] r@[j]).view() == s[j],
    {
        assert(decreases_to!(s => s[i as int]));
        r.push(read_use_tree(list[i]));
    }
    assert(use_trees_view(r@) =~= s);
    r
}

/// Reads fields.
fn read_fields(list: Vec<FieldParts>) -> (r: Vec<SrcField>)
    ensures
        fields_view(r@) == fields_source(list@),
{
    let mut r: Vec<SrcField> = Vec::new();
    for i in 0..list.len()
        invariant
            r@.len() == i,
            forall|j: int| 0 <= j < i ==> (#[trigger] r@[j]).view() == list@[j].view(),
    {
        let f = &list[i];
        let name = match &f.name {
            Some(n) => Some(n.clone()),
            None => None,
        };
        r.push(
            SrcField {
                at: location_of(f.at),
                name,
                vis: f.vis.clone(),
                mutable: f.mutable,
                ty: SrcType { at: location_of(f.ty.at), text: f.ty.text.clone() },
            },
        );
    }
    assert(fields_view(r@) =~= fields_source(list@));
    r
}

/// Reads a constant.
fn read_const<'a>(c: ConstParts<'a>) -> (r: SrcConst)
    ensures
        r@ == c.view(),
    decreases c.view(), 0nat,
{
    let ghost v = c.view();
    assert(decreases_to!(v => v.expr));
    SrcConst {
        at: location_of(c.at),
        name: c.name,
        vis: c.vis,
        ty: read_type(c.ty),
        expr: read_expr(c.expr),
    }
}

/// Reads `type name = ty;`.
fn read_type_alias(t: TypeAliasParts) -> (r: SrcTypeAlias)
    ensures
        r@ == t.view(),
{
    SrcTypeAlias { at: location_of(t.at), name: t.name, vis: t.vis, ty: read_type(t.ty) }
}

/// Reads a macro call that stands as an item.
fn read_macro(m: MacroParts) -> (r: SrcMacro)
    ensures
        r@ == m.view(),
{
    SrcMacro { at: location_of(m.at), name: m.name, text: m.text }
}

/// Reads an item.
pub fn read_item(i: &syn::Item) -> (r: SrcItem)
    ensures
        r@ == item_source(*i),
    decreases item_source(*i), 1nat,
{
    if let Some(head) = item_struct(i) {
        return SrcItem::Struct(
            SrcStruct {
                at: location_of(head.at),
                attrs: read_attrs(&head.attrs),
                name: head.name,
                vis: head.vis,
                fields: read_fields(item_fields(i)),
            },
        );
    }
    if let Some(head) = item_union(i) {
        return SrcItem::Union(
            SrcUnion {
                at: location_of(head.at),
                attrs: read_attrs(&head.attrs),
                name: head.name,
                vis: head.vis,
                fields: read_fields(item_fields(i)),
            },
        );
    }
    if let Some(p) = item_const(i) {
        return read_item_parts(p);
    }
    if let Some(p) = item_static(i) {
        return read_item_parts(p);
    }
    if let Some(p) = item_enum(i) {
        return read_item_parts(p);
    }
    if let Some(p) = item_crate(i) {
        return read_item_parts(p);
    }
    if let Some(p) = item_fn(i) {
        return read_item_parts(p);
    }
    if let Some(p) = item_tokens(i) {
        return read_item_parts(p);
    }
    if let Some(p) = item_impl(i) {
        return read_item_parts(p);
    }
    if let Some(p) = item_macro(i) {
        return read_item_parts(p);
    }
    if let Some(p) = item_mod(i) {
        return read_item_parts(p);
    }
    if let Some(p) = item_trait(i) {
        return read_item_parts(p);
    }
    if let Some(p) = item_trait_alias(i) {
        return read_item_parts(p);
    }
    if let Some(p) = item_type(i) {
        return read_item_parts(p);
    }
    if let Some(p) = item_use(i) {
        return read_item_parts(p);
    }
    vstd::pervasive::unreached()
}

/// Puts an item together from its parts.
fn read_item_parts<'a>(p: ItemParts<'a>) -> (r: SrcItem)
    ensures
        r@ == p.view(),
    decreases p.view(), 0nat,
{
    let ghost v = p.view();
    match p {
        ItemParts::Const(c) => {
            assert(decreases_to!(v => v->Const_0));
            SrcItem::Const(read_const(c))
        },
        ItemParts::Enum { head, variants } => SrcItem::Enum(
            SrcEnum {
                at: location_of(head.at),
                attrs: read_attrs(&head.attrs),
                name: head.name,
                vis: head.vis,
                variants,
            },
        ),
        ItemParts::ExternCrate { at, name, vis, rename } => SrcItem::ExternCrate(
            SrcExternCrate { at: location_of(at), name, vis, rename },
        ),
        ItemParts::Fn(f) => {
            assert(decreases_to!(v => v->Fn_0));
            SrcItem::Fn(read_fn(f))
        },
        ItemParts::ForeignMod { at, text } => SrcItem::ForeignMod(
            SrcTokens { at: location_of(at), text },
        ),
        ItemParts::Impl { at, attrs, self_ty, items } => {
            assert(decreases_to!(v => v->Impl_items));
            SrcItem::Impl(
                SrcImpl {
                    at: location_of(at),
                    attrs: read_attrs(&attrs),
                    self_ty: read_type(self_ty),
                    items: read_impl_items(&items),
                },
            )
        },
        ItemParts::Macro(m) => SrcItem::Macro(read_macro(m)),
        ItemParts::Mod { head, content } => {
            let content = match content {
                Some(items) => {
                    proof {
                        assert(decreases_to!(v => v->Mod_content));
                        assert(decreases_to!(v->Mod_content => v->Mod_content->0));
                    }
                    Some(read_items(&items))
                },
                None => None,
            };
            SrcItem::Mod(
                SrcMod {
                    at: location_of(head.at),
                    attrs: read_attrs(&head.attrs),
                    name: head.name,
                    vis: head.vis,
                    content,
                },
            )
        },
        ItemParts::Static { head, mutable, ty, expr } => {
            assert(decreases_to!(v => v->Static_expr));
            SrcItem::Static(
                SrcStatic {
                    at: location_of(head.at),
                    attrs: read_attrs(&head.attrs),
                    name: head.name,
                    vis: head.vis,
                    mutable,
                    ty: read_type(ty),
                    expr: read_expr(expr),
                },
            )
        },
        ItemParts::Trait { head, supertraits, items } => {
            assert(decreases_to!(v => v->Trait_items));
            SrcItem::Trait(
                SrcTrait {
                    at: location_of(head.at),
                    attrs: read_attrs(&head.attrs),
                    name: head.name,
                    vis: head.vis,
                    supertraits,
                    items: read_trait_items(&items),
                },
            )
        },
        ItemParts::TraitAlias { head, bounds } => SrcItem::TraitAlias(
            SrcTraitAlias {
                at: location_of(head.at),
                attrs: read_attrs(&head.attrs),
                name: head.name,
                vis: head.vis,
                bounds,
            },
        ),
        ItemParts::TypeAlias(t) => SrcItem::TypeAlias(read_type_alias(t)),
        ItemParts::Use { at, vis, path, tree } => SrcItem::Use(
            SrcUse { at: location_of(at), vis, path, tree: read_use_tree(tree) },
        ),
        ItemParts::Verbatim { at, text } => SrcItem::Verbatim(
            SrcTokens { at: location_of(at), text },
        ),
    }
}

/// Reads items.
fn read_items(list: &Vec<&syn::Item>) -> (r: Vec<SrcItem>)
    ensures
        items_view(r@) == items_source(list@),
    decreases items_source(list@), 0nat,
{
    let ghost s = items_source(list@);
    let mut r: Vec<SrcItem> = Vec::new();
    for i in 0..list.len()
        invariant
            s == items_source(list@),
            r@.len() == i,
            forall|j: int| 0 <= j < i ==> (#[trigger] r@[j]).view() == s[j],
    {
        assert(decreases_to!(s => s[i as int]));
        r.push(read_item(list[i]));
    }
    assert(items_view(r@) =~= s);
    r
}

/// Reads the items of an `impl` block.
fn read_impl_items(list: &Vec<&syn::ImplItem>) -> (r: Vec<SrcImplItem>)
    ensures
        impl_items_view(r@) == impl_items_source(list@),
    decreases impl_items_source(list@), 0nat,
{
    let ghost s = impl_items_source(list@);
    let mut r: Vec<SrcImplItem> = Vec::new();
    for i in 0..list.len()
        invariant
            s == impl_items_source(list@),
            r@.len() == i,
            forall|j: int| 0 <= j < i ==> (#[trigger] r@[j]).view() == s[j],
    {
        assert(decreases_to!(s => s[i as int]));
        r.push(read_impl_item(list[i]));
    }
    assert(impl_items_view(r@) =~= s);
    r
}

/// Reads the items of a trait.
fn read_trait_items(list: &Vec<&syn::TraitItem>) -> (r: Vec<SrcTraitItem>)
    ensures
        trait_items_view(r@) == trait_items_source(list@),
    decreases trait_items_source(list@), 0nat,
{
    let ghost s = trait_items_source(list@);
    let mut r: Vec<SrcTraitItem> = Vec::new();
    for i in 0..list.len()
        invariant
            s == trait_items_source(list@),
            r@.len() == i,
            forall|j: int| 0 <= j < i ==> (#[trigger] r@[j]).view() == s[j],
    {
        assert(decreases_to!(s => s[i as int]));
        r.push(read_trait_item(list[i]));
    }
    assert(trait_items_view(r@) =~= s);
    r
}

/// Reads an item of an `impl` block.
pub fn read_impl_item(i: &syn::ImplItem) -> (r: SrcImplItem)
    ensures
        r@ == impl_item_source(*i),
    decreases impl_item_source(*i), 0nat,
{
    let ghost v = impl_item_source(*i);
    if let Some(f) = impl_fn(i) {
        assert(decreases_to!(v => v->Fn_0));
        return SrcImplItem::Fn(SrcImplFn { item: read_fn(&f) });
    }
    if let Some(ImplItemParts::Const(c)) = impl_const(i) {
        assert(decreases_to!(v => v->Const_0));
        return SrcImplItem::Const(read_const(c));
    }
    if let Some(ImplItemParts::Type(t)) = impl_type(i) {
        return SrcImplItem::Type(read_type_alias(t));
    }
    match impl_tokens(i) {
        Some(ImplItemParts::Macro(m)) => SrcImplItem::Macro(read_macro(m)),
        Some(ImplItemParts::Verbatim { at, text }) => SrcImplItem::Verbatim(
            SrcTokens { at: location_of(at), text },
        ),
        _ => vstd::pervasive::unreached(),
    }
}

/// Reads an item of a trait.
pub fn read_trait_item(i: &syn::TraitItem) -> (r: SrcTraitItem)
    ensures
        r@ == trait_item_source(*i),
    decreases trait_item_source(*i), 0nat,
{
    let ghost v = trait_item_source(*i);
    if let Some(TraitItemParts::Const { at, name, ty, default }) = trait_const(i) {
        assert(decreases_to!(v => v->Const_default));
        return SrcTraitItem::Const(
            SrcTraitConst {
                at: location_of(at),
                name,
                ty: read_type(ty),
                default: read_opt_expr(default),
            },
        );
    }
    match trait_fn(i) {
        Some(TraitItemParts::Fn { at, attrs, sig }) => {
            return SrcTraitItem::Fn(
                SrcTraitFn { at: location_of(at), attrs: read_attrs(&attrs), sig: read_sig(sig) },
            );
        },
        Some(TraitItemParts::Type { at }) => {
            return SrcTraitItem::Type { at: location_of(at) };
        },
        _ => {},
    }
    match trait_tokens(i) {
        Some(TraitItemParts::Macro(m)) => SrcTraitItem::Macro(read_macro(m)),
        Some(TraitItemParts::Verbatim { at, text }) => SrcTraitItem::Verbatim(
            SrcTokens { at: location_of(at), text },
        ),
        _ => vstd::pervasive::unreached(),
    }
}

/// A file without attributes and items. It has no text, and stands at the beginning.
pub open spec fn empty_file() -> FileV {
    FileV {
        at: Location {
            offset_start: 0,
            offset_end: 0,
            start_line: 1,
            start_column: 0,
            end_line: 1,
            end_column: 0,
        },
        source_code: Seq::empty(),
        attrs: Seq::empty(),
        items: Seq::empty(),
    }
}

/// A file without attributes and items.
pub fn new_empty_file() -> (r: SrcFile)
    ensures
        r@ == empty_file(),
{
    let r = SrcFile {
        at: Location {
            offset_start: 0,
            offset_end: 0,
            start_line: 1,
            start_column: 0,
            end_line: 1,
            end_column: 0,
        },
        source_code: String::new(),
        attrs: Vec::new(),
        items: Vec::new(),
    };
    proof {
        assert(attrs_view(r.attrs@) =~= Seq::<Seq<Seq<char>>>::empty());
        assert(items_view(r.items@) =~= Seq::<ItemV>::empty());
        assert(r.source_code@ =~= Seq::<char>::empty());
    }
    r
}

/// Reads the text of a source file, or tells what speaks against it where it is not one.
pub fn read_source(content: &str) -> (r: Result<SrcFile, String>)
    ensures
        match r {
            Ok(f) => parsed(content@) == Ok::<FileV, Seq<char>>(f@),
            Err(e) => parsed(content@) == Err::<FileV, Seq<char>>(e@),
        },
{
    match parse_source(content) {
        Ok(p) => {
            let ghost v = p.view();
            let mut attrs: Vec<SrcAttr> = Vec::new();
            for i in 0..p.attrs.len()
                invariant
                    attrs@.len() == i,
                    forall|j: int|
                        0 <= j < i ==> (#[trigger] attrs@[j]).view() == attr_source(p.attrs@[j]),
            {
                attrs.push(read_attr(&p.attrs[i]));
            }
            let mut items: Vec<SrcItem> = Vec::new();
            for i in 0..p.items.len()
                invariant
                    items@.len() == i,
                    forall|j: int|
                        0 <= j < i ==> (#[trigger] items@[j]).view() == item_source(p.items@[j]),
            {
                items.push(read_item(&p.items[i]));
            }
            proof {
                assert(attrs_view(attrs@) =~= v.attrs);
                assert(items_view(items@) =~= v.items);
            }
            let source_code = match p.text {
                Some(t) => t,
                None => String::new(),
            };
            assert(source_code@ =~= v.source_code);
            Ok(SrcFile { at: location_of(p.at), source_code, attrs, items })
        },
        Err(e) => Err(e),
    }
}

} // verus!
