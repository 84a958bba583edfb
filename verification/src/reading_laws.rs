//! What is read is what is there: what is known of a tree is made up of its parts, none left out and
//! none exchanged.
use crate::outside::{
    arg_source, attr_source, expr_source, fn_source, impl_item_source, item_source, pat_source,
    sig_source, span_place, stmt_source, trait_item_source, use_tree_source, ArgParts, ExprParts,
    FieldParts, FileParts, FnParts, ImplItemParts, ItemParts, PatParts, SigParts, StmtParts,
    TraitItemParts, UseTreeParts,
};
use crate::syntax::{
    ArgV, ExprV, ImplItemV, ItemV, LitValueV, PatKindV, SrcLitValue, StmtV, TraitItemV, UseTreeV,
};
use vstd::prelude::*;

verus! {

/// Whether `v` is what a literal value holds.
pub open spec fn tells_literal(v: LitValueV, x: SrcLitValue) -> bool {
    match x {
        SrcLitValue::Str(s) => v matches LitValueV::Str(t) && t == s@,
        SrcLitValue::ByteStr(b) => v matches LitValueV::ByteStr(c) && c == b@,
        SrcLitValue::CStr(b) => v matches LitValueV::CStr(c) && c == b@,
        SrcLitValue::Byte(b) => v matches LitValueV::Byte(c) && c == b,
        SrcLitValue::Char(c) => v matches LitValueV::Char(d) && d == c,
        SrcLitValue::Int(s) => v matches LitValueV::Int(t) && t == s@,
        SrcLitValue::Float(s) => v matches LitValueV::Float(t) && t == s@,
        SrcLitValue::Bool(b) => v matches LitValueV::Bool(c) && c == b,
        SrcLitValue::Unsupported => v is Unsupported,
    }
}

/// What is known of an expression is made up of its parts as they are, each in its place.
pub proof fn expr_tells_its_parts_a(p: ExprParts, v: ExprV)
    requires
        v == p.view(),
    ensures
        p matches ExprParts::Array { at, elems } ==> {
            &&& v matches ExprV::Array { at: v_at, elems: v_elems }
            &&& v_at == span_place(at)
            &&& v_elems.len() == elems@.len()
            &&& (forall|i: int| 0 <= i < elems@.len() ==>
                #[trigger] v_elems[i] == expr_source(*elems@[i]))
        },
        p matches ExprParts::Assign { at, left, right } ==> {
            &&& v matches ExprV::Assign { at: v_at, left: v_left, right: v_right }
            &&& v_at == span_place(at)
            &&& *v_left == expr_source(*left)
            &&& *v_right == expr_source(*right)
        },
        p matches ExprParts::Binary { at, left, op, right } ==> {
            &&& v matches ExprV::Binary { at: v_at, left: v_left, op: v_op, right: v_right }
            &&& v_at == span_place(at)
            &&& *v_left == expr_source(*left)
            &&& v_op == op@
            &&& *v_right == expr_source(*right)
        },
        p matches ExprParts::Unary { at, op, expr } ==> {
            &&& v matches ExprV::Unary { at: v_at, op: v_op, expr: v_expr }
            &&& v_at == span_place(at)
            &&& v_op == op@
            &&& *v_expr == expr_source(*expr)
        },
        p matches ExprParts::Break { at, expr } ==> {
            &&& v matches ExprV::Break { at: v_at, expr: v_expr }
            &&& v_at == span_place(at)
            &&& (v_expr is Some <==> expr is Some)
            &&& (expr is Some ==> *v_expr->0 == expr_source(*expr->0))
        },
        p matches ExprParts::Block { at, block } ==> {
            &&& v matches ExprV::Block { at: v_at, block: v_block }
            &&& v_at == span_place(at)
            &&& v_block.at == span_place(block.at)
            &&& v_block.stmts.len() == block.stmts@.len()
            &&& (forall|i: int| 0 <= i < block.stmts@.len() ==>
                #[trigger] v_block.stmts[i] == stmt_source(*block.stmts@[i]))
        },
        p matches ExprParts::Call { at, callee, func, args } ==> {
            &&& v matches ExprV::Call { at: v_at, callee: v_callee, func: v_func, args: v_args }
            &&& v_at == span_place(at)
            &&& v_callee == callee@
            &&& *v_func == expr_source(*func)
            &&& v_args.len() == args@.len()
            &&& (forall|i: int| 0 <= i < args@.len() ==>
                #[trigger] v_args[i] == expr_source(*args@[i]))
        },
        p matches ExprParts::Cast { at, expr, ty } ==> {
            &&& v matches ExprV::Cast { at: v_at, expr: v_expr, ty: v_ty }
            &&& v_at == span_place(at)
            &&& *v_expr == expr_source(*expr)
            &&& v_ty.at == span_place(ty.at)
            &&& v_ty.text == ty.text@
        },
        p matches ExprParts::Closure { at, capture, output, body } ==> {
            &&& v matches ExprV::Closure {
                at: v_at,
                capture: v_capture,
                output: v_output,
                body: v_body,
            }
            &&& v_at == span_place(at)
            &&& (v_capture is Some <==> capture is Some)
            &&& (capture is Some ==> v_capture->0.at == span_place((capture->0).0)
                && (v_capture->0.text is Some <==> (capture->0).1 is Some)
                    && ((capture->0).1 is Some ==> v_capture->0.text->0 == (capture->0).1->0@))
            &&& (v_output is Some <==> output is Some)
            &&& (output is Some ==> v_output->0.at == span_place(output->0.at)
                && v_output->0.text == output->0.text@)
            &&& *v_body == expr_source(*body)
        },
{
}

/// What is known of an expression is made up of its parts as they are, each in its place.
pub proof fn expr_tells_its_parts_b(p: ExprParts, v: ExprV)
    requires
        v == p.view(),
    ensures
        p matches ExprParts::Const { block } ==> {
            &&& v matches ExprV::Const { block: v_block }
            &&& v_block.at == span_place(block.at)
            &&& v_block.stmts.len() == block.stmts@.len()
            &&& (forall|i: int| 0 <= i < block.stmts@.len() ==>
                #[trigger] v_block.stmts[i] == stmt_source(*block.stmts@[i]))
        },
        p matches ExprParts::Continue { at } ==> {
            &&& v matches ExprV::Continue { at: v_at }
            &&& v_at == span_place(at)
        },
        p matches ExprParts::ForLoop { at, expr, body } ==> {
            &&& v matches ExprV::ForLoop { at: v_at, expr: v_expr, body: v_body }
            &&& v_at == span_place(at)
            &&& *v_expr == expr_source(*expr)
            &&& v_body.at == span_place(body.at)
            &&& v_body.stmts.len() == body.stmts@.len()
            &&& (forall|i: int| 0 <= i < body.stmts@.len() ==>
                #[trigger] v_body.stmts[i] == stmt_source(*body.stmts@[i]))
        },
        p matches ExprParts::Field { at, base, member } ==> {
            &&& v matches ExprV::Field { at: v_at, base: v_base, member: v_member }
            &&& v_at == span_place(at)
            &&& *v_base == expr_source(*base)
            &&& v_member == member@
        },
        p matches ExprParts::If { at, cond, then_branch, else_branch } ==> {
            &&& v matches ExprV::If {
                at: v_at,
                cond: v_cond,
                then_branch: v_then_branch,
                else_branch: v_else_branch,
            }
            &&& v_at == span_place(at)
            &&& *v_cond == expr_source(*cond)
            &&& v_then_branch.at == span_place(then_branch.at)
            &&& v_then_branch.stmts.len() == then_branch.stmts@.len()
            &&& (forall|i: int| 0 <= i < then_branch.stmts@.len() ==>
                #[trigger] v_then_branch.stmts[i] == stmt_source(*then_branch.stmts@[i]))
            &&& (v_else_branch is Some <==> else_branch is Some)
            &&& (else_branch is Some ==> *v_else_branch->0 == expr_source(*else_branch->0))
        },
        p matches ExprParts::Index { at, expr, index } ==> {
            &&& v matches ExprV::Index { at: v_at, expr: v_expr, index: v_index }
            &&& v_at == span_place(at)
            &&& *v_expr == expr_source(*expr)
            &&& *v_index == expr_source(*index)
        },
        p matches ExprParts::Infer { at } ==> {
            &&& v matches ExprV::Infer { at: v_at }
            &&& v_at == span_place(at)
        },
        p matches ExprParts::Let { at, pat, expr } ==> {
            &&& v matches ExprV::Let { at: v_at, pat: v_pat, expr: v_expr }
            &&& v_at == span_place(at)
            &&& v_pat == pat_source(*pat)
            &&& *v_expr == expr_source(*expr)
        },
        p matches ExprParts::Lit { at, lit_at, value } ==> {
            &&& v matches ExprV::Lit { at: v_at, lit: v_lit }
            &&& v_at == span_place(at)
            &&& v_lit.at == span_place(lit_at)
            &&& tells_literal(v_lit.value, value)
        },
{
}

/// What is known of an expression is made up of its parts as they are, each in its place.
pub proof fn expr_tells_its_parts_c(p: ExprParts, v: ExprV)
    requires
        v == p.view(),
    ensures
        p matches ExprParts::Loop { at, body } ==> {
            &&& v matches ExprV::Loop { at: v_at, body: v_body }
            &&& v_at == span_place(at)
            &&& v_body.at == span_place(body.at)
            &&& v_body.stmts.len() == body.stmts@.len()
            &&& (forall|i: int| 0 <= i < body.stmts@.len() ==>
                #[trigger] v_body.stmts[i] == stmt_source(*body.stmts@[i]))
        },
        p matches ExprParts::Macro { at, name, text } ==> {
            &&& v matches ExprV::Macro { at: v_at, name: v_name, text: v_text }
            &&& v_at == span_place(at)
            &&& v_name == name@
            &&& v_text == text@
        },
        p matches ExprParts::Match { at, expr, arms } ==> {
            &&& v matches ExprV::Match { at: v_at, expr: v_expr, arms: v_arms }
            &&& v_at == span_place(at)
            &&& *v_expr == expr_source(*expr)
            &&& v_arms.len() == arms@.len()
            &&& (forall|i: int| 0 <= i < arms@.len() ==>
                (#[trigger] v_arms[i]).pat == pat_source(*arms@[i].0)
                    && v_arms[i].body == expr_source(*arms@[i].1))
        },
        p matches ExprParts::MethodCall { at, receiver, method, args } ==> {
            &&& v matches ExprV::MethodCall {
                at: v_at,
                receiver: v_receiver,
                method: v_method,
                args: v_args,
            }
            &&& v_at == span_place(at)
            &&& *v_receiver == expr_source(*receiver)
            &&& v_method == method@
            &&& v_args.len() == args@.len()
            &&& (forall|i: int| 0 <= i < args@.len() ==>
                #[trigger] v_args[i] == expr_source(*args@[i]))
        },
        p matches ExprParts::Paren { at, expr } ==> {
            &&& v matches ExprV::Paren { at: v_at, expr: v_expr }
            &&& v_at == span_place(at)
            &&& *v_expr == expr_source(*expr)
        },
        p matches ExprParts::Path { at, text } ==> {
            &&& v matches ExprV::Path { at: v_at, text: v_text }
            &&& v_at == span_place(at)
            &&& v_text == text@
        },
        p matches ExprParts::Range { at, start, end, is_closed } ==> {
            &&& v matches ExprV::Range {
                at: v_at,
                start: v_start,
                end: v_end,
                is_closed: v_is_closed,
            }
            &&& v_at == span_place(at)
            &&& (v_start is Some <==> start is Some)
            &&& (start is Some ==> *v_start->0 == expr_source(*start->0))
            &&& (v_end is Some <==> end is Some)
            &&& (end is Some ==> *v_end->0 == expr_source(*end->0))
            &&& v_is_closed == is_closed
        },
        p matches ExprParts::RawAddr { at, is_mut, expr } ==> {
            &&& v matches ExprV::RawAddr { at: v_at, is_mut: v_is_mut, expr: v_expr }
            &&& v_at == span_place(at)
            &&& v_is_mut == is_mut
            &&& *v_expr == expr_source(*expr)
        },
        p matches ExprParts::Reference { at, is_mut, expr } ==> {
            &&& v matches ExprV::Reference { at: v_at, is_mut: v_is_mut, expr: v_expr }
            &&& v_at == span_place(at)
            &&& v_is_mut == is_mut
            &&& *v_expr == expr_source(*expr)
        },
{
}

/// What is known of an expression is made up of its parts as they are, each in its place.
pub proof fn expr_tells_its_parts_d(p: ExprParts, v: ExprV)
    requires
        v == p.view(),
    ensures
        p matches ExprParts::Repeat { at, expr, len } ==> {
            &&& v matches ExprV::Repeat { at: v_at, expr: v_expr, len: v_len }
            &&& v_at == span_place(at)
            &&& *v_expr == expr_source(*expr)
            &&& *v_len == expr_source(*len)
        },
        p matches ExprParts::Return { at, expr } ==> {
            &&& v matches ExprV::Return { at: v_at, expr: v_expr }
            &&& v_at == span_place(at)
            &&& (v_expr is Some <==> expr is Some)
            &&& (expr is Some ==> *v_expr->0 == expr_source(*expr->0))
        },
        p matches ExprParts::Struct { at, path, fields, rest } ==> {
            &&& v matches ExprV::Struct { at: v_at, path: v_path, fields: v_fields, rest: v_rest }
            &&& v_at == span_place(at)
            &&& v_path.len() == path@.len()
            &&& (forall|i: int| 0 <= i < path@.len() ==> #[trigger] v_path[i] == path@[i]@)
            &&& v_fields.len() == fields@.len()
            &&& (forall|i: int| 0 <= i < fields@.len() ==>
                (#[trigger] v_fields[i]).expr == expr_source(*fields@[i].1)
                    && (v_fields[i].name is Some <==> fields@[i].0 is Some)
                        && (fields@[i].0 is Some ==> v_fields[i].name->0 == fields@[i].0->0@))
            &&& (v_rest is Some <==> rest is Some)
            &&& (rest is Some ==> *v_rest->0 == expr_source(*rest->0))
        },
        p matches ExprParts::Try { at, expr } ==> {
            &&& v matches ExprV::Try { at: v_at, expr: v_expr }
            &&& v_at == span_place(at)
            &&& *v_expr == expr_source(*expr)
        },
        p matches ExprParts::TryBlock { block } ==> {
            &&& v matches ExprV::TryBlock { block: v_block }
            &&& v_block.at == span_place(block.at)
            &&& v_block.stmts.len() == block.stmts@.len()
            &&& (forall|i: int| 0 <= i < block.stmts@.len() ==>
                #[trigger] v_block.stmts[i] == stmt_source(*block.stmts@[i]))
        },
        p matches ExprParts::Tuple { at, elems } ==> {
            &&& v matches ExprV::Tuple { at: v_at, elems: v_elems }
            &&& v_at == span_place(at)
            &&& v_elems.len() == elems@.len()
            &&& (forall|i: int| 0 <= i < elems@.len() ==>
                #[trigger] v_elems[i] == expr_source(*elems@[i]))
        },
        p matches ExprParts::Unsafe { at, block } ==> {
            &&& v matches ExprV::Unsafe { at: v_at, block: v_block }
            &&& v_at == span_place(at)
            &&& v_block.at == span_place(block.at)
            &&& v_block.stmts.len() == block.stmts@.len()
            &&& (forall|i: int| 0 <= i < block.stmts@.len() ==>
                #[trigger] v_block.stmts[i] == stmt_source(*block.stmts@[i]))
        },
        p matches ExprParts::While { at, label, cond, body } ==> {
            &&& v matches ExprV::While { at: v_at, label: v_label, cond: v_cond, body: v_body }
            &&& v_at == span_place(at)
            &&& (v_label is Some <==> label is Some)
            &&& (label is Some ==> v_label->0 == label->0@)
            &&& *v_cond == expr_source(*cond)
            &&& v_body.at == span_place(body.at)
            &&& v_body.stmts.len() == body.stmts@.len()
            &&& (forall|i: int| 0 <= i < body.stmts@.len() ==>
                #[trigger] v_body.stmts[i] == stmt_source(*body.stmts@[i]))
        },
        p matches ExprParts::Async ==> v is Async,
{
}

/// What is known of an expression is made up of its parts as they are, each in its place.
pub proof fn expr_tells_its_parts_e(p: ExprParts, v: ExprV)
    requires
        v == p.view(),
    ensures
        p matches ExprParts::Await ==> v is Await,
        p matches ExprParts::Yield ==> v is Yield,
{
}

/// What is known of a statement is made up of its parts as they are.
pub proof fn stmt_tells_its_parts(p: StmtParts, v: StmtV)
    requires
        v == p.view(),
    ensures
        p matches StmtParts::Expression { expr, semi } ==> {
            &&& v matches StmtV::Expression { expr: v_expr, semi: v_semi }
            &&& v_expr == expr_source(*expr)
            &&& v_semi == semi
        },
        p matches StmtParts::Local { at, pat, init } ==> {
            &&& v matches StmtV::Local { at: v_at, pat: v_pat, init: v_init }
            &&& v_at == span_place(at)
            &&& v_pat == pat_source(*pat)
            &&& (v_init is Some <==> init is Some)
            &&& (init is Some ==> v_init->0.expr == expr_source(*(init->0).0)
                && (v_init->0.diverge is Some <==> (init->0).1 is Some)
                    && ((init->0).1 is Some ==>
                        *v_init->0.diverge->0 == expr_source(*(init->0).1->0)))
        },
        p matches StmtParts::Macro { at, name, text } ==> {
            &&& v matches StmtV::Macro { at: v_at, name: v_name, text: v_text }
            &&& v_at == span_place(at)
            &&& v_name == name@
            &&& v_text == text@
        },
        p matches StmtParts::Definition(x) ==> {
            &&& v matches StmtV::Definition(y)
            &&& y == item_source(*x)
        },
{
}

/// What is known of the kind of a pattern is made up of its parts as they are.
pub proof fn pattern_tells_its_parts(p: PatParts, v: PatKindV)
    requires
        v == p.view(),
    ensures
        p matches PatParts::Ident { ident, is_mut } ==> {
            &&& v matches PatKindV::Ident { ident: v_ident, is_mut: v_is_mut }
            &&& v_ident == ident@
            &&& v_is_mut == is_mut
        },
        p matches PatParts::Typed(x) ==> {
            &&& v matches PatKindV::Typed(y)
            &&& *y == pat_source(*x)
        },
        p matches PatParts::Wild ==> v is Wild,
        p matches PatParts::Other ==> v is Other,
{
}

/// What is known of an argument is made up of its parts as they are.
pub proof fn arg_tells_its_parts(p: ArgParts, v: ArgV)
    requires
        v == p.view(),
    ensures
        p matches ArgParts::Receiver { at, ty, is_mut } ==> {
            &&& v matches ArgV::Receiver { at: v_at, ty: v_ty, is_mut: v_is_mut }
            &&& v_at == span_place(at)
            &&& v_ty == ty@
            &&& v_is_mut == is_mut
        },
        p matches ArgParts::Typed { at, pat, ty } ==> {
            &&& v matches ArgV::Typed { at: v_at, pat: v_pat, ty: v_ty }
            &&& v_at == span_place(at)
            &&& v_pat == pat_source(*pat)
            &&& v_ty == ty@
        },
{
}

/// What is known of the tree of a `use` item is made up of its parts as they are.
pub proof fn use_tree_tells_its_parts(p: UseTreeParts, v: UseTreeV)
    requires
        v == p.view(),
    ensures
        p matches UseTreeParts::Path { ident, tree } ==> {
            &&& v matches UseTreeV::Path { ident: v_ident, tree: v_tree }
            &&& v_ident == ident@
            &&& *v_tree == use_tree_source(*tree)
        },
        p matches UseTreeParts::Name { ident } ==> {
            &&& v matches UseTreeV::Name { ident: v_ident }
            &&& v_ident == ident@
        },
        p matches UseTreeParts::Rename { ident, rename } ==> {
            &&& v matches UseTreeV::Rename { ident: v_ident, rename: v_rename }
            &&& v_ident == ident@
            &&& v_rename == rename@
        },
        p matches UseTreeParts::Glob ==> v is Glob,
        p matches UseTreeParts::Group { items } ==> {
            &&& v matches UseTreeV::Group { items: v_items }
            &&& v_items.len() == items@.len()
            &&& (forall|i: int| 0 <= i < items@.len() ==>
                #[trigger] v_items[i] == use_tree_source(*items@[i]))
        },
{
}

/// What is known of an item is made up of its parts as they are.
pub proof fn item_tells_its_parts(p: ItemParts, v: ItemV)
    requires
        v == p.view(),
    ensures
        p matches ItemParts::Const(x) ==> {
            &&& v matches ItemV::Const(y)
            &&& y.at == span_place(x.at)
            &&& y.name == x.name@
            &&& y.vis == x.vis@
            &&& y.ty.at == span_place(x.ty.at)
            &&& y.ty.text == x.ty.text@
            &&& y.expr == expr_source(*x.expr)
        },
        p matches ItemParts::Enum { head, variants } ==> {
            &&& v matches ItemV::Enum {
                at: v_at,
                attrs: v_attrs,
                name: v_name,
                vis: v_vis,
                variants: v_variants,
            }
            &&& v_at == span_place(head.at)
            &&& v_attrs.len() == head.attrs@.len()
            &&& (forall|i: int| 0 <= i < head.attrs@.len() ==>
                #[trigger] v_attrs[i] == attr_source(*head.attrs@[i]))
            &&& v_name == head.name@
            &&& v_vis == head.vis@
            &&& v_variants.len() == variants@.len()
            &&& (forall|i: int| 0 <= i < variants@.len() ==>
                #[trigger] v_variants[i] == variants@[i]@)
        },
        p matches ItemParts::ExternCrate { at, name, vis, rename } ==> {
            &&& v matches ItemV::ExternCrate {
                at: v_at,
                name: v_name,
                vis: v_vis,
                rename: v_rename,
            }
            &&& v_at == span_place(at)
            &&& v_name == name@
            &&& v_vis == vis@
            &&& (v_rename is Some <==> rename is Some)
            &&& (rename is Some ==> v_rename->0 == rename->0@)
        },
        p matches ItemParts::Fn(x) ==> {
            &&& v matches ItemV::Fn(y)
            &&& y == fn_source(*x)
        },
        p matches ItemParts::ForeignMod { at, text } ==> {
            &&& v matches ItemV::ForeignMod(y)
            &&& y.at == span_place(at)
            &&& y.text == text@
        },
        p matches ItemParts::Impl { at, attrs, self_ty, items } ==> {
            &&& v matches ItemV::Impl {
                at: v_at,
                attrs: v_attrs,
                self_ty: v_self_ty,
                items: v_items,
            }
            &&& v_at == span_place(at)
            &&& v_attrs.len() == attrs@.len()
            &&& (forall|i: int| 0 <= i < attrs@.len() ==>
                #[trigger] v_attrs[i] == attr_source(*attrs@[i]))
            &&& v_self_ty.at == span_place(self_ty.at)
            &&& v_self_ty.text == self_ty.text@
            &&& v_items.len() == items@.len()
            &&& (forall|i: int| 0 <= i < items@.len() ==>
                #[trigger] v_items[i] == impl_item_source(*items@[i]))
        },
        p matches ItemParts::Macro(x) ==> {
            &&& v matches ItemV::Macro(y)
            &&& y.at == span_place(x.at)
            &&& y.name == x.name@
            &&& y.text == x.text@
        },
        p matches ItemParts::Mod { head, content } ==> {
            &&& v matches ItemV::Mod {
                at: v_at,
                attrs: v_attrs,
                name: v_name,
                vis: v_vis,
                content: v_content,
            }
            &&& v_at == span_place(head.at)
            &&& v_attrs.len() == head.attrs@.len()
            &&& (forall|i: int| 0 <= i < head.attrs@.len() ==>
                #[trigger] v_attrs[i] == attr_source(*head.attrs@[i]))
            &&& v_name == head.name@
            &&& v_vis == head.vis@
            &&& (v_content is Some <==> content is Some)
            &&& (content is Some ==> v_content->0.len() == content->0@.len()
                && forall|i: int| 0 <= i < content->0@.len() ==>
                    #[trigger] v_content->0[i] == item_source(*content->0@[i]))
        },
        p matches ItemParts::Static { head, mutable, ty, expr } ==> {
            &&& v matches ItemV::Static {
                at: v_at,
                attrs: v_attrs,
                name: v_name,
                vis: v_vis,
                mutable: v_mutable,
                ty: v_ty,
                expr: v_expr,
            }
            &&& v_at == span_place(head.at)
            &&& v_attrs.len() == head.attrs@.len()
            &&& (forall|i: int| 0 <= i < head.attrs@.len() ==>
                #[trigger] v_attrs[i] == attr_source(*head.attrs@[i]))
            &&& v_name == head.name@
            &&& v_vis == head.vis@
            &&& v_mutable == mutable
            &&& v_ty.at == span_place(ty.at)
            &&& v_ty.text == ty.text@
            &&& v_expr == expr_source(*expr)
        },
        p matches ItemParts::Trait { head, supertraits, items } ==> {
            &&& v matches ItemV::Trait {
                at: v_at,
                attrs: v_attrs,
                name: v_name,
                vis: v_vis,
                supertraits: v_supertraits,
                items: v_items,
            }
            &&& v_at == span_place(head.at)
            &&& v_attrs.len() == head.attrs@.len()
            &&& (forall|i: int| 0 <= i < head.attrs@.len() ==>
                #[trigger] v_attrs[i] == attr_source(*head.attrs@[i]))
            &&& v_name == head.name@
            &&& v_vis == head.vis@
            &&& v_supertraits == supertraits@
            &&& v_items.len() == items@.len()
            &&& (forall|i: int| 0 <= i < items@.len() ==>
                #[trigger] v_items[i] == trait_item_source(*items@[i]))
        },
        p matches ItemParts::TraitAlias { head, bounds } ==> {
            &&& v matches ItemV::TraitAlias {
                at: v_at,
                attrs: v_attrs,
                name: v_name,
                vis: v_vis,
                bounds: v_bounds,
            }
            &&& v_at == span_place(head.at)
            &&& v_attrs.len() == head.attrs@.len()
            &&& (forall|i: int| 0 <= i < head.attrs@.len() ==>
                #[trigger] v_attrs[i] == attr_source(*head.attrs@[i]))
            &&& v_name == head.name@
            &&& v_vis == head.vis@
            &&& v_bounds == bounds@
        },
        p matches ItemParts::TypeAlias(x) ==> {
            &&& v matches ItemV::TypeAlias(y)
            &&& y.at == span_place(x.at)
            &&& y.name == x.name@
            &&& y.vis == x.vis@
            &&& y.ty.at == span_place(x.ty.at)
            &&& y.ty.text == x.ty.text@
        },
        p matches ItemParts::Use { at, vis, path, tree } ==> {
            &&& v matches ItemV::Use(y)
            &&& y.at == span_place(at)
            &&& y.vis == vis@
            &&& y.path == path@
            &&& y.tree == use_tree_source(*tree)
        },
        p matches ItemParts::Verbatim { at, text } ==> {
            &&& v matches ItemV::Verbatim(y)
            &&& y.at == span_place(at)
            &&& y.text == text@
        },
{
}

/// What is known of an item of an `impl` block is made up of its parts as they are.
pub proof fn impl_item_tells_its_parts(p: ImplItemParts, v: ImplItemV)
    requires
        v == p.view(),
    ensures
        p matches ImplItemParts::Const(x) ==> {
            &&& v matches ImplItemV::Const(y)
            &&& y.at == span_place(x.at)
            &&& y.name == x.name@
            &&& y.vis == x.vis@
            &&& y.ty.at == span_place(x.ty.at)
            &&& y.ty.text == x.ty.text@
            &&& y.expr == expr_source(*x.expr)
        },
        p matches ImplItemParts::Type(x) ==> {
            &&& v matches ImplItemV::Type(y)
            &&& y.at == span_place(x.at)
            &&& y.name == x.name@
            &&& y.vis == x.vis@
            &&& y.ty.at == span_place(x.ty.at)
            &&& y.ty.text == x.ty.text@
        },
        p matches ImplItemParts::Macro(x) ==> {
            &&& v matches ImplItemV::Macro(y)
            &&& y.at == span_place(x.at)
            &&& y.name == x.name@
            &&& y.text == x.text@
        },
        p matches ImplItemParts::Verbatim { at, text } ==> {
            &&& v matches ImplItemV::Verbatim(y)
            &&& y.at == span_place(at)
            &&& y.text == text@
        },
{
}

/// What is known of an item of a trait is made up of its parts as they are.
pub proof fn trait_item_tells_its_parts(p: TraitItemParts, v: TraitItemV)
    requires
        v == p.view(),
    ensures
        p matches TraitItemParts::Const { at, name, ty, default } ==> {
            &&& v matches TraitItemV::Const { at: v_at, name: v_name, ty: v_ty, default: v_default }
            &&& v_at == span_place(at)
            &&& v_name == name@
            &&& v_ty.at == span_place(ty.at)
            &&& v_ty.text == ty.text@
            &&& (v_default is Some <==> default is Some)
            &&& (default is Some ==> *v_default->0 == expr_source(*default->0))
        },
        p matches TraitItemParts::Fn { at, attrs, sig } ==> {
            &&& v matches TraitItemV::Fn { at: v_at, attrs: v_attrs, sig: v_sig }
            &&& v_at == span_place(at)
            &&& v_attrs.len() == attrs@.len()
            &&& (forall|i: int| 0 <= i < attrs@.len() ==>
                #[trigger] v_attrs[i] == attr_source(*attrs@[i]))
            &&& v_sig == sig_source(*sig)
        },
        p matches TraitItemParts::Type { at } ==> {
            &&& v matches TraitItemV::Type { at: v_at }
            &&& v_at == span_place(at)
        },
        p matches TraitItemParts::Macro(x) ==> {
            &&& v matches TraitItemV::Macro(y)
            &&& y.at == span_place(x.at)
            &&& y.name == x.name@
            &&& y.text == x.text@
        },
        p matches TraitItemParts::Verbatim { at, text } ==> {
            &&& v matches TraitItemV::Verbatim(y)
            &&& y.at == span_place(at)
            &&& y.text == text@
        },
{
}

/// What is known of the head of a function is made up of its parts as they are.
pub proof fn signature_tells_its_parts(p: SigParts)
    ensures
        p.view().name == p.name@,
        p.view().inputs.len() == p.inputs@.len(),
        (forall|i: int| 0 <= i < p.inputs@.len() ==>
            #[trigger] p.view().inputs[i] == arg_source(*p.inputs@[i])),
        (p.view().output is Some <==> p.output is Some),
        (p.output is Some ==> p.view().output->0.at == span_place(p.output->0.at)
            && p.view().output->0.text == p.output->0.text@),
        p.view().generics.len() == p.generics@.len(),
        (forall|i: int| 0 <= i < p.generics@.len() ==>
            #[trigger] p.view().generics[i] == p.generics@[i]@),
{
}

/// What is known of a function is made up of its parts as they are.
pub proof fn fn_tells_its_parts(p: FnParts)
    ensures
        p.view().at == span_place(p.at),
        p.view().attrs.len() == p.attrs@.len(),
        (forall|i: int| 0 <= i < p.attrs@.len() ==>
            #[trigger] p.view().attrs[i] == attr_source(*p.attrs@[i])),
        p.view().vis == p.vis@,
        p.view().sig == sig_source(*p.sig),
        p.view().block.at == span_place(p.block.at),
        p.view().block.stmts.len() == p.block.stmts@.len(),
        (forall|i: int| 0 <= i < p.block.stmts@.len() ==>
            #[trigger] p.view().block.stmts[i] == stmt_source(*p.block.stmts@[i])),
{
}

/// What is known of a field is made up of its parts as they are.
pub proof fn field_tells_its_parts(p: FieldParts)
    ensures
        p.view().at == span_place(p.at),
        (p.view().name is Some <==> p.name is Some),
        (p.name is Some ==> p.view().name->0 == p.name->0@),
        p.view().vis == p.vis@,
        p.view().mutable == p.mutable,
        p.view().ty.at == span_place(p.ty.at),
        p.view().ty.text == p.ty.text@,
{
}

/// What is known of a file is made up of its parts as they are.
pub proof fn file_tells_its_parts(p: FileParts)
    ensures
        p.view().at == span_place(p.at),
        p.text is Some ==> p.view().source_code == p.text->0@,
        p.text is None ==> p.view().source_code.len() == 0,
        p.view().attrs.len() == p.attrs@.len(),
        forall|i: int| 0 <= i < p.attrs@.len() ==> #[trigger] p.view().attrs[i] == attr_source(
            p.attrs@[i],
        ),
        p.view().items.len() == p.items@.len(),
        forall|i: int| 0 <= i < p.items@.len() ==> #[trigger] p.view().items[i] == item_source(
            p.items@[i],
        ),
{
}

} // verus!
