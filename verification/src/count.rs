//! What the builder takes, and how many ids it draws for it.
use crate::kinds::{bin_op_of, un_op_of};
use crate::syntax::{
    ArgV, ArmV, BlockV, ConstV, ExprV, FieldValueV, FileV, FnV, ImplItemV, InitV, ItemV, LitValueV,
    SigV, StmtV, TraitItemV,
};
use crate::text::decimal_i128;
use vstd::prelude::*;

verus! {

/// Whether an item is a `use`.
pub open spec fn is_use_item(i: ItemV) -> bool {
    i is Use
}

/// Whether a statement is a `use`, which a block leaves out.
pub open spec fn is_use_stmt(s: StmtV) -> bool {
    s matches StmtV::Definition(i) && is_use_item(i)
}

/// The ids drawn for an expression.
pub open spec fn expr_ids(e: ExprV) -> nat
    decreases e,
{
    match e {
        ExprV::Array { elems, .. } => 1 + exprs_ids(elems),
        ExprV::Assign { left, right, .. } => 1 + expr_ids(*left) + expr_ids(*right),
        ExprV::Binary { left, right, .. } => 1 + expr_ids(*left) + expr_ids(*right),
        ExprV::Unary { expr, .. } => 1 + expr_ids(*expr),
        ExprV::Break { expr, .. } => 1 + opt_expr_ids(expr),
        ExprV::Block { block, .. } => 1 + block_ids(block),
        ExprV::Call { func, args, .. } => 1 + exprs_ids(args) + expr_ids(*func),
        ExprV::Cast { expr, .. } => 2 + expr_ids(*expr),
        ExprV::Closure { capture, body, .. } => 2 + expr_ids(*body) + (if capture is Some {
            1nat
        } else {
            0nat
        }),
        ExprV::Const { block } => 1 + block_ids(block),
        ExprV::Continue { .. } => 1,
        ExprV::ForLoop { expr, body, .. } => 1 + block_ids(body) + expr_ids(*expr),
        ExprV::Field { base, .. } => 1 + expr_ids(*base),
        ExprV::If { cond, then_branch, else_branch, .. } => 1 + block_ids(then_branch) + expr_ids(
            *cond,
        ) + opt_expr_ids(else_branch),
        ExprV::Index { expr, index, .. } => 1 + expr_ids(*expr) + expr_ids(*index),
        ExprV::Infer { .. } => 1,
        ExprV::Let { expr, .. } => 2 + expr_ids(*expr),
        ExprV::Lit { .. } => 2,
        ExprV::Loop { body, .. } => 1 + block_ids(body),
        ExprV::Macro { .. } => 1,
        ExprV::Match { expr, arms, .. } => 1 + expr_ids(*expr) + arms_ids(arms),
        ExprV::MethodCall { receiver, args, .. } => 1 + expr_ids(*receiver) + exprs_ids(args),
        ExprV::Paren { expr, .. } => 1 + expr_ids(*expr),
        ExprV::Path { .. } => 1,
        ExprV::Range { start, end, .. } => 1 + opt_expr_ids(start) + opt_expr_ids(end),
        ExprV::RawAddr { expr, .. } => 1 + expr_ids(*expr),
        ExprV::Reference { expr, .. } => 1 + expr_ids(*expr),
        ExprV::Repeat { expr, len, .. } => 1 + expr_ids(*expr) + expr_ids(*len),
        ExprV::Return { expr, .. } => 1 + opt_expr_ids(expr),
        ExprV::Struct { fields, rest, .. } => field_values_ids(fields) + opt_expr_ids(rest) + 1,
        ExprV::Try { expr, .. } => 1 + expr_ids(*expr),
        ExprV::TryBlock { block } => 1 + block_ids(block),
        ExprV::Tuple { elems, .. } => 1 + exprs_ids(elems),
        ExprV::Unsafe { block, .. } => 1 + block_ids(block),
        ExprV::While { cond, body, .. } => 1 + block_ids(body) + expr_ids(*cond),
        ExprV::Async => 0,
        ExprV::Await => 0,
        ExprV::Yield => 0,
        ExprV::Unsupported => 0,
    }
}

/// The ids drawn for an expression that may be absent.
pub open spec fn opt_expr_ids(o: Option<Box<ExprV>>) -> nat
    decreases o,
{
    match o {
        Some(e) => expr_ids(*e),
        None => 0,
    }
}

/// The ids drawn for expressions one behind the other.
pub open spec fn exprs_ids(s: Seq<ExprV>) -> nat
    decreases s,
{
    if s.len() == 0 {
        0
    } else {
        exprs_ids(s.drop_last()) + expr_ids(s.last())
    }
}

/// The ids drawn for the arms of a `match`: one for each pattern, then those of its body.
pub open spec fn arms_ids(s: Seq<ArmV>) -> nat
    decreases s,
{
    if s.len() == 0 {
        0
    } else {
        arms_ids(s.drop_last()) + 1 + expr_ids(s.last().body)
    }
}

/// The ids drawn for the fields of a struct expression.
pub open spec fn field_values_ids(s: Seq<FieldValueV>) -> nat
    decreases s,
{
    if s.len() == 0 {
        0
    } else {
        field_values_ids(s.drop_last()) + expr_ids(s.last().expr)
    }
}

/// The ids drawn for a block.
pub open spec fn block_ids(b: BlockV) -> nat
    decreases b,
{
    1 + stmts_ids(b.stmts)
}

/// The ids drawn for the statements of a block, `use` left out.
pub open spec fn stmts_ids(s: Seq<StmtV>) -> nat
    decreases s,
{
    if s.len() == 0 {
        0
    } else if is_use_stmt(s.last()) {
        stmts_ids(s.drop_last())
    } else {
        stmts_ids(s.drop_last()) + stmt_ids(s.last())
    }
}

/// The ids drawn for a statement.
pub open spec fn stmt_ids(s: StmtV) -> nat
    decreases s,
{
    match s {
        StmtV::Expression { expr, .. } => expr_ids(expr),
        StmtV::Local { init, .. } => 2 + init_ids(init),
        StmtV::Macro { .. } => 1,
        StmtV::Definition(item) => item_ids(item),
    }
}

/// The ids drawn for the value of a `let` and for its `else` branch.
pub open spec fn init_ids(o: Option<InitV>) -> nat
    decreases o,
{
    match o {
        Some(i) => expr_ids(i.expr) + opt_expr_ids(i.diverge),
        None => 0,
    }
}

/// The ids drawn for the arguments of a function: one for each that becomes a parameter.
pub open spec fn params_ids(s: Seq<ArgV>) -> nat
    decreases s,
{
    if s.len() == 0 {
        0
    } else if is_param(s.last()) {
        params_ids(s.drop_last()) + 1
    } else {
        params_ids(s.drop_last())
    }
}

/// Whether an argument becomes a parameter: `self` does, and a pattern that is a name.
pub open spec fn is_param(a: ArgV) -> bool {
    match a {
        ArgV::Receiver { .. } => true,
        ArgV::Typed { pat, .. } => pat.kind is Ident,
    }
}

/// The ids drawn for a function with a body.
pub open spec fn fn_ids(f: FnV) -> nat
    decreases f,
{
    1 + params_ids(f.sig.inputs) + block_ids(f.block)
}

/// The ids drawn for a function that a trait declares.
pub open spec fn trait_fn_ids(sig: SigV) -> nat {
    2 + params_ids(sig.inputs)
}

/// The ids drawn for a constant.
pub open spec fn const_ids(c: ConstV) -> nat
    decreases c,
{
    2 + expr_ids(c.expr)
}

/// The ids drawn for an item.
pub open spec fn item_ids(i: ItemV) -> nat
    decreases i,
{
    match i {
        ItemV::Const(c) => const_ids(c),
        ItemV::Enum { .. } => 1,
        ItemV::ExternCrate { .. } => 1,
        ItemV::Fn(f) => fn_ids(f),
        ItemV::ForeignMod(_) => 1,
        ItemV::Impl { items, .. } => 2 + impl_items_ids(items),
        ItemV::Macro(_) => 1,
        ItemV::Mod { content, .. } => 1 + content_ids(content),
        ItemV::Static { expr, .. } => 2 + expr_ids(expr),
        ItemV::Struct { fields, .. } => 1 + fields.len(),
        ItemV::Trait { items, .. } => 1 + trait_items_ids(items),
        ItemV::TraitAlias { .. } => 1,
        ItemV::TypeAlias(_) => 2,
        ItemV::Union { fields, .. } => 1 + 2 * fields.len(),
        ItemV::Use(_) => 1,
        ItemV::Verbatim(_) => 1,
    }
}

/// The ids drawn for the content of a module: its definitions, then its imports.
pub open spec fn content_ids(o: Option<Seq<ItemV>>) -> nat
    decreases o,
{
    match o {
        Some(items) => definitions_ids(items) + imports_ids(items),
        None => 0,
    }
}

/// The ids drawn for the items that are not `use`.
pub open spec fn definitions_ids(s: Seq<ItemV>) -> nat
    decreases s,
{
    if s.len() == 0 {
        0
    } else if is_use_item(s.last()) {
        definitions_ids(s.drop_last())
    } else {
        definitions_ids(s.drop_last()) + item_ids(s.last())
    }
}

/// The ids drawn for the items that are `use`.
pub open spec fn imports_ids(s: Seq<ItemV>) -> nat
    decreases s,
{
    if s.len() == 0 {
        0
    } else if is_use_item(s.last()) {
        imports_ids(s.drop_last()) + 1
    } else {
        imports_ids(s.drop_last())
    }
}

/// The ids drawn for all items of a file.
pub open spec fn items_ids(s: Seq<ItemV>) -> nat
    decreases s,
{
    if s.len() == 0 {
        0
    } else {
        items_ids(s.drop_last()) + item_ids(s.last())
    }
}

/// The ids drawn for the items of an `impl` block.
pub open spec fn impl_items_ids(s: Seq<ImplItemV>) -> nat
    decreases s,
{
    if s.len() == 0 {
        0
    } else {
        impl_items_ids(s.drop_last()) + impl_item_ids(s.last())
    }
}

/// The ids drawn for an item of an `impl` block.
pub open spec fn impl_item_ids(i: ImplItemV) -> nat
    decreases i,
{
    match i {
        ImplItemV::Fn(f) => fn_ids(f),
        ImplItemV::Const(c) => const_ids(c),
        ImplItemV::Type(_) => 2,
        ImplItemV::Macro(_) => 1,
        ImplItemV::Verbatim(_) => 1,
    }
}

/// The ids drawn for the items of a trait.
pub open spec fn trait_items_ids(s: Seq<TraitItemV>) -> nat
    decreases s,
{
    if s.len() == 0 {
        0
    } else {
        trait_items_ids(s.drop_last()) + trait_item_ids(s.last())
    }
}

/// The ids drawn for an item of a trait.
pub open spec fn trait_item_ids(i: TraitItemV) -> nat
    decreases i,
{
    match i {
        TraitItemV::Const { default, .. } => 2 + opt_expr_ids(default),
        TraitItemV::Fn { sig, .. } => trait_fn_ids(sig),
        TraitItemV::Type { .. } => 1,
        TraitItemV::Macro(_) => 1,
        TraitItemV::Verbatim(_) => 1,
    }
}

/// The ids drawn for a file.
pub open spec fn file_ids(f: FileV) -> nat {
    1 + items_ids(f.items)
}

/// Whether a literal can be built: it is of a known kind, and an integer is one that `i128` holds.
pub open spec fn lit_ok(v: LitValueV) -> bool {
    match v {
        LitValueV::Int(digits) => decimal_i128(digits) is Some,
        LitValueV::Unsupported => false,
        _ => true,
    }
}

/// Whether an expression can be built.
///
/// `async`, `await` and `yield` are not supported, nor is an operator that is not known, an integer
/// that is too large, a struct expression without a path, or a `move` whose text cannot be told.
pub open spec fn expr_ok(e: ExprV) -> bool
    decreases e,
{
    match e {
        ExprV::Array { elems, .. } => exprs_ok(elems),
        ExprV::Assign { left, right, .. } => expr_ok(*left) && expr_ok(*right),
        ExprV::Binary { left, right, op, .. } => expr_ok(*left) && expr_ok(*right) && bin_op_of(
            op,
        ) is Some,
        ExprV::Unary { expr, op, .. } => expr_ok(*expr) && un_op_of(op) is Some,
        ExprV::Break { expr, .. } => opt_expr_ok(expr),
        ExprV::Block { block, .. } => block_ok(block),
        ExprV::Call { func, args, .. } => exprs_ok(args) && expr_ok(*func),
        ExprV::Cast { expr, .. } => expr_ok(*expr),
        ExprV::Closure { capture, body, .. } => expr_ok(*body) && (capture matches Some(c)
            ==> c.text is Some),
        ExprV::Const { block } => block_ok(block),
        ExprV::Continue { .. } => true,
        ExprV::ForLoop { expr, body, .. } => block_ok(body) && expr_ok(*expr),
        ExprV::Field { base, .. } => expr_ok(*base),
        ExprV::If { cond, then_branch, else_branch, .. } => block_ok(then_branch) && expr_ok(*cond)
            && opt_expr_ok(else_branch),
        ExprV::Index { expr, index, .. } => expr_ok(*expr) && expr_ok(*index),
        ExprV::Infer { .. } => true,
        ExprV::Let { expr, .. } => expr_ok(*expr),
        ExprV::Lit { lit, .. } => lit_ok(lit.value),
        ExprV::Loop { body, .. } => block_ok(body),
        ExprV::Macro { .. } => true,
        ExprV::Match { expr, arms, .. } => expr_ok(*expr) && arms_ok(arms),
        ExprV::MethodCall { receiver, args, .. } => expr_ok(*receiver) && exprs_ok(args),
        ExprV::Paren { expr, .. } => expr_ok(*expr),
        ExprV::Path { .. } => true,
        ExprV::Range { start, end, .. } => opt_expr_ok(start) && opt_expr_ok(end),
        ExprV::RawAddr { expr, .. } => expr_ok(*expr),
        ExprV::Reference { expr, .. } => expr_ok(*expr),
        ExprV::Repeat { expr, len, .. } => expr_ok(*expr) && expr_ok(*len),
        ExprV::Return { expr, .. } => opt_expr_ok(expr),
        ExprV::Struct { path, fields, rest, .. } => path.len() > 0 && field_values_ok(fields)
            && opt_expr_ok(rest),
        ExprV::Try { expr, .. } => expr_ok(*expr),
        ExprV::TryBlock { block } => block_ok(block),
        ExprV::Tuple { elems, .. } => exprs_ok(elems),
        ExprV::Unsafe { block, .. } => block_ok(block),
        ExprV::While { cond, body, .. } => block_ok(body) && expr_ok(*cond),
        ExprV::Async => false,
        ExprV::Await => false,
        ExprV::Yield => false,
        ExprV::Unsupported => false,
    }
}

/// Whether an expression is absent or can be built.
pub open spec fn opt_expr_ok(o: Option<Box<ExprV>>) -> bool
    decreases o,
{
    match o {
        Some(e) => expr_ok(*e),
        None => true,
    }
}

/// Whether every expression can be built.
pub open spec fn exprs_ok(s: Seq<ExprV>) -> bool
    decreases s,
{
    s.len() == 0 || (exprs_ok(s.drop_last()) && expr_ok(s.last()))
}

/// Whether every arm can be built.
pub open spec fn arms_ok(s: Seq<ArmV>) -> bool
    decreases s,
{
    s.len() == 0 || (arms_ok(s.drop_last()) && expr_ok(s.last().body))
}

/// Whether every field of a struct expression can be built.
pub open spec fn field_values_ok(s: Seq<FieldValueV>) -> bool
    decreases s,
{
    s.len() == 0 || (field_values_ok(s.drop_last()) && expr_ok(s.last().expr))
}

/// Whether a block can be built.
pub open spec fn block_ok(b: BlockV) -> bool
    decreases b,
{
    stmts_ok(b.stmts)
}

/// Whether every statement that is not a `use` can be built.
pub open spec fn stmts_ok(s: Seq<StmtV>) -> bool
    decreases s,
{
    s.len() == 0 || (stmts_ok(s.drop_last()) && (is_use_stmt(s.last()) || stmt_ok(s.last())))
}

/// Whether a statement can be built.
pub open spec fn stmt_ok(s: StmtV) -> bool
    decreases s,
{
    match s {
        StmtV::Expression { expr, .. } => expr_ok(expr),
        StmtV::Local { init, .. } => init_ok(init),
        StmtV::Macro { .. } => true,
        StmtV::Definition(item) => item_ok(item),
    }
}

/// Whether the value of a `let` and its `else` branch can be built.
pub open spec fn init_ok(o: Option<InitV>) -> bool
    decreases o,
{
    match o {
        Some(i) => expr_ok(i.expr) && opt_expr_ok(i.diverge),
        None => true,
    }
}

/// Whether every attribute has a name.
pub open spec fn attrs_named(attrs: Seq<Seq<Seq<char>>>) -> bool {
    forall|i: int| 0 <= i < attrs.len() ==> (#[trigger] attrs[i]).len() > 0
}

/// Whether a function returns `Self`.
pub open spec fn returns_self(sig: SigV) -> bool {
    sig.output matches Some(t) && t.text == "Self"@
}

/// Whether a function with a body can be built; `in_impl` tells whether `Self` has a meaning there.
pub open spec fn fn_ok(f: FnV, in_impl: bool) -> bool
    decreases f,
{
    attrs_named(f.attrs) && (in_impl || !returns_self(f.sig)) && block_ok(f.block)
}

/// Whether an item can be built as a definition.
pub open spec fn item_ok(i: ItemV) -> bool
    decreases i,
{
    match i {
        ItemV::Const(c) => expr_ok(c.expr),
        ItemV::Fn(f) => fn_ok(f, false),
        ItemV::Impl { items, .. } => impl_items_ok(items),
        ItemV::Mod { content, .. } => match content {
            Some(items) => definitions_ok(items),
            None => true,
        },
        ItemV::Static { expr, .. } => expr_ok(expr),
        ItemV::Trait { items, .. } => trait_items_ok(items),
        ItemV::Use(_) => false,
        _ => true,
    }
}

/// Whether every item that is not a `use` can be built.
pub open spec fn definitions_ok(s: Seq<ItemV>) -> bool
    decreases s,
{
    s.len() == 0 || (definitions_ok(s.drop_last()) && (is_use_item(s.last()) || item_ok(s.last())))
}

/// Whether every item of an `impl` block can be built.
pub open spec fn impl_items_ok(s: Seq<ImplItemV>) -> bool
    decreases s,
{
    s.len() == 0 || (impl_items_ok(s.drop_last()) && impl_item_ok(s.last()))
}

/// Whether an item of an `impl` block can be built.
pub open spec fn impl_item_ok(i: ImplItemV) -> bool
    decreases i,
{
    match i {
        ImplItemV::Fn(f) => fn_ok(f, true),
        ImplItemV::Const(c) => expr_ok(c.expr),
        _ => true,
    }
}

/// Whether every item of a trait can be built.
pub open spec fn trait_items_ok(s: Seq<TraitItemV>) -> bool
    decreases s,
{
    s.len() == 0 || (trait_items_ok(s.drop_last()) && trait_item_ok(s.last()))
}

/// Whether an item of a trait can be built.
pub open spec fn trait_item_ok(i: TraitItemV) -> bool
    decreases i,
{
    match i {
        TraitItemV::Const { default, .. } => opt_expr_ok(default),
        TraitItemV::Fn { attrs, .. } => attrs_named(attrs),
        _ => true,
    }
}

/// Whether a file can be built.
pub open spec fn file_ok(f: FileV) -> bool {
    definitions_ok(f.items)
}

} // verus!
