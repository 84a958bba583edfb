//! What is taken from outside and believed as stated.
//!
//! `syn` reads a source text into trees of its own. `expr_source`, `item_source` and the like name
//! what such a tree holds, in the terms of `syntax`. The functions below take a tree apart: each
//! hands out the parts of some kinds of node, and its contract says how what the node holds is made
//! up of them.
//!
//! Places are told from spans. A span is looked up on the thread on which its text was read, and what
//! is said of it holds within two limits of `proc_macro2`: the texts read on one thread hold fewer than
//! 2^32 bytes together, since positions wrap around there; and nobody calls
//! `proc_macro2::extra::invalidate_current_thread_spans` on that thread while a tree read on it is
//! still taken apart. Nothing here calls it.
use crate::syntax::{
    opt_text, ArgV, ArmV, BlockV, CaptureV, ConstV, ExprV, FieldV, FieldValueV, FileV, FnV,
    ImplItemV, InitV, ItemV, LitV, Location, MacroV, PatKindV, PatV, SigV, SrcLitValue, StmtV,
    TokensV, TraitItemV, TypeAliasV, TypeV, UseTreeV, UseV,
};
use crate::text::texts;
use proc_macro2::Span;
use quote::ToTokens;
use syn::spanned::Spanned;
use vstd::prelude::*;
use vstd::utf8::*;

verus! {

/// The text that `String::from_utf8_lossy` makes of `bytes`.
pub uninterp spec fn lossy_text(bytes: Seq<u8>) -> Seq<char>;

/// `String::from_utf8_lossy` as an owned text.
///
/// The result depends on the bytes alone. Bytes that are valid UTF-8 are decoded as they are; what
/// takes the place of others is not stated.
#[verifier::external_body]
pub(crate) fn decode_lossy(bytes: &Vec<u8>) -> (r: String)
    ensures
        r@ == lossy_text(bytes@),
        valid_utf8(bytes@) ==> r@ == decode_utf8(bytes@),
{
    String::from_utf8_lossy(bytes).into_owned()
}

/// The JSON text of what `serde_yaml` reads from `yml`, if it does.
pub uninterp spec fn yaml_as_json(yml: Seq<char>) -> Option<Seq<char>>;

/// A JSON value, as `serde_json` keeps it.
#[verifier::external_type_specification]
#[verifier::external_body]
pub struct ExValue(serde_json::Value);

/// The JSON text of a value, which is what `serde_json::Value` is written as.
pub uninterp spec fn json_source(value: serde_json::Value) -> Seq<char>;

/// `serde_yaml::from_str` into a `serde_json::Value`.
///
/// Whether it does read a value, and how that is written as a JSON text, depends on the text alone.
#[verifier::external_body]
pub(crate) fn yaml_to_json(yml: &str) -> (r: Option<serde_json::Value>)
    ensures
        match r {
            Some(value) => yaml_as_json(yml@) == Some(json_source(value)),
            None => yaml_as_json(yml@) is None,
        },
{
    serde_yaml::from_str::<serde_json::Value>(yml).ok()
}

/// A place in a text that was read, as `proc_macro2` keeps it. Nothing is known of what is inside.
#[verifier::external_type_specification]
#[verifier::external_body]
pub struct ExSpan(proc_macro2::Span);

/// An attribute, as `syn` reads it. Nothing is known of what is inside.
#[verifier::external_type_specification]
#[verifier::external_body]
pub struct ExAttribute(syn::Attribute);

/// An expression, as `syn` reads it. Nothing is known of what is inside.
#[verifier::external_type_specification]
#[verifier::external_body]
pub struct ExExpr(syn::Expr);

/// A statement, as `syn` reads it. Nothing is known of what is inside.
#[verifier::external_type_specification]
#[verifier::external_body]
pub struct ExStmt(syn::Stmt);

/// A pattern, as `syn` reads it. Nothing is known of what is inside.
#[verifier::external_type_specification]
#[verifier::external_body]
pub struct ExPat(syn::Pat);

/// An item, as `syn` reads it. Nothing is known of what is inside.
#[verifier::external_type_specification]
#[verifier::external_body]
pub struct ExItem(syn::Item);

/// A function with a body, as `syn` reads it. Nothing is known of what is inside.
#[verifier::external_type_specification]
#[verifier::external_body]
pub struct ExItemFn(syn::ItemFn);

/// The head of a function, as `syn` reads it. Nothing is known of what is inside.
#[verifier::external_type_specification]
#[verifier::external_body]
pub struct ExSignature(syn::Signature);

/// An argument, as `syn` reads it. Nothing is known of what is inside.
#[verifier::external_type_specification]
#[verifier::external_body]
pub struct ExFnArg(syn::FnArg);

/// An item of an `impl` block, as `syn` reads it. Nothing is known of what is inside.
#[verifier::external_type_specification]
#[verifier::external_body]
pub struct ExImplItem(syn::ImplItem);

/// An item of a trait, as `syn` reads it. Nothing is known of what is inside.
#[verifier::external_type_specification]
#[verifier::external_body]
pub struct ExTraitItem(syn::TraitItem);

/// The tree of a `use` item, as `syn` reads it. Nothing is known of what is inside.
#[verifier::external_type_specification]
#[verifier::external_body]
pub struct ExUseTree(syn::UseTree);

/// The place that a span stands for.
pub uninterp spec fn span_place(s: Span) -> Location;

/// The names along the path of an attribute.
pub uninterp spec fn attr_source(a: syn::Attribute) -> Seq<Seq<char>>;

/// What an expression holds.
pub uninterp spec fn expr_source(e: syn::Expr) -> ExprV;

/// What a statement holds.
pub uninterp spec fn stmt_source(s: syn::Stmt) -> StmtV;

/// What a pattern holds.
pub uninterp spec fn pat_source(p: syn::Pat) -> PatV;

/// What an item holds.
pub uninterp spec fn item_source(i: syn::Item) -> ItemV;

/// What a function with a body holds.
pub uninterp spec fn fn_source(f: syn::ItemFn) -> FnV;

/// What the head of a function holds.
pub uninterp spec fn sig_source(s: syn::Signature) -> SigV;

/// What an argument holds.
pub uninterp spec fn arg_source(a: syn::FnArg) -> ArgV;

/// What an item of an `impl` block holds.
pub uninterp spec fn impl_item_source(i: syn::ImplItem) -> ImplItemV;

/// What an item of a trait holds.
pub uninterp spec fn trait_item_source(i: syn::TraitItem) -> TraitItemV;

/// What the tree of a `use` item holds.
pub uninterp spec fn use_tree_source(t: syn::UseTree) -> UseTreeV;

/// What the nodes of a list hold.
pub open spec fn attrs_source(s: Seq<&syn::Attribute>) -> Seq<Seq<Seq<char>>> {
    Seq::new(s.len(), |i: int| attr_source(*s[i]))
}

/// What the nodes of a list hold.
pub open spec fn exprs_source(s: Seq<&syn::Expr>) -> Seq<ExprV> {
    Seq::new(s.len(), |i: int| expr_source(*s[i]))
}

/// What the nodes of a list hold.
pub open spec fn stmts_source(s: Seq<&syn::Stmt>) -> Seq<StmtV> {
    Seq::new(s.len(), |i: int| stmt_source(*s[i]))
}

/// What the nodes of a list hold.
pub open spec fn items_source(s: Seq<&syn::Item>) -> Seq<ItemV> {
    Seq::new(s.len(), |i: int| item_source(*s[i]))
}

/// What the nodes of a list hold.
pub open spec fn args_source(s: Seq<&syn::FnArg>) -> Seq<ArgV> {
    Seq::new(s.len(), |i: int| arg_source(*s[i]))
}

/// What the nodes of a list hold.
pub open spec fn impl_items_source(s: Seq<&syn::ImplItem>) -> Seq<ImplItemV> {
    Seq::new(s.len(), |i: int| impl_item_source(*s[i]))
}

/// What the nodes of a list hold.
pub open spec fn trait_items_source(s: Seq<&syn::TraitItem>) -> Seq<TraitItemV> {
    Seq::new(s.len(), |i: int| trait_item_source(*s[i]))
}

/// What the nodes of a list hold.
pub open spec fn use_trees_source(s: Seq<&syn::UseTree>) -> Seq<UseTreeV> {
    Seq::new(s.len(), |i: int| use_tree_source(*s[i]))
}

/// What an expression that may be absent holds.
pub open spec fn opt_expr_source(o: Option<&syn::Expr>) -> Option<Box<ExprV>> {
    match o {
        Some(e) => Some(Box::new(expr_source(*e))),
        None => None,
    }
}

/// A block: its place and its statements.
pub struct BlockParts<'a> {
    pub at: Span,
    pub stmts: Vec<&'a syn::Stmt>,
}

impl<'a> BlockParts<'a> {
    pub open spec fn view(&self) -> BlockV {
        BlockV { at: span_place(self.at), stmts: stmts_source(self.stmts@) }
    }
}

/// A type: its place and its text.
pub struct TypeParts {
    pub at: Span,
    pub text: String,
}

impl TypeParts {
    pub open spec fn view(&self) -> TypeV {
        TypeV { at: span_place(self.at), text: self.text@ }
    }
}

/// What a type that may be absent holds.
pub open spec fn opt_type_parts(o: Option<TypeParts>) -> Option<TypeV> {
    match o {
        Some(t) => Some(t.view()),
        None => None,
    }
}

/// The parts of an expression.
pub enum ExprParts<'a> {
    Array { at: Span, elems: Vec<&'a syn::Expr> },
    Assign { at: Span, left: &'a syn::Expr, right: &'a syn::Expr },
    Binary { at: Span, left: &'a syn::Expr, op: String, right: &'a syn::Expr },
    Unary { at: Span, op: String, expr: &'a syn::Expr },
    Break { at: Span, expr: Option<&'a syn::Expr> },
    Block { at: Span, block: BlockParts<'a> },
    Call { at: Span, callee: String, func: &'a syn::Expr, args: Vec<&'a syn::Expr> },
    Cast { at: Span, expr: &'a syn::Expr, ty: TypeParts },
    Closure {
        at: Span,
        capture: Option<(Span, Option<String>)>,
        output: Option<TypeParts>,
        body: &'a syn::Expr,
    },
    Const { block: BlockParts<'a> },
    Continue { at: Span },
    ForLoop { at: Span, expr: &'a syn::Expr, body: BlockParts<'a> },
    Field { at: Span, base: &'a syn::Expr, member: String },
    If {
        at: Span,
        cond: &'a syn::Expr,
        then_branch: BlockParts<'a>,
        else_branch: Option<&'a syn::Expr>,
    },
    Index { at: Span, expr: &'a syn::Expr, index: &'a syn::Expr },
    Infer { at: Span },
    Let { at: Span, pat: &'a syn::Pat, expr: &'a syn::Expr },
    Lit { at: Span, lit_at: Span, value: SrcLitValue },
    Loop { at: Span, body: BlockParts<'a> },
    Macro { at: Span, name: String, text: String },
    Match { at: Span, expr: &'a syn::Expr, arms: Vec<(&'a syn::Pat, &'a syn::Expr)> },
    MethodCall { at: Span, receiver: &'a syn::Expr, method: String, args: Vec<&'a syn::Expr> },
    Paren { at: Span, expr: &'a syn::Expr },
    Path { at: Span, text: String },
    Range { at: Span, start: Option<&'a syn::Expr>, end: Option<&'a syn::Expr>, is_closed: bool },
    RawAddr { at: Span, is_mut: bool, expr: &'a syn::Expr },
    Reference { at: Span, is_mut: bool, expr: &'a syn::Expr },
    Repeat { at: Span, expr: &'a syn::Expr, len: &'a syn::Expr },
    Return { at: Span, expr: Option<&'a syn::Expr> },
    Struct {
        at: Span,
        path: Vec<String>,
        fields: Vec<(Option<String>, &'a syn::Expr)>,
        rest: Option<&'a syn::Expr>,
    },
    Try { at: Span, expr: &'a syn::Expr },
    TryBlock { block: BlockParts<'a> },
    Tuple { at: Span, elems: Vec<&'a syn::Expr> },
    Unsafe { at: Span, block: BlockParts<'a> },
    While { at: Span, label: Option<String>, cond: &'a syn::Expr, body: BlockParts<'a> },
    Async,
    Await,
    Yield,
}

impl<'a> ExprParts<'a> {
    /// What the expression made up of these parts holds.
    pub open spec fn view(self) -> ExprV {
        match self {
            ExprParts::Array { at, elems } => ExprV::Array {
                at: span_place(at),
                elems: exprs_source(elems@),
            },
            ExprParts::Assign { at, left, right } => ExprV::Assign {
                at: span_place(at),
                left: Box::new(expr_source(*left)),
                right: Box::new(expr_source(*right)),
            },
            ExprParts::Binary { at, left, op, right } => ExprV::Binary {
                at: span_place(at),
                left: Box::new(expr_source(*left)),
                op: op@,
                right: Box::new(expr_source(*right)),
            },
            ExprParts::Unary { at, op, expr } => ExprV::Unary {
                at: span_place(at),
                op: op@,
                expr: Box::new(expr_source(*expr)),
            },
            ExprParts::Break { at, expr } => ExprV::Break {
                at: span_place(at),
                expr: opt_expr_source(expr),
            },
            ExprParts::Block { at, block } => ExprV::Block {
                at: span_place(at),
                block: block.view(),
            },
            ExprParts::Call { at, callee, func, args } => ExprV::Call {
                at: span_place(at),
                callee: callee@,
                func: Box::new(expr_source(*func)),
                args: exprs_source(args@),
            },
            ExprParts::Cast { at, expr, ty } => ExprV::Cast {
                at: span_place(at),
                expr: Box::new(expr_source(*expr)),
                ty: ty.view(),
            },
            ExprParts::Closure { at, capture, output, body } => ExprV::Closure {
                at: span_place(at),
                capture: capture_source(capture),
                output: opt_type_parts(output),
                body: Box::new(expr_source(*body)),
            },
            ExprParts::Const { block } => ExprV::Const { block: block.view() },
            ExprParts::Continue { at } => ExprV::Continue { at: span_place(at) },
            ExprParts::ForLoop { at, expr, body } => ExprV::ForLoop {
                at: span_place(at),
                expr: Box::new(expr_source(*expr)),
                body: body.view(),
            },
            ExprParts::Field { at, base, member } => ExprV::Field {
                at: span_place(at),
                base: Box::new(expr_source(*base)),
                member: member@,
            },
            ExprParts::If { at, cond, then_branch, else_branch } => ExprV::If {
                at: span_place(at),
                cond: Box::new(expr_source(*cond)),
                then_branch: then_branch.view(),
                else_branch: opt_expr_source(else_branch),
            },
            ExprParts::Index { at, expr, index } => ExprV::Index {
                at: span_place(at),
                expr: Box::new(expr_source(*expr)),
                index: Box::new(expr_source(*index)),
            },
            ExprParts::Infer { at } => ExprV::Infer { at: span_place(at) },
            ExprParts::Let { at, pat, expr } => ExprV::Let {
                at: span_place(at),
                pat: pat_source(*pat),
                expr: Box::new(expr_source(*expr)),
            },
            ExprParts::Lit { at, lit_at, value } => ExprV::Lit {
                at: span_place(at),
                lit: LitV { at: span_place(lit_at), value: value.view() },
            },
            ExprParts::Loop { at, body } => ExprV::Loop { at: span_place(at), body: body.view() },
            ExprParts::Macro { at, name, text } => ExprV::Macro {
                at: span_place(at),
                name: name@,
                text: text@,
            },
            ExprParts::Match { at, expr, arms } => ExprV::Match {
                at: span_place(at),
                expr: Box::new(expr_source(*expr)),
                arms: arms_source(arms@),
            },
            ExprParts::MethodCall { at, receiver, method, args } => ExprV::MethodCall {
                at: span_place(at),
                receiver: Box::new(expr_source(*receiver)),
                method: method@,
                args: exprs_source(args@),
            },
            ExprParts::Paren { at, expr } => ExprV::Paren {
                at: span_place(at),
                expr: Box::new(expr_source(*expr)),
            },
            ExprParts::Path { at, text } => ExprV::Path { at: span_place(at), text: text@ },
            ExprParts::Range { at, start, end, is_closed } => ExprV::Range {
                at: span_place(at),
                start: opt_expr_source(start),
                end: opt_expr_source(end),
                is_closed,
            },
            ExprParts::RawAddr { at, is_mut, expr } => ExprV::RawAddr {
                at: span_place(at),
                is_mut,
                expr: Box::new(expr_source(*expr)),
            },
            ExprParts::Reference { at, is_mut, expr } => ExprV::Reference {
                at: span_place(at),
                is_mut,
                expr: Box::new(expr_source(*expr)),
            },
            ExprParts::Repeat { at, expr, len } => ExprV::Repeat {
                at: span_place(at),
                expr: Box::new(expr_source(*expr)),
                len: Box::new(expr_source(*len)),
            },
            ExprParts::Return { at, expr } => ExprV::Return {
                at: span_place(at),
                expr: opt_expr_source(expr),
            },
            ExprParts::Struct { at, path, fields, rest } => ExprV::Struct {
                at: span_place(at),
                path: texts(path@),
                fields: field_values_source(fields@),
                rest: opt_expr_source(rest),
            },
            ExprParts::Try { at, expr } => ExprV::Try {
                at: span_place(at),
                expr: Box::new(expr_source(*expr)),
            },
            ExprParts::TryBlock { block } => ExprV::TryBlock { block: block.view() },
            ExprParts::Tuple { at, elems } => ExprV::Tuple {
                at: span_place(at),
                elems: exprs_source(elems@),
            },
            ExprParts::Unsafe { at, block } => ExprV::Unsafe {
                at: span_place(at),
                block: block.view(),
            },
            ExprParts::While { at, label, cond, body } => ExprV::While {
                at: span_place(at),
                label: opt_text(label),
                cond: Box::new(expr_source(*cond)),
                body: body.view(),
            },
            ExprParts::Async => ExprV::Async,
            ExprParts::Await => ExprV::Await,
            ExprParts::Yield => ExprV::Yield,
        }
    }
}

/// What the `move` of a closure holds.
pub open spec fn capture_source(c: Option<(Span, Option<String>)>) -> Option<CaptureV> {
    match c {
        Some(c) => Some(CaptureV { at: span_place(c.0), text: opt_text(c.1) }),
        None => None,
    }
}

/// What the arms of a `match` hold.
pub open spec fn arms_source(s: Seq<(&syn::Pat, &syn::Expr)>) -> Seq<ArmV> {
    Seq::new(s.len(), |i: int| ArmV { pat: pat_source(*s[i].0), body: expr_source(*s[i].1) })
}

/// What the fields of a struct expression hold.
pub open spec fn field_values_source(s: Seq<(Option<String>, &syn::Expr)>) -> Seq<FieldValueV> {
    Seq::new(
        s.len(),
        |i: int| FieldValueV { name: opt_text(s[i].0), expr: expr_source(*s[i].1) },
    )
}

/// The place of a span: `Span::byte_range`, `Span::start` and `Span::end` of `proc_macro2`.
///
/// All three go by the text in which the span lies, not by what else was read.
#[verifier::external_body]
pub(crate) fn location_of(span: Span) -> (r: Location)
    ensures
        r == span_place(span),
{
    Location {
        offset_start: span.byte_range().start,
        offset_end: span.byte_range().end,
        start_line: span.start().line,
        start_column: span.start().column,
        end_line: span.end().line,
        end_column: span.end().column,
    }
}

/// The type that `syn::parse_str` reads from `text`, if it does.
pub uninterp spec fn type_source(text: Seq<char>) -> Option<TypeV>;

/// `syn::parse_str::<syn::Type>`: the place and the text of the type read from `text`.
///
/// What is read depends on the text alone. `_` is a type, and it is written as it is read.
#[verifier::external_body]
pub(crate) fn parse_type(text: &str) -> (r: Option<TypeParts>)
    ensures
        opt_type_parts(r) == type_source(text@),
        text@ == "_"@ ==> r is Some && r->0.text@ == text@,
{
    match syn::parse_str::<syn::Type>(text) {
        Ok(ty) => Some(TypeParts { at: ty.span(), text: ty.to_token_stream().to_string() }),
        Err(_) => None,
    }
}

/// A source file: its place, its text, its inner attributes and its items.
pub struct FileParts {
    pub at: Span,
    pub text: Option<String>,
    pub attrs: Vec<syn::Attribute>,
    pub items: Vec<syn::Item>,
}

impl FileParts {
    pub open spec fn view(&self) -> FileV {
        FileV {
            at: span_place(self.at),
            source_code: match self.text {
                Some(t) => t@,
                None => Seq::empty(),
            },
            attrs: Seq::new(self.attrs@.len(), |i: int| attr_source(self.attrs@[i])),
            items: Seq::new(self.items@.len(), |i: int| item_source(self.items@[i])),
        }
    }
}

/// What `syn::parse_file` reads from `content`, or what it says against it where it is not the text
/// of a source file.
pub uninterp spec fn parsed(content: Seq<char>) -> Result<FileV, Seq<char>>;

/// `syn::parse_file`, with the place of the file and the text at that place, or with its error as a
/// text.
///
/// What is read, and what the error says, depends on the content alone.
#[verifier::external_body]
pub(crate) fn parse_source(content: &str) -> (r: Result<FileParts, String>)
    ensures
        match r {
            Ok(f) => parsed(content@) == Ok::<FileV, Seq<char>>(f@),
            Err(e) => parsed(content@) == Err::<FileV, Seq<char>>(e@),
        },
{
    match syn::parse_file(content) {
        Ok(f) => Ok(
            FileParts {
                at: f.span(),
                text: f.span().source_text(),
                attrs: f.attrs,
                items: f.items,
            },
        ),
        Err(e) => Err(e.to_string()),
    }
}

/// The names along `syn::Attribute::path`.
#[verifier::external_body]
pub(crate) fn attr_names(a: &syn::Attribute) -> (r: Vec<String>)
    ensures
        texts(r@) == attr_source(*a),
{
    a.path().segments.iter().map(|s| s.ident.to_string()).collect()
}

/// The elements of a `syn::Expr::Array` or `syn::Expr::Tuple`.
#[verifier::external_body]
pub(crate) fn expr_elements<'a>(e: &'a syn::Expr) -> (r: Option<ExprParts<'a>>)
    ensures
        match r {
            Some(p) => expr_source(*e) == p.view(),
            None => !(expr_source(*e) is Array) && !(expr_source(*e) is Tuple),
        },
{
    match e {
        syn::Expr::Array(x) => Some(
            ExprParts::Array { at: x.span(), elems: x.elems.iter().collect() },
        ),
        syn::Expr::Tuple(x) => Some(
            ExprParts::Tuple { at: x.span(), elems: x.elems.iter().collect() },
        ),
        _ => None,
    }
}

/// The two expressions of a `syn::Expr::Assign` or `syn::Expr::Binary`.
#[verifier::external_body]
pub(crate) fn expr_operands<'a>(e: &'a syn::Expr) -> (r: Option<ExprParts<'a>>)
    ensures
        match r {
            Some(p) => expr_source(*e) == p.view(),
            None => !(expr_source(*e) is Assign) && !(expr_source(*e) is Binary),
        },
{
    match e {
        syn::Expr::Assign(x) => Some(
            ExprParts::Assign { at: x.span(), left: &x.left, right: &x.right },
        ),
        syn::Expr::Binary(x) => {
            let op = x.op.to_token_stream().to_string();
            Some(ExprParts::Binary { at: x.span(), left: &x.left, op, right: &x.right })
        },
        _ => None,
    }
}

/// The two expressions of a `syn::Expr::Index` or `syn::Expr::Repeat`.
#[verifier::external_body]
pub(crate) fn expr_bracketed<'a>(e: &'a syn::Expr) -> (r: Option<ExprParts<'a>>)
    ensures
        match r {
            Some(p) => expr_source(*e) == p.view(),
            None => !(expr_source(*e) is Index) && !(expr_source(*e) is Repeat),
        },
{
    match e {
        syn::Expr::Index(x) => Some(
            ExprParts::Index { at: x.span(), expr: &x.expr, index: &x.index },
        ),
        syn::Expr::Repeat(x) => Some(
            ExprParts::Repeat { at: x.span(), expr: &x.expr, len: &x.len },
        ),
        _ => None,
    }
}

/// The expression inside a `syn::Expr::Paren`, `Try`, `Unary` or `Field`.
#[verifier::external_body]
pub(crate) fn expr_operand<'a>(e: &'a syn::Expr) -> (r: Option<ExprParts<'a>>)
    ensures
        match r {
            Some(p) => expr_source(*e) == p.view(),
            None => !(expr_source(*e) is Paren) && !(expr_source(*e) is Try)
                && !(expr_source(*e) is Unary) && !(expr_source(*e) is Field),
        },
{
    match e {
        syn::Expr::Paren(x) => Some(ExprParts::Paren { at: x.span(), expr: &x.expr }),
        syn::Expr::Try(x) => Some(ExprParts::Try { at: x.span(), expr: &x.expr }),
        syn::Expr::Unary(x) => {
            let op = x.op.to_token_stream().to_string();
            Some(ExprParts::Unary { at: x.span(), op, expr: &x.expr })
        },
        syn::Expr::Field(x) => {
            let member = x.member.to_token_stream().to_string();
            Some(ExprParts::Field { at: x.span(), base: &x.base, member })
        },
        _ => None,
    }
}

/// The expression that a `syn::Expr::RawAddr` or `syn::Expr::Reference` takes the address of.
#[verifier::external_body]
pub(crate) fn expr_pointee<'a>(e: &'a syn::Expr) -> (r: Option<ExprParts<'a>>)
    ensures
        match r {
            Some(p) => expr_source(*e) == p.view(),
            None => !(expr_source(*e) is RawAddr) && !(expr_source(*e) is Reference),
        },
{
    match e {
        syn::Expr::RawAddr(x) => {
            let is_mut = matches!(x.mutability, syn::PointerMutability::Mut(_));
            Some(ExprParts::RawAddr { at: x.span(), is_mut, expr: &x.expr })
        },
        syn::Expr::Reference(x) => {
            let is_mut = x.mutability.is_some();
            Some(ExprParts::Reference { at: x.span(), is_mut, expr: &x.expr })
        },
        _ => None,
    }
}

/// The value of a `syn::Expr::Break` or `syn::Expr::Return`; a `syn::Expr::Continue`.
#[verifier::external_body]
pub(crate) fn expr_jump<'a>(e: &'a syn::Expr) -> (r: Option<ExprParts<'a>>)
    ensures
        match r {
            Some(p) => expr_source(*e) == p.view(),
            None => !(expr_source(*e) is Break) && !(expr_source(*e) is Return)
                && !(expr_source(*e) is Continue),
        },
{
    match e {
        syn::Expr::Break(x) => Some(
            ExprParts::Break { at: x.span(), expr: x.expr.as_deref() },
        ),
        syn::Expr::Return(x) => Some(
            ExprParts::Return { at: x.span(), expr: x.expr.as_deref() },
        ),
        syn::Expr::Continue(x) => Some(ExprParts::Continue { at: x.span() }),
        _ => None,
    }
}

/// The ends of a `syn::Expr::Range`.
#[verifier::external_body]
pub(crate) fn expr_range<'a>(e: &'a syn::Expr) -> (r: Option<ExprParts<'a>>)
    ensures
        match r {
            Some(p) => expr_source(*e) == p.view(),
            None => !(expr_source(*e) is Range),
        },
{
    match e {
        syn::Expr::Range(x) => Some(
            ExprParts::Range {
                at: x.span(),
                start: x.start.as_deref(),
                end: x.end.as_deref(),
                is_closed: matches!(x.limits, syn::RangeLimits::Closed(_)),
            },
        ),
        _ => None,
    }
}

/// The block of a `syn::Expr::Block`, `Loop` or `Unsafe`.
#[verifier::external_body]
pub(crate) fn expr_block<'a>(e: &'a syn::Expr) -> (r: Option<ExprParts<'a>>)
    ensures
        match r {
            Some(p) => expr_source(*e) == p.view(),
            None => !(expr_source(*e) is Block) && !(expr_source(*e) is Loop)
                && !(expr_source(*e) is Unsafe),
        },
{
    match e {
        syn::Expr::Block(x) => {
            let block = BlockParts { at: x.block.span(), stmts: x.block.stmts.iter().collect() };
            Some(ExprParts::Block { at: x.span(), block })
        },
        syn::Expr::Loop(x) => {
            let body = BlockParts { at: x.body.span(), stmts: x.body.stmts.iter().collect() };
            Some(ExprParts::Loop { at: x.span(), body })
        },
        syn::Expr::Unsafe(x) => {
            let block = BlockParts { at: x.block.span(), stmts: x.block.stmts.iter().collect() };
            Some(ExprParts::Unsafe { at: x.span(), block })
        },
        _ => None,
    }
}

/// The block of a `syn::Expr::Const` or `syn::Expr::TryBlock`.
#[verifier::external_body]
pub(crate) fn expr_bare_block<'a>(e: &'a syn::Expr) -> (r: Option<ExprParts<'a>>)
    ensures
        match r {
            Some(p) => expr_source(*e) == p.view(),
            None => !(expr_source(*e) is Const) && !(expr_source(*e) is TryBlock),
        },
{
    match e {
        syn::Expr::Const(x) => {
            let block = BlockParts { at: x.block.span(), stmts: x.block.stmts.iter().collect() };
            Some(ExprParts::Const { block })
        },
        syn::Expr::TryBlock(x) => {
            let block = BlockParts { at: x.block.span(), stmts: x.block.stmts.iter().collect() };
            Some(ExprParts::TryBlock { block })
        },
        _ => None,
    }
}

/// The condition, the block and the `else` branch of a `syn::Expr::If`.
#[verifier::external_body]
pub(crate) fn expr_if<'a>(e: &'a syn::Expr) -> (r: Option<ExprParts<'a>>)
    ensures
        match r {
            Some(p) => expr_source(*e) == p.view(),
            None => !(expr_source(*e) is If),
        },
{
    match e {
        syn::Expr::If(x) => {
            let then_branch = BlockParts {
                at: x.then_branch.span(),
                stmts: x.then_branch.stmts.iter().collect(),
            };
            let else_branch = x.else_branch.as_ref().map(|b| &*b.1);
            Some(ExprParts::If { at: x.span(), cond: &x.cond, then_branch, else_branch })
        },
        _ => None,
    }
}

/// What a `syn::Expr::While` or `syn::Expr::ForLoop` repeats, and on what.
#[verifier::external_body]
pub(crate) fn expr_loop<'a>(e: &'a syn::Expr) -> (r: Option<ExprParts<'a>>)
    ensures
        match r {
            Some(p) => expr_source(*e) == p.view(),
            None => !(expr_source(*e) is While) && !(expr_source(*e) is ForLoop),
        },
{
    match e {
        syn::Expr::While(x) => {
            let label = x.label.as_ref().map(|l| l.to_token_stream().to_string());
            let body = BlockParts { at: x.body.span(), stmts: x.body.stmts.iter().collect() };
            Some(ExprParts::While { at: x.span(), label, cond: &x.cond, body })
        },
        syn::Expr::ForLoop(x) => {
            let body = BlockParts { at: x.body.span(), stmts: x.body.stmts.iter().collect() };
            Some(ExprParts::ForLoop { at: x.span(), expr: &x.expr, body })
        },
        _ => None,
    }
}

/// What a `syn::Expr::Call` or `syn::Expr::MethodCall` calls, and its arguments.
#[verifier::external_body]
pub(crate) fn expr_call<'a>(e: &'a syn::Expr) -> (r: Option<ExprParts<'a>>)
    ensures
        match r {
            Some(p) => expr_source(*e) == p.view(),
            None => !(expr_source(*e) is Call) && !(expr_source(*e) is MethodCall),
        },
{
    match e {
        syn::Expr::Call(x) => {
            let callee = x.func.to_token_stream().to_string();
            let args = x.args.iter().collect();
            Some(ExprParts::Call { at: x.span(), callee, func: &x.func, args })
        },
        syn::Expr::MethodCall(x) => {
            let method = x.method.to_string();
            let args = x.args.iter().collect();
            Some(ExprParts::MethodCall { at: x.span(), receiver: &x.receiver, method, args })
        },
        _ => None,
    }
}

/// The expression and the type of a `syn::Expr::Cast`.
#[verifier::external_body]
pub(crate) fn expr_cast<'a>(e: &'a syn::Expr) -> (r: Option<ExprParts<'a>>)
    ensures
        match r {
            Some(p) => expr_source(*e) == p.view(),
            None => !(expr_source(*e) is Cast),
        },
{
    match e {
        syn::Expr::Cast(x) => {
            let ty = TypeParts { at: x.ty.span(), text: x.ty.to_token_stream().to_string() };
            Some(ExprParts::Cast { at: x.span(), expr: &x.expr, ty })
        },
        _ => None,
    }
}

/// The `move`, the return type and the body of a `syn::Expr::Closure`.
#[verifier::external_body]
pub(crate) fn expr_closure<'a>(e: &'a syn::Expr) -> (r: Option<ExprParts<'a>>)
    ensures
        match r {
            Some(p) => expr_source(*e) == p.view(),
            None => !(expr_source(*e) is Closure),
        },
{
    match e {
        syn::Expr::Closure(x) => {
            let capture = x.capture.map(|m| (m.span(), m.span.source_text()));
            let output = match &x.output {
                syn::ReturnType::Type(_, ty) => Some(
                    TypeParts { at: ty.span(), text: ty.to_token_stream().to_string() },
                ),
                syn::ReturnType::Default => None,
            };
            Some(ExprParts::Closure { at: x.span(), capture, output, body: &x.body })
        },
        _ => None,
    }
}

/// The patterns of a `syn::Expr::Let` or `syn::Expr::Match`, and what they are held against.
#[verifier::external_body]
pub(crate) fn expr_match<'a>(e: &'a syn::Expr) -> (r: Option<ExprParts<'a>>)
    ensures
        match r {
            Some(p) => expr_source(*e) == p.view(),
            None => !(expr_source(*e) is Let) && !(expr_source(*e) is Match),
        },
{
    match e {
        syn::Expr::Let(x) => Some(ExprParts::Let { at: x.span(), pat: &x.pat, expr: &x.expr }),
        syn::Expr::Match(x) => {
            let arms = x.arms.iter().map(|a| (&a.pat, &*a.body)).collect();
            Some(ExprParts::Match { at: x.span(), expr: &x.expr, arms })
        },
        _ => None,
    }
}

/// The path, the fields and the rest of a `syn::Expr::Struct`.
#[verifier::external_body]
pub(crate) fn expr_struct<'a>(e: &'a syn::Expr) -> (r: Option<ExprParts<'a>>)
    ensures
        match r {
            Some(p) => expr_source(*e) == p.view(),
            None => !(expr_source(*e) is Struct),
        },
{
    match e {
        syn::Expr::Struct(x) => {
            let path = x.path.segments.iter().map(|s| s.ident.to_string()).collect();
            let name = |m: &syn::Member| match m {
                syn::Member::Named(ident) => Some(ident.to_string()),
                syn::Member::Unnamed(_) => None,
            };
            let fields = x.fields.iter().map(|f| (name(&f.member), &f.expr)).collect();
            Some(ExprParts::Struct { at: x.span(), path, fields, rest: x.rest.as_deref() })
        },
        _ => None,
    }
}

/// The text of a `syn::Expr::Path` or `syn::Expr::Macro`; a `syn::Expr::Infer`.
#[verifier::external_body]
pub(crate) fn expr_leaf<'a>(e: &'a syn::Expr) -> (r: Option<ExprParts<'a>>)
    ensures
        match r {
            Some(p) => expr_source(*e) == p.view(),
            None => !(expr_source(*e) is Infer) && !(expr_source(*e) is Path)
                && !(expr_source(*e) is Macro),
        },
{
    match e {
        syn::Expr::Infer(x) => Some(ExprParts::Infer { at: x.span() }),
        syn::Expr::Path(x) => {
            let text = x.to_token_stream().to_string();
            Some(ExprParts::Path { at: x.span(), text })
        },
        syn::Expr::Macro(x) => {
            let name = x.mac.path.to_token_stream().to_string();
            Some(ExprParts::Macro { at: x.span(), name, text: x.mac.tokens.to_string() })
        },
        _ => None,
    }
}

/// The value of a `syn::Expr::Lit` that is a `syn::Lit::Str`, `ByteStr` or `CStr`.
#[verifier::external_body]
pub(crate) fn expr_text<'a>(e: &'a syn::Expr) -> (r: Option<ExprParts<'a>>)
    ensures
        match r {
            Some(p) => expr_source(*e) == p.view(),
            None => expr_source(*e) matches ExprV::Lit { lit: l, .. } ==> {
                &&& !(l.value is Str)
                &&& !(l.value is ByteStr)
                &&& !(l.value is CStr)
            },
        },
{
    let syn::Expr::Lit(x) = e else { return None; };
    let value = match &x.lit {
        syn::Lit::Str(l) => SrcLitValue::Str(l.value()),
        syn::Lit::ByteStr(l) => SrcLitValue::ByteStr(l.value()),
        syn::Lit::CStr(l) => SrcLitValue::CStr(l.value().into_bytes()),
        _ => return None,
    };
    Some(ExprParts::Lit { at: x.span(), lit_at: x.lit.span(), value })
}

/// The value of a `syn::Expr::Lit` that is a `syn::Lit::Byte`, `Char`, `Int`, `Float` or `Bool`.
///
/// A number is given by `base10_digits`.
#[verifier::external_body]
pub(crate) fn expr_scalar<'a>(e: &'a syn::Expr) -> (r: Option<ExprParts<'a>>)
    ensures
        match r {
            Some(p) => expr_source(*e) == p.view(),
            None => expr_source(*e) matches ExprV::Lit { lit: l, .. } ==> {
                &&& !(l.value is Byte)
                &&& !(l.value is Char)
                &&& !(l.value is Int)
                &&& !(l.value is Float)
                &&& !(l.value is Bool)
            },
        },
{
    let syn::Expr::Lit(x) = e else { return None; };
    let value = match &x.lit {
        syn::Lit::Byte(l) => SrcLitValue::Byte(l.value()),
        syn::Lit::Char(l) => SrcLitValue::Char(l.value()),
        syn::Lit::Int(l) => SrcLitValue::Int(l.base10_digits().to_owned()),
        syn::Lit::Float(l) => SrcLitValue::Float(l.base10_digits().to_owned()),
        syn::Lit::Bool(l) => SrcLitValue::Bool(l.value),
        _ => return None,
    };
    Some(ExprParts::Lit { at: x.span(), lit_at: x.lit.span(), value })
}

/// The places of a `syn::Expr::Lit` and of its literal.
#[verifier::external_body]
pub(crate) fn expr_literal(e: &syn::Expr) -> (r: Option<(Span, Span)>)
    ensures
        match r {
            Some(p) => {
                &&& expr_source(*e) matches ExprV::Lit { at, lit }
                &&& at == span_place(p.0)
                &&& lit.at == span_place(p.1)
            },
            None => !(expr_source(*e) is Lit),
        },
{
    match e {
        syn::Expr::Lit(x) => Some((x.span(), x.lit.span())),
        _ => None,
    }
}

/// A `syn::Expr::Async`, `Await` or `Yield`.
#[verifier::external_body]
pub(crate) fn expr_suspended<'a>(e: &'a syn::Expr) -> (r: Option<ExprParts<'a>>)
    ensures
        match r {
            Some(p) => expr_source(*e) == p.view(),
            None => !(expr_source(*e) is Async) && !(expr_source(*e) is Await)
                && !(expr_source(*e) is Yield),
        },
{
    match e {
        syn::Expr::Async(_) => Some(ExprParts::Async),
        syn::Expr::Await(_) => Some(ExprParts::Await),
        syn::Expr::Yield(_) => Some(ExprParts::Yield),
        _ => None,
    }
}

/// The parts of a statement.
pub enum StmtParts<'a> {
    Expression { expr: &'a syn::Expr, semi: bool },
    Local { at: Span, pat: &'a syn::Pat, init: Option<(&'a syn::Expr, Option<&'a syn::Expr>)> },
    Macro { at: Span, name: String, text: String },
    Definition(&'a syn::Item),
}

/// What the value of a `let` holds.
pub open spec fn init_source(o: Option<(&syn::Expr, Option<&syn::Expr>)>) -> Option<InitV> {
    match o {
        Some(i) => Some(InitV { expr: expr_source(*i.0), diverge: opt_expr_source(i.1) }),
        None => None,
    }
}

impl<'a> StmtParts<'a> {
    /// What the statement made up of these parts holds.
    pub open spec fn view(self) -> StmtV {
        match self {
            StmtParts::Expression { expr, semi } => StmtV::Expression {
                expr: expr_source(*expr),
                semi,
            },
            StmtParts::Local { at, pat, init } => StmtV::Local {
                at: span_place(at),
                pat: pat_source(*pat),
                init: init_source(init),
            },
            StmtParts::Macro { at, name, text } => StmtV::Macro {
                at: span_place(at),
                name: name@,
                text: text@,
            },
            StmtParts::Definition(item) => StmtV::Definition(item_source(*item)),
        }
    }
}

/// The parts of a `syn::Stmt`. The text of a macro call is that of the whole statement.
#[verifier::external_body]
pub(crate) fn stmt_parts<'a>(s: &'a syn::Stmt) -> (r: StmtParts<'a>)
    ensures
        stmt_source(*s) == r.view(),
{
    match s {
        syn::Stmt::Expr(expr, semi) => StmtParts::Expression { expr, semi: semi.is_some() },
        syn::Stmt::Local(x) => {
            let diverge = |i: &'a syn::LocalInit| i.diverge.as_ref().map(|d| &*d.1);
            let init = x.init.as_ref().map(|i| (&*i.expr, diverge(i)));
            StmtParts::Local { at: x.span(), pat: &x.pat, init }
        },
        syn::Stmt::Macro(x) => {
            let name = x.mac.path.to_token_stream().to_string();
            StmtParts::Macro { at: x.span(), name, text: x.to_token_stream().to_string() }
        },
        syn::Stmt::Item(item) => StmtParts::Definition(item),
    }
}

/// What tells a pattern apart.
pub enum PatParts<'a> {
    Ident { ident: String, is_mut: bool },
    Typed(&'a syn::Pat),
    Wild,
    Other,
}

impl<'a> PatParts<'a> {
    pub open spec fn view(self) -> PatKindV {
        match self {
            PatParts::Ident { ident, is_mut } => PatKindV::Ident { ident: ident@, is_mut },
            PatParts::Typed(p) => PatKindV::Typed(Box::new(pat_source(*p))),
            PatParts::Wild => PatKindV::Wild,
            PatParts::Other => PatKindV::Other,
        }
    }
}

/// The place, the text and the kind of a `syn::Pat`.
#[verifier::external_body]
pub(crate) fn pat_parts<'a>(p: &'a syn::Pat) -> (r: (Span, String, PatParts<'a>))
    ensures
        pat_source(*p) == (PatV { at: span_place(r.0), text: r.1@, kind: r.2.view() }),
{
    let kind = match p {
        syn::Pat::Ident(x) => PatParts::Ident {
            ident: x.ident.to_string(),
            is_mut: x.mutability.is_some(),
        },
        syn::Pat::Type(x) => PatParts::Typed(&x.pat),
        syn::Pat::Wild(_) => PatParts::Wild,
        _ => PatParts::Other,
    };
    (p.span(), p.to_token_stream().to_string(), kind)
}

/// The parts of an argument.
pub enum ArgParts<'a> {
    Receiver { at: Span, ty: String, is_mut: bool },
    Typed { at: Span, pat: &'a syn::Pat, ty: String },
}

impl<'a> ArgParts<'a> {
    pub open spec fn view(self) -> ArgV {
        match self {
            ArgParts::Receiver { at, ty, is_mut } => ArgV::Receiver {
                at: span_place(at),
                ty: ty@,
                is_mut,
            },
            ArgParts::Typed { at, pat, ty } => ArgV::Typed {
                at: span_place(at),
                pat: pat_source(*pat),
                ty: ty@,
            },
        }
    }
}

/// The parts of a `syn::FnArg`.
#[verifier::external_body]
pub(crate) fn arg_parts<'a>(a: &'a syn::FnArg) -> (r: ArgParts<'a>)
    ensures
        arg_source(*a) == r.view(),
{
    match a {
        syn::FnArg::Receiver(x) => ArgParts::Receiver {
            at: x.span(),
            ty: x.ty.to_token_stream().to_string(),
            is_mut: x.mutability.is_some(),
        },
        syn::FnArg::Typed(x) => ArgParts::Typed {
            at: a.span(),
            pat: &x.pat,
            ty: x.ty.to_token_stream().to_string(),
        },
    }
}

/// The parts of the head of a function.
pub struct SigParts<'a> {
    pub name: String,
    pub inputs: Vec<&'a syn::FnArg>,
    pub output: Option<TypeParts>,
    pub generics: Vec<String>,
}

impl<'a> SigParts<'a> {
    pub open spec fn view(&self) -> SigV {
        SigV {
            name: self.name@,
            inputs: args_source(self.inputs@),
            output: opt_type_parts(self.output),
            generics: texts(self.generics@),
        }
    }
}

/// The name, the arguments, the return type and the generic parameters of a `syn::Signature`.
#[verifier::external_body]
pub(crate) fn sig_parts<'a>(s: &'a syn::Signature) -> (r: SigParts<'a>)
    ensures
        sig_source(*s) == r@,
{
    let output = match &s.output {
        syn::ReturnType::Type(_, ty) => Some(
            TypeParts { at: ty.span(), text: ty.to_token_stream().to_string() },
        ),
        syn::ReturnType::Default => None,
    };
    let generics = s.generics.params.iter().map(|p| p.to_token_stream().to_string()).collect();
    SigParts { name: s.ident.to_string(), inputs: s.inputs.iter().collect(), output, generics }
}

/// The parts of a function with a body.
pub struct FnParts<'a> {
    pub at: Span,
    pub attrs: Vec<&'a syn::Attribute>,
    pub vis: String,
    pub sig: &'a syn::Signature,
    pub block: BlockParts<'a>,
}

impl<'a> FnParts<'a> {
    pub open spec fn view(&self) -> FnV {
        FnV {
            at: span_place(self.at),
            attrs: attrs_source(self.attrs@),
            vis: self.vis@,
            sig: sig_source(*self.sig),
            block: self.block.view(),
        }
    }
}

/// The parts of a `syn::ItemFn`.
#[verifier::external_body]
pub(crate) fn fn_parts<'a>(f: &'a syn::ItemFn) -> (r: FnParts<'a>)
    ensures
        fn_source(*f) == r@,
{
    FnParts {
        at: f.span(),
        attrs: f.attrs.iter().collect(),
        vis: f.vis.to_token_stream().to_string(),
        sig: &f.sig,
        block: BlockParts { at: f.block.span(), stmts: f.block.stmts.iter().collect() },
    }
}

/// The parts of the tree of a `use` item.
pub enum UseTreeParts<'a> {
    Path { ident: String, tree: &'a syn::UseTree },
    Name { ident: String },
    Rename { ident: String, rename: String },
    Glob,
    Group { items: Vec<&'a syn::UseTree> },
}

impl<'a> UseTreeParts<'a> {
    pub open spec fn view(self) -> UseTreeV {
        match self {
            UseTreeParts::Path { ident, tree } => UseTreeV::Path {
                ident: ident@,
                tree: Box::new(use_tree_source(*tree)),
            },
            UseTreeParts::Name { ident } => UseTreeV::Name { ident: ident@ },
            UseTreeParts::Rename { ident, rename } => UseTreeV::Rename {
                ident: ident@,
                rename: rename@,
            },
            UseTreeParts::Glob => UseTreeV::Glob,
            UseTreeParts::Group { items } => UseTreeV::Group { items: use_trees_source(items@) },
        }
    }
}

/// The parts of a `syn::UseTree`.
#[verifier::external_body]
pub(crate) fn use_tree_parts<'a>(t: &'a syn::UseTree) -> (r: UseTreeParts<'a>)
    ensures
        use_tree_source(*t) == r.view(),
{
    match t {
        syn::UseTree::Path(x) => UseTreeParts::Path { ident: x.ident.to_string(), tree: &x.tree },
        syn::UseTree::Name(x) => UseTreeParts::Name { ident: x.ident.to_string() },
        syn::UseTree::Rename(x) => UseTreeParts::Rename {
            ident: x.ident.to_string(),
            rename: x.rename.to_string(),
        },
        syn::UseTree::Glob(_) => UseTreeParts::Glob,
        syn::UseTree::Group(x) => UseTreeParts::Group { items: x.items.iter().collect() },
    }
}

/// The parts of a field.
pub struct FieldParts {
    pub at: Span,
    pub name: Option<String>,
    pub vis: String,
    pub mutable: bool,
    pub ty: TypeParts,
}

impl FieldParts {
    pub open spec fn view(&self) -> FieldV {
        FieldV {
            at: span_place(self.at),
            name: opt_text(self.name),
            vis: self.vis@,
            mutable: self.mutable,
            ty: self.ty.view(),
        }
    }
}

/// What the fields of a list hold.
pub open spec fn fields_source(s: Seq<FieldParts>) -> Seq<FieldV> {
    Seq::new(s.len(), |i: int| s[i].view())
}

/// What a macro call that stands as an item is made up of.
pub struct MacroParts {
    pub at: Span,
    pub name: String,
    pub text: String,
}

impl MacroParts {
    pub open spec fn view(&self) -> MacroV {
        MacroV { at: span_place(self.at), name: self.name@, text: self.text@ }
    }
}

/// What a constant is made up of.
pub struct ConstParts<'a> {
    pub at: Span,
    pub name: String,
    pub vis: String,
    pub ty: TypeParts,
    pub expr: &'a syn::Expr,
}

impl<'a> ConstParts<'a> {
    pub open spec fn view(&self) -> ConstV {
        ConstV {
            at: span_place(self.at),
            name: self.name@,
            vis: self.vis@,
            ty: self.ty.view(),
            expr: expr_source(*self.expr),
        }
    }
}

/// What `type name = ty;` is made up of.
pub struct TypeAliasParts {
    pub at: Span,
    pub name: String,
    pub vis: String,
    pub ty: TypeParts,
}

impl TypeAliasParts {
    pub open spec fn view(&self) -> TypeAliasV {
        TypeAliasV {
            at: span_place(self.at),
            name: self.name@,
            vis: self.vis@,
            ty: self.ty.view(),
        }
    }
}

/// What an attributed item with a name and a visibility is made up of.
pub struct HeadParts<'a> {
    pub at: Span,
    pub attrs: Vec<&'a syn::Attribute>,
    pub name: String,
    pub vis: String,
}

/// The parts of an item.
pub enum ItemParts<'a> {
    Const(ConstParts<'a>),
    Enum { head: HeadParts<'a>, variants: Vec<String> },
    ExternCrate { at: Span, name: String, vis: String, rename: Option<String> },
    Fn(&'a syn::ItemFn),
    ForeignMod { at: Span, text: String },
    Impl { at: Span, attrs: Vec<&'a syn::Attribute>, self_ty: TypeParts, items: Vec<
        &'a syn::ImplItem,
    > },
    Macro(MacroParts),
    Mod { head: HeadParts<'a>, content: Option<Vec<&'a syn::Item>> },
    Static { head: HeadParts<'a>, mutable: bool, ty: TypeParts, expr: &'a syn::Expr },
    Trait { head: HeadParts<'a>, supertraits: String, items: Vec<&'a syn::TraitItem> },
    TraitAlias { head: HeadParts<'a>, bounds: String },
    TypeAlias(TypeAliasParts),
    Use { at: Span, vis: String, path: String, tree: &'a syn::UseTree },
    Verbatim { at: Span, text: String },
}

/// What the items of a module hold, where it is written out.
pub open spec fn content_source(o: Option<Vec<&syn::Item>>) -> Option<Seq<ItemV>> {
    match o {
        Some(v) => Some(items_source(v@)),
        None => None,
    }
}

impl<'a> ItemParts<'a> {
    /// What the item made up of these parts holds.
    pub open spec fn view(self) -> ItemV {
        match self {
            ItemParts::Const(c) => ItemV::Const(c.view()),
            ItemParts::Enum { head, variants } => ItemV::Enum {
                at: span_place(head.at),
                attrs: attrs_source(head.attrs@),
                name: head.name@,
                vis: head.vis@,
                variants: texts(variants@),
            },
            ItemParts::ExternCrate { at, name, vis, rename } => ItemV::ExternCrate {
                at: span_place(at),
                name: name@,
                vis: vis@,
                rename: opt_text(rename),
            },
            ItemParts::Fn(f) => ItemV::Fn(fn_source(*f)),
            ItemParts::ForeignMod { at, text } => ItemV::ForeignMod(
                TokensV { at: span_place(at), text: text@ },
            ),
            ItemParts::Impl { at, attrs, self_ty, items } => ItemV::Impl {
                at: span_place(at),
                attrs: attrs_source(attrs@),
                self_ty: self_ty.view(),
                items: impl_items_source(items@),
            },
            ItemParts::Macro(m) => ItemV::Macro(m.view()),
            ItemParts::Mod { head, content } => ItemV::Mod {
                at: span_place(head.at),
                attrs: attrs_source(head.attrs@),
                name: head.name@,
                vis: head.vis@,
                content: content_source(content),
            },
            ItemParts::Static { head, mutable, ty, expr } => ItemV::Static {
                at: span_place(head.at),
                attrs: attrs_source(head.attrs@),
                name: head.name@,
                vis: head.vis@,
                mutable,
                ty: ty.view(),
                expr: expr_source(*expr),
            },
            ItemParts::Trait { head, supertraits, items } => ItemV::Trait {
                at: span_place(head.at),
                attrs: attrs_source(head.attrs@),
                name: head.name@,
                vis: head.vis@,
                supertraits: supertraits@,
                items: trait_items_source(items@),
            },
            ItemParts::TraitAlias { head, bounds } => ItemV::TraitAlias {
                at: span_place(head.at),
                attrs: attrs_source(head.attrs@),
                name: head.name@,
                vis: head.vis@,
                bounds: bounds@,
            },
            ItemParts::TypeAlias(t) => ItemV::TypeAlias(t.view()),
            ItemParts::Use { at, vis, path, tree } => ItemV::Use(
                UseV {
                    at: span_place(at),
                    vis: vis@,
                    path: path@,
                    tree: use_tree_source(*tree),
                },
            ),
            ItemParts::Verbatim { at, text } => ItemV::Verbatim(
                TokensV { at: span_place(at), text: text@ },
            ),
        }
    }
}

/// The parts of a `syn::Item::Const`.
#[verifier::external_body]
pub(crate) fn item_const<'a>(i: &'a syn::Item) -> (r: Option<ItemParts<'a>>)
    ensures
        match r {
            Some(p) => item_source(*i) == p.view(),
            None => !(item_source(*i) is Const),
        },
{
    match i {
        syn::Item::Const(x) => {
            let ty = TypeParts { at: x.ty.span(), text: x.ty.to_token_stream().to_string() };
            let vis = x.vis.to_token_stream().to_string();
            let name = x.ident.to_string();
            Some(ItemParts::Const(ConstParts { at: x.span(), name, vis, ty, expr: &x.expr }))
        },
        _ => None,
    }
}

/// The parts of a `syn::Item::Static`.
#[verifier::external_body]
pub(crate) fn item_static<'a>(i: &'a syn::Item) -> (r: Option<ItemParts<'a>>)
    ensures
        match r {
            Some(p) => item_source(*i) == p.view(),
            None => !(item_source(*i) is Static),
        },
{
    match i {
        syn::Item::Static(x) => {
            let ty = TypeParts { at: x.ty.span(), text: x.ty.to_token_stream().to_string() };
            let mutable = matches!(x.mutability, syn::StaticMutability::Mut(_));
            let head = HeadParts {
                at: x.span(),
                attrs: x.attrs.iter().collect(),
                name: x.ident.to_string(),
                vis: x.vis.to_token_stream().to_string(),
            };
            Some(ItemParts::Static { head, mutable, ty, expr: &x.expr })
        },
        _ => None,
    }
}

/// The parts of a `syn::Item::Enum`.
#[verifier::external_body]
pub(crate) fn item_enum<'a>(i: &'a syn::Item) -> (r: Option<ItemParts<'a>>)
    ensures
        match r {
            Some(p) => item_source(*i) == p.view(),
            None => !(item_source(*i) is Enum),
        },
{
    match i {
        syn::Item::Enum(x) => {
            let head = HeadParts {
                at: x.span(),
                attrs: x.attrs.iter().collect(),
                name: x.ident.to_string(),
                vis: x.vis.to_token_stream().to_string(),
            };
            let variants = x.variants.iter().map(|v| v.ident.to_string()).collect();
            Some(ItemParts::Enum { head, variants })
        },
        _ => None,
    }
}

/// The parts of a `syn::Item::ExternCrate`.
#[verifier::external_body]
pub(crate) fn item_crate<'a>(i: &'a syn::Item) -> (r: Option<ItemParts<'a>>)
    ensures
        match r {
            Some(p) => item_source(*i) == p.view(),
            None => !(item_source(*i) is ExternCrate),
        },
{
    match i {
        syn::Item::ExternCrate(x) => {
            let vis = x.vis.to_token_stream().to_string();
            let rename = x.rename.as_ref().map(|r| r.1.to_string());
            let name = x.ident.to_string();
            Some(ItemParts::ExternCrate { at: x.span(), name, vis, rename })
        },
        _ => None,
    }
}

/// The function of a `syn::Item::Fn`.
#[verifier::external_body]
pub(crate) fn item_fn<'a>(i: &'a syn::Item) -> (r: Option<ItemParts<'a>>)
    ensures
        match r {
            Some(p) => item_source(*i) == p.view(),
            None => !(item_source(*i) is Fn),
        },
{
    match i {
        syn::Item::Fn(x) => Some(ItemParts::Fn(x)),
        _ => None,
    }
}

/// The text of a `syn::Item::ForeignMod` or `syn::Item::Verbatim`.
#[verifier::external_body]
pub(crate) fn item_tokens<'a>(i: &'a syn::Item) -> (r: Option<ItemParts<'a>>)
    ensures
        match r {
            Some(p) => item_source(*i) == p.view(),
            None => !(item_source(*i) is ForeignMod) && !(item_source(*i) is Verbatim),
        },
{
    match i {
        syn::Item::ForeignMod(x) => {
            let text = x.to_token_stream().to_string();
            Some(ItemParts::ForeignMod { at: x.span(), text })
        },
        syn::Item::Verbatim(x) => {
            Some(ItemParts::Verbatim { at: x.span(), text: x.to_string() })
        },
        _ => None,
    }
}

/// The parts of a `syn::Item::Impl`.
#[verifier::external_body]
pub(crate) fn item_impl<'a>(i: &'a syn::Item) -> (r: Option<ItemParts<'a>>)
    ensures
        match r {
            Some(p) => item_source(*i) == p.view(),
            None => !(item_source(*i) is Impl),
        },
{
    match i {
        syn::Item::Impl(x) => {
            let text = x.self_ty.to_token_stream().to_string();
            let self_ty = TypeParts { at: x.self_ty.span(), text };
            let attrs = x.attrs.iter().collect();
            let items = x.items.iter().collect();
            Some(ItemParts::Impl { at: x.span(), attrs, self_ty, items })
        },
        _ => None,
    }
}

/// The name given by a `syn::Item::Macro`, empty where there is none, and its tokens.
#[verifier::external_body]
pub(crate) fn item_macro<'a>(i: &'a syn::Item) -> (r: Option<ItemParts<'a>>)
    ensures
        match r {
            Some(p) => item_source(*i) == p.view(),
            None => !(item_source(*i) is Macro),
        },
{
    match i {
        syn::Item::Macro(x) => {
            let name = x.ident.to_token_stream().to_string();
            let text = x.mac.tokens.to_string();
            Some(ItemParts::Macro(MacroParts { at: x.span(), name, text }))
        },
        _ => None,
    }
}

/// The parts of a `syn::Item::Mod`.
#[verifier::external_body]
pub(crate) fn item_mod<'a>(i: &'a syn::Item) -> (r: Option<ItemParts<'a>>)
    ensures
        match r {
            Some(p) => item_source(*i) == p.view(),
            None => !(item_source(*i) is Mod),
        },
{
    match i {
        syn::Item::Mod(x) => {
            let head = HeadParts {
                at: x.span(),
                attrs: x.attrs.iter().collect(),
                name: x.ident.to_string(),
                vis: x.vis.to_token_stream().to_string(),
            };
            let content = x.content.as_ref().map(|c| c.1.iter().collect());
            Some(ItemParts::Mod { head, content })
        },
        _ => None,
    }
}

/// The fields of a `syn::Item::Struct` or `syn::Item::Union`; none of another item.
///
/// A field is mutable unless its mutability is `syn::FieldMutability::None`.
#[verifier::external_body]
pub(crate) fn item_fields(i: &syn::Item) -> (r: Vec<FieldParts>)
    ensures
        item_source(*i) matches ItemV::Struct { fields, .. } ==> fields == fields_source(r@),
        item_source(*i) matches ItemV::Union { fields, .. } ==> fields == fields_source(r@),
{
    let field = |f: &syn::Field| FieldParts {
        at: f.span(),
        name: f.ident.as_ref().map(|n| n.to_string()),
        vis: f.vis.to_token_stream().to_string(),
        mutable: !matches!(f.mutability, syn::FieldMutability::None),
        ty: TypeParts { at: f.ty.span(), text: f.ty.to_token_stream().to_string() },
    };
    match i {
        syn::Item::Struct(x) => x.fields.iter().map(field).collect(),
        syn::Item::Union(x) => x.fields.named.iter().map(field).collect(),
        _ => Vec::new(),
    }
}

/// The head of a `syn::Item::Struct`.
#[verifier::external_body]
pub(crate) fn item_struct<'a>(i: &'a syn::Item) -> (r: Option<HeadParts<'a>>)
    ensures
        match r {
            Some(h) => {
                &&& item_source(*i) matches ItemV::Struct { at, attrs, name, vis, .. }
                &&& at == span_place(h.at)
                &&& attrs == attrs_source(h.attrs@)
                &&& name == h.name@
                &&& vis == h.vis@
            },
            None => !(item_source(*i) is Struct),
        },
{
    match i {
        syn::Item::Struct(x) => Some(
            HeadParts {
                at: x.span(),
                attrs: x.attrs.iter().collect(),
                name: x.ident.to_string(),
                vis: x.vis.to_token_stream().to_string(),
            },
        ),
        _ => None,
    }
}

/// The head of a `syn::Item::Union`.
#[verifier::external_body]
pub(crate) fn item_union<'a>(i: &'a syn::Item) -> (r: Option<HeadParts<'a>>)
    ensures
        match r {
            Some(h) => {
                &&& item_source(*i) matches ItemV::Union { at, attrs, name, vis, .. }
                &&& at == span_place(h.at)
                &&& attrs == attrs_source(h.attrs@)
                &&& name == h.name@
                &&& vis == h.vis@
            },
            None => !(item_source(*i) is Union),
        },
{
    match i {
        syn::Item::Union(x) => Some(
            HeadParts {
                at: x.span(),
                attrs: x.attrs.iter().collect(),
                name: x.ident.to_string(),
                vis: x.vis.to_token_stream().to_string(),
            },
        ),
        _ => None,
    }
}

/// The parts of a `syn::Item::Trait`.
#[verifier::external_body]
pub(crate) fn item_trait<'a>(i: &'a syn::Item) -> (r: Option<ItemParts<'a>>)
    ensures
        match r {
            Some(p) => item_source(*i) == p.view(),
            None => !(item_source(*i) is Trait),
        },
{
    match i {
        syn::Item::Trait(x) => {
            let head = HeadParts {
                at: x.span(),
                attrs: x.attrs.iter().collect(),
                name: x.ident.to_string(),
                vis: x.vis.to_token_stream().to_string(),
            };
            let supertraits = x.supertraits.to_token_stream().to_string();
            Some(ItemParts::Trait { head, supertraits, items: x.items.iter().collect() })
        },
        _ => None,
    }
}

/// The parts of a `syn::Item::TraitAlias`.
#[verifier::external_body]
pub(crate) fn item_trait_alias<'a>(i: &'a syn::Item) -> (r: Option<ItemParts<'a>>)
    ensures
        match r {
            Some(p) => item_source(*i) == p.view(),
            None => !(item_source(*i) is TraitAlias),
        },
{
    match i {
        syn::Item::TraitAlias(x) => {
            let head = HeadParts {
                at: x.span(),
                attrs: x.attrs.iter().collect(),
                name: x.ident.to_string(),
                vis: x.vis.to_token_stream().to_string(),
            };
            Some(ItemParts::TraitAlias { head, bounds: x.bounds.to_token_stream().to_string() })
        },
        _ => None,
    }
}

/// The parts of a `syn::Item::Type`.
#[verifier::external_body]
pub(crate) fn item_type<'a>(i: &'a syn::Item) -> (r: Option<ItemParts<'a>>)
    ensures
        match r {
            Some(p) => item_source(*i) == p.view(),
            None => !(item_source(*i) is TypeAlias),
        },
{
    match i {
        syn::Item::Type(x) => {
            let ty = TypeParts { at: x.ty.span(), text: x.ty.to_token_stream().to_string() };
            let vis = x.vis.to_token_stream().to_string();
            let name = x.ident.to_string();
            Some(ItemParts::TypeAlias(TypeAliasParts { at: x.span(), name, vis, ty }))
        },
        _ => None,
    }
}

/// The parts of a `syn::Item::Use`.
#[verifier::external_body]
pub(crate) fn item_use<'a>(i: &'a syn::Item) -> (r: Option<ItemParts<'a>>)
    ensures
        match r {
            Some(p) => item_source(*i) == p.view(),
            None => !(item_source(*i) is Use),
        },
{
    match i {
        syn::Item::Use(x) => {
            let vis = x.vis.to_token_stream().to_string();
            let path = x.tree.to_token_stream().to_string();
            Some(ItemParts::Use { at: x.span(), vis, path, tree: &x.tree })
        },
        _ => None,
    }
}

/// The parts of an item of an `impl` block.
pub enum ImplItemParts<'a> {
    Const(ConstParts<'a>),
    Type(TypeAliasParts),
    Macro(MacroParts),
    Verbatim { at: Span, text: String },
}

impl<'a> ImplItemParts<'a> {
    pub open spec fn view(self) -> ImplItemV {
        match self {
            ImplItemParts::Const(c) => ImplItemV::Const(c.view()),
            ImplItemParts::Type(t) => ImplItemV::Type(t.view()),
            ImplItemParts::Macro(m) => ImplItemV::Macro(m.view()),
            ImplItemParts::Verbatim { at, text } => ImplItemV::Verbatim(
                TokensV { at: span_place(at), text: text@ },
            ),
        }
    }
}

/// The function of a `syn::ImplItem::Fn`, as a `syn::ItemFn` with the same attributes, visibility,
/// head and block.
#[verifier::external_body]
pub(crate) fn impl_fn(i: &syn::ImplItem) -> (r: Option<syn::ItemFn>)
    ensures
        match r {
            Some(f) => impl_item_source(*i) == ImplItemV::Fn(fn_source(f)),
            None => !(impl_item_source(*i) is Fn),
        },
{
    match i {
        syn::ImplItem::Fn(x) => Some(
            syn::ItemFn {
                attrs: x.attrs.clone(),
                vis: x.vis.clone(),
                sig: x.sig.clone(),
                block: Box::new(x.block.clone()),
            },
        ),
        _ => None,
    }
}

/// The parts of a `syn::ImplItem::Const`.
#[verifier::external_body]
pub(crate) fn impl_const<'a>(i: &'a syn::ImplItem) -> (r: Option<ImplItemParts<'a>>)
    ensures
        match r {
            Some(p) => impl_item_source(*i) == p.view(),
            None => !(impl_item_source(*i) is Const),
        },
{
    match i {
        syn::ImplItem::Const(x) => {
            let ty = TypeParts { at: x.ty.span(), text: x.ty.to_token_stream().to_string() };
            let vis = x.vis.to_token_stream().to_string();
            let name = x.ident.to_string();
            Some(ImplItemParts::Const(ConstParts { at: x.span(), name, vis, ty, expr: &x.expr }))
        },
        _ => None,
    }
}

/// The parts of a `syn::ImplItem::Type`.
#[verifier::external_body]
pub(crate) fn impl_type<'a>(i: &'a syn::ImplItem) -> (r: Option<ImplItemParts<'a>>)
    ensures
        match r {
            Some(p) => impl_item_source(*i) == p.view(),
            None => !(impl_item_source(*i) is Type),
        },
{
    match i {
        syn::ImplItem::Type(x) => {
            let ty = TypeParts { at: x.ty.span(), text: x.ty.to_token_stream().to_string() };
            let vis = x.vis.to_token_stream().to_string();
            let name = x.ident.to_string();
            Some(ImplItemParts::Type(TypeAliasParts { at: x.span(), name, vis, ty }))
        },
        _ => None,
    }
}

/// The path and the tokens of a `syn::ImplItem::Macro`; the text of a `syn::ImplItem::Verbatim`.
#[verifier::external_body]
pub(crate) fn impl_tokens<'a>(i: &'a syn::ImplItem) -> (r: Option<ImplItemParts<'a>>)
    ensures
        match r {
            Some(p) => impl_item_source(*i) == p.view(),
            None => !(impl_item_source(*i) is Macro) && !(impl_item_source(*i) is Verbatim),
        },
{
    match i {
        syn::ImplItem::Macro(x) => {
            let name = x.mac.path.to_token_stream().to_string();
            let text = x.mac.tokens.to_string();
            Some(ImplItemParts::Macro(MacroParts { at: x.span(), name, text }))
        },
        syn::ImplItem::Verbatim(x) => {
            Some(ImplItemParts::Verbatim { at: x.span(), text: x.to_string() })
        },
        _ => None,
    }
}

/// The parts of an item of a trait.
pub enum TraitItemParts<'a> {
    Const { at: Span, name: String, ty: TypeParts, default: Option<&'a syn::Expr> },
    Fn { at: Span, attrs: Vec<&'a syn::Attribute>, sig: &'a syn::Signature },
    Type { at: Span },
    Macro(MacroParts),
    Verbatim { at: Span, text: String },
}

impl<'a> TraitItemParts<'a> {
    pub open spec fn view(self) -> TraitItemV {
        match self {
            TraitItemParts::Const { at, name, ty, default } => TraitItemV::Const {
                at: span_place(at),
                name: name@,
                ty: ty.view(),
                default: opt_expr_source(default),
            },
            TraitItemParts::Fn { at, attrs, sig } => TraitItemV::Fn {
                at: span_place(at),
                attrs: attrs_source(attrs@),
                sig: sig_source(*sig),
            },
            TraitItemParts::Type { at } => TraitItemV::Type { at: span_place(at) },
            TraitItemParts::Macro(m) => TraitItemV::Macro(m.view()),
            TraitItemParts::Verbatim { at, text } => TraitItemV::Verbatim(
                TokensV { at: span_place(at), text: text@ },
            ),
        }
    }
}

/// The parts of a `syn::TraitItem::Const`.
#[verifier::external_body]
pub(crate) fn trait_const<'a>(i: &'a syn::TraitItem) -> (r: Option<TraitItemParts<'a>>)
    ensures
        match r {
            Some(p) => trait_item_source(*i) == p.view(),
            None => !(trait_item_source(*i) is Const),
        },
{
    match i {
        syn::TraitItem::Const(x) => {
            let ty = TypeParts { at: x.ty.span(), text: x.ty.to_token_stream().to_string() };
            let default = x.default.as_ref().map(|d| &d.1);
            let name = x.ident.to_string();
            Some(TraitItemParts::Const { at: x.span(), name, ty, default })
        },
        _ => None,
    }
}

/// The parts of a `syn::TraitItem::Fn` but for its body; a `syn::TraitItem::Type`.
#[verifier::external_body]
pub(crate) fn trait_fn<'a>(i: &'a syn::TraitItem) -> (r: Option<TraitItemParts<'a>>)
    ensures
        match r {
            Some(p) => trait_item_source(*i) == p.view(),
            None => !(trait_item_source(*i) is Fn) && !(trait_item_source(*i) is Type),
        },
{
    match i {
        syn::TraitItem::Fn(x) => {
            let attrs = x.attrs.iter().collect();
            Some(TraitItemParts::Fn { at: x.span(), attrs, sig: &x.sig })
        },
        syn::TraitItem::Type(x) => Some(TraitItemParts::Type { at: x.span() }),
        _ => None,
    }
}

/// The path and the tokens of a `syn::TraitItem::Macro`; the text of a `syn::TraitItem::Verbatim`.
#[verifier::external_body]
pub(crate) fn trait_tokens<'a>(i: &'a syn::TraitItem) -> (r: Option<TraitItemParts<'a>>)
    ensures
        match r {
            Some(p) => trait_item_source(*i) == p.view(),
            None => !(trait_item_source(*i) is Macro) && !(trait_item_source(*i) is Verbatim),
        },
{
    match i {
        syn::TraitItem::Macro(x) => {
            let name = x.mac.path.to_token_stream().to_string();
            let text = x.mac.tokens.to_string();
            Some(TraitItemParts::Macro(MacroParts { at: x.span(), name, text }))
        },
        syn::TraitItem::Verbatim(x) => {
            Some(TraitItemParts::Verbatim { at: x.span(), text: x.to_string() })
        },
        _ => None,
    }
}

} // verus!
