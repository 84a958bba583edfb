//! The syntax of a source file as the builder reads it, held as plain values.
//!
//! Each `Src..` type has a view that holds the same with texts as sequences of characters and
//! lists as sequences. Contracts speak of the views.
use crate::text::texts;
use vstd::prelude::*;

verus! {

/// A place in a source text: byte offsets, and lines (from 1) with columns (from 0).
#[derive(Clone, Copy, PartialEq, Eq, Structural, Debug)]
pub struct Location {
    pub offset_start: usize,
    pub offset_end: usize,
    pub start_line: usize,
    pub start_column: usize,
    pub end_line: usize,
    pub end_column: usize,
}

/// The text of an optional string.
pub open spec fn opt_text(o: Option<String>) -> Option<Seq<char>> {
    match o {
        Some(s) => Some(s@),
        None => None,
    }
}

/// An attribute: the names along its path.
#[derive(Debug, PartialEq)]
pub struct SrcAttr {
    pub path: Vec<String>,
}

impl SrcAttr {
    pub open spec fn view(&self) -> Seq<Seq<char>> {
        texts(self.path@)
    }
}

/// The paths of a list of attributes.
pub open spec fn attrs_view(s: Seq<SrcAttr>) -> Seq<Seq<Seq<char>>> {
    Seq::new(s.len(), |i: int| s[i].view())
}

/// A type as it is written.
#[derive(Debug, PartialEq)]
pub struct SrcType {
    pub at: Location,
    pub text: String,
}

/// What a `SrcType` holds.
pub struct TypeV {
    pub at: Location,
    pub text: Seq<char>,
}

impl SrcType {
    pub open spec fn view(&self) -> TypeV {
        TypeV { at: self.at, text: self.text@ }
    }
}

/// The view of an optional type.
pub open spec fn opt_type_view(o: Option<SrcType>) -> Option<TypeV> {
    match o {
        Some(x) => Some(x.view()),
        None => None,
    }
}

/// A run of tokens that is kept as it is written.
#[derive(Debug, PartialEq)]
pub struct SrcTokens {
    pub at: Location,
    pub text: String,
}

/// What a `SrcTokens` holds.
pub struct TokensV {
    pub at: Location,
    pub text: Seq<char>,
}

impl SrcTokens {
    pub open spec fn view(&self) -> TokensV {
        TokensV { at: self.at, text: self.text@ }
    }
}

/// The `move` of a closure; `text` is the source text at its place, where that can be told.
#[derive(Debug, PartialEq)]
pub struct SrcCapture {
    pub at: Location,
    pub text: Option<String>,
}

/// What a `SrcCapture` holds.
pub struct CaptureV {
    pub at: Location,
    pub text: Option<Seq<char>>,
}

impl SrcCapture {
    pub open spec fn view(&self) -> CaptureV {
        CaptureV { at: self.at, text: opt_text(self.text) }
    }
}

/// The view of an optional capture.
pub open spec fn opt_capture_view(o: Option<SrcCapture>) -> Option<CaptureV> {
    match o {
        Some(x) => Some(x.view()),
        None => None,
    }
}

/// What tells one pattern from another, as far as the builder asks.
#[derive(Debug, PartialEq)]
pub enum SrcPatKind {
    /// A name, `mut` or not.
    Ident { ident: String, is_mut: bool },
    /// A pattern with a written type.
    Typed(Box<SrcPat>),
    /// `_`
    Wild,
    /// Any other pattern.
    Other,
}

/// A pattern as it is written, with what tells it apart.
#[derive(Debug, PartialEq)]
pub struct SrcPat {
    pub at: Location,
    pub text: String,
    pub kind: SrcPatKind,
}

/// What a `SrcPatKind` holds.
pub enum PatKindV {
    Ident { ident: Seq<char>, is_mut: bool },
    Typed(Box<PatV>),
    Wild,
    Other,
}

/// What a `SrcPat` holds.
pub struct PatV {
    pub at: Location,
    pub text: Seq<char>,
    pub kind: PatKindV,
}

impl SrcPatKind {
    pub open spec fn view(&self) -> PatKindV
        decreases self,
    {
        match self {
            SrcPatKind::Ident { ident, is_mut } => PatKindV::Ident {
                ident: ident@,
                is_mut: *is_mut,
            },
            SrcPatKind::Typed(inner) => PatKindV::Typed(Box::new(inner.view())),
            SrcPatKind::Wild => PatKindV::Wild,
            SrcPatKind::Other => PatKindV::Other,
        }
    }
}

impl SrcPat {
    pub open spec fn view(&self) -> PatV
        decreases self,
    {
        PatV { at: self.at, text: self.text@, kind: self.kind.view() }
    }
}

/// The value of a literal. Numbers are held by their decimal digits, byte and C strings by their
/// bytes (without the final zero).
#[derive(Debug, PartialEq)]
pub enum SrcLitValue {
    Str(String),
    ByteStr(Vec<u8>),
    CStr(Vec<u8>),
    Byte(u8),
    Char(char),
    Int(String),
    Float(String),
    Bool(bool),
    Unsupported,
}

/// A literal.
#[derive(Debug, PartialEq)]
pub struct SrcLit {
    pub at: Location,
    pub value: SrcLitValue,
}

/// What a `SrcLitValue` holds.
pub enum LitValueV {
    Str(Seq<char>),
    ByteStr(Seq<u8>),
    CStr(Seq<u8>),
    Byte(u8),
    Char(char),
    Int(Seq<char>),
    Float(Seq<char>),
    Bool(bool),
    Unsupported,
}

/// What a `SrcLit` holds.
pub struct LitV {
    pub at: Location,
    pub value: LitValueV,
}

impl SrcLitValue {
    pub open spec fn view(&self) -> LitValueV {
        match self {
            SrcLitValue::Str(s) => LitValueV::Str(s@),
            SrcLitValue::ByteStr(b) => LitValueV::ByteStr(b@),
            SrcLitValue::CStr(b) => LitValueV::CStr(b@),
            SrcLitValue::Byte(b) => LitValueV::Byte(*b),
            SrcLitValue::Char(c) => LitValueV::Char(*c),
            SrcLitValue::Int(s) => LitValueV::Int(s@),
            SrcLitValue::Float(s) => LitValueV::Float(s@),
            SrcLitValue::Bool(b) => LitValueV::Bool(*b),
            SrcLitValue::Unsupported => LitValueV::Unsupported,
        }
    }
}

impl SrcLit {
    pub open spec fn view(&self) -> LitV {
        LitV { at: self.at, value: self.value.view() }
    }
}

/// A field of a struct or of a union; `vis` is its visibility as written.
#[derive(Debug, PartialEq)]
pub struct SrcField {
    pub at: Location,
    pub name: Option<String>,
    pub vis: String,
    pub mutable: bool,
    pub ty: SrcType,
}

/// What a `SrcField` holds.
pub struct FieldV {
    pub at: Location,
    pub name: Option<Seq<char>>,
    pub vis: Seq<char>,
    pub mutable: bool,
    pub ty: TypeV,
}

impl SrcField {
    pub open spec fn view(&self) -> FieldV {
        FieldV {
            at: self.at,
            name: opt_text(self.name),
            vis: self.vis@,
            mutable: self.mutable,
            ty: self.ty.view(),
        }
    }
}

/// The views of a list of fields.
pub open spec fn fields_view(s: Seq<SrcField>) -> Seq<FieldV> {
    Seq::new(s.len(), |i: int| s[i].view())
}

/// An argument of a function.
#[derive(Debug, PartialEq)]
pub enum SrcArg {
    /// `self` in one of its forms, with its type as written or implied.
    Receiver { at: Location, ty: String, is_mut: bool },
    /// A pattern and its type as written.
    Typed { at: Location, pat: SrcPat, ty: String },
}

/// What a `SrcArg` holds.
pub enum ArgV {
    Receiver { at: Location, ty: Seq<char>, is_mut: bool },
    Typed { at: Location, pat: PatV, ty: Seq<char> },
}

impl SrcArg {
    pub open spec fn view(&self) -> ArgV {
        match self {
            SrcArg::Receiver { at, ty, is_mut } => ArgV::Receiver {
                at: *at,
                ty: ty@,
                is_mut: *is_mut,
            },
            SrcArg::Typed { at, pat, ty } => ArgV::Typed { at: *at, pat: pat.view(), ty: ty@ },
        }
    }
}

/// The views of a list of arguments.
pub open spec fn args_view(s: Seq<SrcArg>) -> Seq<ArgV> {
    Seq::new(s.len(), |i: int| s[i].view())
}

/// The head of a function: its name, arguments, written return type and generic parameters.
#[derive(Debug, PartialEq)]
pub struct SrcSignature {
    pub name: String,
    pub inputs: Vec<SrcArg>,
    pub output: Option<SrcType>,
    pub generics: Vec<String>,
}

/// What a `SrcSignature` holds.
pub struct SigV {
    pub name: Seq<char>,
    pub inputs: Seq<ArgV>,
    pub output: Option<TypeV>,
    pub generics: Seq<Seq<char>>,
}

impl SrcSignature {
    pub open spec fn view(&self) -> SigV {
        SigV {
            name: self.name@,
            inputs: args_view(self.inputs@),
            output: opt_type_view(self.output),
            generics: texts(self.generics@),
        }
    }
}

/// The tree of a `use` item.
#[derive(Debug, PartialEq)]
pub enum SrcUseTree {
    /// `ident::tree`
    Path { ident: String, tree: Box<SrcUseTree> },
    /// `ident`
    Name { ident: String },
    /// `ident as rename`
    Rename { ident: String, rename: String },
    /// `*`
    Glob,
    /// `{items}`
    Group { items: Vec<SrcUseTree> },
}

/// What a `SrcUseTree` holds.
pub enum UseTreeV {
    Path { ident: Seq<char>, tree: Box<UseTreeV> },
    Name { ident: Seq<char> },
    Rename { ident: Seq<char>, rename: Seq<char> },
    Glob,
    Group { items: Seq<UseTreeV> },
}

impl SrcUseTree {
    pub open spec fn view(&self) -> UseTreeV
        decreases self,
    {
        match self {
            SrcUseTree::Path { ident, tree } => UseTreeV::Path {
                ident: ident@,
                tree: Box::new(tree.view()),
            },
            SrcUseTree::Name { ident } => UseTreeV::Name { ident: ident@ },
            SrcUseTree::Rename { ident, rename } => UseTreeV::Rename {
                ident: ident@,
                rename: rename@,
            },
            SrcUseTree::Glob => UseTreeV::Glob,
            SrcUseTree::Group { items } => UseTreeV::Group { items: use_trees_view(items@) },
        }
    }
}

/// The views of a list of `use` trees.
pub open spec fn use_trees_view(s: Seq<SrcUseTree>) -> Seq<UseTreeV>
    decreases s,
{
    Seq::new(s.len(), |i: int| if 0 <= i < s.len() { s[i].view() } else { arbitrary() })
}

/// An expression.
#[derive(Debug, PartialEq)]
pub enum SrcExpr {
    Array(SrcArray),
    Assign(SrcAssign),
    Binary(SrcBinary),
    Unary(SrcUnary),
    Break(SrcBreak),
    Block(SrcBlockExpr),
    Call(SrcCall),
    Cast(SrcCast),
    Closure(SrcClosure),
    Const(SrcConstBlock),
    Continue(SrcContinue),
    ForLoop(SrcForLoop),
    Field(SrcMember),
    If(SrcIf),
    Index(SrcIndex),
    Infer(SrcInfer),
    Let(SrcLetGuard),
    Lit(SrcLitExpr),
    Loop(SrcLoop),
    Macro(SrcMacroExpr),
    Match(SrcMatch),
    MethodCall(SrcMethodCall),
    Paren(SrcParen),
    Path(SrcPath),
    Range(SrcRange),
    RawAddr(SrcRawAddr),
    Reference(SrcReference),
    Repeat(SrcRepeat),
    Return(SrcReturn),
    Struct(SrcStructExpr),
    Try(SrcTry),
    TryBlock(SrcTryBlock),
    Tuple(SrcTuple),
    Unsafe(SrcUnsafeBlock),
    While(SrcWhile),
    /// `async { .. }`
    Async,
    /// `expr.await`
    Await,
    /// `yield expr`
    Yield,
    /// Any other expression.
    Unsupported,
}

/// What a `SrcExpr` holds.
pub enum ExprV {
    Array { at: Location, elems: Seq<ExprV> },
    Assign { at: Location, left: Box<ExprV>, right: Box<ExprV> },
    Binary { at: Location, left: Box<ExprV>, op: Seq<char>, right: Box<ExprV> },
    Unary { at: Location, op: Seq<char>, expr: Box<ExprV> },
    Break { at: Location, expr: Option<Box<ExprV>> },
    Block { at: Location, block: BlockV },
    Call { at: Location, callee: Seq<char>, func: Box<ExprV>, args: Seq<ExprV> },
    Cast { at: Location, expr: Box<ExprV>, ty: TypeV },
    Closure { at: Location, capture: Option<CaptureV>, output: Option<TypeV>, body: Box<ExprV> },
    Const { block: BlockV },
    Continue { at: Location },
    ForLoop { at: Location, expr: Box<ExprV>, body: BlockV },
    Field { at: Location, base: Box<ExprV>, member: Seq<char> },
    If { at: Location, cond: Box<ExprV>, then_branch: BlockV, else_branch: Option<Box<ExprV>> },
    Index { at: Location, expr: Box<ExprV>, index: Box<ExprV> },
    Infer { at: Location },
    Let { at: Location, pat: PatV, expr: Box<ExprV> },
    Lit { at: Location, lit: LitV },
    Loop { at: Location, body: BlockV },
    Macro { at: Location, name: Seq<char>, text: Seq<char> },
    Match { at: Location, expr: Box<ExprV>, arms: Seq<ArmV> },
    MethodCall { at: Location, receiver: Box<ExprV>, method: Seq<char>, args: Seq<ExprV> },
    Paren { at: Location, expr: Box<ExprV> },
    Path { at: Location, text: Seq<char> },
    Range { at: Location, start: Option<Box<ExprV>>, end: Option<Box<ExprV>>, is_closed: bool },
    RawAddr { at: Location, is_mut: bool, expr: Box<ExprV> },
    Reference { at: Location, is_mut: bool, expr: Box<ExprV> },
    Repeat { at: Location, expr: Box<ExprV>, len: Box<ExprV> },
    Return { at: Location, expr: Option<Box<ExprV>> },
    Struct {
        at: Location,
        path: Seq<Seq<char>>,
        fields: Seq<FieldValueV>,
        rest: Option<Box<ExprV>>,
    },
    Try { at: Location, expr: Box<ExprV> },
    TryBlock { block: BlockV },
    Tuple { at: Location, elems: Seq<ExprV> },
    Unsafe { at: Location, block: BlockV },
    While { at: Location, label: Option<Seq<char>>, cond: Box<ExprV>, body: BlockV },
    Async,
    Await,
    Yield,
    Unsupported,
}

impl SrcExpr {
    pub open spec fn view(&self) -> ExprV
        decreases self,
    {
        match self {
            SrcExpr::Array(x) => x.view(),
            SrcExpr::Assign(x) => x.view(),
            SrcExpr::Binary(x) => x.view(),
            SrcExpr::Unary(x) => x.view(),
            SrcExpr::Break(x) => x.view(),
            SrcExpr::Block(x) => x.view(),
            SrcExpr::Call(x) => x.view(),
            SrcExpr::Cast(x) => x.view(),
            SrcExpr::Closure(x) => x.view(),
            SrcExpr::Const(x) => x.view(),
            SrcExpr::Continue(x) => x.view(),
            SrcExpr::ForLoop(x) => x.view(),
            SrcExpr::Field(x) => x.view(),
            SrcExpr::If(x) => x.view(),
            SrcExpr::Index(x) => x.view(),
            SrcExpr::Infer(x) => x.view(),
            SrcExpr::Let(x) => x.view(),
            SrcExpr::Lit(x) => x.view(),
            SrcExpr::Loop(x) => x.view(),
            SrcExpr::Macro(x) => x.view(),
            SrcExpr::Match(x) => x.view(),
            SrcExpr::MethodCall(x) => x.view(),
            SrcExpr::Paren(x) => x.view(),
            SrcExpr::Path(x) => x.view(),
            SrcExpr::Range(x) => x.view(),
            SrcExpr::RawAddr(x) => x.view(),
            SrcExpr::Reference(x) => x.view(),
            SrcExpr::Repeat(x) => x.view(),
            SrcExpr::Return(x) => x.view(),
            SrcExpr::Struct(x) => x.view(),
            SrcExpr::Try(x) => x.view(),
            SrcExpr::TryBlock(x) => x.view(),
            SrcExpr::Tuple(x) => x.view(),
            SrcExpr::Unsafe(x) => x.view(),
            SrcExpr::While(x) => x.view(),
            SrcExpr::Async => ExprV::Async,
            SrcExpr::Await => ExprV::Await,
            SrcExpr::Yield => ExprV::Yield,
            SrcExpr::Unsupported => ExprV::Unsupported,
        }
    }
}

/// The views of a list of expressions.
pub open spec fn exprs_view(s: Seq<SrcExpr>) -> Seq<ExprV>
    decreases s,
{
    Seq::new(s.len(), |i: int| if 0 <= i < s.len() { s[i].view() } else { arbitrary() })
}

/// The view of an optional expression.
pub open spec fn opt_expr_view(o: Option<Box<SrcExpr>>) -> Option<Box<ExprV>>
    decreases o,
{
    match o {
        Some(x) => Some(Box::new(x.view())),
        None => None,
    }
}

/// `[a, b]`
#[derive(Debug, PartialEq)]
pub struct SrcArray {
    pub at: Location,
    pub elems: Vec<SrcExpr>,
}

impl SrcArray {
    pub open spec fn view(&self) -> ExprV
        decreases self,
    {
        ExprV::Array { at: self.at, elems: exprs_view(self.elems@) }
    }
}

/// `left = right`
#[derive(Debug, PartialEq)]
pub struct SrcAssign {
    pub at: Location,
    pub left: Box<SrcExpr>,
    pub right: Box<SrcExpr>,
}

impl SrcAssign {
    pub open spec fn view(&self) -> ExprV
        decreases self,
    {
        ExprV::Assign {
            at: self.at,
            left: Box::new(self.left.view()),
            right: Box::new(self.right.view()),
        }
    }
}

/// `left op right`; `op` is the operator as written.
#[derive(Debug, PartialEq)]
pub struct SrcBinary {
    pub at: Location,
    pub left: Box<SrcExpr>,
    pub op: String,
    pub right: Box<SrcExpr>,
}

impl SrcBinary {
    pub open spec fn view(&self) -> ExprV
        decreases self,
    {
        ExprV::Binary {
            at: self.at,
            left: Box::new(self.left.view()),
            op: self.op@,
            right: Box::new(self.right.view()),
        }
    }
}

/// `op expr`; `op` is the operator as written.
#[derive(Debug, PartialEq)]
pub struct SrcUnary {
    pub at: Location,
    pub op: String,
    pub expr: Box<SrcExpr>,
}

impl SrcUnary {
    pub open spec fn view(&self) -> ExprV
        decreases self,
    {
        ExprV::Unary { at: self.at, op: self.op@, expr: Box::new(self.expr.view()) }
    }
}

/// `break` and its value, if any.
#[derive(Debug, PartialEq)]
pub struct SrcBreak {
    pub at: Location,
    pub expr: Option<Box<SrcExpr>>,
}

impl SrcBreak {
    pub open spec fn view(&self) -> ExprV
        decreases self,
    {
        ExprV::Break { at: self.at, expr: opt_expr_view(self.expr) }
    }
}

/// A block that stands as an expression.
#[derive(Debug, PartialEq)]
pub struct SrcBlockExpr {
    pub at: Location,
    pub block: SrcBlock,
}

impl SrcBlockExpr {
    pub open spec fn view(&self) -> ExprV
        decreases self,
    {
        ExprV::Block { at: self.at, block: self.block.view() }
    }
}

/// `func(args)`; `callee` is the called expression as written.
#[derive(Debug, PartialEq)]
pub struct SrcCall {
    pub at: Location,
    pub callee: String,
    pub func: Box<SrcExpr>,
    pub args: Vec<SrcExpr>,
}

impl SrcCall {
    pub open spec fn view(&self) -> ExprV
        decreases self,
    {
        ExprV::Call {
            at: self.at,
            callee: self.callee@,
            func: Box::new(self.func.view()),
            args: exprs_view(self.args@),
        }
    }
}

/// `expr as ty`
#[derive(Debug, PartialEq)]
pub struct SrcCast {
    pub at: Location,
    pub expr: Box<SrcExpr>,
    pub ty: SrcType,
}

impl SrcCast {
    pub open spec fn view(&self) -> ExprV
        decreases self,
    {
        ExprV::Cast { at: self.at, expr: Box::new(self.expr.view()), ty: self.ty.view() }
    }
}

/// A closure; `output` is its return type, where one is written.
#[derive(Debug, PartialEq)]
pub struct SrcClosure {
    pub at: Location,
    pub capture: Option<SrcCapture>,
    pub output: Option<SrcType>,
    pub body: Box<SrcExpr>,
}

impl SrcClosure {
    pub open spec fn view(&self) -> ExprV
        decreases self,
    {
        ExprV::Closure {
            at: self.at,
            capture: opt_capture_view(self.capture),
            output: opt_type_view(self.output),
            body: Box::new(self.body.view()),
        }
    }
}

/// `const { .. }`
#[derive(Debug, PartialEq)]
pub struct SrcConstBlock {
    pub block: SrcBlock,
}

impl SrcConstBlock {
    pub open spec fn view(&self) -> ExprV
        decreases self,
    {
        ExprV::Const { block: self.block.view() }
    }
}

/// `continue`
#[derive(Debug, PartialEq)]
pub struct SrcContinue {
    pub at: Location,
}

impl SrcContinue {
    pub open spec fn view(&self) -> ExprV {
        ExprV::Continue { at: self.at }
    }
}

/// `for _ in expr { .. }`
#[derive(Debug, PartialEq)]
pub struct SrcForLoop {
    pub at: Location,
    pub expr: Box<SrcExpr>,
    pub body: SrcBlock,
}

impl SrcForLoop {
    pub open spec fn view(&self) -> ExprV
        decreases self,
    {
        ExprV::ForLoop { at: self.at, expr: Box::new(self.expr.view()), body: self.body.view() }
    }
}

/// `base.member`
#[derive(Debug, PartialEq)]
pub struct SrcMember {
    pub at: Location,
    pub base: Box<SrcExpr>,
    pub member: String,
}

impl SrcMember {
    pub open spec fn view(&self) -> ExprV
        decreases self,
    {
        ExprV::Field { at: self.at, base: Box::new(self.base.view()), member: self.member@ }
    }
}

/// `if cond { .. } else ..`
#[derive(Debug, PartialEq)]
pub struct SrcIf {
    pub at: Location,
    pub cond: Box<SrcExpr>,
    pub then_branch: SrcBlock,
    pub else_branch: Option<Box<SrcExpr>>,
}

impl SrcIf {
    pub open spec fn view(&self) -> ExprV
        decreases self,
    {
        ExprV::If {
            at: self.at,
            cond: Box::new(self.cond.view()),
            then_branch: self.then_branch.view(),
            else_branch: opt_expr_view(self.else_branch),
        }
    }
}

/// `expr[index]`
#[derive(Debug, PartialEq)]
pub struct SrcIndex {
    pub at: Location,
    pub expr: Box<SrcExpr>,
    pub index: Box<SrcExpr>,
}

impl SrcIndex {
    pub open spec fn view(&self) -> ExprV
        decreases self,
    {
        ExprV::Index {
            at: self.at,
            expr: Box::new(self.expr.view()),
            index: Box::new(self.index.view()),
        }
    }
}

/// The placeholder `_` where an expression is expected.
#[derive(Debug, PartialEq)]
pub struct SrcInfer {
    pub at: Location,
}

impl SrcInfer {
    pub open spec fn view(&self) -> ExprV {
        ExprV::Infer { at: self.at }
    }
}

/// `let pat = expr` inside a condition.
#[derive(Debug, PartialEq)]
pub struct SrcLetGuard {
    pub at: Location,
    pub pat: SrcPat,
    pub expr: Box<SrcExpr>,
}

impl SrcLetGuard {
    pub open spec fn view(&self) -> ExprV
        decreases self,
    {
        ExprV::Let { at: self.at, pat: self.pat.view(), expr: Box::new(self.expr.view()) }
    }
}

/// A literal that stands as an expression.
#[derive(Debug, PartialEq)]
pub struct SrcLitExpr {
    pub at: Location,
    pub lit: SrcLit,
}

impl SrcLitExpr {
    pub open spec fn view(&self) -> ExprV {
        ExprV::Lit { at: self.at, lit: self.lit.view() }
    }
}

/// `loop { .. }`
#[derive(Debug, PartialEq)]
pub struct SrcLoop {
    pub at: Location,
    pub body: SrcBlock,
}

impl SrcLoop {
    pub open spec fn view(&self) -> ExprV
        decreases self,
    {
        ExprV::Loop { at: self.at, body: self.body.view() }
    }
}

/// A macro call that stands as an expression: its path and the tokens handed to it.
#[derive(Debug, PartialEq)]
pub struct SrcMacroExpr {
    pub at: Location,
    pub name: String,
    pub text: String,
}

impl SrcMacroExpr {
    pub open spec fn view(&self) -> ExprV {
        ExprV::Macro { at: self.at, name: self.name@, text: self.text@ }
    }
}

/// `match expr { .. }`
#[derive(Debug, PartialEq)]
pub struct SrcMatch {
    pub at: Location,
    pub expr: Box<SrcExpr>,
    pub arms: Vec<SrcArm>,
}

impl SrcMatch {
    pub open spec fn view(&self) -> ExprV
        decreases self,
    {
        ExprV::Match { at: self.at, expr: Box::new(self.expr.view()), arms: arms_view(self.arms@) }
    }
}

/// `receiver.method(args)`
#[derive(Debug, PartialEq)]
pub struct SrcMethodCall {
    pub at: Location,
    pub receiver: Box<SrcExpr>,
    pub method: String,
    pub args: Vec<SrcExpr>,
}

impl SrcMethodCall {
    pub open spec fn view(&self) -> ExprV
        decreases self,
    {
        ExprV::MethodCall {
            at: self.at,
            receiver: Box::new(self.receiver.view()),
            method: self.method@,
            args: exprs_view(self.args@),
        }
    }
}

/// `(expr)`
#[derive(Debug, PartialEq)]
pub struct SrcParen {
    pub at: Location,
    pub expr: Box<SrcExpr>,
}

impl SrcParen {
    pub open spec fn view(&self) -> ExprV
        decreases self,
    {
        ExprV::Paren { at: self.at, expr: Box::new(self.expr.view()) }
    }
}

/// A path such as `a::b`, as written.
#[derive(Debug, PartialEq)]
pub struct SrcPath {
    pub at: Location,
    pub text: String,
}

impl SrcPath {
    pub open spec fn view(&self) -> ExprV {
        ExprV::Path { at: self.at, text: self.text@ }
    }
}

/// `start..end` or `start..=end`
#[derive(Debug, PartialEq)]
pub struct SrcRange {
    pub at: Location,
    pub start: Option<Box<SrcExpr>>,
    pub end: Option<Box<SrcExpr>>,
    pub is_closed: bool,
}

impl SrcRange {
    pub open spec fn view(&self) -> ExprV
        decreases self,
    {
        ExprV::Range {
            at: self.at,
            start: opt_expr_view(self.start),
            end: opt_expr_view(self.end),
            is_closed: self.is_closed,
        }
    }
}

/// `&raw const expr` or `&raw mut expr`
#[derive(Debug, PartialEq)]
pub struct SrcRawAddr {
    pub at: Location,
    pub is_mut: bool,
    pub expr: Box<SrcExpr>,
}

impl SrcRawAddr {
    pub open spec fn view(&self) -> ExprV
        decreases self,
    {
        ExprV::RawAddr { at: self.at, is_mut: self.is_mut, expr: Box::new(self.expr.view()) }
    }
}

/// `&expr` or `&mut expr`
#[derive(Debug, PartialEq)]
pub struct SrcReference {
    pub at: Location,
    pub is_mut: bool,
    pub expr: Box<SrcExpr>,
}

impl SrcReference {
    pub open spec fn view(&self) -> ExprV
        decreases self,
    {
        ExprV::Reference { at: self.at, is_mut: self.is_mut, expr: Box::new(self.expr.view()) }
    }
}

/// `[expr; len]`
#[derive(Debug, PartialEq)]
pub struct SrcRepeat {
    pub at: Location,
    pub expr: Box<SrcExpr>,
    pub len: Box<SrcExpr>,
}

impl SrcRepeat {
    pub open spec fn view(&self) -> ExprV
        decreases self,
    {
        ExprV::Repeat {
            at: self.at,
            expr: Box::new(self.expr.view()),
            len: Box::new(self.len.view()),
        }
    }
}

/// `return` and its value, if any.
#[derive(Debug, PartialEq)]
pub struct SrcReturn {
    pub at: Location,
    pub expr: Option<Box<SrcExpr>>,
}

impl SrcReturn {
    pub open spec fn view(&self) -> ExprV
        decreases self,
    {
        ExprV::Return { at: self.at, expr: opt_expr_view(self.expr) }
    }
}

/// `path { fields, ..rest }`; `path` holds the names along the path.
#[derive(Debug, PartialEq)]
pub struct SrcStructExpr {
    pub at: Location,
    pub path: Vec<String>,
    pub fields: Vec<SrcFieldValue>,
    pub rest: Option<Box<SrcExpr>>,
}

impl SrcStructExpr {
    pub open spec fn view(&self) -> ExprV
        decreases self,
    {
        ExprV::Struct {
            at: self.at,
            path: texts(self.path@),
            fields: field_values_view(self.fields@),
            rest: opt_expr_view(self.rest),
        }
    }
}

/// `expr?`
#[derive(Debug, PartialEq)]
pub struct SrcTry {
    pub at: Location,
    pub expr: Box<SrcExpr>,
}

impl SrcTry {
    pub open spec fn view(&self) -> ExprV
        decreases self,
    {
        ExprV::Try { at: self.at, expr: Box::new(self.expr.view()) }
    }
}

/// `try { .. }`
#[derive(Debug, PartialEq)]
pub struct SrcTryBlock {
    pub block: SrcBlock,
}

impl SrcTryBlock {
    pub open spec fn view(&self) -> ExprV
        decreases self,
    {
        ExprV::TryBlock { block: self.block.view() }
    }
}

/// `(a, b)`
#[derive(Debug, PartialEq)]
pub struct SrcTuple {
    pub at: Location,
    pub elems: Vec<SrcExpr>,
}

impl SrcTuple {
    pub open spec fn view(&self) -> ExprV
        decreases self,
    {
        ExprV::Tuple { at: self.at, elems: exprs_view(self.elems@) }
    }
}

/// `unsafe { .. }`
#[derive(Debug, PartialEq)]
pub struct SrcUnsafeBlock {
    pub at: Location,
    pub block: SrcBlock,
}

impl SrcUnsafeBlock {
    pub open spec fn view(&self) -> ExprV
        decreases self,
    {
        ExprV::Unsafe { at: self.at, block: self.block.view() }
    }
}

/// `while cond { .. }` with its label, if any.
#[derive(Debug, PartialEq)]
pub struct SrcWhile {
    pub at: Location,
    pub label: Option<String>,
    pub cond: Box<SrcExpr>,
    pub body: SrcBlock,
}

impl SrcWhile {
    pub open spec fn view(&self) -> ExprV
        decreases self,
    {
        ExprV::While {
            at: self.at,
            label: opt_text(self.label),
            cond: Box::new(self.cond.view()),
            body: self.body.view(),
        }
    }
}

/// One arm of a `match`.
#[derive(Debug, PartialEq)]
pub struct SrcArm {
    pub pat: SrcPat,
    pub body: SrcExpr,
}

/// What a `SrcArm` holds.
pub struct ArmV {
    pub pat: PatV,
    pub body: ExprV,
}

impl SrcArm {
    pub open spec fn view(&self) -> ArmV
        decreases self,
    {
        ArmV { pat: self.pat.view(), body: self.body.view() }
    }
}

/// The views of a list of arms.
pub open spec fn arms_view(s: Seq<SrcArm>) -> Seq<ArmV>
    decreases s,
{
    Seq::new(s.len(), |i: int| if 0 <= i < s.len() { s[i].view() } else { arbitrary() })
}

/// One field of a struct expression; `name` is absent where the field is given by its index.
#[derive(Debug, PartialEq)]
pub struct SrcFieldValue {
    pub name: Option<String>,
    pub expr: SrcExpr,
}

/// What a `SrcFieldValue` holds.
pub struct FieldValueV {
    pub name: Option<Seq<char>>,
    pub expr: ExprV,
}

impl SrcFieldValue {
    pub open spec fn view(&self) -> FieldValueV
        decreases self,
    {
        FieldValueV { name: opt_text(self.name), expr: self.expr.view() }
    }
}

/// The views of a list of field values.
pub open spec fn field_values_view(s: Seq<SrcFieldValue>) -> Seq<FieldValueV>
    decreases s,
{
    Seq::new(s.len(), |i: int| if 0 <= i < s.len() { s[i].view() } else { arbitrary() })
}

/// A block and its statements.
#[derive(Debug, PartialEq)]
pub struct SrcBlock {
    pub at: Location,
    pub stmts: Vec<SrcStmt>,
}

/// What a `SrcBlock` holds.
pub struct BlockV {
    pub at: Location,
    pub stmts: Seq<StmtV>,
}

impl SrcBlock {
    pub open spec fn view(&self) -> BlockV
        decreases self,
    {
        BlockV { at: self.at, stmts: stmts_view(self.stmts@) }
    }
}

/// A statement.
#[derive(Debug, PartialEq)]
pub enum SrcStmt {
    /// An expression, with a semicolon behind it or not.
    Expression { expr: SrcExpr, semi: bool },
    Local(SrcLocal),
    Macro(SrcMacroStmt),
    Definition(SrcItem),
}

/// What a `SrcStmt` holds.
pub enum StmtV {
    Expression { expr: ExprV, semi: bool },
    Local { at: Location, pat: PatV, init: Option<InitV> },
    Macro { at: Location, name: Seq<char>, text: Seq<char> },
    Definition(ItemV),
}

impl SrcStmt {
    pub open spec fn view(&self) -> StmtV
        decreases self,
    {
        match self {
            SrcStmt::Expression { expr, semi } => StmtV::Expression {
                expr: expr.view(),
                semi: *semi,
            },
            SrcStmt::Local(x) => x.view(),
            SrcStmt::Macro(x) => x.view(),
            SrcStmt::Definition(x) => StmtV::Definition(x.view()),
        }
    }
}

/// The views of a list of statements.
pub open spec fn stmts_view(s: Seq<SrcStmt>) -> Seq<StmtV>
    decreases s,
{
    Seq::new(s.len(), |i: int| if 0 <= i < s.len() { s[i].view() } else { arbitrary() })
}

/// The value of a `let`, and the `else` branch where it has one.
#[derive(Debug, PartialEq)]
pub struct SrcInit {
    pub expr: SrcExpr,
    pub diverge: Option<Box<SrcExpr>>,
}

/// What a `SrcInit` holds.
pub struct InitV {
    pub expr: ExprV,
    pub diverge: Option<Box<ExprV>>,
}

impl SrcInit {
    pub open spec fn view(&self) -> InitV
        decreases self,
    {
        InitV { expr: self.expr.view(), diverge: opt_expr_view(self.diverge) }
    }
}

/// The view of an optional initial value.
pub open spec fn opt_init_view(o: Option<SrcInit>) -> Option<InitV>
    decreases o,
{
    match o {
        Some(x) => Some(x.view()),
        None => None,
    }
}

/// `let pat = init;`
#[derive(Debug, PartialEq)]
pub struct SrcLocal {
    pub at: Location,
    pub pat: SrcPat,
    pub init: Option<SrcInit>,
}

impl SrcLocal {
    pub open spec fn view(&self) -> StmtV
        decreases self,
    {
        StmtV::Local { at: self.at, pat: self.pat.view(), init: opt_init_view(self.init) }
    }
}

/// A macro call that stands as a statement: its path and the whole statement as written.
#[derive(Debug, PartialEq)]
pub struct SrcMacroStmt {
    pub at: Location,
    pub name: String,
    pub text: String,
}

impl SrcMacroStmt {
    pub open spec fn view(&self) -> StmtV {
        StmtV::Macro { at: self.at, name: self.name@, text: self.text@ }
    }
}

/// An item.
#[derive(Debug, PartialEq)]
pub enum SrcItem {
    Const(SrcConst),
    Enum(SrcEnum),
    ExternCrate(SrcExternCrate),
    Fn(SrcFn),
    /// `extern { .. }`, kept as it is written.
    ForeignMod(SrcTokens),
    Impl(SrcImpl),
    Macro(SrcMacro),
    Mod(SrcMod),
    Static(SrcStatic),
    Struct(SrcStruct),
    Trait(SrcTrait),
    TraitAlias(SrcTraitAlias),
    TypeAlias(SrcTypeAlias),
    Union(SrcUnion),
    Use(SrcUse),
    /// An item that is kept as it is written.
    Verbatim(SrcTokens),
}

/// What a `SrcItem` holds.
pub enum ItemV {
    Const(ConstV),
    Enum {
        at: Location,
        attrs: Seq<Seq<Seq<char>>>,
        name: Seq<char>,
        vis: Seq<char>,
        variants: Seq<Seq<char>>,
    },
    ExternCrate { at: Location, name: Seq<char>, vis: Seq<char>, rename: Option<Seq<char>> },
    Fn(FnV),
    ForeignMod(TokensV),
    Impl { at: Location, attrs: Seq<Seq<Seq<char>>>, self_ty: TypeV, items: Seq<ImplItemV> },
    Macro(MacroV),
    Mod {
        at: Location,
        attrs: Seq<Seq<Seq<char>>>,
        name: Seq<char>,
        vis: Seq<char>,
        content: Option<Seq<ItemV>>,
    },
    Static {
        at: Location,
        attrs: Seq<Seq<Seq<char>>>,
        name: Seq<char>,
        vis: Seq<char>,
        mutable: bool,
        ty: TypeV,
        expr: ExprV,
    },
    Struct {
        at: Location,
        attrs: Seq<Seq<Seq<char>>>,
        name: Seq<char>,
        vis: Seq<char>,
        fields: Seq<FieldV>,
    },
    Trait {
        at: Location,
        attrs: Seq<Seq<Seq<char>>>,
        name: Seq<char>,
        vis: Seq<char>,
        supertraits: Seq<char>,
        items: Seq<TraitItemV>,
    },
    TraitAlias {
        at: Location,
        attrs: Seq<Seq<Seq<char>>>,
        name: Seq<char>,
        vis: Seq<char>,
        bounds: Seq<char>,
    },
    TypeAlias(TypeAliasV),
    Union {
        at: Location,
        attrs: Seq<Seq<Seq<char>>>,
        name: Seq<char>,
        vis: Seq<char>,
        fields: Seq<FieldV>,
    },
    Use(UseV),
    Verbatim(TokensV),
}

impl SrcItem {
    pub open spec fn view(&self) -> ItemV
        decreases self,
    {
        match self {
            SrcItem::Const(x) => ItemV::Const(x.view()),
            SrcItem::Enum(x) => x.view(),
            SrcItem::ExternCrate(x) => x.view(),
            SrcItem::Fn(x) => ItemV::Fn(x.view()),
            SrcItem::ForeignMod(x) => ItemV::ForeignMod(x.view()),
            SrcItem::Impl(x) => x.view(),
            SrcItem::Macro(x) => ItemV::Macro(x.view()),
            SrcItem::Mod(x) => x.view(),
            SrcItem::Static(x) => x.view(),
            SrcItem::Struct(x) => x.view(),
            SrcItem::Trait(x) => x.view(),
            SrcItem::TraitAlias(x) => x.view(),
            SrcItem::TypeAlias(x) => ItemV::TypeAlias(x.view()),
            SrcItem::Union(x) => x.view(),
            SrcItem::Use(x) => ItemV::Use(x.view()),
            SrcItem::Verbatim(x) => ItemV::Verbatim(x.view()),
        }
    }
}

/// The views of a list of items.
pub open spec fn items_view(s: Seq<SrcItem>) -> Seq<ItemV>
    decreases s,
{
    Seq::new(s.len(), |i: int| if 0 <= i < s.len() { s[i].view() } else { arbitrary() })
}

/// The views of an optional list of items.
pub open spec fn opt_items_view(o: Option<Vec<SrcItem>>) -> Option<Seq<ItemV>>
    decreases o,
{
    match o {
        Some(x) => Some(items_view(x@)),
        None => None,
    }
}

/// `const name: ty = expr;`
#[derive(Debug, PartialEq)]
pub struct SrcConst {
    pub at: Location,
    pub name: String,
    pub vis: String,
    pub ty: SrcType,
    pub expr: SrcExpr,
}

/// What a `SrcConst` holds.
pub struct ConstV {
    pub at: Location,
    pub name: Seq<char>,
    pub vis: Seq<char>,
    pub ty: TypeV,
    pub expr: ExprV,
}

impl SrcConst {
    pub open spec fn view(&self) -> ConstV
        decreases self,
    {
        ConstV {
            at: self.at,
            name: self.name@,
            vis: self.vis@,
            ty: self.ty.view(),
            expr: self.expr.view(),
        }
    }
}

/// An enum and the names of its variants.
#[derive(Debug, PartialEq)]
pub struct SrcEnum {
    pub at: Location,
    pub attrs: Vec<SrcAttr>,
    pub name: String,
    pub vis: String,
    pub variants: Vec<String>,
}

impl SrcEnum {
    pub open spec fn view(&self) -> ItemV {
        ItemV::Enum {
            at: self.at,
            attrs: attrs_view(self.attrs@),
            name: self.name@,
            vis: self.vis@,
            variants: texts(self.variants@),
        }
    }
}

/// `extern crate name as rename;`
#[derive(Debug, PartialEq)]
pub struct SrcExternCrate {
    pub at: Location,
    pub name: String,
    pub vis: String,
    pub rename: Option<String>,
}

impl SrcExternCrate {
    pub open spec fn view(&self) -> ItemV {
        ItemV::ExternCrate {
            at: self.at,
            name: self.name@,
            vis: self.vis@,
            rename: opt_text(self.rename),
        }
    }
}

/// A function with a body.
#[derive(Debug, PartialEq)]
pub struct SrcFn {
    pub at: Location,
    pub attrs: Vec<SrcAttr>,
    pub vis: String,
    pub sig: SrcSignature,
    pub block: SrcBlock,
}

/// What a `SrcFn` holds.
pub struct FnV {
    pub at: Location,
    pub attrs: Seq<Seq<Seq<char>>>,
    pub vis: Seq<char>,
    pub sig: SigV,
    pub block: BlockV,
}

impl SrcFn {
    pub open spec fn view(&self) -> FnV
        decreases self,
    {
        FnV {
            at: self.at,
            attrs: attrs_view(self.attrs@),
            vis: self.vis@,
            sig: self.sig.view(),
            block: self.block.view(),
        }
    }
}

/// An `impl` block.
#[derive(Debug, PartialEq)]
pub struct SrcImpl {
    pub at: Location,
    pub attrs: Vec<SrcAttr>,
    pub self_ty: SrcType,
    pub items: Vec<SrcImplItem>,
}

impl SrcImpl {
    pub open spec fn view(&self) -> ItemV
        decreases self,
    {
        ItemV::Impl {
            at: self.at,
            attrs: attrs_view(self.attrs@),
            self_ty: self.self_ty.view(),
            items: impl_items_view(self.items@),
        }
    }
}

/// A macro call that stands as an item: the name it is given and the tokens handed to it.
#[derive(Debug, PartialEq)]
pub struct SrcMacro {
    pub at: Location,
    pub name: String,
    pub text: String,
}

/// What a `SrcMacro` holds.
pub struct MacroV {
    pub at: Location,
    pub name: Seq<char>,
    pub text: Seq<char>,
}

impl SrcMacro {
    pub open spec fn view(&self) -> MacroV {
        MacroV { at: self.at, name: self.name@, text: self.text@ }
    }
}

/// A module; `content` is absent where it stands in a file of its own.
#[derive(Debug, PartialEq)]
pub struct SrcMod {
    pub at: Location,
    pub attrs: Vec<SrcAttr>,
    pub name: String,
    pub vis: String,
    pub content: Option<Vec<SrcItem>>,
}

impl SrcMod {
    pub open spec fn view(&self) -> ItemV
        decreases self,
    {
        ItemV::Mod {
            at: self.at,
            attrs: attrs_view(self.attrs@),
            name: self.name@,
            vis: self.vis@,
            content: opt_items_view(self.content),
        }
    }
}

/// `static name: ty = expr;`
#[derive(Debug, PartialEq)]
pub struct SrcStatic {
    pub at: Location,
    pub attrs: Vec<SrcAttr>,
    pub name: String,
    pub vis: String,
    pub mutable: bool,
    pub ty: SrcType,
    pub expr: SrcExpr,
}

impl SrcStatic {
    pub open spec fn view(&self) -> ItemV
        decreases self,
    {
        ItemV::Static {
            at: self.at,
            attrs: attrs_view(self.attrs@),
            name: self.name@,
            vis: self.vis@,
            mutable: self.mutable,
            ty: self.ty.view(),
            expr: self.expr.view(),
        }
    }
}

/// A struct.
#[derive(Debug, PartialEq)]
pub struct SrcStruct {
    pub at: Location,
    pub attrs: Vec<SrcAttr>,
    pub name: String,
    pub vis: String,
    pub fields: Vec<SrcField>,
}

impl SrcStruct {
    pub open spec fn view(&self) -> ItemV {
        ItemV::Struct {
            at: self.at,
            attrs: attrs_view(self.attrs@),
            name: self.name@,
            vis: self.vis@,
            fields: fields_view(self.fields@),
        }
    }
}

/// A trait; `supertraits` is its list of bounds as written.
#[derive(Debug, PartialEq)]
pub struct SrcTrait {
    pub at: Location,
    pub attrs: Vec<SrcAttr>,
    pub name: String,
    pub vis: String,
    pub supertraits: String,
    pub items: Vec<SrcTraitItem>,
}

impl SrcTrait {
    pub open spec fn view(&self) -> ItemV
        decreases self,
    {
        ItemV::Trait {
            at: self.at,
            attrs: attrs_view(self.attrs@),
            name: self.name@,
            vis: self.vis@,
            supertraits: self.supertraits@,
            items: trait_items_view(self.items@),
        }
    }
}

/// `trait name = bounds;`
#[derive(Debug, PartialEq)]
pub struct SrcTraitAlias {
    pub at: Location,
    pub attrs: Vec<SrcAttr>,
    pub name: String,
    pub vis: String,
    pub bounds: String,
}

impl SrcTraitAlias {
    pub open spec fn view(&self) -> ItemV {
        ItemV::TraitAlias {
            at: self.at,
            attrs: attrs_view(self.attrs@),
            name: self.name@,
            vis: self.vis@,
            bounds: self.bounds@,
        }
    }
}

/// `type name = ty;`
#[derive(Debug, PartialEq)]
pub struct SrcTypeAlias {
    pub at: Location,
    pub name: String,
    pub vis: String,
    pub ty: SrcType,
}

/// What a `SrcTypeAlias` holds.
pub struct TypeAliasV {
    pub at: Location,
    pub name: Seq<char>,
    pub vis: Seq<char>,
    pub ty: TypeV,
}

impl SrcTypeAlias {
    pub open spec fn view(&self) -> TypeAliasV {
        TypeAliasV { at: self.at, name: self.name@, vis: self.vis@, ty: self.ty.view() }
    }
}

/// A union.
#[derive(Debug, PartialEq)]
pub struct SrcUnion {
    pub at: Location,
    pub attrs: Vec<SrcAttr>,
    pub name: String,
    pub vis: String,
    pub fields: Vec<SrcField>,
}

impl SrcUnion {
    pub open spec fn view(&self) -> ItemV {
        ItemV::Union {
            at: self.at,
            attrs: attrs_view(self.attrs@),
            name: self.name@,
            vis: self.vis@,
            fields: fields_view(self.fields@),
        }
    }
}

/// A `use` item; `path` is its tree as written.
#[derive(Debug, PartialEq)]
pub struct SrcUse {
    pub at: Location,
    pub vis: String,
    pub path: String,
    pub tree: SrcUseTree,
}

/// What a `SrcUse` holds.
pub struct UseV {
    pub at: Location,
    pub vis: Seq<char>,
    pub path: Seq<char>,
    pub tree: UseTreeV,
}

impl SrcUse {
    pub open spec fn view(&self) -> UseV {
        UseV { at: self.at, vis: self.vis@, path: self.path@, tree: self.tree.view() }
    }
}

/// A function of an `impl` block.
#[derive(Debug, PartialEq)]
pub struct SrcImplFn {
    pub item: SrcFn,
}

impl SrcImplFn {
    pub open spec fn view(&self) -> FnV
        decreases self,
    {
        self.item.view()
    }
}

/// An item of an `impl` block.
#[derive(Debug, PartialEq)]
pub enum SrcImplItem {
    Fn(SrcImplFn),
    Const(SrcConst),
    Type(SrcTypeAlias),
    Macro(SrcMacro),
    Verbatim(SrcTokens),
}

/// What a `SrcImplItem` holds.
pub enum ImplItemV {
    Fn(FnV),
    Const(ConstV),
    Type(TypeAliasV),
    Macro(MacroV),
    Verbatim(TokensV),
}

impl SrcImplItem {
    pub open spec fn view(&self) -> ImplItemV
        decreases self,
    {
        match self {
            SrcImplItem::Fn(x) => ImplItemV::Fn(x.view()),
            SrcImplItem::Const(x) => ImplItemV::Const(x.view()),
            SrcImplItem::Type(x) => ImplItemV::Type(x.view()),
            SrcImplItem::Macro(x) => ImplItemV::Macro(x.view()),
            SrcImplItem::Verbatim(x) => ImplItemV::Verbatim(x.view()),
        }
    }
}

/// The views of the items of an `impl` block.
pub open spec fn impl_items_view(s: Seq<SrcImplItem>) -> Seq<ImplItemV>
    decreases s,
{
    Seq::new(s.len(), |i: int| if 0 <= i < s.len() { s[i].view() } else { arbitrary() })
}

/// An item of a trait.
#[derive(Debug, PartialEq)]
pub enum SrcTraitItem {
    Const(SrcTraitConst),
    Fn(SrcTraitFn),
    Type { at: Location },
    Macro(SrcMacro),
    Verbatim(SrcTokens),
}

/// What a `SrcTraitItem` holds.
pub enum TraitItemV {
    Const { at: Location, name: Seq<char>, ty: TypeV, default: Option<Box<ExprV>> },
    Fn { at: Location, attrs: Seq<Seq<Seq<char>>>, sig: SigV },
    Type { at: Location },
    Macro(MacroV),
    Verbatim(TokensV),
}

impl SrcTraitItem {
    pub open spec fn view(&self) -> TraitItemV
        decreases self,
    {
        match self {
            SrcTraitItem::Const(x) => x.view(),
            SrcTraitItem::Fn(x) => x.view(),
            SrcTraitItem::Type { at } => TraitItemV::Type { at: *at },
            SrcTraitItem::Macro(x) => TraitItemV::Macro(x.view()),
            SrcTraitItem::Verbatim(x) => TraitItemV::Verbatim(x.view()),
        }
    }
}

/// The views of the items of a trait.
pub open spec fn trait_items_view(s: Seq<SrcTraitItem>) -> Seq<TraitItemV>
    decreases s,
{
    Seq::new(s.len(), |i: int| if 0 <= i < s.len() { s[i].view() } else { arbitrary() })
}

/// A constant of a trait.
#[derive(Debug, PartialEq)]
pub struct SrcTraitConst {
    pub at: Location,
    pub name: String,
    pub ty: SrcType,
    pub default: Option<Box<SrcExpr>>,
}

impl SrcTraitConst {
    pub open spec fn view(&self) -> TraitItemV
        decreases self,
    {
        TraitItemV::Const {
            at: self.at,
            name: self.name@,
            ty: self.ty.view(),
            default: opt_expr_view(self.default),
        }
    }
}

/// A function of a trait.
#[derive(Debug, PartialEq)]
pub struct SrcTraitFn {
    pub at: Location,
    pub attrs: Vec<SrcAttr>,
    pub sig: SrcSignature,
}

impl SrcTraitFn {
    pub open spec fn view(&self) -> TraitItemV {
        TraitItemV::Fn { at: self.at, attrs: attrs_view(self.attrs@), sig: self.sig.view() }
    }
}

/// A source file: its inner attributes and its items.
#[derive(Debug, PartialEq)]
pub struct SrcFile {
    pub at: Location,
    pub source_code: String,
    pub attrs: Vec<SrcAttr>,
    pub items: Vec<SrcItem>,
}

/// What a `SrcFile` holds.
pub struct FileV {
    pub at: Location,
    pub source_code: Seq<char>,
    pub attrs: Seq<Seq<Seq<char>>>,
    pub items: Seq<ItemV>,
}

impl SrcFile {
    pub open spec fn view(&self) -> FileV {
        FileV {
            at: self.at,
            source_code: self.source_code@,
            attrs: attrs_view(self.attrs@),
            items: items_view(self.items@),
        }
    }
}

} // verus!
