//! The nodes that are built from a source file.
//!
//! Every node has the id that it drew when it was built and the place it stands at. Nodes are
//! shared: a clone of a node is the node itself.
use crate::syntax::Location;
use std::rc::Rc;
use vstd::prelude::*;

verus! {

/// An expression.
#[derive(Debug, PartialEq)]
pub enum Expression {
    Addr(Rc<Addr>),
    Array(Rc<Array>),
    Assign(Rc<Assign>),
    Binary(Rc<Binary>),
    Break(Rc<Break>),
    Cast(Rc<Cast>),
    Closure(Rc<Closure>),
    Const(Rc<ConstBlock>),
    Continue(Rc<Continue>),
    EBlock(Rc<EBlock>),
    EStruct(Rc<EStruct>),
    ForLoop(Rc<ForLoop>),
    FunctionCall(Rc<FunctionCall>),
    Identifier(Rc<Identifier>),
    If(Rc<If>),
    IndexAccess(Rc<IndexAccess>),
    LetGuard(Rc<LetGuard>),
    Literal(Rc<Lit>),
    Loop(Rc<Loop>),
    Macro(Rc<Macro>),
    Match(Rc<Match>),
    MemberAccess(Rc<MemberAccess>),
    MethodCall(Rc<MethodCall>),
    Parenthesized(Rc<Parenthesized>),
    Range(Rc<Range>),
    Reference(Rc<Reference>),
    Repeat(Rc<Repeat>),
    Return(Rc<Return>),
    Try(Rc<Try>),
    Tuple(Rc<Tuple>),
    Unary(Rc<Unary>),
    Unsafe(Rc<Unsafe>),
    While(Rc<While>),
}

impl Clone for Expression {
    /// The node itself.
    fn clone(&self) -> (r: Self)
        ensures
            r == *self,
    {
        match self {
            Expression::Addr(x) => Expression::Addr(Rc::clone(x)),
            Expression::Array(x) => Expression::Array(Rc::clone(x)),
            Expression::Assign(x) => Expression::Assign(Rc::clone(x)),
            Expression::Binary(x) => Expression::Binary(Rc::clone(x)),
            Expression::Break(x) => Expression::Break(Rc::clone(x)),
            Expression::Cast(x) => Expression::Cast(Rc::clone(x)),
            Expression::Closure(x) => Expression::Closure(Rc::clone(x)),
            Expression::Const(x) => Expression::Const(Rc::clone(x)),
            Expression::Continue(x) => Expression::Continue(Rc::clone(x)),
            Expression::EBlock(x) => Expression::EBlock(Rc::clone(x)),
            Expression::EStruct(x) => Expression::EStruct(Rc::clone(x)),
            Expression::ForLoop(x) => Expression::ForLoop(Rc::clone(x)),
            Expression::FunctionCall(x) => Expression::FunctionCall(Rc::clone(x)),
            Expression::Identifier(x) => Expression::Identifier(Rc::clone(x)),
            Expression::If(x) => Expression::If(Rc::clone(x)),
            Expression::IndexAccess(x) => Expression::IndexAccess(Rc::clone(x)),
            Expression::LetGuard(x) => Expression::LetGuard(Rc::clone(x)),
            Expression::Literal(x) => Expression::Literal(Rc::clone(x)),
            Expression::Loop(x) => Expression::Loop(Rc::clone(x)),
            Expression::Macro(x) => Expression::Macro(Rc::clone(x)),
            Expression::Match(x) => Expression::Match(Rc::clone(x)),
            Expression::MemberAccess(x) => Expression::MemberAccess(Rc::clone(x)),
            Expression::MethodCall(x) => Expression::MethodCall(Rc::clone(x)),
            Expression::Parenthesized(x) => Expression::Parenthesized(Rc::clone(x)),
            Expression::Range(x) => Expression::Range(Rc::clone(x)),
            Expression::Reference(x) => Expression::Reference(Rc::clone(x)),
            Expression::Repeat(x) => Expression::Repeat(Rc::clone(x)),
            Expression::Return(x) => Expression::Return(Rc::clone(x)),
            Expression::Try(x) => Expression::Try(Rc::clone(x)),
            Expression::Tuple(x) => Expression::Tuple(Rc::clone(x)),
            Expression::Unary(x) => Expression::Unary(Rc::clone(x)),
            Expression::Unsafe(x) => Expression::Unsafe(Rc::clone(x)),
            Expression::While(x) => Expression::While(Rc::clone(x)),
        }
    }
}

/// `[a, b]`
#[derive(Debug, PartialEq)]
pub struct Array {
    pub id: u32,
    pub location: Location,
    pub elements: Vec<Expression>,
    pub is_ret: bool,
}

/// `left = right`
#[derive(Debug, PartialEq)]
pub struct Assign {
    pub id: u32,
    pub location: Location,
    pub left: Expression,
    pub right: Expression,
    pub is_ret: bool,
}

/// `left op right`
#[derive(Debug, PartialEq)]
pub struct Binary {
    pub id: u32,
    pub location: Location,
    pub left: Expression,
    pub right: Expression,
    pub operator: BinOp,
    pub is_ret: bool,
}

/// `break`
#[derive(Debug, PartialEq)]
pub struct Break {
    pub id: u32,
    pub location: Location,
    pub expression: Option<Expression>,
    pub is_ret: bool,
}

/// `base as type`
#[derive(Debug, PartialEq)]
pub struct Cast {
    pub id: u32,
    pub location: Location,
    pub base: Expression,
    pub target_type: Type,
    pub is_ret: bool,
}

/// A closure.
#[derive(Debug, PartialEq)]
pub struct Closure {
    pub id: u32,
    pub location: Location,
    pub captures: Vec<Rc<Identifier>>,
    pub returns: Type,
    pub body: Expression,
    pub is_ret: bool,
}

/// `const { .. }`
#[derive(Debug, PartialEq)]
pub struct ConstBlock {
    pub id: u32,
    pub location: Location,
    pub block: Rc<Block>,
}

/// `continue`
#[derive(Debug, PartialEq)]
pub struct Continue {
    pub id: u32,
    pub location: Location,
}

/// A block that stands as an expression.
#[derive(Debug, PartialEq)]
pub struct EBlock {
    pub id: u32,
    pub location: Location,
    pub block: Rc<Block>,
}

/// `name { fields, ..rest }`
#[derive(Debug, PartialEq)]
pub struct EStruct {
    pub id: u32,
    pub location: Location,
    pub name: String,
    pub fields: Vec<(String, Expression)>,
    pub rest_dots: Option<Expression>,
    pub is_ret: bool,
}

/// `for _ in expression { .. }`
#[derive(Debug, PartialEq)]
pub struct ForLoop {
    pub id: u32,
    pub location: Location,
    pub expression: Expression,
    pub block: Rc<Block>,
    pub is_ret: bool,
}

/// `expression(parameters)`
#[derive(Debug, PartialEq)]
pub struct FunctionCall {
    pub id: u32,
    pub location: Location,
    pub function_name: String,
    pub expression: Expression,
    pub parameters: Vec<Expression>,
    pub is_ret: bool,
}

/// A name or a path.
#[derive(Debug, PartialEq)]
pub struct Identifier {
    pub id: u32,
    pub location: Location,
    pub name: String,
    pub is_ret: bool,
}

/// `if condition { .. } else ..`
#[derive(Debug, PartialEq)]
pub struct If {
    pub id: u32,
    pub location: Location,
    pub condition: Expression,
    pub then_branch: Rc<Block>,
    pub else_branch: Option<Expression>,
    pub is_ret: bool,
}

/// `base[index]`
#[derive(Debug, PartialEq)]
pub struct IndexAccess {
    pub id: u32,
    pub location: Location,
    pub base: Expression,
    pub index: Expression,
    pub is_ret: bool,
}

/// `let guard = value` inside a condition.
#[derive(Debug, PartialEq)]
pub struct LetGuard {
    pub id: u32,
    pub location: Location,
    pub guard: Pattern,
    pub value: Expression,
    pub is_ret: bool,
}

/// A literal that stands as an expression.
#[derive(Debug, PartialEq)]
pub struct Lit {
    pub id: u32,
    pub location: Location,
    pub value: Literal,
    pub is_ret: bool,
}

/// `loop { .. }`
#[derive(Debug, PartialEq)]
pub struct Loop {
    pub id: u32,
    pub location: Location,
    pub block: Rc<Block>,
    pub is_ret: bool,
}

/// `match expression { .. }`
#[derive(Debug, PartialEq)]
pub struct Match {
    pub id: u32,
    pub location: Location,
    pub expression: Expression,
    pub arms: Vec<MatchArm>,
    pub is_ret: bool,
}

/// `base.member_name`
#[derive(Debug, PartialEq)]
pub struct MemberAccess {
    pub id: u32,
    pub location: Location,
    pub base: Expression,
    pub member_name: String,
    pub is_ret: bool,
}

/// `base.method_name(parameters)`
#[derive(Debug, PartialEq)]
pub struct MethodCall {
    pub id: u32,
    pub location: Location,
    pub method_name: String,
    pub base: Expression,
    pub parameters: Vec<Expression>,
    pub is_ret: bool,
}

/// `(expression)`
#[derive(Debug, PartialEq)]
pub struct Parenthesized {
    pub id: u32,
    pub location: Location,
    pub expression: Expression,
    pub is_ret: bool,
}

/// `start..end` or `start..=end`
#[derive(Debug, PartialEq)]
pub struct Range {
    pub id: u32,
    pub location: Location,
    pub start: Option<Expression>,
    pub end: Option<Expression>,
    pub is_closed: bool,
    pub is_ret: bool,
}

/// `&inner` or `&mut inner`
#[derive(Debug, PartialEq)]
pub struct Reference {
    pub id: u32,
    pub location: Location,
    pub inner: Expression,
    pub is_mutable: bool,
    pub is_ret: bool,
}

/// `[expression; count]`
#[derive(Debug, PartialEq)]
pub struct Repeat {
    pub id: u32,
    pub location: Location,
    pub expression: Expression,
    pub count: Expression,
    pub is_ret: bool,
}

/// `return`
#[derive(Debug, PartialEq)]
pub struct Return {
    pub id: u32,
    pub location: Location,
    pub expression: Option<Expression>,
    pub is_ret: bool,
}

/// `expression?`
#[derive(Debug, PartialEq)]
pub struct Try {
    pub id: u32,
    pub location: Location,
    pub expression: Expression,
    pub is_ret: bool,
}

/// `(a, b)`
#[derive(Debug, PartialEq)]
pub struct Tuple {
    pub id: u32,
    pub location: Location,
    pub elements: Vec<Expression>,
    pub is_ret: bool,
}

/// `op expression`
#[derive(Debug, PartialEq)]
pub struct Unary {
    pub id: u32,
    pub location: Location,
    pub expression: Expression,
    pub operator: UnOp,
    pub is_ret: bool,
}

/// `unsafe { .. }`
#[derive(Debug, PartialEq)]
pub struct Unsafe {
    pub id: u32,
    pub location: Location,
    pub block: Rc<Block>,
}

/// `while condition { .. }`
#[derive(Debug, PartialEq)]
pub struct While {
    pub id: u32,
    pub location: Location,
    pub label: Option<String>,
    pub condition: Expression,
    pub block: Rc<Block>,
    pub is_ret: bool,
}

/// `&raw const expression` or `&raw mut expression`
#[derive(Debug, PartialEq)]
pub struct Addr {
    pub id: u32,
    pub location: Location,
    pub mutability: Mutability,
    pub expression: Expression,
    pub is_ret: bool,
}

/// One arm of a `match`.
#[derive(Debug, PartialEq)]
pub struct MatchArm {
    pub pattern: Pattern,
    pub expression: Expression,
}

/// A macro call: its name and its text.
#[derive(Debug, PartialEq)]
pub struct Macro {
    pub id: u32,
    pub location: Location,
    pub name: String,
    pub text: String,
}

/// A pattern; `kind` is the pattern as written.
#[derive(Debug, PartialEq)]
pub struct Pattern {
    pub id: u32,
    pub location: Location,
    pub kind: String,
}

impl Clone for Pattern {
    /// The same pattern.
    fn clone(&self) -> (r: Self)
        ensures
            r == *self,
    {
        Pattern { id: self.id, location: self.location, kind: self.kind.clone() }
    }
}

/// A type by its name.
#[derive(Debug, PartialEq)]
pub struct Typename {
    pub id: u32,
    pub location: Location,
    pub name: String,
}

/// A type.
#[derive(Debug, PartialEq)]
pub enum Type {
    Typename(Rc<Typename>),
}

impl Clone for Type {
    /// The node itself.
    fn clone(&self) -> (r: Self)
        ensures
            r == *self,
    {
        match self {
            Type::Typename(x) => Type::Typename(Rc::clone(x)),
        }
    }
}

/// A literal.
#[derive(Debug, PartialEq)]
pub enum Literal {
    Bool(Rc<LBool>),
    Byte(Rc<LByte>),
    Char(Rc<LChar>),
    Float(Rc<LFloat>),
    Int(Rc<LInt>),
    String(Rc<LString>),
    BString(Rc<LBString>),
    CString(Rc<LCString>),
}

/// A truth value.
#[derive(Debug, PartialEq)]
pub struct LBool {
    pub id: u32,
    pub location: Location,
    pub value: bool,
}

/// A byte literal.
#[derive(Debug, PartialEq)]
pub struct LByte {
    pub id: u32,
    pub location: Location,
    pub value: u8,
}

/// A character literal.
#[derive(Debug, PartialEq)]
pub struct LChar {
    pub id: u32,
    pub location: Location,
    pub value: char,
}

/// A floating-point literal; `value` holds its decimal digits.
#[derive(Debug, PartialEq)]
pub struct LFloat {
    pub id: u32,
    pub location: Location,
    pub value: String,
}

/// An integer literal.
#[derive(Debug, PartialEq)]
pub struct LInt {
    pub id: u32,
    pub location: Location,
    pub value: i128,
}

/// A string literal.
#[derive(Debug, PartialEq)]
pub struct LString {
    pub id: u32,
    pub location: Location,
    pub value: String,
}

/// A byte string literal, its bytes read as text.
#[derive(Debug, PartialEq)]
pub struct LBString {
    pub id: u32,
    pub location: Location,
    pub value: String,
}

/// A C string literal, its bytes read as text.
#[derive(Debug, PartialEq)]
pub struct LCString {
    pub id: u32,
    pub location: Location,
    pub value: String,
}

/// A statement.
#[derive(Debug, PartialEq)]
pub enum Statement {
    Block(Rc<Block>),
    Expression(Expression),
    Let(Rc<Let>),
    Macro(Rc<Macro>),
    Definition(Definition),
}

impl Clone for Statement {
    /// The node itself.
    fn clone(&self) -> (r: Self)
        ensures
            r == *self,
    {
        match self {
            Statement::Block(x) => Statement::Block(Rc::clone(x)),
            Statement::Expression(x) => Statement::Expression(x.clone()),
            Statement::Let(x) => Statement::Let(Rc::clone(x)),
            Statement::Macro(x) => Statement::Macro(Rc::clone(x)),
            Statement::Definition(x) => Statement::Definition(x.clone()),
        }
    }
}

/// A block and its statements.
#[derive(Debug, PartialEq)]
pub struct Block {
    pub id: u32,
    pub location: Location,
    pub statements: Vec<Statement>,
}

/// A `let`; `initial_value_alternative` is its `else` branch.
#[derive(Debug, PartialEq)]
pub struct Let {
    pub id: u32,
    pub location: Location,
    pub name: String,
    pub pattern: Pattern,
    pub initial_value: Option<Expression>,
    pub initial_value_alternative: Option<Expression>,
}

/// A definition.
#[derive(Debug, PartialEq)]
pub enum Definition {
    AssocType(Rc<TypeAlias>),
    Const(Rc<Const>),
    Enum(Rc<Enum>),
    ExternCrate(Rc<ExternCrate>),
    Function(Rc<Function>),
    Implementation(Rc<Implementation>),
    Macro(Rc<Macro>),
    Module(Rc<Module>),
    Plane(Rc<Plane>),
    Static(Rc<Static>),
    Struct(Rc<Struct>),
    Trait(Rc<Trait>),
    TraitAlias(Rc<TraitAlias>),
    TypeAlias(Rc<TypeAlias>),
    Union(Rc<Union>),
}

impl Clone for Definition {
    /// The node itself.
    fn clone(&self) -> (r: Self)
        ensures
            r == *self,
    {
        match self {
            Definition::AssocType(x) => Definition::AssocType(Rc::clone(x)),
            Definition::Const(x) => Definition::Const(Rc::clone(x)),
            Definition::Enum(x) => Definition::Enum(Rc::clone(x)),
            Definition::ExternCrate(x) => Definition::ExternCrate(Rc::clone(x)),
            Definition::Function(x) => Definition::Function(Rc::clone(x)),
            Definition::Implementation(x) => Definition::Implementation(Rc::clone(x)),
            Definition::Macro(x) => Definition::Macro(Rc::clone(x)),
            Definition::Module(x) => Definition::Module(Rc::clone(x)),
            Definition::Plane(x) => Definition::Plane(Rc::clone(x)),
            Definition::Static(x) => Definition::Static(Rc::clone(x)),
            Definition::Struct(x) => Definition::Struct(Rc::clone(x)),
            Definition::Trait(x) => Definition::Trait(Rc::clone(x)),
            Definition::TraitAlias(x) => Definition::TraitAlias(Rc::clone(x)),
            Definition::TypeAlias(x) => Definition::TypeAlias(Rc::clone(x)),
            Definition::Union(x) => Definition::Union(Rc::clone(x)),
        }
    }
}

/// A constant.
#[derive(Debug, PartialEq)]
pub struct Const {
    pub id: u32,
    pub location: Location,
    pub name: String,
    pub visibility: Visibility,
    pub type_: Type,
    pub value: Option<Expression>,
}

/// An enum and the names of its variants.
#[derive(Debug, PartialEq)]
pub struct Enum {
    pub id: u32,
    pub attributes: Vec<String>,
    pub location: Location,
    pub name: String,
    pub visibility: Visibility,
    pub variants: Vec<String>,
}

/// `extern crate name as alias;`
#[derive(Debug, PartialEq)]
pub struct ExternCrate {
    pub id: u32,
    pub location: Location,
    pub name: String,
    pub visibility: Visibility,
    pub alias: Option<String>,
}

/// A function; `body` is absent for a function that a trait declares.
#[derive(Debug, PartialEq)]
pub struct Function {
    pub id: u32,
    pub attributes: Vec<String>,
    pub location: Location,
    pub name: String,
    pub visibility: Visibility,
    pub generics: Vec<String>,
    pub parameters: Vec<Rc<FnParameter>>,
    pub returns: NodeType,
    pub body: Option<Rc<Block>>,
}

/// A parameter of a function.
#[derive(Debug, PartialEq)]
pub struct FnParameter {
    pub id: u32,
    pub name: String,
    pub location: Location,
    pub type_text: String,
    pub is_self: bool,
    pub is_mut: bool,
}

/// An `impl` block.
#[derive(Debug, PartialEq)]
pub struct Implementation {
    pub id: u32,
    pub attributes: Vec<String>,
    pub location: Location,
    pub for_type: Type,
    pub functions: Vec<Rc<Function>>,
    pub constants: Vec<Rc<Const>>,
    pub type_aliases: Vec<Rc<TypeAlias>>,
    pub macros: Vec<Rc<Macro>>,
    pub plane_defs: Vec<Rc<Plane>>,
}

/// A module; `definitions` and `imports` are absent where it stands in a file of its own.
#[derive(Debug, PartialEq)]
pub struct Module {
    pub id: u32,
    pub location: Location,
    pub attributes: Vec<String>,
    pub name: String,
    pub visibility: Visibility,
    pub definitions: Option<Vec<Definition>>,
    pub imports: Option<Vec<Rc<Use>>>,
}

/// A definition that is kept as it is written.
#[derive(Debug, PartialEq)]
pub struct Plane {
    pub id: u32,
    pub location: Location,
    pub value: String,
}

/// A static.
#[derive(Debug, PartialEq)]
pub struct Static {
    pub id: u32,
    pub attributes: Vec<String>,
    pub location: Location,
    pub name: String,
    pub visibility: Visibility,
    pub mutable: bool,
    pub ty: Type,
    pub value: Expression,
}

/// A struct; `is_contract` tells a contract from a plain struct.
#[derive(Debug, PartialEq)]
pub struct Struct {
    pub id: u32,
    pub attributes: Vec<String>,
    pub location: Location,
    pub name: String,
    pub fields: Vec<(String, Type)>,
    pub is_contract: bool,
    pub visibility: Visibility,
}

/// A trait; `supertraits` is its list of bounds as written.
#[derive(Debug, PartialEq)]
pub struct Trait {
    pub id: u32,
    pub location: Location,
    pub attributes: Vec<String>,
    pub name: String,
    pub visibility: Visibility,
    pub supertraits: String,
    pub items: Vec<Definition>,
}

/// `trait name = bounds;`
#[derive(Debug, PartialEq)]
pub struct TraitAlias {
    pub id: u32,
    pub location: Location,
    pub attributes: Vec<String>,
    pub name: String,
    pub visibility: Visibility,
    pub bounds: String,
}

/// `type name = ty;`
#[derive(Debug, PartialEq)]
pub struct TypeAlias {
    pub id: u32,
    pub location: Location,
    pub name: String,
    pub visibility: Visibility,
    pub ty: Type,
}

/// A union.
#[derive(Debug, PartialEq)]
pub struct Union {
    pub id: u32,
    pub location: Location,
    pub attributes: Vec<String>,
    pub name: String,
    pub visibility: Visibility,
    pub fields: Vec<Rc<Field>>,
}

/// A field of a union.
#[derive(Debug, PartialEq)]
pub struct Field {
    pub id: u32,
    pub location: Location,
    pub name: Option<String>,
    pub visibility: Visibility,
    pub mutability: Mutability,
    pub ty: Type,
}

/// A `use` item: its tree as written, the full path of each name that it brings in, and the
/// targets that these paths have been resolved to so far.
#[derive(Debug, PartialEq)]
pub struct Use {
    pub id: u32,
    pub location: Location,
    pub visibility: Visibility,
    pub path: String,
    pub imported_types: Vec<String>,
    pub target: Vec<(String, u32)>,
}

/// A directive.
#[derive(Debug, PartialEq)]
pub enum Directive {
    Use(Rc<Use>),
}

impl Clone for Directive {
    /// The node itself.
    fn clone(&self) -> (r: Self)
        ensures
            r == *self,
    {
        match self {
            Directive::Use(x) => Directive::Use(Rc::clone(x)),
        }
    }
}

/// A source file and what stands at its top level.
#[derive(Debug, PartialEq)]
pub struct File {
    pub id: u32,
    pub children: Vec<NodeKind>,
    pub name: String,
    pub path: String,
    pub attributes: Vec<String>,
    pub source_code: String,
    pub location: Location,
}

/// A node of another kind.
#[derive(Debug, PartialEq)]
pub enum Misc {
    FnParameter(Rc<FnParameter>),
    Field(Rc<Field>),
}

impl Clone for Misc {
    /// The node itself.
    fn clone(&self) -> (r: Self)
        ensures
            r == *self,
    {
        match self {
            Misc::FnParameter(x) => Misc::FnParameter(Rc::clone(x)),
            Misc::Field(x) => Misc::Field(Rc::clone(x)),
        }
    }
}

/// Any node.
#[derive(Debug, PartialEq)]
pub enum NodeKind {
    File(Rc<File>),
    Directive(Directive),
    Definition(Definition),
    Statement(Statement),
    Expression(Expression),
    Pattern(Pattern),
    Type(Type),
    Misc(Misc),
}

/// Whether what a pointer leads to may be changed.
#[derive(Clone, Copy, PartialEq, Eq, Structural, Debug)]
pub enum Mutability {
    Constant,
    Mutable,
}

/// Where a definition can be seen from.
#[derive(Clone, Copy, PartialEq, Eq, Structural, Debug)]
pub enum Visibility {
    Public,
    Restricted,
    Inherited,
}

/// A two-place operator.
#[derive(Clone, Copy, PartialEq, Eq, Structural, Debug)]
pub enum BinOp {
    Add,
    Sub,
    Mul,
    Div,
    Rem,
    And,
    Or,
    BitXor,
    BitAnd,
    BitOr,
    Shl,
    Shr,
    Eq,
    Lt,
    Le,
    Ne,
    Ge,
    Gt,
    AddAssign,
    SubAssign,
    MulAssign,
    DivAssign,
    RemAssign,
    BitXorAssign,
    BitAndAssign,
    BitOrAssign,
    ShlAssign,
    ShrAssign,
}

/// A one-place operator.
#[derive(Clone, Copy, PartialEq, Eq, Structural, Debug)]
pub enum UnOp {
    Deref,
    Not,
    Neg,
}

/// The type that a function returns.
#[derive(Debug, PartialEq)]
pub enum NodeType {
    /// No type is written.
    Empty,
    /// The type as it is written.
    Path(String),
}

} // verus!
