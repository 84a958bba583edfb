//! Trees of words, into which both a piece of syntax and the node built from it can be read.
//!
//! A tree tells what is written: of which kind it is and where it stands, its names, texts, numbers
//! and marks, and its parts from left to right. Ids do not come up in it.
use crate::ast::{
    BinOp, Block, Const, Definition, Directive, Expression, Field, File, FnParameter, Function,
    Identifier, Literal, Macro, MatchArm, Mutability, NodeKind, NodeType, Pattern, Plane, Statement,
    Type, TypeAlias, UnOp, Use, Visibility,
};
use crate::outside::{lossy_text, type_source};
use crate::paths::file_name_text;
use crate::shape::{full_paths, heads};
use crate::syntax::{
    ArgV, ArmV, BlockV, CaptureV, ConstV, ExprV, FieldV, FieldValueV, FileV, FnV, ImplItemV, ItemV,
    LitV, LitValueV, Location, MacroV, PatKindV, PatV, StmtV, TokensV, TraitItemV, TypeAliasV,
    TypeV, UseV,
};
use crate::text::{decimal, no_spaces, texts};
use crate::text_laws::{token, unary_token};
use std::rc::Rc;
use vstd::prelude::*;

verus! {

/// What is written at one place.
pub enum Word {
    Text(Seq<char>),
    Flag(bool),
    Number(int),
    Letter(char),
    Absent,
}

/// What is written, with its parts. `known` tells whether it is something that can be built, whatever
/// its parts are.
pub struct Tree {
    pub label: Seq<char>,
    pub at: Option<Location>,
    pub known: bool,
    pub words: Seq<Word>,
    pub parts: Seq<Tree>,
}

/// A tree.
pub open spec fn tree(label: Seq<char>, at: Location, words: Seq<Word>, parts: Seq<Tree>) -> Tree {
    Tree { label, at: Some(at), known: true, words, parts }
}

/// The same where something speaks against building it.
pub open spec fn tree_if(
    known: bool,
    label: Seq<char>,
    at: Location,
    words: Seq<Word>,
    parts: Seq<Tree>,
) -> Tree {
    Tree { label, at: Some(at), known, words, parts }
}

/// Parts that belong together.
pub open spec fn group(parts: Seq<Tree>) -> Tree {
    Tree { label: "group"@, at: None, known: true, words: Seq::empty(), parts }
}

/// A part with a name before it.
pub open spec fn named(name: Seq<char>, part: Tree) -> Tree {
    Tree {
        label: "named"@,
        at: None,
        known: true,
        words: seq![Word::Text(name)],
        parts: seq![part],
    }
}

/// A list of texts.
pub open spec fn list(s: Seq<Seq<char>>) -> Tree {
    Tree {
        label: "list"@,
        at: None,
        known: true,
        words: Seq::new(s.len(), |i: int| Word::Text(s[i])),
        parts: Seq::empty(),
    }
}

/// What is not there.
pub open spec fn absent() -> Tree {
    Tree { label: "absent"@, at: None, known: true, words: Seq::empty(), parts: Seq::empty() }
}

/// What can never be built.
pub open spec fn refused() -> Tree {
    Tree { label: "refused"@, at: None, known: false, words: Seq::empty(), parts: Seq::empty() }
}

/// A text that may be absent.
pub open spec fn opt_word(o: Option<Seq<char>>) -> Word {
    match o {
        Some(s) => Word::Text(s),
        None => Word::Absent,
    }
}

/// Whether a tree and all its parts can be built.
pub open spec fn supported(t: Tree) -> bool
    decreases t,
{
    t.known && all_supported(t.parts)
}

/// Whether all of several trees can be built.
pub open spec fn all_supported(s: Seq<Tree>) -> bool
    decreases s,
{
    forall|i: int| 0 <= i < s.len() ==> supported(#[trigger] s[i])
}

// What is told of the source.

/// A mark of visibility; restrictions are not told apart.
pub open spec fn vis_word(vis: Seq<char>) -> Word {
    if vis.len() > 0 && vis != seq!['p', 'u', 'b'] {
        Word::Text(seq!['p', 'u', 'b', '(', ')'])
    } else {
        Word::Text(vis)
    }
}

/// A type.
pub open spec fn type_tree(t: TypeV) -> Tree {
    tree("type"@, t.at, seq![Word::Text(t.text)], Seq::empty())
}

/// A pattern.
pub open spec fn pat_tree(p: PatV) -> Tree {
    tree(
        "pattern"@,
        p.at,
        seq![
            Word::Text(
                if p.kind == PatKindV::Wild {
                    "_"@
                } else {
                    p.text
                },
            ),
        ],
        Seq::empty(),
    )
}

/// A literal.
pub open spec fn lit_tree(l: LitV) -> Tree {
    let none = Seq::empty();
    match l.value {
        LitValueV::Bool(v) => tree("bool"@, l.at, seq![Word::Flag(v)], none),
        LitValueV::Byte(v) => tree("byte"@, l.at, seq![Word::Number(v as int)], none),
        LitValueV::Char(v) => tree("char"@, l.at, seq![Word::Letter(v)], none),
        LitValueV::Float(s) => tree("float"@, l.at, seq![Word::Text(s)], none),
        LitValueV::Int(s) => match decimal(s) {
            Some(n) => tree_if(
                i128::MIN <= n <= i128::MAX,
                "int"@,
                l.at,
                seq![Word::Number(n)],
                none,
            ),
            None => refused(),
        },
        LitValueV::Str(s) => tree("text"@, l.at, seq![Word::Text(s)], none),
        LitValueV::ByteStr(b) => tree("bytes"@, l.at, seq![Word::Text(lossy_text(b))], none),
        LitValueV::CStr(b) => tree("c text"@, l.at, seq![Word::Text(lossy_text(b))], none),
        LitValueV::Unsupported => refused(),
    }
}

/// What a closure takes over.
pub open spec fn capture_trees(c: Option<CaptureV>) -> Seq<Tree> {
    match c {
        Some(c) => match c.text {
            Some(text) => seq![
                tree("name"@, c.at, seq![Word::Flag(false), Word::Text(text)], Seq::empty()),
            ],
            None => seq![refused()],
        },
        None => Seq::empty(),
    }
}

/// An expression; `value` is whether its value is the value of the block that it ends.
pub open spec fn expr_tree(e: ExprV, value: bool) -> Tree
    decreases e,
{
    let mark = Word::Flag(value);
    match e {
        ExprV::Array { at, elems } => tree("array"@, at, seq![mark], expr_trees(elems)),
        ExprV::Assign { at, left, right } => tree(
            "assign"@,
            at,
            seq![mark],
            seq![expr_tree(*left, false), expr_tree(*right, false)],
        ),
        ExprV::Binary { at, left, op, right } => tree_if(
            exists|o: BinOp| #[trigger] token(o) == op,
            "binary"@,
            at,
            seq![mark, Word::Text(op)],
            seq![expr_tree(*left, false), expr_tree(*right, false)],
        ),
        ExprV::Unary { at, op, expr } => tree_if(
            exists|o: UnOp| #[trigger] unary_token(o) == op,
            "unary"@,
            at,
            seq![mark, Word::Text(op)],
            seq![expr_tree(*expr, false)],
        ),
        ExprV::Break { at, expr } => tree(
            "break"@,
            at,
            seq![Word::Flag(false)],
            seq![opt_expr_tree(expr)],
        ),
        ExprV::Block { at, block } => tree("braces"@, at, Seq::empty(), seq![block_tree(block)]),
        ExprV::Call { at, callee, func, args } => tree(
            "call"@,
            at,
            seq![mark, Word::Text(callee)],
            seq![expr_tree(*func, false), group(expr_trees(args))],
        ),
        ExprV::Cast { at, expr, ty } => tree(
            "cast"@,
            at,
            seq![mark],
            seq![expr_tree(*expr, false), type_tree(ty)],
        ),
        ExprV::Closure { at, capture, output, body } => tree(
            "closure"@,
            at,
            seq![mark],
            seq![
                group(capture_trees(capture)),
                match output {
                    Some(t) => type_tree(t),
                    None => type_tree(TypeV { at: type_source("_"@)->0.at, text: "_"@ }),
                },
                expr_tree(*body, false),
            ],
        ),
        ExprV::Const { block } => tree("const"@, block.at, Seq::empty(), seq![block_tree(block)]),
        ExprV::Continue { at } => tree("continue"@, at, Seq::empty(), Seq::empty()),
        ExprV::ForLoop { at, expr, body } => tree(
            "for"@,
            at,
            seq![mark],
            seq![expr_tree(*expr, false), block_tree(body)],
        ),
        ExprV::Field { at, base, member } => tree(
            "member"@,
            at,
            seq![mark, Word::Text(member)],
            seq![expr_tree(*base, false)],
        ),
        ExprV::If { at, cond, then_branch, else_branch } => tree(
            "if"@,
            at,
            seq![mark],
            seq![
                expr_tree(*cond, false),
                block_tree(then_branch),
                opt_expr_tree(else_branch),
            ],
        ),
        ExprV::Index { at, expr, index } => tree(
            "index"@,
            at,
            seq![mark],
            seq![expr_tree(*expr, false), expr_tree(*index, false)],
        ),
        ExprV::Infer { at } => tree(
            "name"@,
            at,
            seq![Word::Flag(false), Word::Text("_"@)],
            Seq::empty(),
        ),
        ExprV::Let { at, pat, expr } => tree(
            "let"@,
            at,
            seq![mark],
            seq![pat_tree(pat), expr_tree(*expr, false)],
        ),
        ExprV::Lit { at, lit } => tree("literal"@, at, seq![mark], seq![lit_tree(lit)]),
        ExprV::Loop { at, body } => tree("loop"@, at, seq![mark], seq![block_tree(body)]),
        ExprV::Macro { at, name, text } => tree(
            "macro"@,
            at,
            seq![Word::Text(name), Word::Text(text)],
            Seq::empty(),
        ),
        ExprV::Match { at, expr, arms } => tree(
            "match"@,
            at,
            seq![mark],
            seq![expr_tree(*expr, false), group(arm_trees(arms))],
        ),
        ExprV::MethodCall { at, receiver, method, args } => tree(
            "method"@,
            at,
            seq![mark, Word::Text(method)],
            seq![expr_tree(*receiver, false), group(expr_trees(args))],
        ),
        ExprV::Paren { at, expr } => tree(
            "parentheses"@,
            at,
            seq![mark],
            seq![expr_tree(*expr, false)],
        ),
        ExprV::Path { at, text } => tree("name"@, at, seq![mark, Word::Text(text)], Seq::empty()),
        ExprV::Range { at, start, end, is_closed } => tree(
            "range"@,
            at,
            seq![mark, Word::Flag(is_closed)],
            seq![opt_expr_tree(start), opt_expr_tree(end)],
        ),
        ExprV::RawAddr { at, is_mut, expr } => tree(
            "address"@,
            at,
            seq![mark, Word::Flag(is_mut)],
            seq![expr_tree(*expr, false)],
        ),
        ExprV::Reference { at, is_mut, expr } => tree(
            "reference"@,
            at,
            seq![mark, Word::Flag(is_mut)],
            seq![expr_tree(*expr, false)],
        ),
        ExprV::Repeat { at, expr, len } => tree(
            "repeat"@,
            at,
            seq![mark],
            seq![expr_tree(*expr, false), expr_tree(*len, false)],
        ),
        ExprV::Return { at, expr } => tree(
            "return"@,
            at,
            seq![Word::Flag(true)],
            seq![opt_expr_tree(expr)],
        ),
        ExprV::Struct { at, path, fields, rest } => tree_if(
            path.len() > 0,
            "struct"@,
            at,
            seq![mark, Word::Text(path.last())],
            seq![group(field_value_trees(fields)), opt_expr_tree(rest)],
        ),
        ExprV::Try { at, expr } => tree("try"@, at, seq![mark], seq![expr_tree(*expr, false)]),
        ExprV::TryBlock { block } => tree(
            "braces"@,
            block.at,
            Seq::empty(),
            seq![block_tree(block)],
        ),
        ExprV::Tuple { at, elems } => tree("tuple"@, at, seq![mark], expr_trees(elems)),
        ExprV::Unsafe { at, block } => tree("unsafe"@, at, Seq::empty(), seq![block_tree(block)]),
        ExprV::While { at, label, cond, body } => tree(
            "while"@,
            at,
            seq![mark, opt_word(label)],
            seq![expr_tree(*cond, false), block_tree(body)],
        ),
        _ => refused(),
    }
}

pub open spec fn opt_expr_tree(o: Option<Box<ExprV>>) -> Tree
    decreases o,
{
    match o {
        Some(e) => expr_tree(*e, false),
        None => absent(),
    }
}

pub open spec fn expr_trees(s: Seq<ExprV>) -> Seq<Tree>
    decreases s,
{
    if s.len() == 0 {
        Seq::empty()
    } else {
        expr_trees(s.drop_last()).push(expr_tree(s.last(), false))
    }
}

pub open spec fn arm_trees(s: Seq<ArmV>) -> Seq<Tree>
    decreases s,
{
    if s.len() == 0 {
        Seq::empty()
    } else {
        arm_trees(s.drop_last()).push(
            group(seq![pat_tree(s.last().pat), expr_tree(s.last().body, false)]),
        )
    }
}

pub open spec fn field_value_trees(s: Seq<FieldValueV>) -> Seq<Tree>
    decreases s,
{
    if s.len() == 0 {
        Seq::empty()
    } else {
        let name = match s.last().name {
            Some(n) => n,
            None => Seq::empty(),
        };
        field_value_trees(s.drop_last()).push(named(name, expr_tree(s.last().expr, false)))
    }
}

pub open spec fn block_tree(b: BlockV) -> Tree
    decreases b,
{
    tree("block"@, b.at, Seq::empty(), stmt_trees(b.stmts))
}

/// The statements that are not `use`.
pub open spec fn stmt_trees(s: Seq<StmtV>) -> Seq<Tree>
    decreases s,
{
    if s.len() == 0 {
        Seq::empty()
    } else {
        match s.last() {
            StmtV::Definition(ItemV::Use(_)) => stmt_trees(s.drop_last()),
            last => stmt_trees(s.drop_last()).push(stmt_tree(last)),
        }
    }
}

/// The name that a pattern binds, be a type written behind it or not; else the pattern, without the
/// type.
pub open spec fn bound_name(p: PatV) -> Seq<char> {
    let bare = match p.kind {
        PatKindV::Typed(inner) => *inner,
        _ => p,
    };
    match bare.kind {
        PatKindV::Ident { ident, .. } => ident,
        _ => bare.text,
    }
}

pub open spec fn stmt_tree(s: StmtV) -> Tree
    decreases s,
{
    match s {
        StmtV::Expression { expr, semi } => expr_tree(expr, !semi),
        StmtV::Local { at, pat, init } => tree(
            "local"@,
            at,
            seq![Word::Text(bound_name(pat))],
            match init {
                Some(i) => seq![pat_tree(pat), expr_tree(i.expr, false), opt_expr_tree(i.diverge)],
                None => seq![pat_tree(pat), absent(), absent()],
            },
        ),
        StmtV::Macro { at, name, text } => tree(
            "macro"@,
            at,
            seq![Word::Text(name), Word::Text(no_spaces(text))],
            Seq::empty(),
        ),
        StmtV::Definition(i) => item_tree(i),
    }
}

/// The arguments that are `self` or bind a name.
pub open spec fn arg_trees(s: Seq<ArgV>) -> Seq<Tree>
    decreases s.len(),
{
    if s.len() == 0 {
        Seq::empty()
    } else {
        let before = arg_trees(s.drop_last());
        match s.last() {
            ArgV::Receiver { at, ty, is_mut } => before.push(param_tree(at, "self"@, ty, is_mut)),
            ArgV::Typed { at, pat, ty } => match pat.kind {
                PatKindV::Ident { ident, is_mut } => before.push(param_tree(at, ident, ty, is_mut)),
                _ => before,
            },
        }
    }
}

/// A parameter; it is marked where its name is `self`.
pub open spec fn param_tree(at: Location, name: Seq<char>, ty: Seq<char>, is_mut: bool) -> Tree {
    tree(
        "parameter"@,
        at,
        seq![
            Word::Text(name),
            Word::Text(ty),
            Word::Flag(name == "self"@),
            Word::Flag(is_mut),
        ],
        Seq::empty(),
    )
}

/// A return type, `Self` replaced by what it stands for, if it stands for anything.
pub open spec fn output_word(output: Option<TypeV>, self_name: Option<Seq<char>>) -> Word {
    match output {
        None => Word::Absent,
        Some(t) => match self_name {
            Some(name) if t.text == "Self"@ => Word::Text(name),
            _ => Word::Text(t.text),
        },
    }
}

/// Whether every attribute has a name.
pub open spec fn all_named(attrs: Seq<Seq<Seq<char>>>) -> bool {
    !attrs.contains(Seq::empty())
}

/// A function with a body; `self_name` is what `Self` stands for, if it stands for anything.
pub open spec fn fn_tree(f: FnV, self_name: Option<Seq<char>>) -> Tree
    decreases f,
{
    tree_if(
        all_named(f.attrs) && (self_name is None ==> output_word(f.sig.output, None) != Word::Text(
            "Self"@,
        )),
        "fn"@,
        f.at,
        seq![vis_word(f.vis), Word::Text(f.sig.name), output_word(f.sig.output, self_name)],
        seq![
            list(heads(f.attrs)),
            list(f.sig.generics),
            group(arg_trees(f.sig.inputs)),
            block_tree(f.block),
        ],
    )
}

pub open spec fn const_tree(c: ConstV) -> Tree
    decreases c,
{
    tree(
        "constant"@,
        c.at,
        seq![vis_word(c.vis), Word::Text(c.name)],
        seq![type_tree(c.ty), expr_tree(c.expr, false)],
    )
}

pub open spec fn alias_tree(t: TypeAliasV) -> Tree {
    tree("alias"@, t.at, seq![vis_word(t.vis), Word::Text(t.name)], seq![type_tree(t.ty)])
}

pub open spec fn macro_tree(m: MacroV) -> Tree {
    tree("macro"@, m.at, seq![Word::Text(m.name), Word::Text(m.text)], Seq::empty())
}

pub open spec fn tokens_tree(t: TokensV) -> Tree {
    tree("tokens"@, t.at, seq![Word::Text(t.text)], Seq::empty())
}

/// The fields of a struct; one without a name is called `unnamed`.
pub open spec fn struct_field_trees(s: Seq<FieldV>) -> Seq<Tree> {
    Seq::new(
        s.len(),
        |i: int|
            named(
                if s[i].name is Some {
                    s[i].name->0
                } else {
                    "unnamed"@
                },
                type_tree(s[i].ty),
            ),
    )
}

/// The fields of a union.
pub open spec fn field_trees(s: Seq<FieldV>) -> Seq<Tree> {
    Seq::new(
        s.len(),
        |i: int|
            tree(
                "field"@,
                s[i].at,
                seq![vis_word(s[i].vis), opt_word(s[i].name), Word::Flag(s[i].mutable)],
                seq![type_tree(s[i].ty)],
            ),
    )
}

pub open spec fn use_tree(u: UseV) -> Tree {
    tree(
        "use"@,
        u.at,
        seq![vis_word(u.vis), Word::Text(u.path), Word::Number(0)],
        seq![list(full_paths(u.tree, None))],
    )
}

/// Which of the lists of an `impl` block an item goes to.
pub open spec fn place_in_impl(i: ImplItemV) -> int {
    match i {
        ImplItemV::Fn(_) => 0,
        ImplItemV::Const(_) => 1,
        ImplItemV::Type(_) => 2,
        ImplItemV::Macro(_) => 3,
        ImplItemV::Verbatim(_) => 4,
    }
}

pub open spec fn impl_item_tree(i: ImplItemV, self_name: Seq<char>) -> Tree
    decreases i,
{
    match i {
        ImplItemV::Fn(f) => fn_tree(f, Some(self_name)),
        ImplItemV::Const(c) => const_tree(c),
        ImplItemV::Type(t) => alias_tree(t),
        ImplItemV::Macro(m) => macro_tree(m),
        ImplItemV::Verbatim(t) => tokens_tree(t),
    }
}

/// The items of an `impl` block that go to one of its lists.
pub open spec fn impl_item_trees(s: Seq<ImplItemV>, self_name: Seq<char>, place: int) -> Seq<Tree>
    decreases s,
{
    if s.len() == 0 {
        Seq::empty()
    } else {
        let before = impl_item_trees(s.drop_last(), self_name, place);
        if place_in_impl(s.last()) == place {
            before.push(impl_item_tree(s.last(), self_name))
        } else {
            before
        }
    }
}

/// An item of a trait; constants and functions are as visible as the trait.
pub open spec fn trait_item_tree(i: TraitItemV, vis: Seq<char>) -> Tree
    decreases i,
{
    match i {
        TraitItemV::Const { at, name, ty, default } => tree(
            "constant"@,
            at,
            seq![vis_word(vis), Word::Text(name)],
            seq![type_tree(ty), opt_expr_tree(default)],
        ),
        TraitItemV::Fn { at, attrs, sig } => tree_if(
            all_named(attrs),
            "fn"@,
            at,
            seq![vis_word(vis), Word::Text(sig.name), output_word(sig.output, None)],
            seq![
                list(heads(attrs)),
                list(sig.generics),
                group(arg_trees(sig.inputs)),
                absent(),
            ],
        ),
        TraitItemV::Type { at } => tokens_tree(TokensV { at, text: "TraitItemType"@ }),
        TraitItemV::Macro(m) => macro_tree(m),
        TraitItemV::Verbatim(t) => tokens_tree(t),
    }
}

pub open spec fn trait_item_trees(s: Seq<TraitItemV>, vis: Seq<char>) -> Seq<Tree>
    decreases s,
{
    if s.len() == 0 {
        Seq::empty()
    } else {
        trait_item_trees(s.drop_last(), vis).push(trait_item_tree(s.last(), vis))
    }
}

pub open spec fn item_tree(i: ItemV) -> Tree
    decreases i,
{
    match i {
        ItemV::Const(c) => const_tree(c),
        ItemV::Enum { at, attrs, name, vis, variants } => tree(
            "enum"@,
            at,
            seq![vis_word(vis), Word::Text(name)],
            seq![list(heads(attrs)), list(variants)],
        ),
        ItemV::ExternCrate { at, name, vis, rename } => tree(
            "crate"@,
            at,
            seq![vis_word(vis), Word::Text(name), opt_word(rename)],
            Seq::empty(),
        ),
        ItemV::Fn(f) => fn_tree(f, None),
        ItemV::ForeignMod(t) => tokens_tree(t),
        ItemV::Impl { at, attrs, self_ty, items } => {
            let own = no_spaces(self_ty.text);
            tree(
                "impl"@,
                at,
                Seq::empty(),
                seq![
                    list(heads(attrs)),
                    type_tree(self_ty),
                    group(impl_item_trees(items, own, 0)),
                    group(impl_item_trees(items, own, 1)),
                    group(impl_item_trees(items, own, 2)),
                    group(impl_item_trees(items, own, 3)),
                    group(impl_item_trees(items, own, 4)),
                ],
            )
        },
        ItemV::Macro(m) => macro_tree(m),
        ItemV::Mod { at, attrs, name, vis, content } => tree(
            "mod"@,
            at,
            seq![vis_word(vis), Word::Text(name)],
            match content {
                Some(items) => seq![
                    list(heads(attrs)),
                    group(definition_trees(items)),
                    group(import_trees(items)),
                ],
                None => seq![list(heads(attrs)), absent(), absent()],
            },
        ),
        ItemV::Static { at, attrs, name, vis, mutable, ty, expr } => tree(
            "static"@,
            at,
            seq![vis_word(vis), Word::Text(name), Word::Flag(mutable)],
            seq![list(heads(attrs)), type_tree(ty), expr_tree(expr, false)],
        ),
        ItemV::Struct { at, attrs, name, vis, fields } => tree(
            "struct"@,
            at,
            seq![
                vis_word(vis),
                Word::Text(name),
                Word::Flag(attrs.contains(seq!["contract"@])),
            ],
            seq![list(heads(attrs)), group(struct_field_trees(fields))],
        ),
        ItemV::Trait { at, attrs, name, vis, supertraits, items } => tree(
            "trait"@,
            at,
            seq![vis_word(vis), Word::Text(name), Word::Text(supertraits)],
            seq![list(heads(attrs)), group(trait_item_trees(items, vis))],
        ),
        ItemV::TraitAlias { at, attrs, name, vis, bounds } => tree(
            "trait alias"@,
            at,
            seq![vis_word(vis), Word::Text(name), Word::Text(bounds)],
            seq![list(heads(attrs))],
        ),
        ItemV::TypeAlias(t) => alias_tree(t),
        ItemV::Union { at, attrs, name, vis, fields } => tree(
            "union"@,
            at,
            seq![vis_word(vis), Word::Text(name)],
            seq![list(heads(attrs)), group(field_trees(fields))],
        ),
        ItemV::Use(u) => use_tree(u),
        ItemV::Verbatim(t) => tokens_tree(t),
    }
}

/// The items that are not `use`.
pub open spec fn definition_trees(s: Seq<ItemV>) -> Seq<Tree>
    decreases s,
{
    if s.len() == 0 {
        Seq::empty()
    } else {
        match s.last() {
            ItemV::Use(_) => definition_trees(s.drop_last()),
            last => definition_trees(s.drop_last()).push(item_tree(last)),
        }
    }
}

/// The items that are `use`.
pub open spec fn import_trees(s: Seq<ItemV>) -> Seq<Tree>
    decreases s.len(),
{
    if s.len() == 0 {
        Seq::empty()
    } else {
        match s.last() {
            ItemV::Use(u) => import_trees(s.drop_last()).push(use_tree(u)),
            _ => import_trees(s.drop_last()),
        }
    }
}

/// All items of a file.
pub open spec fn item_trees(s: Seq<ItemV>) -> Seq<Tree>
    decreases s.len(),
{
    if s.len() == 0 {
        Seq::empty()
    } else {
        item_trees(s.drop_last()).push(item_tree(s.last()))
    }
}

pub open spec fn file_tree(f: FileV, path: Seq<char>) -> Tree {
    tree(
        "file"@,
        f.at,
        seq![Word::Text(path), Word::Text(file_name_text(path)), Word::Text(f.source_code)],
        seq![list(heads(f.attrs)), group(item_trees(f.items))],
    )
}

// What is told of the nodes.

/// How a visibility is written; restrictions are not told apart.
pub open spec fn written_vis(v: Visibility) -> Word {
    match v {
        Visibility::Public => Word::Text(seq!['p', 'u', 'b']),
        Visibility::Restricted => Word::Text(seq!['p', 'u', 'b', '(', ')']),
        Visibility::Inherited => Word::Text(Seq::empty()),
    }
}

/// The text of an optional string.
pub open spec fn written_opt(o: Option<String>) -> Word {
    match o {
        Some(s) => Word::Text(s@),
        None => Word::Absent,
    }
}

pub open spec fn written_type(t: Type) -> Tree {
    match t {
        Type::Typename(x) => tree("type"@, x.location, seq![Word::Text(x.name@)], Seq::empty()),
    }
}

pub open spec fn written_pat(p: Pattern) -> Tree {
    tree("pattern"@, p.location, seq![Word::Text(p.kind@)], Seq::empty())
}

pub open spec fn written_name(x: Identifier) -> Tree {
    tree("name"@, x.location, seq![Word::Flag(x.is_ret), Word::Text(x.name@)], Seq::empty())
}

pub open spec fn written_lit(l: Literal) -> Tree {
    let none = Seq::empty();
    match l {
        Literal::Bool(x) => tree("bool"@, x.location, seq![Word::Flag(x.value)], none),
        Literal::Byte(x) => tree("byte"@, x.location, seq![Word::Number(x.value as int)], none),
        Literal::Char(x) => tree("char"@, x.location, seq![Word::Letter(x.value)], none),
        Literal::Float(x) => tree("float"@, x.location, seq![Word::Text(x.value@)], none),
        Literal::Int(x) => tree("int"@, x.location, seq![Word::Number(x.value as int)], none),
        Literal::String(x) => tree("text"@, x.location, seq![Word::Text(x.value@)], none),
        Literal::BString(x) => tree("bytes"@, x.location, seq![Word::Text(x.value@)], none),
        Literal::CString(x) => tree("c text"@, x.location, seq![Word::Text(x.value@)], none),
    }
}

/// What an expression is written as.
pub open spec fn written(e: Expression) -> Tree
    decreases e,
{
    match e {
        Expression::Addr(x) => tree(
            "address"@,
            x.location,
            seq![Word::Flag(x.is_ret), Word::Flag(x.mutability is Mutable)],
            seq![written(x.expression)],
        ),
        Expression::Array(x) => tree(
            "array"@,
            x.location,
            seq![Word::Flag(x.is_ret)],
            all_written(x.elements@),
        ),
        Expression::Assign(x) => tree(
            "assign"@,
            x.location,
            seq![Word::Flag(x.is_ret)],
            seq![written(x.left), written(x.right)],
        ),
        Expression::Binary(x) => tree(
            "binary"@,
            x.location,
            seq![Word::Flag(x.is_ret), Word::Text(token(x.operator))],
            seq![written(x.left), written(x.right)],
        ),
        Expression::Break(x) => tree(
            "break"@,
            x.location,
            seq![Word::Flag(x.is_ret)],
            seq![opt_written(x.expression)],
        ),
        Expression::Cast(x) => tree(
            "cast"@,
            x.location,
            seq![Word::Flag(x.is_ret)],
            seq![written(x.base), written_type(x.target_type)],
        ),
        Expression::Closure(x) => tree(
            "closure"@,
            x.location,
            seq![Word::Flag(x.is_ret)],
            seq![
                group(names_written(x.captures@)),
                written_type(x.returns),
                written(x.body),
            ],
        ),
        Expression::Const(x) => tree(
            "const"@,
            x.location,
            Seq::empty(),
            seq![written_block(*x.block)],
        ),
        Expression::Continue(x) => tree("continue"@, x.location, Seq::empty(), Seq::empty()),
        Expression::EBlock(x) => tree(
            "braces"@,
            x.location,
            Seq::empty(),
            seq![written_block(*x.block)],
        ),
        Expression::EStruct(x) => tree(
            "struct"@,
            x.location,
            seq![Word::Flag(x.is_ret), Word::Text(x.name@)],
            seq![group(fields_written(x.fields@)), opt_written(x.rest_dots)],
        ),
        Expression::ForLoop(x) => tree(
            "for"@,
            x.location,
            seq![Word::Flag(x.is_ret)],
            seq![written(x.expression), written_block(*x.block)],
        ),
        Expression::FunctionCall(x) => tree(
            "call"@,
            x.location,
            seq![Word::Flag(x.is_ret), Word::Text(x.function_name@)],
            seq![written(x.expression), group(all_written(x.parameters@))],
        ),
        Expression::Identifier(x) => written_name(*x),
        Expression::If(x) => tree(
            "if"@,
            x.location,
            seq![Word::Flag(x.is_ret)],
            seq![
                written(x.condition),
                written_block(*x.then_branch),
                opt_written(x.else_branch),
            ],
        ),
        Expression::IndexAccess(x) => tree(
            "index"@,
            x.location,
            seq![Word::Flag(x.is_ret)],
            seq![written(x.base), written(x.index)],
        ),
        Expression::LetGuard(x) => tree(
            "let"@,
            x.location,
            seq![Word::Flag(x.is_ret)],
            seq![written_pat(x.guard), written(x.value)],
        ),
        Expression::Literal(x) => tree(
            "literal"@,
            x.location,
            seq![Word::Flag(x.is_ret)],
            seq![written_lit(x.value)],
        ),
        Expression::Loop(x) => tree(
            "loop"@,
            x.location,
            seq![Word::Flag(x.is_ret)],
            seq![written_block(*x.block)],
        ),
        Expression::Macro(x) => written_macro(*x),
        Expression::Match(x) => tree(
            "match"@,
            x.location,
            seq![Word::Flag(x.is_ret)],
            seq![written(x.expression), group(arms_written(x.arms@))],
        ),
        Expression::MemberAccess(x) => tree(
            "member"@,
            x.location,
            seq![Word::Flag(x.is_ret), Word::Text(x.member_name@)],
            seq![written(x.base)],
        ),
        Expression::MethodCall(x) => tree(
            "method"@,
            x.location,
            seq![Word::Flag(x.is_ret), Word::Text(x.method_name@)],
            seq![written(x.base), group(all_written(x.parameters@))],
        ),
        Expression::Parenthesized(x) => tree(
            "parentheses"@,
            x.location,
            seq![Word::Flag(x.is_ret)],
            seq![written(x.expression)],
        ),
        Expression::Range(x) => tree(
            "range"@,
            x.location,
            seq![Word::Flag(x.is_ret), Word::Flag(x.is_closed)],
            seq![opt_written(x.start), opt_written(x.end)],
        ),
        Expression::Reference(x) => tree(
            "reference"@,
            x.location,
            seq![Word::Flag(x.is_ret), Word::Flag(x.is_mutable)],
            seq![written(x.inner)],
        ),
        Expression::Repeat(x) => tree(
            "repeat"@,
            x.location,
            seq![Word::Flag(x.is_ret)],
            seq![written(x.expression), written(x.count)],
        ),
        Expression::Return(x) => tree(
            "return"@,
            x.location,
            seq![Word::Flag(x.is_ret)],
            seq![opt_written(x.expression)],
        ),
        Expression::Try(x) => tree(
            "try"@,
            x.location,
            seq![Word::Flag(x.is_ret)],
            seq![written(x.expression)],
        ),
        Expression::Tuple(x) => tree(
            "tuple"@,
            x.location,
            seq![Word::Flag(x.is_ret)],
            all_written(x.elements@),
        ),
        Expression::Unary(x) => tree(
            "unary"@,
            x.location,
            seq![Word::Flag(x.is_ret), Word::Text(unary_token(x.operator))],
            seq![written(x.expression)],
        ),
        Expression::Unsafe(x) => tree(
            "unsafe"@,
            x.location,
            Seq::empty(),
            seq![written_block(*x.block)],
        ),
        Expression::While(x) => tree(
            "while"@,
            x.location,
            seq![Word::Flag(x.is_ret), written_opt(x.label)],
            seq![written(x.condition), written_block(*x.block)],
        ),
    }
}

pub open spec fn opt_written(o: Option<Expression>) -> Tree
    decreases o,
{
    match o {
        Some(x) => written(x),
        None => absent(),
    }
}

pub open spec fn all_written(s: Seq<Expression>) -> Seq<Tree>
    decreases s,
{
    if s.len() == 0 {
        Seq::empty()
    } else {
        all_written(s.drop_last()).push(written(s.last()))
    }
}

pub open spec fn arms_written(s: Seq<MatchArm>) -> Seq<Tree>
    decreases s,
{
    if s.len() == 0 {
        Seq::empty()
    } else {
        arms_written(s.drop_last()).push(
            group(seq![written_pat(s.last().pattern), written(s.last().expression)]),
        )
    }
}

pub open spec fn fields_written(s: Seq<(String, Expression)>) -> Seq<Tree>
    decreases s,
{
    if s.len() == 0 {
        Seq::empty()
    } else {
        fields_written(s.drop_last()).push(named(s.last().0@, written(s.last().1)))
    }
}

pub open spec fn written_block(b: Block) -> Tree
    decreases b,
{
    tree("block"@, b.location, Seq::empty(), stmts_written(b.statements@))
}

pub open spec fn stmts_written(s: Seq<Statement>) -> Seq<Tree>
    decreases s,
{
    if s.len() == 0 {
        Seq::empty()
    } else {
        stmts_written(s.drop_last()).push(written_stmt(s.last()))
    }
}

pub open spec fn written_stmt(s: Statement) -> Tree
    decreases s,
{
    match s {
        Statement::Block(b) => written_block(*b),
        Statement::Expression(x) => written(x),
        Statement::Let(x) => tree(
            "local"@,
            x.location,
            seq![Word::Text(x.name@)],
            seq![
                written_pat(x.pattern),
                opt_written(x.initial_value),
                opt_written(x.initial_value_alternative),
            ],
        ),
        Statement::Macro(x) => written_macro(*x),
        Statement::Definition(d) => written_def(d),
    }
}

pub open spec fn written_macro(x: Macro) -> Tree {
    tree("macro"@, x.location, seq![Word::Text(x.name@), Word::Text(x.text@)], Seq::empty())
}

pub open spec fn written_plane(x: Plane) -> Tree {
    tree("tokens"@, x.location, seq![Word::Text(x.value@)], Seq::empty())
}

pub open spec fn params_written(s: Seq<Rc<FnParameter>>) -> Seq<Tree> {
    Seq::new(
        s.len(),
        |i: int|
            tree(
                "parameter"@,
                s[i].location,
                seq![
                    Word::Text(s[i].name@),
                    Word::Text(s[i].type_text@),
                    Word::Flag(s[i].is_self),
                    Word::Flag(s[i].is_mut),
                ],
                Seq::empty(),
            ),
    )
}

pub open spec fn written_output(x: NodeType) -> Word {
    match x {
        NodeType::Path(s) => Word::Text(s@),
        NodeType::Empty => Word::Absent,
    }
}

pub open spec fn written_fn(x: Function) -> Tree
    decreases x,
{
    tree(
        "fn"@,
        x.location,
        seq![
            written_vis(x.visibility),
            Word::Text(x.name@),
            written_output(x.returns),
        ],
        seq![
            list(texts(x.attributes@)),
            list(texts(x.generics@)),
            group(params_written(x.parameters@)),
            match x.body {
                Some(b) => written_block(*b),
                None => absent(),
            },
        ],
    )
}

pub open spec fn written_const(x: Const) -> Tree
    decreases x,
{
    tree(
        "constant"@,
        x.location,
        seq![written_vis(x.visibility), Word::Text(x.name@)],
        seq![written_type(x.type_), opt_written(x.value)],
    )
}

pub open spec fn written_alias(x: TypeAlias) -> Tree {
    tree(
        "alias"@,
        x.location,
        seq![written_vis(x.visibility), Word::Text(x.name@)],
        seq![written_type(x.ty)],
    )
}

pub open spec fn written_use(x: Use) -> Tree {
    tree(
        "use"@,
        x.location,
        seq![
            written_vis(x.visibility),
            Word::Text(x.path@),
            Word::Number(x.target@.len() as int),
        ],
        seq![list(texts(x.imported_types@))],
    )
}

pub open spec fn written_field(x: Field) -> Tree {
    tree(
        "field"@,
        x.location,
        seq![
            written_vis(x.visibility),
            written_opt(x.name),
            Word::Flag(x.mutability == Mutability::Mutable),
        ],
        seq![written_type(x.ty)],
    )
}

pub open spec fn fns_written(s: Seq<Rc<Function>>) -> Seq<Tree>
    decreases s,
{
    if s.len() == 0 {
        Seq::empty()
    } else {
        fns_written(s.drop_last()).push(written_fn(*s.last()))
    }
}

pub open spec fn consts_written(s: Seq<Rc<Const>>) -> Seq<Tree>
    decreases s,
{
    if s.len() == 0 {
        Seq::empty()
    } else {
        consts_written(s.drop_last()).push(written_const(*s.last()))
    }
}

pub open spec fn names_written(s: Seq<Rc<Identifier>>) -> Seq<Tree> {
    Seq::new(s.len(), |i: int| written_name(*s[i]))
}

pub open spec fn aliases_written(s: Seq<Rc<TypeAlias>>) -> Seq<Tree> {
    Seq::new(s.len(), |i: int| written_alias(*s[i]))
}

pub open spec fn macros_written(s: Seq<Rc<Macro>>) -> Seq<Tree> {
    Seq::new(s.len(), |i: int| written_macro(*s[i]))
}

pub open spec fn planes_written(s: Seq<Rc<Plane>>) -> Seq<Tree> {
    Seq::new(s.len(), |i: int| written_plane(*s[i]))
}

pub open spec fn uses_written(s: Seq<Rc<Use>>) -> Seq<Tree> {
    Seq::new(s.len(), |i: int| written_use(*s[i]))
}

pub open spec fn struct_fields_written(s: Seq<(String, Type)>) -> Seq<Tree> {
    Seq::new(s.len(), |i: int| named(s[i].0@, written_type(s[i].1)))
}

pub open spec fn union_fields_written(s: Seq<Rc<Field>>) -> Seq<Tree> {
    Seq::new(s.len(), |i: int| written_field(*s[i]))
}

/// What a definition is written as.
pub open spec fn written_def(d: Definition) -> Tree
    decreases d,
{
    match d {
        Definition::AssocType(x) => written_alias(*x),
        Definition::Const(x) => written_const(*x),
        Definition::Enum(x) => tree(
            "enum"@,
            x.location,
            seq![written_vis(x.visibility), Word::Text(x.name@)],
            seq![list(texts(x.attributes@)), list(texts(x.variants@))],
        ),
        Definition::ExternCrate(x) => tree(
            "crate"@,
            x.location,
            seq![written_vis(x.visibility), Word::Text(x.name@), written_opt(x.alias)],
            Seq::empty(),
        ),
        Definition::Function(x) => written_fn(*x),
        Definition::Implementation(x) => tree(
            "impl"@,
            x.location,
            Seq::empty(),
            seq![
                list(texts(x.attributes@)),
                written_type(x.for_type),
                group(fns_written(x.functions@)),
                group(consts_written(x.constants@)),
                group(aliases_written(x.type_aliases@)),
                group(macros_written(x.macros@)),
                group(planes_written(x.plane_defs@)),
            ],
        ),
        Definition::Macro(x) => written_macro(*x),
        Definition::Module(x) => tree(
            "mod"@,
            x.location,
            seq![written_vis(x.visibility), Word::Text(x.name@)],
            seq![
                list(texts(x.attributes@)),
                match x.definitions {
                    Some(v) => group(defs_written(v@)),
                    None => absent(),
                },
                match x.imports {
                    Some(v) => group(uses_written(v@)),
                    None => absent(),
                },
            ],
        ),
        Definition::Plane(x) => written_plane(*x),
        Definition::Static(x) => tree(
            "static"@,
            x.location,
            seq![written_vis(x.visibility), Word::Text(x.name@), Word::Flag(x.mutable)],
            seq![list(texts(x.attributes@)), written_type(x.ty), written(x.value)],
        ),
        Definition::Struct(x) => tree(
            "struct"@,
            x.location,
            seq![written_vis(x.visibility), Word::Text(x.name@), Word::Flag(x.is_contract)],
            seq![
                list(texts(x.attributes@)),
                group(struct_fields_written(x.fields@)),
            ],
        ),
        Definition::Trait(x) => tree(
            "trait"@,
            x.location,
            seq![written_vis(x.visibility), Word::Text(x.name@), Word::Text(x.supertraits@)],
            seq![list(texts(x.attributes@)), group(defs_written(x.items@))],
        ),
        Definition::TraitAlias(x) => tree(
            "trait alias"@,
            x.location,
            seq![written_vis(x.visibility), Word::Text(x.name@), Word::Text(x.bounds@)],
            seq![list(texts(x.attributes@))],
        ),
        Definition::TypeAlias(x) => written_alias(*x),
        Definition::Union(x) => tree(
            "union"@,
            x.location,
            seq![written_vis(x.visibility), Word::Text(x.name@)],
            seq![
                list(texts(x.attributes@)),
                group(union_fields_written(x.fields@)),
            ],
        ),
    }
}

pub open spec fn defs_written(s: Seq<Definition>) -> Seq<Tree>
    decreases s,
{
    if s.len() == 0 {
        Seq::empty()
    } else {
        defs_written(s.drop_last()).push(written_def(s.last()))
    }
}

/// What a node at the top level of a file is written as.
pub open spec fn written_child(n: NodeKind) -> Tree {
    match n {
        NodeKind::Directive(Directive::Use(x)) => written_use(*x),
        NodeKind::Definition(d) => written_def(d),
        _ => absent(),
    }
}

pub open spec fn children_written(s: Seq<NodeKind>) -> Seq<Tree>
    decreases s.len(),
{
    if s.len() == 0 {
        Seq::empty()
    } else {
        children_written(s.drop_last()).push(written_child(s.last()))
    }
}

/// What a file is written as.
pub open spec fn written_file(x: File) -> Tree {
    tree(
        "file"@,
        x.location,
        seq![Word::Text(x.path@), Word::Text(x.name@), Word::Text(x.source_code@)],
        seq![list(texts(x.attributes@)), group(children_written(x.children@))],
    )
}

} // verus!
