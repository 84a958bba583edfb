use soroban_scanner::ast::{
    BinOp, Block, Definition, Expression, Literal, Mutability, NodeType, Statement, Type, UnOp,
    Visibility,
};
use soroban_scanner::build_item::use_tree_to_full_paths;
use soroban_scanner::context::ParserCtx;
use soroban_scanner::file_provider::FileProvider;
use soroban_scanner::reader::read_source;
use soroban_scanner::storage::NodesStorage;
use soroban_scanner::symbol_table::SymbolTable;
use soroban_scanner::syntax::{SrcExpr, SrcItem, SrcUseTree};
use soroban_scanner::weigh::{weigh_file, weigh_item};
use std::rc::Rc;

fn context() -> ParserCtx {
    ParserCtx::new(
        1,
        FileProvider::new(),
        0,
        NodesStorage::new(),
        SymbolTable::new(),
        "lib.rs".to_string(),
    )
}

fn item(text: &str) -> Definition {
    let file = read_source(text).unwrap();
    assert_eq!(file.items.len(), 1);
    let ids = weigh_item(&file.items[0]).unwrap();
    let mut ctx = context();
    let def = ctx.build_definition(&file.items[0], 0);
    assert_eq!(ctx.id, 1 + ids);
    def
}

fn body(text: &str) -> Rc<Block> {
    match item(&format!("fn f() {{ {} }}", text)) {
        Definition::Function(f) => f.body.clone().unwrap(),
        _ => panic!("not a function"),
    }
}

fn expr(text: &str) -> Expression {
    let block = body(text);
    assert_eq!(block.statements.len(), 1);
    match &block.statements[0] {
        Statement::Expression(x) => x.clone(),
        _ => panic!("not an expression"),
    }
}

fn name(x: &Expression) -> String {
    match x {
        Expression::Identifier(x) => x.name.clone(),
        _ => panic!("not a name"),
    }
}

fn type_text(t: &Type) -> String {
    match t {
        Type::Typename(t) => t.name.clone(),
    }
}

#[test]
fn arrays_and_tuples() {
    let Expression::Array(x) = expr("[a, b]") else { panic!() };
    assert_eq!(x.elements.len(), 2);
    assert_eq!(name(&x.elements[1]), "b");
    assert!(x.is_ret);
    let Expression::Tuple(x) = expr("(a, b, c)") else { panic!() };
    assert_eq!(x.elements.len(), 3);
    assert_eq!(name(&x.elements[2]), "c");
    let Expression::Tuple(x) = expr("()") else { panic!() };
    assert!(x.elements.is_empty());
}

#[test]
fn ids_and_places_of_a_sum() {
    let Expression::Binary(x) = expr("a + 1;") else { panic!() };
    assert_eq!(x.id, 3);
    assert!(!x.is_ret);
    assert_eq!(x.operator, BinOp::Add);
    assert_eq!((x.location.offset_start, x.location.offset_end), (9, 14));
    assert_eq!((x.location.start_line, x.location.start_column), (1, 9));
    assert_eq!((x.location.end_line, x.location.end_column), (1, 14));
    let Expression::Identifier(left) = &x.left else { panic!() };
    assert_eq!(left.id, 4);
    assert_eq!(left.name, "a");
    let Expression::Literal(right) = &x.right else { panic!() };
    assert_eq!(right.id, 5);
    let Literal::Int(value) = &right.value else { panic!() };
    assert_eq!((value.id, value.value), (6, 1));
}

#[test]
fn two_operands() {
    let Expression::Assign(x) = expr("a = b") else { panic!() };
    assert_eq!((name(&x.left), name(&x.right)), ("a".to_string(), "b".to_string()));
    let Expression::IndexAccess(x) = expr("a[b]") else { panic!() };
    assert_eq!((name(&x.base), name(&x.index)), ("a".to_string(), "b".to_string()));
    let Expression::Repeat(x) = expr("[a; b]") else { panic!() };
    assert_eq!((name(&x.expression), name(&x.count)), ("a".to_string(), "b".to_string()));
    let Expression::Binary(x) = expr("a <<= b") else { panic!() };
    assert_eq!(x.operator, BinOp::ShlAssign);
    assert_eq!((name(&x.left), name(&x.right)), ("a".to_string(), "b".to_string()));
}

#[test]
fn one_operand() {
    let Expression::Unary(x) = expr("!a") else { panic!() };
    assert_eq!(x.operator, UnOp::Not);
    assert_eq!(name(&x.expression), "a");
    let Expression::Parenthesized(x) = expr("(a)") else { panic!() };
    assert_eq!(name(&x.expression), "a");
    let Expression::Try(x) = expr("a?") else { panic!() };
    assert_eq!(name(&x.expression), "a");
    let Expression::MemberAccess(x) = expr("a.b") else { panic!() };
    assert_eq!((name(&x.base), x.member_name.as_str()), ("a".to_string(), "b"));
    let Expression::MemberAccess(x) = expr("a.0") else { panic!() };
    assert_eq!(x.member_name, "0");
    let Expression::Reference(x) = expr("&mut a") else { panic!() };
    assert!(x.is_mutable);
    assert_eq!(name(&x.inner), "a");
    let Expression::Addr(x) = expr("&raw const a") else { panic!() };
    assert_eq!(x.mutability, Mutability::Constant);
    let Expression::Addr(x) = expr("&raw mut a") else { panic!() };
    assert_eq!(x.mutability, Mutability::Mutable);
}

#[test]
fn jumps() {
    let Expression::Break(x) = expr("break a") else { panic!() };
    assert_eq!(name(x.expression.as_ref().unwrap()), "a");
    assert!(!x.is_ret);
    let Expression::Return(x) = expr("return;") else { panic!() };
    assert!(x.expression.is_none());
    assert!(x.is_ret);
    let Expression::Continue(x) = expr("continue") else { panic!() };
    assert_eq!(x.id, 3);
}

#[test]
fn ranges() {
    let Expression::Range(x) = expr("a..=b") else { panic!() };
    assert!(x.is_closed);
    assert_eq!(name(x.end.as_ref().unwrap()), "b");
    let Expression::Range(x) = expr("..b") else { panic!() };
    assert!(!x.is_closed);
    assert!(x.start.is_none());
    let Expression::Range(x) = expr("a..") else { panic!() };
    assert_eq!(name(x.start.as_ref().unwrap()), "a");
    assert!(x.end.is_none());
}

#[test]
fn blocks_leave_out_use() {
    let block = body("use a::b; c; { use d::e; }");
    assert_eq!(block.statements.len(), 2);
    let Statement::Expression(Expression::EBlock(inner)) = &block.statements[1] else { panic!() };
    assert!(inner.block.statements.is_empty());
    assert_eq!(inner.block.id, inner.id + 1);
}

#[test]
fn loops_and_branches() {
    let Expression::If(x) = expr("if a { b } else { c }") else { panic!() };
    assert_eq!(name(&x.condition), "a");
    assert_eq!(x.then_branch.statements.len(), 1);
    assert_eq!(x.then_branch.id, x.id + 1);
    assert!(matches!(x.else_branch, Some(Expression::EBlock(_))));
    let Expression::While(x) = expr("'w: while a { b; c }") else { panic!() };
    assert_eq!(x.label, Some("'w :".to_string()));
    assert_eq!(name(&x.condition), "a");
    assert_eq!(x.block.statements.len(), 2);
    let Expression::ForLoop(x) = expr("for i in a { b }") else { panic!() };
    assert_eq!(name(&x.expression), "a");
    assert_eq!(x.block.statements.len(), 1);
    let Expression::Loop(x) = expr("loop { a; }") else { panic!() };
    assert_eq!(x.block.statements.len(), 1);
    let Expression::Unsafe(x) = expr("unsafe { a; }") else { panic!() };
    assert_eq!(x.block.statements.len(), 1);
    let Expression::Const(x) = expr("const { a; }") else { panic!() };
    assert_eq!(x.block.statements.len(), 1);
    assert_eq!(x.location, x.block.location);
    let Expression::EBlock(x) = expr("try { a; }") else { panic!() };
    assert_eq!(x.block.statements.len(), 1);
    assert_eq!(x.location, x.block.location);
}

#[test]
fn block_as_an_expression() {
    let block = body("a;");
    let Expression::EBlock(x) = ParserCtx::build_eblock_expression(&block, 77) else { panic!() };
    assert_eq!(x.id, 77);
    assert_eq!(x.location, block.location);
    assert_eq!(x.block, block);
}

#[test]
fn calls() {
    let Expression::FunctionCall(x) = expr("a::b(c, d)") else { panic!() };
    assert_eq!(x.function_name, "a :: b");
    assert_eq!(name(&x.expression), "a :: b");
    assert_eq!(x.parameters.len(), 2);
    let Expression::Identifier(first) = &x.parameters[0] else { panic!() };
    let Expression::Identifier(called) = &x.expression else { panic!() };
    assert_eq!((first.id, called.id), (x.id + 1, x.id + 3));
    let Expression::MethodCall(x) = expr("a.b::<u8>(c)") else { panic!() };
    assert_eq!(x.method_name, "b");
    assert_eq!(name(&x.base), "a");
    assert_eq!(name(&x.parameters[0]), "c");
}

#[test]
fn casts_and_closures() {
    let Expression::Cast(x) = expr("a as u64") else { panic!() };
    assert_eq!(name(&x.base), "a");
    assert_eq!(type_text(&x.target_type), "u64");
    let Expression::Closure(x) = expr("move |a| -> u8 { b }") else { panic!() };
    assert_eq!(x.captures.len(), 1);
    assert_eq!(x.captures[0].name, "move");
    assert_eq!(type_text(&x.returns), "u8");
    let Expression::Closure(x) = expr("|a| b") else { panic!() };
    assert!(x.captures.is_empty());
    assert_eq!(type_text(&x.returns), "_");
    assert_eq!(name(&x.body), "b");
    let Type::Typename(t) = &x.returns;
    assert_eq!((t.location.offset_start, t.location.offset_end), (0, 1));
}

#[test]
fn matches_and_guards() {
    let Expression::Match(x) = expr("match a { Some(b) => c, _ => d }") else { panic!() };
    assert_eq!(name(&x.expression), "a");
    assert_eq!(x.arms.len(), 2);
    assert_eq!(x.arms[0].pattern.kind, "Some (b)");
    assert_eq!(x.arms[1].pattern.kind, "_");
    assert_eq!(name(&x.arms[1].expression), "d");
    let Expression::If(x) = expr("if let Some(b) = a {}") else { panic!() };
    let Expression::LetGuard(g) = &x.condition else { panic!() };
    assert_eq!(g.guard.kind, "Some (b)");
    assert_eq!(g.guard.id, g.id + 1);
    assert_eq!(name(&g.value), "a");
}

#[test]
fn struct_expressions() {
    let Expression::EStruct(x) = expr("m::S { a: b, 0: c, ..d }") else { panic!() };
    assert_eq!(x.name, "S");
    assert_eq!(x.fields.len(), 2);
    assert_eq!(x.fields[0].0, "a");
    assert_eq!(x.fields[1].0, "");
    assert_eq!(name(&x.fields[0].1), "b");
    assert_eq!(name(x.rest_dots.as_ref().unwrap()), "d");
    let Expression::Identifier(first) = &x.fields[0].1 else { panic!() };
    assert_eq!(x.id, first.id + 3);
}

#[test]
fn leaves() {
    assert_eq!(name(&expr("a::b")), "a :: b");
    let Expression::Binary(sum) = expr("let_it!(a, b) + 1") else { panic!() };
    let Expression::Macro(x) = &sum.left else { panic!() };
    assert_eq!((x.name.as_str(), x.text.as_str()), ("let_it", "a , b"));
    let Expression::Assign(x) = expr("_ = a") else { panic!() };
    let Expression::Identifier(under) = &x.left else { panic!() };
    assert_eq!(under.name, "_");
    assert!(!under.is_ret);
}

#[test]
fn literals() {
    let value = |text: &str| match expr(text) {
        Expression::Literal(x) => match &x.value {
            Literal::Bool(v) => format!("bool {}", v.value),
            Literal::Byte(v) => format!("byte {}", v.value),
            Literal::Char(v) => format!("char {}", v.value),
            Literal::Float(v) => format!("float {}", v.value),
            Literal::Int(v) => format!("int {}", v.value),
            Literal::String(v) => format!("string {}", v.value),
            Literal::BString(v) => format!("bytes {}", v.value),
            Literal::CString(v) => format!("c {}", v.value),
        },
        _ => panic!("not a literal"),
    };
    assert_eq!(value("true"), "bool true");
    assert_eq!(value("b'a'"), "byte 97");
    assert_eq!(value("'x'"), "char x");
    assert_eq!(value("1_0.5e2f64"), "float 10.5e2");
    assert_eq!(value("0x1_0u8"), "int 16");
    assert_eq!(value("\"a\\n\""), "string a\n");
    assert_eq!(value("b\"ab\""), "bytes ab");
    assert_eq!(value("b\"a\\xc3\\x28d\""), "bytes a\u{fffd}(d");
    assert_eq!(value("c\"ab\""), "c ab");
}

#[test]
fn unsupported_expressions() {
    for text in ["async { a }", "a.await", "yield a", "340282366920938463463374607431768211455"] {
        let file = read_source(&format!("fn f() {{ {} }}", text)).unwrap();
        assert_eq!(weigh_file(&file), None);
    }
    let file = read_source("fn f() { async { a } }").unwrap();
    let SrcItem::Fn(f) = &file.items[0] else { panic!() };
    let soroban_scanner::syntax::SrcStmt::Expression { expr, semi } = &f.block.stmts[0] else { panic!() };
    assert_eq!(expr, &SrcExpr::Async);
    assert!(!semi);
}

#[test]
fn lets() {
    let block = body("let mut a: u8 = b; let (c, d) = e else { f }; let g; vec![1, 2];");
    let Statement::Let(x) = &block.statements[0] else { panic!() };
    assert_eq!(x.name, "a");
    assert_eq!(x.pattern.kind, "mut a : u8");
    assert_eq!(x.id, x.pattern.id + 1);
    assert_eq!(name(x.initial_value.as_ref().unwrap()), "b");
    assert!(x.initial_value_alternative.is_none());
    let Statement::Let(x) = &block.statements[1] else { panic!() };
    assert_eq!(x.name, "(c , d)");
    assert!(matches!(x.initial_value_alternative, Some(Expression::EBlock(_))));
    let Statement::Let(x) = &block.statements[2] else { panic!() };
    assert_eq!(x.name, "g");
    assert!(x.initial_value.is_none());
    let Statement::Macro(x) = &block.statements[3] else { panic!() };
    assert_eq!((x.name.as_str(), x.text.as_str()), ("vec", "vec![1,2];"));
}

#[test]
fn constants_and_statics() {
    let Definition::Const(x) = item("pub(crate) const A: u8 = b;") else { panic!() };
    assert_eq!((x.name.as_str(), x.visibility), ("A", Visibility::Restricted));
    assert_eq!(name(x.value.as_ref().unwrap()), "b");
    let Type::Typename(t) = &x.type_;
    assert_eq!((t.id, t.name.as_str()), (3, "u8"));
    let Definition::Static(x) = item("#[a::b] static mut A: u8 = b;") else { panic!() };
    assert_eq!(x.attributes, vec!["a".to_string()]);
    assert!(x.mutable);
    let Type::Typename(t) = &x.ty;
    assert_eq!(t.id, 2);
    assert_eq!(name(&x.value), "b");
}

#[test]
fn structs_and_enums() {
    let Definition::Struct(x) = item("#[contract] pub struct S { a: u8, pub b: Vec<u8> }") else { panic!() };
    assert!(x.is_contract);
    assert_eq!(x.visibility, Visibility::Public);
    assert_eq!(x.fields[0].0, "a");
    assert_eq!(type_text(&x.fields[1].1), "Vec < u8 >");
    let Definition::Struct(x) = item("#[contracttype] struct S(u8);") else { panic!() };
    assert!(!x.is_contract);
    assert_eq!(x.fields[0].0, "unnamed");
    let Definition::Enum(x) = item("#[x] enum E { A, B(u8) }") else { panic!() };
    assert_eq!(x.variants, vec!["A".to_string(), "B".to_string()]);
    assert_eq!(x.visibility, Visibility::Inherited);
    let Definition::Union(x) = item("union U { a: u8, b: u16 }") else { panic!() };
    assert_eq!(x.fields.len(), 2);
    assert_eq!((x.fields[0].id, x.fields[1].id), (2, 4));
    assert_eq!(x.fields[1].name, Some("b".to_string()));
    assert_eq!(x.fields[1].mutability, Mutability::Constant);
    assert_eq!(type_text(&x.fields[1].ty), "u16");
}

#[test]
fn functions() {
    let Definition::Function(x) =
        item("#[a] #[b::c] pub fn f<T: X>(mut a: u8, (b, c): (u8, u8), self_: T) -> Vec<T> { a }")
    else {
        panic!()
    };
    assert_eq!(x.name, "f");
    assert_eq!(x.attributes, vec!["a".to_string(), "b".to_string()]);
    assert_eq!(x.generics, vec!["T : X".to_string()]);
    assert_eq!(x.parameters.len(), 2);
    assert_eq!((x.parameters[0].id, x.parameters[1].id), (2, 3));
    assert_eq!(x.parameters[0].name, "a");
    assert!(x.parameters[0].is_mut);
    assert!(!x.parameters[0].is_self);
    assert_eq!(x.parameters[0].type_text, "u8");
    assert_eq!(x.returns, NodeType::Path("Vec < T >".to_string()));
    assert_eq!(x.body.as_ref().unwrap().id, 4);
    let Definition::Function(x) = item("fn f() {}") else { panic!() };
    assert_eq!(x.returns, NodeType::Empty);
}

#[test]
fn impl_blocks() {
    let Definition::Implementation(x) = item(
        "impl T for M<u8> { const A: u8 = b; type B = u16; fn new(&mut self, self_: u8) -> Self { c } m!(d e); fn g() {} }",
    ) else {
        panic!()
    };
    assert_eq!(type_text(&x.for_type), "M < u8 >");
    assert_eq!(x.functions.len(), 2);
    assert_eq!(x.functions[0].returns, NodeType::Path("M<u8>".to_string()));
    assert!(x.functions[0].parameters[0].is_self);
    assert!(x.functions[0].parameters[0].is_mut);
    assert_eq!(x.functions[0].parameters[0].name, "self");
    assert_eq!(x.functions[1].name, "g");
    assert_eq!(x.constants.len(), 1);
    assert_eq!(x.constants[0].name, "A");
    let Type::Typename(t) = &x.constants[0].type_;
    assert_eq!(t.id, x.constants[0].id + 1);
    assert_eq!(x.type_aliases.len(), 1);
    assert_eq!(type_text(&x.type_aliases[0].ty), "u16");
    assert_eq!(x.macros.len(), 1);
    assert_eq!((x.macros[0].name.as_str(), x.macros[0].text.as_str()), ("m", "d e"));
    let Definition::Implementation(x) = item("impl M { fn f(); }") else { panic!() };
    assert_eq!(x.plane_defs.len(), 1);
    assert_eq!(x.plane_defs[0].value, "fn f () ;");
}

#[test]
fn traits() {
    let Definition::Trait(x) = item(
        "pub trait T: A + B { const C: u8 = d; const E: u8; #[x] fn f(self, a: u8) -> Self; type G; m! {} }",
    ) else {
        panic!()
    };
    assert_eq!(x.supertraits, "A + B");
    assert_eq!(x.items.len(), 5);
    let Definition::Const(c) = &x.items[0] else { panic!() };
    assert_eq!(c.visibility, Visibility::Public);
    assert_eq!(name(c.value.as_ref().unwrap()), "d");
    let Definition::Const(c) = &x.items[1] else { panic!() };
    assert!(c.value.is_none());
    let Definition::Function(f) = &x.items[2] else { panic!() };
    assert_eq!(f.parameters.len(), 2);
    assert_eq!(f.id, f.parameters[1].id + 1);
    assert_eq!(f.returns, NodeType::Path("Self".to_string()));
    assert!(f.body.is_none());
    assert_eq!(f.attributes, vec!["x".to_string()]);
    let Definition::Plane(p) = &x.items[3] else { panic!() };
    assert_eq!(p.value, "TraitItemType");
    let Definition::Macro(m) = &x.items[4] else { panic!() };
    assert_eq!(m.name, "m");
    let Definition::TraitAlias(x) = item("trait T = A + B;") else { panic!() };
    assert_eq!(x.bounds, "A + B");
}

#[test]
fn other_items() {
    let Definition::ExternCrate(x) = item("extern crate a as b;") else { panic!() };
    assert_eq!((x.name.as_str(), x.alias.as_deref()), ("a", Some("b")));
    let Definition::Plane(x) = item("extern \"C\" { fn f(); }") else { panic!() };
    assert_eq!(x.value, "extern \"C\" { fn f () ; }");
    let Definition::Plane(x) = item("fn f();") else { panic!() };
    assert_eq!(x.value, "fn f () ;");
    let Definition::Macro(x) = item("macro_rules! m { () => {} }") else { panic!() };
    assert_eq!((x.name.as_str(), x.text.as_str()), ("m", "() => { }"));
    let Definition::Macro(x) = item("call!(a);") else { panic!() };
    assert_eq!((x.name.as_str(), x.text.as_str()), ("", "a"));
    let Definition::TypeAlias(x) = item("type A = Vec<u8>;") else { panic!() };
    assert_eq!(type_text(&x.ty), "Vec < u8 >");
    let Definition::Module(x) = item("mod m;") else { panic!() };
    assert!(x.definitions.is_none() && x.imports.is_none());
    let Definition::Module(x) = item("mod m { use a::b; struct S; use c; }") else { panic!() };
    assert_eq!(x.definitions.as_ref().unwrap().len(), 1);
    assert_eq!(x.imports.as_ref().unwrap().len(), 2);
    assert_eq!(x.imports.as_ref().unwrap()[0].id, 3);
}

#[test]
fn full_paths_of_use_trees() {
    let file = read_source("use a::{b, c::{self, *}, d as e, f::{}};").unwrap();
    let SrcItem::Use(u) = &file.items[0] else { panic!() };
    assert_eq!(
        use_tree_to_full_paths(&u.tree, None),
        vec![
            "a::b".to_string(),
            "a::c::self".to_string(),
            "a::c::*".to_string(),
            "a::d%e".to_string(),
        ]
    );
    let under: Vec<String> = use_tree_to_full_paths(&u.tree, None)
        .into_iter()
        .map(|path| format!("r::{}", path))
        .collect();
    assert_eq!(use_tree_to_full_paths(&u.tree, Some("r".to_string())), under);
    assert_eq!(use_tree_to_full_paths(&SrcUseTree::Glob, None), vec!["*".to_string()]);
    let mut ctx = context();
    let soroban_scanner::ast::Directive::Use(x) = ctx.build_use_directive(u, 9);
    assert_eq!(x.path, "a :: { b , c :: { self , * } , d as e , f :: { } }");
    assert_eq!(x.imported_types.len(), 4);
    assert!(x.target.is_empty());
    assert_eq!(ctx.storage.get(0).parent, 9);
}

#[test]
fn not_a_source_file() {
    assert!(read_source("fn (").is_err());
    assert!(read_source("").is_ok());
    let file = read_source("#![a::b]\n#![c]\nfn f() {}").unwrap();
    assert_eq!(file.attrs.len(), 2);
    assert_eq!(file.attrs[0].path, vec!["a".to_string(), "b".to_string()]);
}
