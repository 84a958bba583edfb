use soroban_scanner::ast::{Definition, Directive, Expression, NodeKind, Statement};
use soroban_scanner::context::{ParserCtx, SkipReason, SkippedFile};
use soroban_scanner::file_provider::FileProvider;
use soroban_scanner::storage::NodesStorage;
use soroban_scanner::symbol_table::{process_definition, Scope, SymbolTable};
use soroban_scanner::syntax::Location;
use std::collections::HashMap;

fn context(files: &[(&str, &str)], root: &str) -> ParserCtx {
    let mut provider = FileProvider::new();
    for (path, text) in files {
        provider.insert(path.to_string(), text.to_string());
    }
    let mut table = SymbolTable::new();
    let scope = table.insert_scope(Scope::new(0, "crate".to_string(), None));
    ParserCtx::new(1, provider, scope, NodesStorage::new(), table, root.to_string())
}

fn run(files: &[(&str, &str)], root: &str) -> ParserCtx {
    let mut ctx = context(files, root);
    assert!(ctx.can_parse());
    assert!(ctx.try_parse());
    ctx
}

fn expression_id(x: &Expression) -> u32 {
    match x {
        Expression::Identifier(x) => x.id,
        Expression::Literal(x) => x.id,
        Expression::Binary(x) => x.id,
        Expression::FunctionCall(x) => x.id,
        Expression::Closure(x) => x.id,
        Expression::EStruct(x) => x.id,
        Expression::If(x) => x.id,
        Expression::EBlock(x) => x.id,
        _ => panic!("another expression"),
    }
}

fn id_of(node: &NodeKind) -> u32 {
    match node {
        NodeKind::File(x) => x.id,
        NodeKind::Directive(Directive::Use(x)) => x.id,
        NodeKind::Definition(Definition::Function(x)) => x.id,
        NodeKind::Definition(Definition::Const(x)) => x.id,
        NodeKind::Definition(Definition::Module(x)) => x.id,
        NodeKind::Definition(Definition::Trait(x)) => x.id,
        NodeKind::Statement(Statement::Block(x)) => x.id,
        NodeKind::Statement(Statement::Let(x)) => x.id,
        NodeKind::Statement(Statement::Expression(x)) => expression_id(x),
        NodeKind::Expression(x) => expression_id(x),
        NodeKind::Type(soroban_scanner::ast::Type::Typename(x)) => x.id,
        NodeKind::Misc(soroban_scanner::ast::Misc::FnParameter(x)) => x.id,
        _ => panic!("another node"),
    }
}

const RICH: &str = "
const LIMIT: u32 = 7;
trait Counter { const STEP: u32 = 1; fn next(&self, by: u32) -> u32; }
fn run(a: u32) -> u32 {
    use std::mem;
    let b = a + LIMIT;
    let f = move |x| x;
    let Some(c) = g(b) else { 1 };
    if b { S { p: c, q: 2 } } else { f }
}
";

#[test]
fn stored_nodes_are_in_order() {
    let ctx = run(&[("/s/lib.rs", RICH)], "/s/lib.rs");
    let n = ctx.storage.len();
    assert!(n > 20);
    let mut seen: HashMap<u32, String> = HashMap::new();
    for i in 0..n {
        let stored = ctx.storage.get(i);
        let id = id_of(&stored.node);
        assert!(0 < id && id < ctx.id);
        assert!(stored.parent < id);
        let plain = match &stored.node {
            NodeKind::Expression(x) => format!("{:?}", Statement::Expression(x.clone())),
            NodeKind::Statement(s) => format!("{:?}", s),
            other => format!("{:?}", other),
        };
        match seen.get(&id) {
            Some(before) => assert_eq!(before, &plain),
            None => {
                seen.insert(id, plain);
            }
        }
    }
}

#[test]
fn file_is_stored_before_its_content() {
    let ctx = run(&[("/s/lib.rs", "use a::b;\nfn f() {}\n")], "/s/lib.rs");
    assert_eq!(ctx.id, 5);
    assert_eq!(ctx.storage.len(), 5);
    let parents: Vec<(u32, u32)> = (0..5)
        .map(|i| (id_of(&ctx.storage.get(i).node), ctx.storage.get(i).parent))
        .collect();
    assert_eq!(parents, vec![(1, 0), (2, 1), (4, 3), (4, 3), (3, 1)]);
    let NodeKind::File(file) = &ctx.storage.get(0).node else { panic!() };
    assert_eq!(file.name, "lib.rs");
    assert_eq!(file.path, "/s/lib.rs");
    assert_eq!(file.children.len(), 2);
    assert_eq!(file.source_code, "use a::b;\nfn f() {}");
    assert_eq!(
        file.location,
        Location {
            offset_start: 0,
            offset_end: 19,
            start_line: 1,
            start_column: 0,
            end_line: 2,
            end_column: 9,
        }
    );
    assert!(matches!(&file.children[0], NodeKind::Directive(_)));
    assert!(matches!(&file.children[1], NodeKind::Definition(Definition::Function(_))));
    assert_eq!(ctx.table.get(0).imports.len(), 1);
    assert_eq!(ctx.table.get(0).definitions.len(), 1);
}

#[test]
fn unreadable_file_is_taken_as_empty() {
    let ctx = run(&[], "/s/lib.rs");
    assert_eq!(ctx.id, 2);
    assert_eq!(ctx.storage.len(), 1);
    let NodeKind::File(file) = &ctx.storage.get(0).node else { panic!() };
    assert!(file.children.is_empty());
    assert_eq!(file.source_code, "");
    assert_eq!(
        ctx.skipped,
        vec![SkippedFile { path: "/s/lib.rs".to_string(), reason: SkipReason::Unreadable }]
    );
}

#[test]
fn unparseable_file_is_taken_as_empty() {
    let ctx = run(&[("/s/lib.rs", "mod a; mod b;"), ("/s/a.rs", "fn ("), ("/s/b.rs", "fn g() {}")], "/s/lib.rs");
    assert_eq!(
        ctx.skipped,
        vec![SkippedFile {
            path: "/s/a.rs".to_string(),
            reason: SkipReason::Unparseable(syn::parse_file("fn (").err().unwrap().to_string()),
        }]
    );
    assert_eq!(ctx.table.len(), 3);
    assert_eq!(ctx.table.get(1).definitions.len(), 0);
    assert_eq!(ctx.table.get(2).definitions.len(), 1);
}

#[test]
fn empty_text_is_an_empty_file() {
    let ctx = run(&[("/s/lib.rs", "")], "/s/lib.rs");
    assert!(ctx.skipped.is_empty());
    let NodeKind::File(file) = &ctx.storage.get(0).node else { panic!() };
    assert_eq!(
        file.location,
        Location {
            offset_start: 0,
            offset_end: 0,
            start_line: 1,
            start_column: 0,
            end_line: 1,
            end_column: 0,
        }
    );
}

#[test]
fn modules_are_followed() {
    let ctx = run(
        &[
            ("/s/lib.rs", "mod a;\nmod inline { mod deep { fn d() {} } use x::y; struct S; mod c; }\nmod gone;\n"),
            ("/s/a.rs", "mod b;\nuse k::l;\nconst C: u8 = 1;\n"),
            ("/s/a/b.rs", "fn f() {}\n"),
            ("/s/c/mod.rs", "fn c() {}\n"),
        ],
        "/s/lib.rs",
    );
    let scopes: Vec<(String, Option<usize>, Vec<usize>, usize, usize)> = (0..ctx.table.len())
        .map(|i| {
            let s = ctx.table.get(i);
            (s.name.clone(), s.parent, s.children.clone(), s.imports.len(), s.definitions.len())
        })
        .collect();
    assert_eq!(
        scopes,
        vec![
            ("crate".to_string(), None, vec![1, 2], 0, 0),
            ("crate::a".to_string(), Some(0), vec![5], 1, 1),
            ("crate::inline".to_string(), Some(0), vec![3, 4], 0, 1),
            ("crate::inline::deep".to_string(), Some(2), vec![], 0, 1),
            ("crate::inline::c".to_string(), Some(2), vec![], 0, 1),
            ("crate::a::b".to_string(), Some(1), vec![], 0, 1),
        ]
    );
    assert!(ctx.queue.is_empty());
    assert!(ctx.skipped.is_empty());
}

#[test]
fn run_that_cannot_end_changes_nothing() {
    for text in [
        "fn f() { async {} }",
        "fn f() { g().await }",
        "fn f() -> Self { 1 }",
        "const C: u128 = 340282366920938463463374607431768211455;",
        "fn f() { ; }",
    ] {
        let mut ctx = context(&[("/s/lib.rs", text)], "/s/lib.rs");
        assert!(!ctx.can_parse(), "{}", text);
        assert!(!ctx.try_parse());
        assert!(ctx.try_parse_file("/s/lib.rs").is_none());
        assert_eq!(ctx, context(&[("/s/lib.rs", text)], "/s/lib.rs"));
    }
}

#[test]
fn ids_may_run_out() {
    let mut ctx = context(&[("/s/lib.rs", "fn f() {}")], "/s/lib.rs");
    ctx.id = u32::MAX - 2;
    assert!(!ctx.try_parse());
    ctx.id = u32::MAX - 3;
    assert!(ctx.try_parse());
    assert_eq!(ctx.id, u32::MAX);
}

#[test]
fn module_that_names_its_own_file_is_not_followed_forever() {
    let mut ctx = context(&[("/s/main.rs", "mod main;")], "/s/main.rs");
    ctx.id = u32::MAX - 100;
    assert!(!ctx.try_parse());
}

#[test]
fn single_file() {
    let mut ctx = context(&[("/s/lib.rs", "struct S;")], "/other.rs");
    let file = ctx.try_parse_file("/s/lib.rs").unwrap();
    assert_eq!(file.name, "lib.rs");
    assert_eq!(file.id, 1);
    assert_eq!(ctx.id, 3);
    let again = ctx.parse_file("/nowhere.rs");
    assert_eq!(again.id, 3);
    assert_eq!(ctx.skipped.len(), 1);
}

#[test]
fn queue_is_last_in_first_out() {
    let mut ctx = context(&[], "a");
    ctx.push(1, "b".to_string()).push(2, "c".to_string());
    assert_eq!(ctx.pop(), Some((2, "c".to_string())));
    assert_eq!(ctx.pop(), Some((1, "b".to_string())));
    assert_eq!(ctx.pop(), Some((0, "a".to_string())));
    assert_eq!(ctx.pop(), None);
    assert_eq!(ctx.get_node_id(), 1);
    assert_eq!(ctx.get_node_id(), 2);
}

#[test]
fn module_in_scope() {
    let mut ctx = context(&[("/s/lib.rs", "mod m { fn f() {} }")], "/s/lib.rs");
    let file = ctx.try_parse_file("/s/lib.rs").unwrap();
    let NodeKind::Definition(def) = &file.children[0] else { panic!() };
    let Definition::Module(m) = def else { panic!() };
    ctx.process_module_rec(m, 0, "/s/lib.rs");
    assert_eq!(ctx.table.get(1).name, "crate::m");
    assert_eq!(ctx.table.get(1).id, m.id);
    assert_eq!(ctx.table.get(0).children, vec![1]);
    process_definition(0, def.clone(), &mut ctx.table);
    assert_eq!(ctx.table.get(0).definitions.len(), 1);
}

#[test]
fn two_runs_agree() {
    let files = [("/s/lib.rs", "mod a; fn f() { 1 + 2 }"), ("/s/a.rs", RICH)];
    let one = run(&files, "/s/lib.rs");
    let two = run(&files, "/s/lib.rs");
    assert_eq!(one, two);
}

#[test]
fn skipped_file_tells_what_speaks_against_it() {
    for content in ["fn (", "struct", "\"", "fn f() { let }"] {
        let ctx = run(&[("/s/lib.rs", content)], "/s/lib.rs");
        let expected = syn::parse_file(content).err().unwrap().to_string();
        assert!(!expected.is_empty() && expected != content);
        assert_eq!(ctx.skipped.len(), 1);
        assert_eq!(ctx.skipped[0].reason, SkipReason::Unparseable(expected));
    }
    assert_eq!(
        run(&[("/s/lib.rs", "struct")], "/s/lib.rs").skipped[0].reason,
        SkipReason::Unparseable("unexpected end of input, expected identifier".to_string())
    );
}

#[test]
fn ids_run_on_through_all_calls() {
    let mut ctx = context(&[("/s/lib.rs", "mod m { fn f() {} }")], "/s/lib.rs");
    assert_eq!(ctx.get_node_id(), 1);
    ctx.push(0, "/nowhere.rs".to_string());
    assert_eq!(ctx.get_node_id(), 2);
    ctx.pop();
    assert_eq!(ctx.get_node_id(), 3);
    let file = ctx.try_parse_file("/s/lib.rs").unwrap();
    assert_eq!(file.id, 4);
    let next = ctx.id;
    let NodeKind::Definition(Definition::Module(m)) = &file.children[0] else { panic!() };
    ctx.process_module_rec(m, 0, "/s/lib.rs");
    assert_eq!(ctx.get_node_id(), next);
    assert!(ctx.try_parse());
    assert_eq!(ctx.id, next + 1 + (next - 4));
    assert_eq!(ctx.get_node_id(), next + 1 + (next - 4));
}
