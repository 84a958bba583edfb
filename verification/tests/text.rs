use soroban_scanner::ast::{BinOp, NodeType, UnOp, Visibility};
use soroban_scanner::syntax::{Location, SrcType};
use soroban_scanner::text::{
    chars_of, contains_text, is_listed, parse_decimal, push_segment, same_text,
    same_text_ignoring_case, text_of, without_spaces,
};

#[test]
fn decimals() {
    assert_eq!(parse_decimal("0"), Some(0));
    assert_eq!(parse_decimal("1234567890"), Some(1234567890));
    assert_eq!(parse_decimal("+7"), Some(7));
    assert_eq!(parse_decimal("-7"), Some(-7));
    assert_eq!(parse_decimal("007"), Some(7));
    assert_eq!(parse_decimal(""), None);
    assert_eq!(parse_decimal("-"), None);
    assert_eq!(parse_decimal("+"), None);
    assert_eq!(parse_decimal("12x"), None);
    assert_eq!(parse_decimal("1_000"), None);
}

#[test]
fn decimals_at_the_limits() {
    assert_eq!(parse_decimal("170141183460469231731687303715884105727"), Some(i128::MAX));
    assert_eq!(parse_decimal("170141183460469231731687303715884105728"), None);
    assert_eq!(parse_decimal("-170141183460469231731687303715884105728"), Some(i128::MIN));
    assert_eq!(parse_decimal("-170141183460469231731687303715884105729"), None);
    assert_eq!(parse_decimal("340282366920938463463374607431768211455"), None);
}

#[test]
fn texts_are_compared_and_cut() {
    assert!(same_text("häuser", "häuser"));
    assert!(!same_text("a", "ab"));
    assert!(!same_text("a", "b"));
    let v = chars_of("häuser");
    assert_eq!(v.len(), 6);
    assert_eq!(text_of(&v, 1, 3), "äu");
    assert_eq!(text_of(&v, 2, 2), "");
    assert_eq!(without_spaces(" a  b\tc "), "ab\tc");
    assert_eq!(push_segment("a::b", "c"), "a::b::c");
}

#[test]
fn texts_are_found() {
    assert!(contains_text("src/tests/a.rs", "tests"));
    assert!(contains_text("abc", "abc"));
    assert!(contains_text("abc", ""));
    assert!(!contains_text("ab", "abc"));
    assert!(!contains_text("abc", "ac"));
    assert!(contains_text("aab", "ab"));
    let list = vec!["a".to_string(), "b".to_string()];
    assert!(is_listed(&list, "b"));
    assert!(!is_listed(&list, "c"));
}

#[test]
fn case_is_ignored_for_ascii_letters() {
    assert!(same_text_ignoring_case("ALL", "all"));
    assert!(same_text_ignoring_case("aLl", "AlL"));
    assert!(!same_text_ignoring_case("all", "al"));
    assert!(!same_text_ignoring_case("Ä", "ä"));
    assert!(!same_text_ignoring_case("@", "`"));
}

#[test]
fn operators_and_visibilities() {
    assert_eq!(BinOp::from_syn_item("+"), Some(BinOp::Add));
    assert_eq!(BinOp::from_syn_item("<<="), Some(BinOp::ShlAssign));
    assert_eq!(BinOp::from_syn_item("&&"), Some(BinOp::And));
    assert_eq!(BinOp::from_syn_item("&"), Some(BinOp::BitAnd));
    assert_eq!(BinOp::from_syn_item("<>"), None);
    assert_eq!(UnOp::from_syn_item("!"), Some(UnOp::Not));
    assert_eq!(UnOp::from_syn_item("*"), Some(UnOp::Deref));
    assert_eq!(UnOp::from_syn_item("-"), Some(UnOp::Neg));
    assert_eq!(UnOp::from_syn_item("+"), None);
    assert_eq!(Visibility::from_syn_visibility(""), Visibility::Inherited);
    assert_eq!(Visibility::from_syn_visibility("pub"), Visibility::Public);
    assert_eq!(Visibility::from_syn_visibility("pub (crate)"), Visibility::Restricted);
}

#[test]
fn return_types() {
    let at = Location {
        offset_start: 0,
        offset_end: 0,
        start_line: 1,
        start_column: 0,
        end_line: 1,
        end_column: 0,
    };
    let mut own = NodeType::from_syn_item(&SrcType { at, text: "Self".to_string() });
    assert!(own.is_self());
    own.replace_path("Token".to_string());
    assert_eq!(own, NodeType::Path("Token".to_string()));
    assert!(!own.is_self());
    let mut none = NodeType::Empty;
    assert!(!none.is_self());
    none.replace_path("Token".to_string());
    assert_eq!(none, NodeType::Empty);
}
