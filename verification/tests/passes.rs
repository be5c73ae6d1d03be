use stork_script::cache::{Cache, GlobalMap, ResolvedDefinition};
use stork_script::compile::ModuleIndex;
use stork_script::cst;
use stork_script::effects::AccessRequirement;
use stork_script::hir::{Expr, GlobalIdx, Identifier, Node, Operator};
use stork_script::lexer::{lex, Lexeme};
use stork_script::module_index::{Module, ModuleCollection};
use stork_script::name_scope::NameScope;
use stork_script::pretty_print;
use stork_script::report::{decimal, ErrorCode, Note, Report, ReportKind};
use stork_script::resolved_effect::{
    join, store_accesses, ComponentEffectKind, ResolvedEffect, ResolvedEffects, StoreAccess,
};
use stork_script::resolved_type::{InnerResolvedType, ResolvedType};
use stork_script::stork_std;
use stork_script::stork_value::StorkValue;
use stork_script::syntax::{SyntaxElement, SyntaxNode};
use stork_script::token::Token;

fn kinds(source: &str) -> Vec<(Token, usize, usize)> {
    lex(source)
        .iter()
        .map(|l: &Lexeme| (l.kind, l.start, l.end))
        .collect()
}

#[test]
fn lexemes_tile_the_source() {
    let source = "sys s { let a = 1.5e3; a += [R].x # done\n}";
    let lexemes = lex(source);
    let mut at = 0;
    for l in &lexemes {
        assert_eq!(l.start, at);
        assert!(l.end > l.start);
        at = l.end;
    }
    assert_eq!(at, source.len());
}

#[test]
fn keywords_win_over_identifiers_of_the_same_text() {
    assert_eq!(
        kinds("if iff else"),
        vec![
            (Token::IF, 0, 2),
            (Token::WHITE_SPACE, 2, 3),
            (Token::IDENT, 3, 6),
            (Token::WHITE_SPACE, 6, 7),
            (Token::ELSE, 7, 11),
        ]
    );
    for (text, kind) in [
        ("comp", Token::COMP),
        ("res", Token::RES),
        ("sys", Token::SYS),
        ("query", Token::QUERY),
        ("fn", Token::FN),
        ("while", Token::WHILE),
        ("let", Token::LET),
        ("del", Token::DEL),
        ("use", Token::USE),
        ("_x1", Token::IDENT),
    ] {
        assert_eq!(kinds(text), vec![(kind, 0, text.len())]);
    }
}

#[test]
fn numbers_take_only_complete_parts() {
    assert_eq!(kinds("0.25"), vec![(Token::NUMBER, 0, 4)]);
    assert_eq!(kinds("12e-3"), vec![(Token::NUMBER, 0, 5)]);
    assert_eq!(kinds("7E+10"), vec![(Token::NUMBER, 0, 5)]);
    assert_eq!(
        kinds("1.x"),
        vec![(Token::NUMBER, 0, 1), (Token::DOT, 1, 2), (Token::IDENT, 2, 3)]
    );
    assert_eq!(
        kinds("1e"),
        vec![(Token::NUMBER, 0, 1), (Token::IDENT, 1, 2)]
    );
    assert_eq!(
        kinds("01"),
        vec![(Token::NUMBER, 0, 1), (Token::NUMBER, 1, 2)]
    );
}

#[test]
fn operators_take_the_longest_match() {
    assert_eq!(
        kinds("+=+ ==<=<&&&||!"),
        vec![
            (Token::PLUSEQ, 0, 2),
            (Token::PLUS, 2, 3),
            (Token::WHITE_SPACE, 3, 4),
            (Token::EQEQ, 4, 6),
            (Token::LESSEQ, 6, 8),
            (Token::LESS, 8, 9),
            (Token::ANDAND, 9, 11),
            (Token::UNKNOWN, 11, 12),
            (Token::OROR, 12, 14),
            (Token::EXCLAMATION, 14, 15),
        ]
    );
}

#[test]
fn comments_run_to_the_end_of_the_line() {
    assert_eq!(
        kinds("# héllo\nx"),
        vec![(Token::COMMENT, 0, 9), (Token::IDENT, 9, 10)]
    );
    // Without a newline the `#` starts no comment.
    assert_eq!(
        kinds("#x"),
        vec![(Token::UNKNOWN, 0, 1), (Token::IDENT, 1, 2)]
    );
}

#[test]
fn a_character_that_starts_no_lexeme_is_unknown_as_a_whole() {
    assert_eq!(
        kinds("a€b"),
        vec![
            (Token::IDENT, 0, 1),
            (Token::UNKNOWN, 1, 4),
            (Token::IDENT, 4, 5)
        ]
    );
    assert_eq!(kinds(""), vec![]);
}

#[test]
fn binding_powers() {
    assert_eq!(Token::EQ.infix_binding_power(), Some((2, 1)));
    assert_eq!(Token::ANDAND.infix_binding_power(), Some((2, 1)));
    assert_eq!(Token::LESSEQ.infix_binding_power(), Some((3, 4)));
    assert_eq!(Token::MINUS.infix_binding_power(), Some((5, 6)));
    assert_eq!(Token::SLASH.infix_binding_power(), Some((7, 8)));
    assert_eq!(Token::LPAREN.infix_binding_power(), Some((9, 10)));
    assert_eq!(Token::IDENT.infix_binding_power(), None);
    assert_eq!(Token::EXCLAMATION.prefix_binding_power(), Some(8));
    assert_eq!(Token::STAR.prefix_binding_power(), None);
    assert!(Token::DOT.is_infix_op());
    assert!(!Token::SEMICOLON.is_infix_op());
    assert!(Token::LBRACKET.is_prefix_op());
    assert!(!Token::RBRACKET.is_prefix_op());
}

fn text(node: &SyntaxNode, out: &mut String) {
    for child in &node.children {
        match child {
            SyntaxElement::Node(n) => text(n, out),
            SyntaxElement::Token(t) => out.push_str(&t.text),
        }
    }
}

fn has_error_node(node: &SyntaxNode) -> bool {
    node.kind == Token::Error
        || node.children.iter().any(|c| match c {
            SyntaxElement::Node(n) => has_error_node(n),
            SyntaxElement::Token(_) => false,
        })
}

#[test]
fn malformed_sources_round_trip() {
    for source in [
        "",
        "sys",
        "sys {",
        "sys s { let = ; ) ] } }",
        "comp : {,,}",
        "res R: { a: { b: ",
        "use 12 sys { a(1, , 2 ",
        "€ sys { x = é }",
        "sys { A { a 1, : 2 } if { } else while }",
        "sys { -1+2*(-7+3) }",
    ] {
        let (tree, _) = cst::run(source, 0);
        assert_eq!(tree.kind, Token::Root);
        assert_eq!((tree.start, tree.end), (0, source.len()));
        let mut printed = String::new();
        text(&tree, &mut printed);
        assert_eq!(printed, source);
    }
}

#[test]
fn an_unexpected_token_gets_a_diagnostic_and_parsing_goes_on() {
    let (tree, errors) = cst::run("sys s { a b } sys t { }", 3);
    assert_eq!(errors.len(), 1);
    let e = &errors[0];
    assert_eq!(e.kind, ReportKind::Error);
    assert_eq!(e.code, ErrorCode::UnexpectedToken);
    assert_eq!(e.module, 3);
    assert_eq!(e.offset, 10);
    assert_eq!(e.label, Some((10, 11)));
    assert_eq!(e.expected, Some(Token::RBRACE));
    assert_eq!(e.message(), "Unexpected token");
    assert_eq!(e.help(), Some("Expected RBRACE".to_string()));
    assert_eq!(e.label_text(), Some("here".to_string()));
    assert!(e.note_text().is_none());
    // Both systems are in the tree.
    let systems = tree
        .children
        .iter()
        .filter(|c| matches!(c, SyntaxElement::Node(n) if n.kind == Token::System))
        .count();
    assert_eq!(systems, 2);
}

#[test]
fn a_token_that_starts_no_item_becomes_an_error_node() {
    let (tree, errors) = cst::run("12 sys { }", 0);
    assert_eq!(errors.len(), 1);
    assert_eq!(errors[0].code, ErrorCode::UnexpectedToken);
    assert_eq!(errors[0].offset, 0);
    assert_eq!(errors[0].label, Some((0, 2)));
    assert_eq!(errors[0].expected, None);
    assert_eq!(errors[0].help(), None);
    assert!(has_error_node(&tree));
    match &tree.children[0] {
        SyntaxElement::Node(n) => {
            assert_eq!(n.kind, Token::Error);
            assert_eq!((n.start, n.end), (0, 2));
        }
        SyntaxElement::Token(_) => panic!("a token"),
    }
}

#[test]
fn each_token_that_starts_no_item_gets_its_own_diagnostic() {
    let (tree, errors) = cst::run(") ) sys { }", 0);
    let at: Vec<usize> = errors.iter().map(|e| e.offset).collect();
    assert_eq!(at, vec![0, 2]);
    assert!(errors.iter().all(|e| e.code == ErrorCode::UnexpectedToken));
    let mut printed = String::new();
    text(&tree, &mut printed);
    assert_eq!(printed, ") ) sys { }");
}

#[test]
fn a_block_that_is_not_closed_gets_a_diagnostic() {
    let source = "sys {";
    let (tree, errors) = cst::run(source, 2);
    assert_eq!(errors.len(), 1);
    let e = &errors[0];
    assert_eq!(e.code, ErrorCode::UnexpectedToken);
    assert_eq!(e.module, 2);
    assert_eq!(e.offset, 5);
    assert_eq!(e.label, Some((5, 5)));
    assert_eq!(e.expected, Some(Token::RBRACE));
    let mut printed = String::new();
    text(&tree, &mut printed);
    assert_eq!(printed, source);
}

#[test]
fn a_bracket_that_is_not_closed_gets_a_diagnostic() {
    for (source, expected) in [
        ("sys { (1", Token::RPAREN),
        ("sys { [R", Token::RBRACKET),
        ("sys { f(1, 2", Token::RPAREN),
        ("sys { A { a: 1", Token::RBRACE),
        ("res R: { a: f32", Token::RBRACE),
        ("sys s", Token::LBRACE),
        ("use", Token::IDENT),
    ] {
        let (tree, errors) = cst::run(source, 0);
        assert!(!errors.is_empty(), "{source}");
        assert!(
            errors.iter().all(|e| e.code == ErrorCode::UnexpectedToken),
            "{source}"
        );
        assert_eq!(errors[0].expected, Some(expected), "{source}");
        assert_eq!(errors[0].offset, source.len(), "{source}");
        let mut printed = String::new();
        text(&tree, &mut printed);
        assert_eq!(printed, source);
    }
}

#[test]
fn a_source_without_a_fault_has_no_diagnostic() {
    for source in [
        "",
        "use std",
        "comp A: f32 res R: { a: f32, b: { c: bool } }",
        "sys s { let x = (1 + 2) * f(3, [R].a); query e { e[A] = A { a: 1 }; } }",
        "sys { if (a) { } else { while (b) { -1; } } }",
    ] {
        let (tree, errors) = cst::run(source, 0);
        assert!(errors.is_empty(), "{source}");
        assert!(!has_error_node(&tree), "{source}");
    }
}

#[test]
fn a_name_before_a_brace_opens_a_struct_literal() {
    // The condition takes the braces, and the body of the `if` is missing.
    let (_, errors) = cst::run("sys { if a { } }", 0);
    assert!(!errors.is_empty());
    assert_eq!(errors[0].expected, Some(Token::LBRACE));
    assert_eq!(errors[0].offset, 15);
}

fn error_nodes(node: &SyntaxNode, out: &mut Vec<(usize, usize)>) {
    if node.kind == Token::Error {
        out.push((node.start, node.end));
    }
    for child in &node.children {
        if let SyntaxElement::Node(n) = child {
            error_nodes(n, out);
        }
    }
}

#[test]
fn skipped_tokens_stand_in_one_error_node() {
    let source = "sys s { a b c } sys t { }";
    let (tree, errors) = cst::run(source, 0);
    assert_eq!(errors.len(), 1);
    assert_eq!(errors[0].offset, 10);
    assert_eq!(errors[0].expected, Some(Token::RBRACE));
    let mut found = Vec::new();
    error_nodes(&tree, &mut found);
    // `b c ` up to the closing brace.
    assert_eq!(found, vec![(10, 14)]);
    let mut printed = String::new();
    text(&tree, &mut printed);
    assert_eq!(printed, source);
}

fn module(source: &str) -> Module {
    Module::from_source(source, 0).unwrap()
}

fn nodes(m: &Module) -> Vec<&Node> {
    (0..m.len() as u32).map(|i| m.get_node(i)).collect()
}

#[test]
fn operators_become_calls() {
    let m = module("sys { -a * 2 }");
    assert!(m.parser_errors.is_empty());
    let all = nodes(&m);
    // -a
    assert!(matches!(
        all[0],
        Node::Expr(Expr::Identifier(Identifier::Operator(Operator::Neg)))
    ));
    assert!(matches!(all[1], Node::Expr(Expr::Identifier(Identifier::Name(n))) if n == "a"));
    assert!(matches!(all[2], Node::Expr(Expr::FunctionCall { function: 0, args }) if args == &vec![1]));
    // 2
    assert!(matches!(all[3], Node::Expr(Expr::Number(n)) if n == "2"));
    assert!(matches!(
        all[4],
        Node::Expr(Expr::Identifier(Identifier::Operator(Operator::Mul)))
    ));
    assert!(matches!(all[5], Node::Expr(Expr::FunctionCall { function: 4, args }) if args == &vec![2, 3]));
    assert!(matches!(all[6], Node::Expr(Expr::Block(ids)) if ids == &vec![5]));
    assert!(matches!(all[7], Node::System(s) if s.ident.is_none() && s.block == 6));
    assert_eq!(m.top_level, vec![7]);
    assert_eq!(m.span(5), Some((6, 13)));
    assert_eq!(m.span(7), Some((0, 14)));
}

#[test]
fn parentheses_make_no_node() {
    let m = module("sys { 2 * ((1 + 3)) }");
    assert!(m.parser_errors.is_empty());
    let all = nodes(&m);
    assert!(matches!(all[0], Node::Expr(Expr::Number(n)) if n == "2"));
    assert!(matches!(all[1], Node::Expr(Expr::Number(n)) if n == "1"));
    assert!(matches!(all[2], Node::Expr(Expr::Number(n)) if n == "3"));
    assert!(matches!(
        all[3],
        Node::Expr(Expr::Identifier(Identifier::Operator(Operator::Add)))
    ));
    assert!(matches!(all[4], Node::Expr(Expr::FunctionCall { function: 3, args }) if args == &vec![1, 2]));
    assert!(matches!(
        all[5],
        Node::Expr(Expr::Identifier(Identifier::Operator(Operator::Mul)))
    ));
    assert!(matches!(all[6], Node::Expr(Expr::FunctionCall { function: 5, args }) if args == &vec![0, 4]));
    assert!(matches!(all[7], Node::Expr(Expr::Block(ids)) if ids == &vec![6]));
    assert_eq!(all.len(), 9);
    // The sum has the range of the sum, not of the parentheses.
    assert_eq!(m.span(4), Some((12, 17)));
}

#[test]
fn empty_parentheses_are_a_missing_expression() {
    let m = module("sys { () }");
    let all = nodes(&m);
    assert!(matches!(all[0], Node::Expr(Expr::Poison)));
    assert_eq!(m.span(0), None);
    assert!(m
        .parser_errors
        .iter()
        .any(|e| e.code == ErrorCode::MissingSyntax));
}

#[test]
fn compound_assignment_is_lowered_to_an_assignment() {
    for (op, operator) in [
        ("+=", Operator::Add),
        ("-=", Operator::Sub),
        ("*=", Operator::Mul),
        ("/=", Operator::Div),
    ] {
        let m = module(&format!("sys {{ a {op} 1 }}"));
        let all = nodes(&m);
        assert!(matches!(all[0], Node::Expr(Expr::Identifier(Identifier::Name(n))) if n == "a"));
        assert!(matches!(all[1], Node::Expr(Expr::Number(n)) if n == "1"));
        assert!(
            matches!(all[2], Node::Expr(Expr::Identifier(Identifier::Operator(o))) if *o == operator)
        );
        assert!(matches!(all[3], Node::Expr(Expr::FunctionCall { function: 2, args }) if args == &vec![0, 1]));
        assert!(matches!(
            all[4],
            Node::Expr(Expr::Assign { lvalue: 0, expr: 3 })
        ));
    }
}

#[test]
fn a_missing_part_becomes_poison_with_a_diagnostic() {
    let m = module("sys { let x = }");
    // The parser reports the `}` where an expression should stand, and
    // lowering reports the missing value.
    let codes: Vec<ErrorCode> = m.parser_errors.iter().map(|e| e.code).collect();
    assert_eq!(
        codes,
        vec![ErrorCode::UnexpectedToken, ErrorCode::MissingSyntax]
    );
    let missing = &m.parser_errors[1];
    assert_eq!(missing.offset, 0);
    assert_eq!(missing.label, None);
    assert_eq!(missing.message(), "");
    let all = nodes(&m);
    assert!(matches!(all[1], Node::Expr(Expr::Poison)));
    assert!(matches!(
        all[2],
        Node::Expr(Expr::Let { lvalue: 0, expr: 1 })
    ));
    assert_eq!(m.span(1), None);
}

#[test]
fn an_item_that_lacks_a_part_becomes_poison() {
    let m = module("comp A res B: f32 use sys");
    let all = nodes(&m);
    assert_eq!(all.len(), 4);
    assert!(matches!(all[0], Node::Expr(Expr::Poison)));
    assert!(matches!(all[1], Node::TypeIdent(t) if t.0 == "f32"));
    assert!(matches!(all[2], Node::Resource(f) if f.ident == "B" && f.ty == 1));
    assert!(matches!(all[3], Node::Expr(Expr::Poison)));
    assert_eq!(m.top_level, vec![0, 2, 3]);
    assert_eq!(m.span(0), None);
    // The parser misses the name after `use`; each item that is left
    // without a part is reported where it is lowered.
    let codes: Vec<ErrorCode> = m.parser_errors.iter().map(|e| e.code).collect();
    assert_eq!(
        codes,
        vec![
            ErrorCode::UnexpectedToken,
            ErrorCode::MissingSyntax,
            ErrorCode::MissingSyntax
        ]
    );
}

#[test]
fn every_item_yields_a_node() {
    for (source, items) in [
        ("comp A", 1),
        ("res", 1),
        ("use", 1),
        ("comp A: res B", 2),
        ("comp A: f32 comp", 2),
        ("comp A: f32 use sys { }", 2),
    ] {
        let m = module(source);
        assert_eq!(m.top_level.len(), items, "{source}");
        assert!(!m.parser_errors.is_empty(), "{source}");
        assert!(
            m.parser_errors
                .iter()
                .any(|e| e.code == ErrorCode::MissingSyntax),
            "{source}"
        );
        assert!(
            m.top_level
                .iter()
                .any(|i| matches!(m.get_node(*i), Node::Expr(Expr::Poison))),
            "{source}"
        );
    }
}

#[test]
fn a_query_without_a_name_becomes_poison_with_a_diagnostic() {
    let m = module("sys { query { 1 } }");
    let all = nodes(&m);
    assert!(matches!(all[0], Node::Expr(Expr::Poison)));
    assert_eq!(m.span(0), Some((6, 17)));
    assert!(matches!(all[1], Node::Expr(Expr::Block(ids)) if ids == &vec![0]));
    let codes: Vec<ErrorCode> = m.parser_errors.iter().map(|e| e.code).collect();
    assert_eq!(codes, vec![ErrorCode::MissingSyntax]);
}

#[test]
fn a_module_with_poison_is_not_run() {
    let mut index = ModuleIndex::new();
    index
        .add_source("main".to_string(), "sys s { query { 1 } }")
        .unwrap();
    index.add_module("std".to_string(), stork_std::new_module());
    index.compile();
    assert!(index.has_errors());
}

#[test]
fn a_system_without_a_body_has_an_empty_block() {
    for source in ["sys", "sys s", "sys s {"] {
        let m = module(source);
        assert!(!m.parser_errors.is_empty(), "{source}");
        let all = nodes(&m);
        assert_eq!(all.len(), 2, "{source}");
        assert!(matches!(all[0], Node::Expr(Expr::Block(ids)) if ids.is_empty()));
        assert!(matches!(all[1], Node::System(s) if s.block == 0));
        assert_eq!(m.top_level, vec![1]);
    }
}

#[test]
fn struct_types_keep_the_fields_that_have_a_type() {
    let m = module("res B: { f1: f32, f3, f2: { g: f32 } }");
    let all = nodes(&m);
    match all.last().unwrap() {
        Node::Resource(f) => match all[f.ty as usize] {
            Node::Struct(s) => {
                let names: Vec<&str> = s.0.iter().map(|f| f.ident.as_str()).collect();
                assert_eq!(names, vec!["f1", "f2"]);
                assert!(matches!(all[s.0[1].ty as usize], Node::Struct(inner) if inner.0.len() == 1));
            }
            other => panic!("not a struct: {:?}", other),
        },
        other => panic!("not a resource: {:?}", other),
    }
}

#[test]
fn top_level_names_are_those_of_named_items() {
    let m = module("comp A: f32 sys { } sys run { } res A: f32 use std");
    let names: Vec<(String, u32)> = m
        .top_level_names()
        .into_iter()
        .map(|(name, idx)| match name {
            Identifier::Name(n) => (n, idx),
            Identifier::Operator(_) => panic!("an operator"),
        })
        .collect();
    assert_eq!(
        names,
        vec![
            ("A".to_string(), 1),
            ("run".to_string(), 5),
            ("A".to_string(), 7)
        ]
    );
    assert_eq!(m.top_level_ids(), m.top_level);
}

fn compile(sources: &[(&str, &str)]) -> ModuleIndex {
    let mut index = ModuleIndex::new();
    for (path, source) in sources {
        index.add_source(path.to_string(), source).unwrap();
    }
    index.add_module("std".to_string(), stork_std::new_module());
    index.compile();
    index
}

fn errors(index: &ModuleIndex, m: usize) -> Vec<ErrorCode> {
    index
        .cache
        .errors
        .get_ref(m)
        .map(|es| es.iter().map(|e| e.code).collect())
        .unwrap_or_default()
}

/// The address of the `n`-th node of module `m` that is the name `name`.
fn name_node(index: &ModuleIndex, m: usize, name: &str, n: usize) -> GlobalIdx {
    let module = index.modules.get_ref(m);
    let found: Vec<u32> = (0..module.len() as u32)
        .filter(|i| {
            matches!(module.get_node(*i), Node::Expr(Expr::Identifier(Identifier::Name(x))) if x == name)
        })
        .collect();
    GlobalIdx(m, found[n])
}

fn find(index: &ModuleIndex, m: usize, pred: impl Fn(&Node) -> bool) -> GlobalIdx {
    let module = index.modules.get_ref(m);
    let found: Vec<u32> = (0..module.len() as u32)
        .filter(|i| pred(module.get_node(*i)))
        .collect();
    assert_eq!(found.len(), 1);
    GlobalIdx(m, found[0])
}

#[test]
fn a_name_declared_in_a_block_is_unknown_after_it() {
    let index = compile(&[("main", "use std sys s { { let x = 1; x }; x }")]);
    assert_eq!(errors(&index, 0), vec![ErrorCode::NameNotFound]);
    let declared = name_node(&index, 0, "x", 0);
    let inside = name_node(&index, 0, "x", 1);
    let after = name_node(&index, 0, "x", 2);
    assert_eq!(
        index.cache.names.get(inside),
        Some(ResolvedDefinition(declared))
    );
    assert_eq!(index.cache.names.get(after), None);
    let report = &index.cache.errors.get_ref(0).unwrap()[0];
    assert_eq!(report.message(), "Couldn't find name");
    assert_eq!(report.label, Some((34, 35)));
    assert_eq!(report.offset, 34);
}

#[test]
fn an_outer_name_is_visible_again_after_the_block() {
    let index = compile(&[(
        "main",
        "use std sys s { let x = 1; { let x = 2; x }; x }",
    )]);
    assert!(!index.has_errors());
    let outer = name_node(&index, 0, "x", 0);
    let inner = name_node(&index, 0, "x", 1);
    let inside = name_node(&index, 0, "x", 2);
    let after = name_node(&index, 0, "x", 3);
    assert_eq!(
        index.cache.names.get(inside),
        Some(ResolvedDefinition(inner))
    );
    assert_eq!(index.cache.names.get(after), Some(ResolvedDefinition(outer)));
}

#[test]
fn an_import_brings_the_names_of_the_module() {
    let index = compile(&[
        ("main", "use other sys s { [Shared] }"),
        ("other", "res Shared: f32 use std"),
    ]);
    // `main` does not import `std`, and imports are not handed on: but
    // the name of the resource is known.
    assert!(!index.has_errors());
    let shared = name_node(&index, 0, "Shared", 0);
    let def = index.cache.names.get(shared).unwrap().definition();
    assert_eq!(def.module(), 1);
    assert!(matches!(index.modules.get_node(def), Node::Resource(f) if f.ident == "Shared"));
}

#[test]
fn unknown_names_of_each_kind_get_their_diagnostic() {
    let index = compile(&[(
        "main",
        "use nowhere res R: nothing sys s { Nothing { a: 1 } }",
    )]);
    assert_eq!(
        errors(&index, 0),
        vec![
            ErrorCode::NameNotFound,
            ErrorCode::TypeNameNotFound,
            ErrorCode::StructNameNotFound
        ]
    );
    let es = index.cache.errors.get_ref(0).unwrap();
    assert_eq!(es[1].message(), "Couldn't find name of type");
    assert_eq!(es[2].message(), "Couldn't find name of a type");
}

#[test]
fn a_type_that_refers_to_itself_is_reported() {
    let index = compile(&[("main", "use std comp A: B comp B: A")]);
    assert!(index.has_errors());
    assert!(errors(&index, 0).contains(&ErrorCode::RecursiveType));
    let es = index.cache.errors.get_ref(0).unwrap();
    let report = es
        .iter()
        .find(|e| e.code == ErrorCode::RecursiveType)
        .unwrap();
    assert_eq!(report.message(), "Found recursive type");
    let a = find(&index, 0, |n| matches!(n, Node::Component(f) if f.ident == "A"));
    assert!(matches!(
        index.cache.types.get_ref(a).unwrap().inner,
        InnerResolvedType::Poison
    ));

    let index = compile(&[("main", "use std comp List: { next: List }")]);
    assert!(errors(&index, 0).contains(&ErrorCode::RecursiveType));
}

#[test]
fn types_of_expressions() {
    let index = compile(&[(
        "main",
        "use std
         res R: { a: f32, b: bool }
         sys s { let n = 1 + 2; let c = n < 3; [R].a = n; [R].b }",
    )]);
    assert!(!index.has_errors());
    let n = name_node(&index, 0, "n", 0);
    let c = name_node(&index, 0, "c", 0);
    assert!(matches!(
        index.cache.types.get_ref(n).unwrap().inner,
        InnerResolvedType::F32
    ));
    assert!(matches!(
        index.cache.types.get_ref(c).unwrap().inner,
        InnerResolvedType::Bool
    ));
    let r = find(&index, 0, |n| matches!(n, Node::Resource(_)));
    let ty = index.cache.types.get_ref(r).unwrap();
    assert!(ty.component_or_resource);
    match &ty.inner {
        InnerResolvedType::Struct { fields } => {
            assert_eq!(fields.len(), 2);
            assert_eq!(fields[0].0, "a");
            assert!(matches!(fields[0].1, InnerResolvedType::F32));
            assert_eq!(fields[1].0, "b");
            assert!(matches!(fields[1].1, InnerResolvedType::Bool));
        }
        other => panic!("not a struct: {:?}", other),
    }
    let block = find(&index, 0, |n| matches!(n, Node::Expr(Expr::Block(_))));
    assert!(matches!(
        index.cache.types.get_ref(block).unwrap().inner,
        InnerResolvedType::Bool
    ));
}

fn type_errors(body: &str) -> Vec<Report> {
    let source = format!(
        "use std
         res R: f32
         res S: {{ a: f32 }}
         comp C: f32
         sys s {{ {body} }}"
    );
    let index = compile(&[("main", &source)]);
    assert!(index.modules.get_ref(0).parser_errors.is_empty());
    index
        .cache
        .errors
        .get_ref(0)
        .map(|es| es.iter().map(|e| e.clone()).collect())
        .unwrap_or_default()
}

#[test]
fn each_type_error_has_its_diagnostic() {
    let one = |body: &str| {
        let es = type_errors(body);
        assert_eq!(es.len(), 1, "{body}: {es:?}");
        es.into_iter().next().unwrap()
    };

    let e = one("let a = 1; a(2)");
    assert_eq!(e.code, ErrorCode::CallRequiresFunction);
    assert_eq!(e.message(), "Call expression requires function");
    assert_eq!(e.note_text(), Some("instead it has type 'f32'".to_string()));

    let e = one("print(1, 2, 3)");
    assert_eq!(e.code, ErrorCode::TooManyArguments);
    assert_eq!(e.label_text(), Some("in this function call".to_string()));
    assert_eq!(e.note_text(), Some("function takes 1 arguments".to_string()));

    let e = one("print()");
    assert_eq!(e.code, ErrorCode::TooFewArguments);
    assert_eq!(e.message(), "Too few arguments");

    let e = one("print(1 < 2)");
    assert_eq!(e.code, ErrorCode::TypeMismatch);
    assert_eq!(e.message(), "Expected 'f32'");
    assert_eq!(e.note_text(), Some("found 'bool'".to_string()));

    let e = one("[S].b");
    assert_eq!(e.code, ErrorCode::UnknownField);

    let e = one("[R].a");
    assert_eq!(e.code, ErrorCode::NotAStruct);
    assert_eq!(e.message(), "Only structs contain fields");

    let e = one("[S].1");
    assert_eq!(e.code, ErrorCode::MemberNotName);

    let e = one("if 1 { }");
    assert_eq!(e.code, ErrorCode::ExpectedTruthy);
    assert_eq!(e.message(), "Expected 'bool' or ECS access");
    assert_eq!(e.note_text(), Some("found 'f32'".to_string()));

    let e = one("let a = 1; del a");
    assert_eq!(e.code, ErrorCode::NotFromStore);
    assert_eq!(e.message(), "Type should be a component");

    let e = one("[R] = 1 < 2");
    assert_eq!(e.code, ErrorCode::TypeMismatch);

    // A condition may be an access to the store, whatever its type.
    assert!(type_errors("if [R] { } while ![S] { }").is_empty());
    assert!(type_errors("query e { if e[C] { } }").is_empty());
    // A query variable is an entity.
    let e = one("let a = 1; a[C]");
    assert_eq!(e.code, ErrorCode::TypeMismatch);
    assert_eq!(e.message(), "Expected 'Entity'");
}

#[test]
fn function_types_are_shown_with_their_parts() {
    let ty = InnerResolvedType::Function {
        params: vec![InnerResolvedType::F32, InnerResolvedType::Bool],
        ret: Box::new(InnerResolvedType::Unit),
    };
    assert_eq!(ty.display(), "'fn('f32', 'bool') -> '()''");
    assert_eq!(InnerResolvedType::Entity.display(), "'Entity'");
    assert_eq!(InnerResolvedType::Poison.display(), "'Unknown'");
    assert!(ty.same(&ty.clone()));
    assert!(!ty.same(&InnerResolvedType::Unit));
    let other = InnerResolvedType::Function {
        params: vec![InnerResolvedType::F32],
        ret: Box::new(InnerResolvedType::Unit),
    };
    assert!(!ty.same(&other));
    let a = InnerResolvedType::Struct {
        fields: vec![("a".to_string(), InnerResolvedType::F32)],
    };
    let b = InnerResolvedType::Struct {
        fields: vec![("b".to_string(), InnerResolvedType::F32)],
    };
    assert!(a.same(&a.clone()));
    assert!(!a.same(&b));
    assert_eq!(decimal(0), "0");
    assert_eq!(decimal(1203), "1203");
}

#[test]
fn resolved_type_marks() {
    let p = ResolvedType::poison();
    assert!(p.inner.is_poison());
    assert!(!p.component_or_resource);
    let t = ResolvedType::from_inner(InnerResolvedType::F32).with_from_ecs();
    assert!(t.component_or_resource);
    assert!(matches!(t.inner, InnerResolvedType::F32));
    assert!(ResolvedType::default().inner.is_poison());
    assert!(InnerResolvedType::Recursion.is_recursion());
}

fn effects_of(index: &ModuleIndex, node: GlobalIdx) -> Vec<ResolvedEffect> {
    index.cache.effects.get_ref(node).unwrap().to_vec()
}

#[test]
fn the_access_set_of_a_query() {
    let index = compile(&[(
        "main",
        "use std
         comp A: f32
         comp B: f32
         sys s { query e { e[A] = 1; let b = e[B]; } }",
    )]);
    assert!(!index.has_errors());
    let a = find(&index, 0, |n| matches!(n, Node::Component(f) if f.ident == "A"));
    let b = find(&index, 0, |n| matches!(n, Node::Component(f) if f.ident == "B"));
    let query = find(&index, 0, |n| matches!(n, Node::Expr(Expr::Query { .. })));
    let set = index.cache.effects.get_ref(query).unwrap();
    let write = ResolvedEffect::Access {
        component: a,
        kind: ComponentEffectKind::WriteComponent { entity: query },
    };
    let read = ResolvedEffect::Access {
        component: b,
        kind: ComponentEffectKind::ReadComponent { entity: query },
    };
    assert_eq!(set.to_vec().len(), 2);
    assert!(set.contains(&write));
    assert!(set.contains(&read));
    // The system needs what its query needs.
    let system = find(&index, 0, |n| matches!(n, Node::System(_)));
    let of_system = effects_of(&index, system);
    assert_eq!(of_system.len(), 2);
}

#[test]
fn the_body_of_a_query_is_read() {
    let index = compile(&[(
        "main",
        "use std
         comp A: f32
         comp B: f32
         sys s { query e { e[A] = 1; e[B]; } }",
    )]);
    let a = find(&index, 0, |n| matches!(n, Node::Component(f) if f.ident == "A"));
    let b = find(&index, 0, |n| matches!(n, Node::Component(f) if f.ident == "B"));
    let query = find(&index, 0, |n| matches!(n, Node::Expr(Expr::Query { .. })));
    let set = effects_of(&index, query);
    assert_eq!(set.len(), 2);
    assert!(set.contains(&ResolvedEffect::Access {
        component: a,
        kind: ComponentEffectKind::WriteComponent { entity: query },
    }));
    assert!(set.contains(&ResolvedEffect::Access {
        component: b,
        kind: ComponentEffectKind::ReadComponent { entity: query },
    }));
}

#[test]
fn a_statement_that_is_not_the_last_is_not_read() {
    let index = compile(&[(
        "main",
        "use std
         comp A: f32
         comp B: f32
         sys s { query e { e[B]; e[A] = 1 } }",
    )]);
    let a = find(&index, 0, |n| matches!(n, Node::Component(f) if f.ident == "A"));
    let query = find(&index, 0, |n| matches!(n, Node::Expr(Expr::Query { .. })));
    assert_eq!(
        effects_of(&index, query),
        vec![ResolvedEffect::Access {
            component: a,
            kind: ComponentEffectKind::WriteComponent { entity: query },
        }]
    );
}

#[test]
fn effects_of_each_construct() {
    let index = compile(&[(
        "main",
        "use std
         comp A: f32
         res R: f32
         res S: { a: f32 }
         sys read { print([R]) }
         sys write { [S].a = 1 }
         sys add { let [R] = 1 }
         sys remove { query e { del e[A] } }
         sys test { if [R] { } }
         sys has { query e { if e[A] { } } }
         sys not { print(![R]) }",
    )]);
    let def = |name: &str| {
        find(&index, 0, |n| {
            matches!(n, Node::Resource(f) | Node::Component(f) if f.ident == name)
        })
    };
    let system = |name: &str| {
        find(
            &index,
            0,
            |n| matches!(n, Node::System(s) if s.ident.as_deref() == Some(name)),
        )
    };
    let query = |n: usize| {
        let module = index.modules.get_ref(0);
        let all: Vec<u32> = (0..module.len() as u32)
            .filter(|i| matches!(module.get_node(*i), Node::Expr(Expr::Query { .. })))
            .collect();
        GlobalIdx(0, all[n])
    };
    assert_eq!(
        effects_of(&index, system("read")),
        vec![ResolvedEffect::Access {
            component: def("R"),
            kind: ComponentEffectKind::ReadResource
        }]
    );
    assert_eq!(
        effects_of(&index, system("write")),
        vec![ResolvedEffect::Access {
            component: def("S"),
            kind: ComponentEffectKind::WriteResource
        }]
    );
    assert_eq!(
        effects_of(&index, system("add")),
        vec![ResolvedEffect::StructuralChange { entity: None }]
    );
    assert_eq!(
        effects_of(&index, system("remove")),
        vec![ResolvedEffect::StructuralChange {
            entity: Some(query(0))
        }]
    );
    assert_eq!(effects_of(&index, system("test")), vec![]);
    assert_eq!(
        effects_of(&index, system("has")),
        vec![ResolvedEffect::Access {
            component: def("A"),
            kind: ComponentEffectKind::HasComponent { entity: query(1) }
        }]
    );
    assert_eq!(effects_of(&index, system("not")), vec![]);
}

#[test]
fn an_unresolved_name_gives_an_empty_access_set() {
    let index = compile(&[("main", "use std sys s { [Nowhere] = 1 }")]);
    assert!(index.has_errors());
    let system = find(&index, 0, |n| matches!(n, Node::System(_)));
    assert_eq!(effects_of(&index, system), vec![]);
}

#[test]
fn requirement_to_effect() {
    let c = GlobalIdx(1, 2);
    let e = GlobalIdx(0, 7);
    assert_eq!(AccessRequirement::Nothing.component_effect(c, e), None);
    assert_eq!(
        AccessRequirement::Has.component_effect(c, e),
        Some(ResolvedEffect::Access {
            component: c,
            kind: ComponentEffectKind::HasComponent { entity: e }
        })
    );
    assert_eq!(
        AccessRequirement::StructuralChange.component_effect(c, e),
        Some(ResolvedEffect::StructuralChange { entity: Some(e) })
    );
    assert_eq!(AccessRequirement::Has.resource_effect(c), None);
    assert_eq!(AccessRequirement::Nothing.resource_effect(c), None);
    assert_eq!(
        AccessRequirement::Write.resource_effect(c),
        Some(ResolvedEffect::Access {
            component: c,
            kind: ComponentEffectKind::WriteResource
        })
    );
    assert_eq!(
        AccessRequirement::StructuralChange.resource_effect(c),
        Some(ResolvedEffect::StructuralChange { entity: None })
    );
    assert_eq!(AccessRequirement::Has.for_base(), AccessRequirement::Read);
    assert_eq!(AccessRequirement::Write.for_base(), AccessRequirement::Write);
}

#[test]
fn store_access_of_effects() {
    let c = GlobalIdx(1, 2);
    let e = GlobalIdx(0, 7);
    let access = |kind| ResolvedEffect::Access { component: c, kind }.store_access();
    assert_eq!(
        access(ComponentEffectKind::ReadComponent { entity: e }),
        StoreAccess::ReadComponent(c)
    );
    assert_eq!(
        access(ComponentEffectKind::WriteComponent { entity: e }),
        StoreAccess::WriteComponent(c)
    );
    assert_eq!(
        access(ComponentEffectKind::HasComponent { entity: e }),
        StoreAccess::Nothing
    );
    assert_eq!(
        access(ComponentEffectKind::ReadResource),
        StoreAccess::ReadResource(c)
    );
    assert_eq!(
        access(ComponentEffectKind::WriteResource),
        StoreAccess::WriteResource(c)
    );
    assert_eq!(
        ResolvedEffect::StructuralChange { entity: Some(e) }.store_access(),
        StoreAccess::AllComponents
    );
    assert_eq!(
        ResolvedEffect::StructuralChange { entity: None }.store_access(),
        StoreAccess::AllResources
    );
}

#[test]
fn store_accesses_of_an_access_set() {
    let c = GlobalIdx(1, 2);
    let d = GlobalIdx(1, 3);
    let e = GlobalIdx(0, 7);
    let mut set = ResolvedEffects::new();
    assert!(store_accesses(&set).is_empty());
    for kind in [
        ComponentEffectKind::ReadComponent { entity: e },
        ComponentEffectKind::HasComponent { entity: e },
        ComponentEffectKind::WriteResource,
    ] {
        set.insert(ResolvedEffect::Access { component: c, kind });
    }
    set.insert(ResolvedEffect::Access {
        component: d,
        kind: ComponentEffectKind::WriteComponent { entity: e },
    });
    set.insert(ResolvedEffect::StructuralChange { entity: None });
    let all = store_accesses(&set);
    for access in [
        StoreAccess::ReadComponent(c),
        StoreAccess::Nothing,
        StoreAccess::WriteResource(c),
        StoreAccess::WriteComponent(d),
        StoreAccess::AllResources,
    ] {
        assert!(all.contains(&access), "{:?}", access);
    }
    assert!(!all.contains(&StoreAccess::AllComponents));
    assert!(!all.contains(&StoreAccess::ReadComponent(d)));
    assert!(!all.contains(&StoreAccess::WriteResource(d)));
}

#[test]
fn join_is_the_union() {
    let x = ResolvedEffect::StructuralChange { entity: None };
    let y = ResolvedEffect::Access {
        component: GlobalIdx(0, 1),
        kind: ComponentEffectKind::ReadResource,
    };
    let mut a = ResolvedEffects::new();
    a.insert(x);
    let mut b = ResolvedEffects::new();
    b.insert(x);
    b.insert(y);
    let joined = join(Some(a), Some(b)).unwrap();
    assert_eq!(joined.to_vec().len(), 2);
    assert!(joined.contains(&x) && joined.contains(&y));
    assert_eq!(join(None, None).unwrap().to_vec().len(), 0);
    let mut c = ResolvedEffects::new();
    c.insert(y);
    c.insert(y);
    assert_eq!(join(None, Some(c)).unwrap().to_vec(), vec![y]);
}

#[test]
fn global_map_keeps_what_it_is_given() {
    let mut map: GlobalMap<u32> = GlobalMap::new();
    let a = GlobalIdx(0, 1);
    // Another module, the same index; and the same module, another index.
    let b = GlobalIdx(1, 1);
    let c = GlobalIdx(0, 2);
    map.set(a, 10);
    map.set(b, 20);
    assert_eq!(map.get(a), Some(10));
    assert_eq!(map.get(b), Some(20));
    assert_eq!(map.get(c), None);
    assert_eq!(map.get_ref(a), Some(&10));
    assert!(map.contains(b) && !map.contains(c));
    map.set(a, 11);
    assert_eq!(map.get(a), Some(11));
    // What is written through the reference is kept, for that key alone.
    *map.get_mut(b).unwrap() += 5;
    assert_eq!(map.get(b), Some(25));
    assert_eq!(map.get(a), Some(11));
    assert!(map.get_mut(c).is_none());
    assert_eq!(map.take(a), Some(11));
    assert_eq!(map.get(a), None);

    let mut lists: GlobalMap<Vec<u8>, usize> = GlobalMap::new();
    lists.push(3, 1);
    lists.push(3, 2);
    lists.push(4, 9);
    lists.append(3, vec![7, 8]);
    assert_eq!(lists.get_ref(3), Some(&vec![1, 2, 7, 8]));
    assert_eq!(lists.get_ref(4), Some(&vec![9]));
    assert_eq!(lists.get_ref(5), None);
}

#[test]
fn global_idx_parts() {
    let g = GlobalIdx::new(3, 9);
    assert_eq!(g.module(), 3);
    assert_eq!(g.idx(), 9);
    assert_eq!(g.destruct(), (3, 9));
    assert_eq!(GlobalIdx::from_index(2, 77), GlobalIdx(2, 77));
    assert_eq!(ResolvedDefinition(g).definition(), g);
}

#[test]
fn name_scope_shadows_and_restores() {
    let x = || Identifier::Name("x".to_string());
    let y = || Identifier::Name("y".to_string());
    let d = |i: u32| ResolvedDefinition(GlobalIdx(0, i));
    let mut scope = NameScope::new();
    assert_eq!(scope.depth(), 1);
    assert_eq!(scope.resolve(&x()), None);
    scope.declare(x(), d(1));
    scope.declare(y(), d(2));
    scope.push_scope();
    assert_eq!(scope.resolve(&x()), Some(d(1)));
    scope.declare(x(), d(3));
    scope.declare(x(), d(4));
    assert_eq!(scope.resolve(&x()), Some(d(4)));
    assert_eq!(scope.resolve(&y()), Some(d(2)));
    scope.pop_scope();
    assert_eq!(scope.resolve(&x()), Some(d(1)));
    scope.declare(Identifier::Operator(Operator::Add), d(5));
    assert_eq!(
        scope.resolve(&Identifier::Operator(Operator::Add)),
        Some(d(5))
    );
    assert_eq!(scope.resolve(&Identifier::Operator(Operator::Sub)), None);

    scope.push_scope();
    scope.declare(x(), d(6));
    let flat = scope.into_ident_map();
    let last = |name: &Identifier| {
        flat.iter()
            .rev()
            .find(|(n, _)| n == name)
            .map(|(_, def)| *def)
    };
    assert_eq!(last(&x()), Some(d(6)));
    assert_eq!(last(&y()), Some(d(2)));
}

#[test]
fn values_are_read_and_written_by_path() {
    let n = |v: u32| StorkValue::Number(v);
    let mut value = StorkValue::Struct(vec![
        ("a".to_string(), n(1)),
        (
            "b".to_string(),
            StorkValue::Struct(vec![("c".to_string(), n(2)), ("d".to_string(), n(3))]),
        ),
    ]);
    let path = |names: &[&str]| names.iter().map(|s| s.to_string()).collect::<Vec<_>>();
    assert!(matches!(
        value.subscript(&path(&["b", "d"])),
        Some(StorkValue::Number(3))
    ));
    assert!(matches!(value.subscript(&path(&[])), Some(StorkValue::Struct(_))));
    assert!(value.subscript(&path(&["b", "x"])).is_none());
    assert!(value.subscript(&path(&["a", "c"])).is_none());
    assert!(matches!(
        value.field(&"a".to_string()),
        Some(StorkValue::Number(1))
    ));

    assert!(value.apply(&path(&["b", "c"]), n(9)));
    assert!(matches!(
        value.subscript(&path(&["b", "c"])),
        Some(StorkValue::Number(9))
    ));
    assert!(matches!(
        value.subscript(&path(&["b", "d"])),
        Some(StorkValue::Number(3))
    ));
    // A path that does not exist changes nothing.
    assert!(!value.apply(&path(&["b", "x"]), n(0)));
    assert!(matches!(
        value.subscript(&path(&["b", "c"])),
        Some(StorkValue::Number(9))
    ));
    // A copy is independent of what it was copied from.
    let copy = value.clone();
    assert!(value.apply(&path(&["a"]), n(5)));
    assert!(matches!(
        copy.subscript(&path(&["a"])),
        Some(StorkValue::Number(1))
    ));
    assert!(value.apply(&path(&[]), StorkValue::Unit));
    assert!(matches!(value, StorkValue::Unit));
    assert_eq!(StorkValue::Bool(true).as_bool(), Some(true));
    assert_eq!(StorkValue::Entity(4).as_entity(), Some(4));
    assert_eq!(n(1).as_bool(), None);
}

#[test]
fn the_module_of_builtins() {
    let std = stork_std::new_module();
    assert_eq!(std.len(), 16);
    assert_eq!(std.top_level, (0..16).collect::<Vec<u32>>());
    match std.get_node(0) {
        Node::BuiltinFunction { identifier, ty, .. } => {
            assert_eq!(identifier, &Identifier::Operator(Operator::Add));
            assert_eq!(ty.inner.display(), "'fn('f32', 'f32') -> 'f32''");
        }
        other => panic!("not a function: {:?}", other),
    }
    match std.get_node(13) {
        Node::BuiltinFunction { identifier, ty, .. } => {
            assert_eq!(identifier, &Identifier::Name("print".to_string()));
            assert_eq!(ty.inner.display(), "'fn('f32') -> '()''");
        }
        other => panic!("not a function: {:?}", other),
    }
    assert!(matches!(std.get_node(14), Node::BuiltinType { identifier, .. } if identifier == &Identifier::Name("f32".to_string())));
    assert!(std.node(16).is_none());
}

#[test]
fn modules_are_known_by_their_paths() {
    let mut index = ModuleIndex::new();
    assert_eq!(index.add_source("a".to_string(), "sys s { }"), Ok(0));
    assert_eq!(index.add_source("b".to_string(), "sys t { }"), Ok(1));
    assert_eq!(index.add_source("a".to_string(), "sys u { }"), Ok(2));
    assert_eq!(index.modules.len(), 3);
    assert_eq!(index.modules.all_ids(), vec![0, 1, 2]);
    // The module registered last for a path is the one it stands for.
    assert_eq!(index.modules.path_to_id("a"), Some(2));
    assert_eq!(index.modules.path_to_id("b"), Some(1));
    assert_eq!(index.modules.path_to_id("c"), None);
    assert_eq!(index.modules.top_level_ids(1), vec![GlobalIdx(1, 1)]);
    assert!(matches!(
        index.modules.get_node(GlobalIdx(1, 1)),
        Node::System(s) if s.ident.as_deref() == Some("t")
    ));
    assert_eq!(index.modules.span(GlobalIdx(1, 0)), (6, 9));
    assert_eq!(index.modules.span(GlobalIdx(1, 1)), (0, 9));
    // A node that there is not has the empty range.
    assert_eq!(index.modules.span(GlobalIdx(1, 2)), (0, 0));
    assert_eq!(index.modules.span(GlobalIdx(3, 0)), (0, 0));
    assert_eq!(index.modules.top_level_names(0).len(), 1);
}

#[test]
fn a_note_says_what_was_found() {
    let report = Report {
        kind: ReportKind::Internal,
        code: ErrorCode::NotAStruct,
        module: 0,
        offset: 0,
        label: None,
        expected: None,
        wanted: None,
        note: Note::InsteadType(InnerResolvedType::Bool),
    };
    assert_eq!(report.note_text(), Some("instead it has type 'bool'".to_string()));
    assert_eq!(report.label_text(), None);
    assert_eq!(report.help(), None);
    let at = Report::at(ErrorCode::NameNotFound, 2, 5, 9);
    assert_eq!(at.offset, 5);
    assert_eq!(at.label, Some((5, 9)));
    assert_eq!(at.module, 2);
    assert_eq!(Token::WHITE_SPACE.name(), "WHITE_SPACE");
    assert!(Token::COMMENT.is_trivia() && !Token::IDENT.is_trivia());
}

#[test]
fn nested_queries_over_a_component_that_is_written_are_rejected() {
    let index = compile(&[(
        "main",
        "use std
         comp A: f32
         comp B: f32
         sys s { query a { query b { a[A] = b[A] } } }",
    )]);
    // Both queries hold the write through `a` and the read through `b`.
    assert_eq!(
        errors(&index, 0),
        vec![
            ErrorCode::NestedQueryConflict,
            ErrorCode::NestedQueryConflict
        ]
    );
    let report = &index.cache.errors.get_ref(0).unwrap()[0];
    assert_eq!(report.message(), "Queries over the same component are nested");

    let index = compile(&[(
        "main",
        "use std
         comp A: f32
         comp B: f32
         sys t { query a { query b { a[A] = b[B] } } }
         sys u { query a { a[A] = 1 }; query b { b[A] = 2 } }
         sys v { query a { query b { print(a[A] + b[A]) } } }",
    )]);
    assert!(!index.has_errors());

    let index = compile(&[(
        "main",
        "use std
         comp A: f32
         comp B: f32
         sys w { query a { query b { del a[A]; b[B] = 1 } } }",
    )]);
    assert!(errors(&index, 0).contains(&ErrorCode::NestedQueryConflict));
}

#[test]
fn the_listing_of_a_module_without_records() {
    let (modules, id) =
        ModuleCollection::new().add("main".to_string(), module("res R: f32 sys s { a.b = 1 }"));
    let text = pretty_print::run(&Cache::new(), &modules, id);
    assert_eq!(
        text,
        "Root\n  Resource  R: f32 \n  System \n  Block\n    Assign\n      MemberAccess\n        Identifier\n        Identifier\n      Number 1"
    );
}

#[test]
fn the_listing_of_an_empty_module() {
    let (modules, id) = ModuleCollection::new().add("main".to_string(), module(""));
    assert_eq!(pretty_print::run(&Cache::new(), &modules, id), "Root\n  ");
}

#[test]
fn the_listing_shows_what_the_passes_recorded() {
    let index = compile(&[("main", "use std\nres R: f32\nsys s { [R] = 1 }")]);
    assert!(!index.has_errors());
    let text = pretty_print::run(&index.cache, &index.modules, 0);
    let write = "Access { component: #0#2, kind: WriteResource }";
    let expected = [
        "Root".to_string(),
        "  Import \"std\"".to_string(),
        "  Resource  R: f32 ResolvedDefinition(#1#14)".to_string(),
        "  System ".to_string(),
        format!("  Block: '()' / {{{write}}}"),
        format!("    Assign: '()' / {{{write}}}"),
        format!("      ResourceAccess: 'f32' in store / {{{write}}}"),
        "        Identifier = ResolvedDefinition(#0#2): 'f32' in store".to_string(),
        "      Number 1: 'f32' / {}".to_string(),
    ];
    assert_eq!(text, expected.join("\n"));
}

#[test]
fn the_listing_of_each_construct() {
    let source = "comp A: { x: f32, y: { z: f32 } } \
                  sys { query e { del e[A]; if [R] { f(1, -2) } else { let p = A { x: 1, y: 2 } } } \
                  while [R] { } }";
    let (modules, id) = ModuleCollection::new().add("main".to_string(), module(source));
    let text = pretty_print::run(&Cache::new(), &modules, id);
    let expected = [
        "Root",
        "  Component  A: Struct",
        "x: f32 ",
        "y: Struct",
        "z: f32 ",
        "  System ",
        "  Block",
        "    Query None",
        "      Block",
        "        Del ",
        "          ComponentAccess",
        "            Identifier",
        "            Identifier",
        "",
        "        If ",
        "          ResourceAccess",
        "            Identifier",
        "          Block",
        "            FunctionCall",
        "              Identifier",
        "              Number 1",
        "              FunctionCall",
        "                Identifier",
        "                Number 2",
        "          Block",
        "            Let ",
        "              Identifier",
        "              Struct ",
        "Name(\"A\")",
        "x:                 Number 1",
        "y:                 Number 2",
        "    While ",
        "      ResourceAccess",
        "        Identifier",
        "      Block",
        "",
    ];
    assert_eq!(text, expected.join("\n"));
}

#[test]
fn the_listing_shows_access_sets_in_order() {
    let index = compile(&[(
        "main",
        "use std comp A: f32 comp B: f32 sys s { query e { e[A] = 1; e[B]; } }",
    )]);
    let text = pretty_print::run(&index.cache, &index.modules, 0);
    let query = text
        .lines()
        .find(|line| line.trim_start().starts_with("Query"))
        .unwrap();
    assert_eq!(
        query,
        "    Query None: '()' / {\
         Access { component: #0#2, kind: WriteComponent { entity: #0#14 } }, \
         Access { component: #0#4, kind: ReadComponent { entity: #0#14 } }}"
    );
}
