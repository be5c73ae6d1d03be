use stork_script::ast::{
    BinaryExpr, Block, Call, Component, Del, ECSAccess, Expr, FieldType, IdentifierType, If,
    Import, Item, Let, Literal, Paren, Query, Resource, Root, Struct, StructType, System, Type,
    UnaryExpr, While,
};
use stork_script::cst::Parser;
use stork_script::syntax::{SyntaxElement, SyntaxNode, SyntaxToken};

/// What a value looks like when it is printed for debugging, spread over
/// lines.
enum Doc {
    Atom(String),
    Tuple(String, Vec<Doc>),
    List(Vec<Doc>),
}

fn render(doc: &Doc, indent: usize, out: &mut String) {
    let pad = " ".repeat(indent + 4);
    match doc {
        Doc::Atom(text) => out.push_str(text),
        Doc::Tuple(name, fields) => {
            out.push_str(name);
            if !fields.is_empty() {
                out.push_str("(\n");
                for field in fields {
                    out.push_str(&pad);
                    render(field, indent + 4, out);
                    out.push_str(",\n");
                }
                out.push_str(&" ".repeat(indent));
                out.push(')');
            }
        }
        Doc::List(items) => {
            if items.is_empty() {
                out.push_str("[]");
            } else {
                out.push_str("[\n");
                for item in items {
                    out.push_str(&pad);
                    render(item, indent + 4, out);
                    out.push_str(",\n");
                }
                out.push_str(&" ".repeat(indent));
                out.push(']');
            }
        }
    }
}

fn text(node: &SyntaxNode, out: &mut String) {
    for child in &node.children {
        match child {
            SyntaxElement::Node(n) => text(n, out),
            SyntaxElement::Token(t) => out.push_str(&t.text),
        }
    }
}

fn named(name: &str, node: &SyntaxNode) -> String {
    format!("{} @{}..{}", name, node.start, node.end)
}

fn string(s: &str) -> Doc {
    Doc::Atom(format!("{:?}", s))
}

fn none() -> Doc {
    string("Option::None")
}

fn option(doc: Option<Doc>) -> Doc {
    doc.unwrap_or_else(none)
}

fn some_or_none(doc: Option<Doc>) -> Doc {
    match doc {
        Some(doc) => Doc::Tuple("Some".to_string(), vec![doc]),
        None => Doc::Atom("None".to_string()),
    }
}

fn token(t: &SyntaxToken) -> Doc {
    Doc::Atom(format!("{:?}@{}..{} {:?}", t.kind, t.start, t.end, t.text))
}

fn root(r: &Root) -> Doc {
    Doc::Tuple(named("Root", r.syntax()), r.items().iter().map(item).collect())
}

fn item(i: &Item) -> Doc {
    match i {
        Item::System(s) => system(s),
        Item::Resource(r) => resource(r),
        Item::Component(c) => component(c),
        Item::Import(i) => import(i),
    }
}

fn system(s: &System) -> Doc {
    Doc::Tuple(
        named("System", s.syntax()),
        vec![
            option(s.ident().map(|i| string(&i))),
            option(s.block().map(|b| block(&b))),
        ],
    )
}

fn component(c: &Component) -> Doc {
    Doc::Tuple(
        named("Component", c.syntax()),
        vec![option(c.field().map(|f| field(&f)))],
    )
}

fn resource(r: &Resource) -> Doc {
    Doc::Tuple(
        named("Resource", r.syntax()),
        vec![option(r.field().map(|f| field(&f)))],
    )
}

fn import(i: &Import) -> Doc {
    Doc::Tuple(
        named("Import", i.syntax()),
        vec![option(i.ident().map(|i| string(&i)))],
    )
}

fn field(f: &FieldType) -> Doc {
    Doc::Tuple(
        named("Field", f.syntax()),
        vec![
            option(f.ident().map(|i| string(&i))),
            option(f.type_().map(|t| ty(&t))),
        ],
    )
}

fn ty(t: &Type) -> Doc {
    match t {
        Type::IdentifierType(i) => identifier_type(i),
        Type::StructType(s) => struct_type(s),
    }
}

fn identifier_type(i: &IdentifierType) -> Doc {
    Doc::Tuple(
        named("IdentifierType", i.syntax()),
        vec![option(i.ident().map(|i| string(&i)))],
    )
}

fn struct_type(s: &StructType) -> Doc {
    Doc::Tuple(
        named("StructType", s.syntax()),
        s.fields().iter().map(field).collect(),
    )
}

fn expr(e: &Expr) -> Doc {
    match e {
        Expr::UnaryExpr(x) => unary(x),
        Expr::BinaryExpr(x) => binary(x),
        Expr::Literal(x) => literal(x),
        Expr::Query(x) => query(x),
        Expr::Block(x) => block(x),
        Expr::ECSAccess(x) => access(x),
        Expr::Let(x) => let_(x),
        Expr::Del(x) => del(x),
        Expr::If(x) => if_(x),
        Expr::While(x) => while_(x),
        Expr::Call(x) => call(x),
        Expr::Struct(x) => struct_(x),
        Expr::Paren(x) => paren(x),
    }
}

fn paren(p: &Paren) -> Doc {
    Doc::Tuple(named("Paren", p.syntax()), vec![opt_expr(p.expr())])
}

fn opt_expr(e: Option<Expr>) -> Doc {
    option(e.map(|e| expr(&e)))
}

fn let_(l: &Let) -> Doc {
    Doc::Tuple(
        named("Let", l.syntax()),
        vec![opt_expr(l.lvalue()), opt_expr(l.expr())],
    )
}

fn del(d: &Del) -> Doc {
    Doc::Tuple(named("Del", d.syntax()), vec![opt_expr(d.expr())])
}

fn if_(i: &If) -> Doc {
    Doc::Tuple(
        named("If", i.syntax()),
        vec![
            opt_expr(i.cond()),
            opt_expr(i.expr()),
            option(i.else_().map(|e| some_or_none(e.map(|e| expr(&e))))),
        ],
    )
}

fn while_(w: &While) -> Doc {
    Doc::Tuple(
        named("While", w.syntax()),
        vec![opt_expr(w.cond()), opt_expr(w.expr())],
    )
}

fn call(c: &Call) -> Doc {
    Doc::Tuple(
        named("Call", c.syntax()),
        vec![
            opt_expr(c.function()),
            Doc::List(c.args().iter().map(expr).collect()),
        ],
    )
}

fn unary(u: &UnaryExpr) -> Doc {
    Doc::Tuple(
        named("UnaryExpr", u.syntax()),
        vec![option(u.op().map(token)), opt_expr(u.val())],
    )
}

fn binary(b: &BinaryExpr) -> Doc {
    Doc::Tuple(
        named("BinaryExpr", b.syntax()),
        vec![
            opt_expr(b.left()),
            option(b.op().map(token)),
            opt_expr(b.right()),
        ],
    )
}

fn access(a: &ECSAccess) -> Doc {
    Doc::Tuple(
        named("ECSAccess", a.syntax()),
        vec![
            option(a.entity().map(|e| some_or_none(e.map(|e| expr(&e))))),
            opt_expr(a.component()),
        ],
    )
}

fn literal(l: &Literal) -> Doc {
    let mut t = String::new();
    text(l.syntax(), &mut t);
    Doc::Tuple(named("Literal", l.syntax()), vec![string(&t)])
}

fn query(q: &Query) -> Doc {
    Doc::Tuple(
        named("Query", q.syntax()),
        vec![option(q.block().map(|b| block(&b)))],
    )
}

fn block(b: &Block) -> Doc {
    Doc::Tuple(
        named("Block", b.syntax()),
        b.exprs().iter().map(expr).collect(),
    )
}

fn struct_(s: &Struct) -> Doc {
    let mut fields = vec![option(s.ident().map(|i| string(&i)))];
    for (name, value) in s.fields() {
        fields.push(Doc::Tuple(
            String::new(),
            vec![string(&name), expr(&value)],
        ));
    }
    Doc::Tuple(named("Struct", s.syntax()), fields)
}

fn check(source: &str, expected: &str) {
    let parser = Parser::new(source, 0);
    let (tree, _) = parser.parse();
    let r = Root::cast(&tree).unwrap();
    let mut result = String::new();
    render(&root(&r), 0, &mut result);
    assert_eq!(result, expected);
}

#[test]
fn test_test1() {
    check(
        "
    sys {
        query {
            entity[Transform].translation.x = 1;
            [Resource]
        }
    }",
        r#"Root @0..114(
    System @5..114(
        "Option::None",
        Block @9..114(
            Query @19..108(
                Block @25..108(
                    BinaryExpr @39..74(
                        BinaryExpr @39..71(
                            BinaryExpr @39..68(
                                ECSAccess @39..56(
                                    Some(
                                        Literal @39..45(
                                            "entity",
                                        ),
                                    ),
                                    Literal @46..55(
                                        "Transform",
                                    ),
                                ),
                                DOT@56..57 ".",
                                Literal @57..68(
                                    "translation",
                                ),
                            ),
                            DOT@68..69 ".",
                            Literal @69..70(
                                "x",
                            ),
                        ),
                        EQ@71..72 "=",
                        Literal @73..74(
                            "1",
                        ),
                    ),
                    ECSAccess @88..98(
                        "Option::None",
                        Literal @89..97(
                            "Resource",
                        ),
                    ),
                ),
            ),
        ),
    ),
)"#,
    );
}

#[test]
fn test_test2() {
    check(
        "
    sys sys_name {
        -x
    }",
        r#"Root @0..36(
    System @5..36(
        "sys_name",
        Block @18..36(
            UnaryExpr @28..35(
                MINUS@28..29 "-",
                Literal @29..30(
                    "x",
                ),
            ),
        ),
    ),
)"#,
    );
}

#[test]
fn test_test3() {
    check(
        "
        res A: f32
        res B: {
            f1: f32,
            f3,
            f2: f32
        }
        res C
    ",
        r#"Root @0..122(
    Resource @9..19(
        Field @13..19(
            "A",
            IdentifierType @16..19(
                "f32",
            ),
        ),
    ),
    Resource @28..103(
        Field @32..103(
            "B",
            StructType @35..103(
                Field @49..56(
                    "f1",
                    IdentifierType @53..56(
                        "f32",
                    ),
                ),
                Field @70..72(
                    "f3",
                    "Option::None",
                ),
                Field @86..93(
                    "f2",
                    IdentifierType @90..93(
                        "f32",
                    ),
                ),
            ),
        ),
    ),
    Resource @112..122(
        Field @116..122(
            "C",
            "Option::None",
        ),
    ),
)"#,
    );
}

#[test]
fn test_test4() {
    check(
        "
          comp C: f32
        ",
        r#"Root @0..31(
    Component @11..22(
        Field @16..22(
            "C",
            IdentifierType @19..22(
                "f32",
            ),
        ),
    ),
)"#,
    );
}

#[test]
fn test_test5() {
    check(
        "sys {
          query entity {
               let [Resource] = 123;
               let entity[Component] = 456;
               let a = let b = -123 + 2;
          }
        }",
        r#"Root @0..174(
    System @0..174(
        "Option::None",
        Block @4..174(
            Query @16..164(
                Block @29..164(
                    Let @46..66(
                        ECSAccess @50..60(
                            "Option::None",
                            Literal @51..59(
                                "Resource",
                            ),
                        ),
                        Literal @63..66(
                            "123",
                        ),
                    ),
                    Let @83..110(
                        ECSAccess @87..104(
                            Some(
                                Literal @87..93(
                                    "entity",
                                ),
                            ),
                            Literal @94..103(
                                "Component",
                            ),
                        ),
                        Literal @107..110(
                            "456",
                        ),
                    ),
                    Let @127..151(
                        Literal @131..132(
                            "a",
                        ),
                        Let @135..151(
                            Literal @139..140(
                                "b",
                            ),
                            BinaryExpr @143..151(
                                UnaryExpr @143..148(
                                    MINUS@143..144 "-",
                                    Literal @144..147(
                                        "123",
                                    ),
                                ),
                                PLUS@148..149 "+",
                                Literal @150..151(
                                    "2",
                                ),
                            ),
                        ),
                    ),
                ),
            ),
        ),
    ),
)"#,
    );
}

#[test]
fn test_test6() {
    check(
        "sys {
          query entity {
               if 1 == 2 {2}
               del 3;
               {7}
               if 4 {5} else {6}
               while 7 {8}
               a(x, y, z)
          }
        }",
        r#"Root @0..208(
    System @0..208(
        "Option::None",
        Block @4..208(
            Query @16..198(
                Block @29..198(
                    If @46..75(
                        BinaryExpr @49..56(
                            Literal @49..50(
                                "1",
                            ),
                            EQEQ@51..53 "==",
                            Literal @54..55(
                                "2",
                            ),
                        ),
                        Block @56..59(
                            Literal @57..58(
                                "2",
                            ),
                        ),
                        "Option::None",
                    ),
                    Del @75..80(
                        Literal @79..80(
                            "3",
                        ),
                    ),
                    Block @97..100(
                        Literal @98..99(
                            "7",
                        ),
                    ),
                    If @116..133(
                        Literal @119..120(
                            "4",
                        ),
                        Block @121..124(
                            Literal @122..123(
                                "5",
                            ),
                        ),
                        Some(
                            Block @130..133(
                                Literal @131..132(
                                    "6",
                                ),
                            ),
                        ),
                    ),
                    While @149..160(
                        Literal @155..156(
                            "7",
                        ),
                        Block @157..160(
                            Literal @158..159(
                                "8",
                            ),
                        ),
                    ),
                    Call @176..186(
                        Literal @176..177(
                            "a",
                        ),
                        [
                            Literal @178..179(
                                "x",
                            ),
                            Literal @181..182(
                                "y",
                            ),
                            Literal @184..185(
                                "z",
                            ),
                        ],
                    ),
                ),
            ),
        ),
    ),
)"#,
    );
}

#[test]
fn test_test7() {
    check(
        "
          use std
          ",
        r#"Root @0..29(
    Import @11..18(
        "std",
    ),
)"#,
    );
}

#[test]
fn test_test8() {
    check(
        "
          sys {
               A {a: 1+2, b: 2}
          }
        ",
        r#"Root @0..69(
    System @11..60(
        "Option::None",
        Block @15..60(
            Struct @32..48(
                "A",
                (
                    "a",
                    BinaryExpr @38..41(
                        Literal @38..39(
                            "1",
                        ),
                        PLUS@39..40 "+",
                        Literal @40..41(
                            "2",
                        ),
                    ),
                ),
                (
                    "b",
                    Literal @46..47(
                        "2",
                    ),
                ),
            ),
        ),
    ),
)"#,
    );
}

#[test]
fn parentheses_hold_an_expression() {
    let parser = Parser::new("sys { 2 * (1 + 3) }", 0);
    let (tree, errors) = parser.parse();
    assert!(errors.is_empty());
    let r = Root::cast(&tree).unwrap();
    let Item::System(s) = r.items()[0] else {
        panic!("not a system");
    };
    let body = s.block().unwrap().exprs();
    assert_eq!(body.len(), 1);
    let Expr::BinaryExpr(product) = body[0] else {
        panic!("not an infix expression");
    };
    let Some(Expr::Paren(p)) = product.right() else {
        panic!("no parentheses");
    };
    let mut inside = String::new();
    text(p.syntax(), &mut inside);
    assert_eq!(inside, "(1 + 3)");
    let Some(Expr::BinaryExpr(sum)) = p.expr() else {
        panic!("no sum");
    };
    assert_eq!(sum.op().unwrap().text, "+");
    // Empty parentheses hold nothing.
    let parser = Parser::new("sys { () }", 0);
    let (tree, _) = parser.parse();
    let r = Root::cast(&tree).unwrap();
    let Item::System(s) = r.items()[0] else {
        panic!("not a system");
    };
    let Expr::Paren(p) = s.block().unwrap().exprs()[0] else {
        panic!("no parentheses");
    };
    assert!(p.expr().is_none());
}
