//! Lowering: from the typed syntax tree to the nodes of a module.

use crate::arena::{
    arena_alloc, arena_len, arena_new, arena_nodes, span_entries, spans_insert, spans_model,
    spans_new, SpanMap,
};
use crate::ast;
use crate::ast::{NodeClass, TokenClass};
use crate::hir::{
    wf_nodes, Expr, Identifier, NodeIdx, Node, Operator, StructType, System, TypeIdent, TypedIdent,
};
use crate::lowering::{
    assign_operator, binary_operator, field_lowers, fields_that_lower, is_name, item_lowers,
    all_but_first, child_count, children_count, expr_count, field_count, fields_count,
    item_count, item_made, items_count, lemma_count_binary, lemma_count_block,
    lemma_count_call, lemma_count_if, lemma_count_literal, lemma_count_missing, lemma_count_one,
    lemma_count_paren,
    lemma_count_query, lemma_count_struct, lemma_count_two, lemma_count_unary, operator_count,
    pair_exprs, span_of, type_count,
    type_lowers, unary_operator, Ir, Span,
};
use crate::module_index::Module;
use crate::report::{ErrorCode, ModuleID, Note, Report, ReportKind};
use crate::syntax::{SyntaxNode, SyntaxToken, Tree};
use crate::token::Token;
use vstd::prelude::*;
use vstd::utf8::encode_utf8;

verus! {

/// The diagnostic for a part that is missing.
pub open spec fn missing_report(module: ModuleID) -> Report {
    Report {
        kind: ReportKind::Error,
        code: ErrorCode::MissingSyntax,
        module,
        offset: 0,
        label: None,
        expected: None,
        wanted: None,
        note: Note::Absent,
    }
}

/// `n` diagnostics for parts that are missing.
pub open spec fn missing_reports(module: ModuleID, n: nat) -> Seq<Report> {
    Seq::new(n, |i: int| missing_report(module))
}

/// The tree of an expression that may be missing.
pub open spec fn expr_tree(e: Option<ast::Expr>) -> Option<Tree> {
    match e {
        Some(e) => Some(e@),
        None => None,
    }
}

/// The trees of a sequence of expressions.
pub open spec fn expr_trees(es: Seq<ast::Expr>) -> Seq<Tree> {
    Seq::new(es.len(), |k: int| es[k]@)
}

/// The size of an expression that may be missing.
pub open spec fn expr_size(e: Option<ast::Expr>) -> nat {
    match e {
        Some(e) => e@.size(),
        None => 0,
    }
}

/// The nodes made so far, and the diagnostics: those of the parser, and
/// one for each part that was found missing.
struct LowerCtx {
    module_id: ModuleID,
    spans: SpanMap,
    errors: Vec<Report>,
    nodes: la_arena::Arena<Node>,
    /// Whether the arena has no room for a node that was to be made.
    full: bool,
    parse_errors: Ghost<Seq<Report>>,
}

impl LowerCtx {
    pub closed spec fn ir(&self) -> Ir {
        Ir {
            nodes: arena_nodes(self.nodes),
            spans: spans_model(span_entries(self.spans), arena_nodes(self.nodes).len()),
        }
    }

    /// Only nodes have a span.
    pub closed spec fn spans_of_nodes(&self) -> bool {
        forall|k: NodeIdx|
            span_entries(self.spans).contains_key(k) ==> k < arena_nodes(self.nodes).len()
    }

    pub closed spec fn is_full(&self) -> bool {
        self.full
    }

    pub closed spec fn module(&self) -> ModuleID {
        self.module_id
    }

    pub closed spec fn errors(&self) -> Seq<Report> {
        self.errors@
    }

    pub closed spec fn parse_errors(&self) -> Seq<Report> {
        self.parse_errors@
    }

    /// Every node refers only to nodes before it and has a place for its
    /// span, and there is one diagnostic for each part found missing.
    pub open spec fn wf(&self) -> bool {
        &&& self.spans_of_nodes()
        &&& self.ir().spans.len() == self.ir().nodes.len()
        &&& self.ir().nodes.len() <= u32::MAX
        &&& wf_nodes(self.ir().nodes)
        &&& self.is_full() ==> self.ir().nodes.len() > 0
        &&& self.errors() == self.parse_errors() + missing_reports(
            self.module(),
            self.ir().missing_count(),
        )
    }

    /// What holds of the context after a step that began in `old`: nodes
    /// were only added, and once the arena is full it stays so.
    pub open spec fn follows(&self, old: &LowerCtx) -> bool {
        &&& self.wf()
        &&& self.ir().grows(old.ir())
        &&& self.module() == old.module()
        &&& self.parse_errors() == old.parse_errors()
        &&& old.is_full() ==> self.is_full()
    }

    /// A context without nodes, with the diagnostics of the parser.
    fn new(module_id: ModuleID, parse_errors: Vec<Report>) -> (r: Self)
        ensures
            r.wf(),
            r.ir().nodes.len() == 0,
            !r.is_full(),
            r.module() == module_id,
            r.parse_errors() == parse_errors@,
    {
        let ghost errors = parse_errors@;
        let r = LowerCtx {
            module_id,
            spans: spans_new(),
            errors: parse_errors,
            nodes: arena_new(),
            full: false,
            parse_errors: Ghost(errors),
        };
        assert(r.errors() =~= r.parse_errors() + missing_reports(module_id, 0));
        r
    }

    /// Puts `node` with its span behind the nodes made so far, unless the
    /// arena is full.
    fn alloc_node(&mut self, span: Option<Span>, node: Node) -> (r: NodeIdx)
        requires
            old(self).wf(),
            node.below(old(self).ir().len()),
            !(node matches Node::Expr(Expr::Poison)),
        ensures
            final(self).follows(old(self)),
            final(self).counted(old(self), 1),
            r < final(self).ir().len(),
            !final(self).is_full() ==> {
                &&& r == old(self).ir().len()
                &&& final(self).ir() == old(self).ir().push(node, span)
                &&& final(self).ir().upto(r) == final(self).ir()
                &&& final(self).ir().shaped()
                &&& final(self).ir().root() == node
                &&& final(self).ir().root_span() == span
                &&& final(self).ir().len() == old(self).ir().len() + 1
            },
    {
        let ghost before = self.ir();
        if self.full || arena_len(&self.nodes) >= u32::MAX as usize {
            self.full = true;
            proof {
                before.lemma_grows_refl();
            }
            return 0;
        }
        let idx = arena_alloc(&mut self.nodes, node);
        match span {
            Some(span) => {
                spans_insert(&mut self.spans, idx, span);
            },
            None => {},
        }
        proof {
            assert(self.ir().spans =~= before.spans.push(span));
            before.lemma_push(node, span);
        }
        idx
    }

    /// Records that a part is missing: a poison expression, with the span
    /// of what it stands in for if that has one, and a diagnostic.
    fn alloc_poison(&mut self, span: Option<Span>) -> (r: NodeIdx)
        requires
            old(self).wf(),
        ensures
            final(self).follows(old(self)),
            final(self).counted(old(self), 1),
            r < final(self).ir().len(),
            !final(self).is_full() ==> {
                &&& r == old(self).ir().len()
                &&& final(self).ir() == old(self).ir().push(Node::Expr(Expr::Poison), span)
                &&& final(self).ir().upto(r) == final(self).ir()
                &&& final(self).ir().shaped()
                &&& final(self).ir().root() == Node::Expr(Expr::Poison)
                &&& final(self).ir().root_span() == span
                &&& final(self).ir().len() == old(self).ir().len() + 1
            },
    {
        let ghost before = self.ir();
        let ghost errors = self.errors@;
        if self.full || arena_len(&self.nodes) >= u32::MAX as usize {
            self.full = true;
            proof {
                before.lemma_grows_refl();
            }
            return 0;
        }
        let idx = arena_alloc(&mut self.nodes, Node::Expr(Expr::Poison));
        match span {
            Some(span) => {
                spans_insert(&mut self.spans, idx, span);
            },
            None => {},
        }
        assert(self.ir().spans =~= before.spans.push(span));
        self.errors.push(
            Report {
                kind: ReportKind::Error,
                code: ErrorCode::MissingSyntax,
                module: self.module_id,
                offset: 0,
                label: None,
                expected: None,
                wanted: None,
                note: Note::Absent,
            },
        );
        proof {
            before.lemma_push(Node::Expr(Expr::Poison), span);
            let n = before.missing_count();
            assert(self.errors@ =~= self.parse_errors@ + missing_reports(self.module_id, n + 1));
            assert(self.ir().upto(idx) == self.ir());
        }
        idx
    }

    /// Records that a part is missing: a poison expression without a span,
    /// and a diagnostic.
    fn alloc_expr_poison(&mut self) -> (r: NodeIdx)
        requires
            old(self).wf(),
        ensures
            final(self).follows(old(self)),
            final(self).counted(old(self), 1),
            r < final(self).ir().len(),
            !final(self).is_full() ==> {
                &&& r == old(self).ir().len()
                &&& final(self).ir() == old(self).ir().push(Node::Expr(Expr::Poison), None)
                &&& final(self).ir().upto(r).is_missing()
            },
    {
        self.alloc_poison(None)
    }

    /// Whether the step that began in `old` made `n` nodes, or else found
    /// the arena too small for them.
    pub open spec fn counted(&self, old: &LowerCtx, n: nat) -> bool {
        &&& !self.is_full() ==> self.ir().len() == old.ir().len() + n
        &&& self.is_full() ==> old.is_full() || old.ir().len() + n > u32::MAX
    }

    /// Whether `r` is the index of a node made since `old`, unless the
    /// arena is full.
    pub open spec fn made(&self, old: &LowerCtx, r: NodeIdx) -> bool {
        &&& self.follows(old)
        &&& r < self.ir().len()
        &&& !self.is_full() ==> old.ir().len() <= r
    }

    fn unary_expr(&mut self, u: ast::UnaryExpr<'_>) -> (r: NodeIdx)
        requires
            old(self).wf(),
            u@.kind() == Token::Prefix,
        ensures
            final(self).made(old(self), r),
            final(self).counted(old(self), expr_count(Some(u@))),
            !final(self).is_full() ==> final(self).ir().upto(r).is_unary(u@),
        decreases u@.size(), 1int,
    {
        proof {
            lemma_count_unary(u@);
        }
        let span = span(u.syntax());
        let op = match u.op() {
            Some(op) => op,
            None => {
                return self.alloc_expr_poison();
            },
        };
        let operator = match op.kind {
            Token::MINUS => Operator::Neg,
            Token::EXCLAMATION => Operator::Not,
            _ => {
                return self.alloc_expr_poison();
            },
        };
        let function = self.alloc_node(
            Some((op.start, op.end)),
            Node::Expr(Expr::Identifier(Identifier::Operator(operator))),
        );
        let val = u.val();
        proof {
            if val.is_some() {
                u@.lemma_nth_smaller(NodeClass::Expr, 0);
            }
        }
        let arg = self.expr(val);
        let mut args: Vec<NodeIdx> = Vec::new();
        args.push(arg);
        self.alloc_node(span, Node::Expr(Expr::FunctionCall { function, args }))
    }

    fn binary_expr(&mut self, b: ast::BinaryExpr<'_>) -> (r: NodeIdx)
        requires
            old(self).wf(),
            b@.kind() == Token::Infix,
        ensures
            final(self).made(old(self), r),
            final(self).counted(old(self), expr_count(Some(b@))),
            !final(self).is_full() ==> final(self).ir().upto(r).is_binary(b@),
        decreases b@.size(), 1int,
    {
        proof {
            lemma_count_binary(b@);
        }
        let span = span(b.syntax());
        let l = b.left();
        let r = b.right();
        proof {
            if l.is_some() {
                b@.lemma_nth_smaller(NodeClass::Expr, 0);
            }
            if r.is_some() {
                b@.lemma_nth_smaller(NodeClass::Expr, 1);
            }
        }
        let left = self.expr(l);
        let right = self.expr(r);
        let op = match b.op() {
            Some(op) => op,
            None => {
                return self.alloc_expr_poison();
            },
        };
        self.binary_node(span, left, right, op, Ghost(b@))
    }

    /// The node for the infix expression `t` with operator token `op`, the
    /// operands of which are lowered.
    fn binary_node(
        &mut self,
        span: Option<Span>,
        left: NodeIdx,
        right: NodeIdx,
        op: &SyntaxToken,
        Ghost(t): Ghost<Tree>,
    ) -> (r: NodeIdx)
        requires
            old(self).wf(),
            left < old(self).ir().len(),
            right < old(self).ir().len(),
            span == span_of(t),
            t.token(TokenClass::InfixOp) == Some(op@),
            !old(self).is_full() ==> old(self).ir().upto(left).is_expr(t.nth(NodeClass::Expr, 0))
                && old(self).ir().upto(right).is_expr(t.nth(NodeClass::Expr, 1)),
        ensures
            final(self).made(old(self), r),
            final(self).counted(old(self), operator_count(op@.kind())),
            !final(self).is_full() ==> final(self).ir().upto(r).is_binary(t),
    {
        let op_span = Some((op.start, op.end));
        match op.kind {
            Token::PLUS => self.op_call(span, left, right, op_span, Operator::Add, Ghost(t)),
            Token::MINUS => self.op_call(span, left, right, op_span, Operator::Sub, Ghost(t)),
            Token::STAR => self.op_call(span, left, right, op_span, Operator::Mul, Ghost(t)),
            Token::SLASH => self.op_call(span, left, right, op_span, Operator::Div, Ghost(t)),
            Token::EQEQ => self.op_call(span, left, right, op_span, Operator::Eq, Ghost(t)),
            Token::LESS => self.op_call(span, left, right, op_span, Operator::Less, Ghost(t)),
            Token::LESSEQ => self.op_call(span, left, right, op_span, Operator::LessEq, Ghost(t)),
            Token::GREATER => self.op_call(
                span,
                left,
                right,
                op_span,
                Operator::Greater,
                Ghost(t),
            ),
            Token::GREATEREQ => self.op_call(
                span,
                left,
                right,
                op_span,
                Operator::GreaterEq,
                Ghost(t),
            ),
            Token::OROR => self.op_call(span, left, right, op_span, Operator::Or, Ghost(t)),
            Token::ANDAND => self.op_call(span, left, right, op_span, Operator::And, Ghost(t)),
            Token::DOT => self.alloc_node(
                span,
                Node::Expr(Expr::MemberAccess { base: left, member: right }),
            ),
            Token::EQ => self.alloc_node(
                span,
                Node::Expr(Expr::Assign { lvalue: left, expr: right }),
            ),
            Token::PLUSEQ => self.op_assign(span, left, right, op_span, Operator::Add, Ghost(t)),
            Token::MINUSEQ => self.op_assign(span, left, right, op_span, Operator::Sub, Ghost(t)),
            Token::STAREQ => self.op_assign(span, left, right, op_span, Operator::Mul, Ghost(t)),
            Token::SLASHEQ => self.op_assign(span, left, right, op_span, Operator::Div, Ghost(t)),
            _ => self.alloc_expr_poison(),
        }
    }

    /// `left op right`: the call of `op` with `left` and `right`.
    fn op_call(
        &mut self,
        span: Option<Span>,
        left: NodeIdx,
        right: NodeIdx,
        op_span: Option<Span>,
        op: Operator,
        Ghost(t): Ghost<Tree>,
    ) -> (r: NodeIdx)
        requires
            old(self).wf(),
            left < old(self).ir().len(),
            right < old(self).ir().len(),
            span == span_of(t),
            t.token(TokenClass::InfixOp).is_some(),
            binary_operator(t.token(TokenClass::InfixOp).unwrap().kind()) == Some(op),
            op_span == span_of(t.token(TokenClass::InfixOp).unwrap()),
            !old(self).is_full() ==> old(self).ir().upto(left).is_expr(t.nth(NodeClass::Expr, 0))
                && old(self).ir().upto(right).is_expr(t.nth(NodeClass::Expr, 1)),
        ensures
            final(self).made(old(self), r),
            final(self).counted(old(self), 2),
            !final(self).is_full() ==> final(self).ir().upto(r).is_binary(t),
    {
        let function = self.alloc_node(
            op_span,
            Node::Expr(Expr::Identifier(Identifier::Operator(op))),
        );
        let mut args: Vec<NodeIdx> = Vec::new();
        args.push(left);
        args.push(right);
        self.alloc_node(span, Node::Expr(Expr::FunctionCall { function, args }))
    }

    /// `left op= right`: the assignment to `left` of the call of `op` with
    /// `left` and `right`.
    fn op_assign(
        &mut self,
        span: Option<Span>,
        left: NodeIdx,
        right: NodeIdx,
        op_span: Option<Span>,
        op: Operator,
        Ghost(t): Ghost<Tree>,
    ) -> (r: NodeIdx)
        requires
            old(self).wf(),
            left < old(self).ir().len(),
            right < old(self).ir().len(),
            span == span_of(t),
            t.token(TokenClass::InfixOp).is_some(),
            assign_operator(t.token(TokenClass::InfixOp).unwrap().kind()) == Some(op),
            op_span == span_of(t.token(TokenClass::InfixOp).unwrap()),
            !old(self).is_full() ==> old(self).ir().upto(left).is_expr(t.nth(NodeClass::Expr, 0))
                && old(self).ir().upto(right).is_expr(t.nth(NodeClass::Expr, 1)),
        ensures
            final(self).made(old(self), r),
            final(self).counted(old(self), 3),
            !final(self).is_full() ==> final(self).ir().upto(r).is_binary(t),
    {
        let function = self.alloc_node(
            op_span,
            Node::Expr(Expr::Identifier(Identifier::Operator(op))),
        );
        let mut args: Vec<NodeIdx> = Vec::new();
        args.push(left);
        args.push(right);
        let call = self.alloc_node(span, Node::Expr(Expr::FunctionCall { function, args }));
        let ghost mid = self.ir();
        let r = self.alloc_node(span, Node::Expr(Expr::Assign { lvalue: left, expr: call }));
        proof {
            if !self.is_full() {
                assert(self.ir().nodes[call as int] == mid.nodes[call as int]);
                assert(self.ir().upto(call) == mid.upto(call));
            }
        }
        r
    }

    fn literal(&mut self, l: ast::Literal<'_>) -> (r: NodeIdx)
        requires
            old(self).wf(),
            l@.kind() == Token::Literal,
        ensures
            final(self).made(old(self), r),
            final(self).counted(old(self), 1),
            !final(self).is_full() ==> final(self).ir().upto(r).is_literal(l@),
    {
        proof {
            lemma_count_literal(l@);
        }
        let span = span(l.syntax());
        match l.as_identifier() {
            Some(name) => self.alloc_node(
                span,
                Node::Expr(Expr::Identifier(Identifier::Name(name))),
            ),
            None => match l.as_number() {
                Some(number) => self.alloc_node(span, Node::Expr(Expr::Number(number))),
                None => self.alloc_poison(span),
            },
        }
    }

    /// Lowers the expressions `es`, which are among the children of `t`.
    fn exprs(&mut self, es: &Vec<ast::Expr<'_>>, Ghost(t): Ghost<Tree>) -> (r: Vec<NodeIdx>)
        requires
            old(self).wf(),
            forall|k: int| 0 <= k < es@.len() ==> (#[trigger] es@[k])@.size() < t.size(),
        ensures
            final(self).follows(old(self)),
            final(self).counted(old(self), children_count(t, expr_trees(es@))),
            r@.len() == es@.len(),
            forall|k: int| 0 <= k < r@.len() ==> #[trigger] r@[k] < final(self).ir().len(),
            !final(self).is_full() ==> forall|k: int|
                0 <= k < r@.len() ==> final(self).ir().upto(#[trigger] r@[k]).is_expr(
                    Some(es@[k]@),
                ),
        decreases t.size(), 0int,
    {
        let mut ids: Vec<NodeIdx> = Vec::new();
        let mut i: usize = 0;
        let ghost trees = expr_trees(es@);
        proof {
            self.ir().lemma_grows_refl();
            assert(trees.subrange(0, 0) =~= Seq::<Tree>::empty());
        }
        while i < es.len()
            invariant
                i <= es@.len(),
                ids@.len() == i,
                trees == expr_trees(es@),
                self.follows(old(self)),
                self.counted(old(self), children_count(t, trees.subrange(0, i as int))),
                forall|k: int| 0 <= k < es@.len() ==> (#[trigger] es@[k])@.size() < t.size(),
                forall|k: int| 0 <= k < ids@.len() ==> #[trigger] ids@[k] < self.ir().len(),
                !self.is_full() ==> forall|k: int|
                    0 <= k < ids@.len() ==> self.ir().upto(#[trigger] ids@[k]).is_expr(
                        Some(es@[k]@),
                    ),
            decreases es@.len() - i,
        {
            let ghost before = self.ir();
            let id = self.expr(Some(es[i]));
            proof {
                assert(trees.subrange(0, i + 1).drop_last() =~= trees.subrange(0, i as int));
                assert(trees.subrange(0, i + 1).last() == es@[i as int]@);
                assert(child_count(t, Some(es@[i as int]@)) == expr_count(Some(es@[i as int]@)));
                assert forall|k: int| 0 <= k < ids@.len() implies #[trigger] ids@[k]
                    < self.ir().len() by {}
                if !self.is_full() {
                    assert forall|k: int| 0 <= k < ids@.len() implies self.ir().upto(
                        #[trigger] ids@[k],
                    ).is_expr(Some(es@[k]@)) by {
                        assert(self.ir().upto(ids@[k]) == before.upto(ids@[k]));
                    }
                }
            }
            ids.push(id);
            i = i + 1;
        }
        assert(trees.subrange(0, trees.len() as int) =~= trees);
        ids
    }

    fn query_expr(&mut self, query: ast::Query<'_>) -> (r: NodeIdx)
        requires
            old(self).wf(),
        ensures
            final(self).made(old(self), r),
            final(self).counted(old(self), expr_count(Some(query@))),
            !final(self).is_full() ==> final(self).ir().upto(r).is_expr(Some(query@)),
        decreases query@.size(), 1int,
    {
        proof {
            use_type_invariant(&query);
            lemma_count_query(query@);
        }
        let ghost t = query@;
        let span = span(query.syntax());
        let entity = match query.entity() {
            Some(entity) => entity,
            None => {
                return self.alloc_poison(span);
            },
        };
        let body = match query.block() {
            Some(b) => {
                proof {
                    use_type_invariant(&b);
                    t.lemma_nth_smaller(NodeClass::Exactly(Token::Block), 0);
                }
                Some(ast::Expr::Block(b))
            },
            None => None,
        };
        let block = self.expr(body);
        self.alloc_node(span, Node::Expr(Expr::Query { entity, block }))
    }

    fn block_expr(&mut self, block: ast::Block<'_>) -> (r: NodeIdx)
        requires
            old(self).wf(),
        ensures
            final(self).made(old(self), r),
            final(self).counted(old(self), expr_count(Some(block@))),
            !final(self).is_full() ==> final(self).ir().upto(r).is_expr(Some(block@)),
        decreases block@.size(), 1int,
    {
        proof {
            use_type_invariant(&block);
            lemma_count_block(block@);
        }
        let ghost t = block@;
        let span = span(block.syntax());
        let es = block.exprs();
        proof {
            assert forall|k: int| 0 <= k < es@.len() implies (#[trigger] es@[k])@.size()
                < t.size() by {
                t.lemma_nodes_smaller(NodeClass::Expr, k);
            }
        }
        let ids = self.exprs(&es, Ghost(t));
        let r = self.alloc_node(span, Node::Expr(Expr::Block(ids)));
        proof {
            assert(expr_trees(es@) =~= t.nodes(NodeClass::Expr));
            if !self.is_full() {
                assert(self.ir().are_exprs(ids@, t.nodes(NodeClass::Expr)));
            }
        }
        r
    }

    fn access_expr(&mut self, access: ast::ECSAccess<'_>) -> (r: NodeIdx)
        requires
            old(self).wf(),
        ensures
            final(self).made(old(self), r),
            final(self).counted(old(self), expr_count(Some(access@))),
            !final(self).is_full() ==> final(self).ir().upto(r).is_expr(Some(access@)),
        decreases access@.size(), 1int,
    {
        proof {
            use_type_invariant(&access);
            if access@.kind() == Token::ComponentAccess {
                lemma_count_two(access@);
            } else {
                lemma_count_one(access@);
            }
        }
        let ghost t = access@;
        let span = span(access.syntax());
        let c = access.component();
        let en = access.entity();
        proof {
            if t.nth(NodeClass::Expr, 0).is_some() {
                t.lemma_nth_smaller(NodeClass::Expr, 0);
            }
            if t.nth(NodeClass::Expr, 1).is_some() {
                t.lemma_nth_smaller(NodeClass::Expr, 1);
            }
        }
        let component = self.expr(c);
        let ghost ir1 = self.ir();
        match en {
            Some(en) => {
                let entity = self.expr(en);
                let ghost ir2 = self.ir();
                let r = self.alloc_node(
                    span,
                    Node::Expr(Expr::ComponentAccess { entity, component }),
                );
                proof {
                    if !self.is_full() {
                        self.ir().lemma_is_pair(
                            ir1,
                            ir2,
                            component,
                            expr_tree(c),
                            entity,
                            expr_tree(en),
                        );
                        assert(self.ir().is_pair(
                            entity,
                            expr_tree(en),
                            component,
                            expr_tree(c),
                        ));
                    }
                }
                r
            },
            None => {
                let r = self.alloc_node(
                    span,
                    Node::Expr(Expr::ResourceAccess { resource: component }),
                );
                proof {
                    if !self.is_full() {
                        assert(self.ir().upto(component) == ir1.upto(component));
                    }
                }
                r
            },
        }
    }

    fn let_expr(&mut self, l: ast::Let<'_>) -> (r: NodeIdx)
        requires
            old(self).wf(),
        ensures
            final(self).made(old(self), r),
            final(self).counted(old(self), expr_count(Some(l@))),
            !final(self).is_full() ==> final(self).ir().upto(r).is_expr(Some(l@)),
        decreases l@.size(), 1int,
    {
        proof {
            use_type_invariant(&l);
            lemma_count_two(l@);
        }
        let ghost t = l@;
        let span = span(l.syntax());
        let a = l.lvalue();
        let b = l.expr();
        proof {
            if a.is_some() {
                t.lemma_nth_smaller(NodeClass::Expr, 0);
            }
            if b.is_some() {
                t.lemma_nth_smaller(NodeClass::Expr, 1);
            }
        }
        let lvalue = self.expr(a);
        let ghost ir1 = self.ir();
        let expr = self.expr(b);
        let ghost ir2 = self.ir();
        let r = self.alloc_node(span, Node::Expr(Expr::Let { lvalue, expr }));
        proof {
            if !self.is_full() {
                self.ir().lemma_is_pair(ir1, ir2, lvalue, expr_tree(a), expr, expr_tree(b));
            }
        }
        r
    }

    fn paren_expr(&mut self, p: ast::Paren<'_>) -> (r: NodeIdx)
        requires
            old(self).wf(),
        ensures
            final(self).made(old(self), r),
            final(self).counted(old(self), expr_count(Some(p@))),
            !final(self).is_full() ==> final(self).ir().upto(r).is_expr(Some(p@)),
        decreases p@.size(), 1int,
    {
        proof {
            use_type_invariant(&p);
            lemma_count_paren(p@);
        }
        let ghost t = p@;
        let a = p.expr();
        proof {
            if a.is_some() {
                t.lemma_nth_smaller(NodeClass::Expr, 0);
            }
        }
        self.expr(a)
    }

    fn del_expr(&mut self, d: ast::Del<'_>) -> (r: NodeIdx)
        requires
            old(self).wf(),
        ensures
            final(self).made(old(self), r),
            final(self).counted(old(self), expr_count(Some(d@))),
            !final(self).is_full() ==> final(self).ir().upto(r).is_expr(Some(d@)),
        decreases d@.size(), 1int,
    {
        proof {
            use_type_invariant(&d);
            lemma_count_one(d@);
        }
        let ghost t = d@;
        let span = span(d.syntax());
        let a = d.expr();
        proof {
            if a.is_some() {
                t.lemma_nth_smaller(NodeClass::Expr, 0);
            }
        }
        let expr = self.expr(a);
        self.alloc_node(span, Node::Expr(Expr::Del { expr }))
    }

    fn if_expr(&mut self, i: ast::If<'_>) -> (r: NodeIdx)
        requires
            old(self).wf(),
        ensures
            final(self).made(old(self), r),
            final(self).counted(old(self), expr_count(Some(i@))),
            !final(self).is_full() ==> final(self).ir().upto(r).is_expr(Some(i@)),
        decreases i@.size(), 1int,
    {
        proof {
            use_type_invariant(&i);
            lemma_count_if(i@);
        }
        let ghost t = i@;
        let span = span(i.syntax());
        let a = i.cond();
        let b = i.expr();
        let c = i.else_();
        proof {
            if a.is_some() {
                t.lemma_nth_smaller(NodeClass::Expr, 0);
            }
            if b.is_some() {
                t.lemma_nth_smaller(NodeClass::Expr, 1);
            }
            if t.nth(NodeClass::Expr, 2).is_some() {
                t.lemma_nth_smaller(NodeClass::Expr, 2);
            }
        }
        let cond = self.expr(a);
        let ghost ir1 = self.ir();
        let expr = self.expr(b);
        let ghost ir2 = self.ir();
        let otherwise = match c {
            Some(c) => Some(self.expr(c)),
            None => None,
        };
        let ghost ir3 = self.ir();
        let r = self.alloc_node(span, Node::Expr(Expr::If { cond, expr, otherwise }));
        proof {
            if !self.is_full() {
                self.ir().lemma_is_pair(ir1, ir2, cond, expr_tree(a), expr, expr_tree(b));
                if otherwise.is_some() {
                    assert(self.ir().upto(otherwise.unwrap()) == ir3.upto(otherwise.unwrap()));
                }
            }
        }
        r
    }

    fn while_expr(&mut self, w: ast::While<'_>) -> (r: NodeIdx)
        requires
            old(self).wf(),
        ensures
            final(self).made(old(self), r),
            final(self).counted(old(self), expr_count(Some(w@))),
            !final(self).is_full() ==> final(self).ir().upto(r).is_expr(Some(w@)),
        decreases w@.size(), 1int,
    {
        proof {
            use_type_invariant(&w);
            lemma_count_two(w@);
        }
        let ghost t = w@;
        let span = span(w.syntax());
        let a = w.cond();
        let b = w.expr();
        proof {
            if a.is_some() {
                t.lemma_nth_smaller(NodeClass::Expr, 0);
            }
            if b.is_some() {
                t.lemma_nth_smaller(NodeClass::Expr, 1);
            }
        }
        let cond = self.expr(a);
        let ghost ir1 = self.ir();
        let expr = self.expr(b);
        let ghost ir2 = self.ir();
        let r = self.alloc_node(span, Node::Expr(Expr::While { cond, expr }));
        proof {
            if !self.is_full() {
                self.ir().lemma_is_pair(ir1, ir2, cond, expr_tree(a), expr, expr_tree(b));
            }
        }
        r
    }

    fn call_expr(&mut self, call: ast::Call<'_>) -> (r: NodeIdx)
        requires
            old(self).wf(),
        ensures
            final(self).made(old(self), r),
            final(self).counted(old(self), expr_count(Some(call@))),
            !final(self).is_full() ==> final(self).ir().upto(r).is_expr(Some(call@)),
        decreases call@.size(), 1int,
    {
        proof {
            use_type_invariant(&call);
            lemma_count_call(call@);
        }
        let ghost t = call@;
        let span = span(call.syntax());
        let f = call.function();
        let es = call.args();
        proof {
            if f.is_some() {
                t.lemma_nth_smaller(NodeClass::Expr, 0);
            }
            assert forall|k: int| 0 <= k < es@.len() implies (#[trigger] es@[k])@.size()
                < t.size() by {
                t.lemma_nodes_smaller(NodeClass::Expr, 1 + k);
            }
        }
        let function = self.expr(f);
        let ghost ir1 = self.ir();
        let args = self.exprs(&es, Ghost(t));
        let ghost ir2 = self.ir();
        let r = self.alloc_node(span, Node::Expr(Expr::FunctionCall { function, args }));
        proof {
            assert(expr_trees(es@) =~= all_but_first(t.nodes(NodeClass::Expr)));
            if !self.is_full() {
                let rest = all_but_first(t.nodes(NodeClass::Expr));
                assert(ir2.upto(function) == ir1.upto(function));
                assert(self.ir().upto(function) == ir2.upto(function));
                assert forall|k: int| 0 <= k < args@.len() implies self.ir().before_root(
                    #[trigger] args@[k],
                ) && self.ir().upto(args@[k]).is_expr(Some(rest[k])) by {
                    assert(self.ir().upto(args@[k]) == ir2.upto(args@[k]));
                    assert(es@[k]@ == rest[k]);
                }
                assert(self.ir().are_exprs(args@, rest));
            }
        }
        r
    }

    fn struct_expr(&mut self, s: ast::Struct<'_>) -> (r: NodeIdx)
        requires
            old(self).wf(),
        ensures
            final(self).made(old(self), r),
            final(self).counted(old(self), expr_count(Some(s@))),
            !final(self).is_full() ==> final(self).ir().upto(r).is_expr(Some(s@)),
        decreases s@.size(), 1int,
    {
        proof {
            use_type_invariant(&s);
            lemma_count_struct(s@);
        }
        let ghost t = s@;
        let span = span(s.syntax());
        let ident = match s.ident() {
            Some(ident) => Identifier::Name(ident),
            None => {
                return self.alloc_expr_poison();
            },
        };
        let pairs = s.fields();
        let mut fields: Vec<(String, NodeIdx)> = Vec::new();
        let mut i: usize = 0;
        let ghost all = Tree::field_pairs(t.children(), 0);
        let ghost trees = pair_exprs(all);
        proof {
            self.ir().lemma_grows_refl();
            assert(trees.subrange(0, 0) =~= Seq::<Tree>::empty());
        }
        while i < pairs.len()
            invariant
                i <= pairs@.len(),
                fields@.len() == i,
                t == s@,
                trees == pair_exprs(all),
                self.follows(old(self)),
                self.counted(old(self), children_count(t, trees.subrange(0, i as int))),
                all == Tree::field_pairs(t.children(), 0),
                pairs@.len() == all.len(),
                forall|k: int|
                    0 <= k < pairs@.len() ==> {
                        &&& encode_utf8((#[trigger] pairs@[k]).0@) == all[k].0.leaf_text()
                        &&& pairs@[k].1@ == all[k].1
                    },
                forall|k: int|
                    0 <= k < fields@.len() ==> (#[trigger] fields@[k]).1 < self.ir().len()
                        && fields@[k].0@ == pairs@[k].0@,
                !self.is_full() ==> forall|k: int|
                    0 <= k < fields@.len() ==> self.ir().upto((#[trigger] fields@[k]).1).is_expr(
                        Some(all[k].1),
                    ),
            decreases pairs@.len() - i,
        {
            let ghost before = self.ir();
            proof {
                Tree::lemma_field_pairs_size(t.children(), 0, i as int);
                assert(all[i as int].1.size() < t.size());
            }
            let name = pairs[i].0.clone();
            let id = self.expr(Some(pairs[i].1));
            proof {
                assert(trees.subrange(0, i + 1).drop_last() =~= trees.subrange(0, i as int));
                assert(trees.subrange(0, i + 1).last() == all[i as int].1);
                assert(child_count(t, Some(all[i as int].1)) == expr_count(Some(all[i as int].1)));
                if !self.is_full() {
                    assert forall|k: int| 0 <= k < fields@.len() implies self.ir().upto(
                        (#[trigger] fields@[k]).1,
                    ).is_expr(Some(all[k].1)) by {
                        assert(self.ir().upto(fields@[k].1) == before.upto(fields@[k].1));
                    }
                }
            }
            fields.push((name, id));
            i = i + 1;
        }
        assert(trees.subrange(0, trees.len() as int) =~= trees);
        self.alloc_node(span, Node::Expr(Expr::Struct { ident, fields }))
    }

    /// Lowers a type. A type given by name without the name is not
    /// lowered.
    fn type_(&mut self, ty: ast::Type<'_>) -> (r: Option<NodeIdx>)
        requires
            old(self).wf(),
        ensures
            final(self).follows(old(self)),
            final(self).counted(old(self), type_count(ty@)),
            r.is_some() == type_lowers(ty@),
            r.is_some() ==> r.unwrap() < final(self).ir().len(),
            r.is_some() && !final(self).is_full() ==> final(self).ir().type_at(r.unwrap(), ty@),
        decreases ty@.size(),
    {
        let ghost t = ty@;
        match ty {
            ast::Type::IdentifierType(ident) => {
                proof {
                    use_type_invariant(&ident);
                    self.ir().lemma_grows_refl();
                }
                let span = span(ident.syntax());
                match ident.ident() {
                    Some(name) => Some(self.alloc_node(span, Node::TypeIdent(TypeIdent(name)))),
                    None => None,
                }
            },
            ast::Type::StructType(st) => {
                proof {
                    use_type_invariant(&st);
                }
                let span = span(st.syntax());
                let all = st.fields();
                let ghost fs = t.nodes(NodeClass::Exactly(Token::FieldType));
                let mut fields: Vec<TypedIdent> = Vec::new();
                let mut i: usize = 0;
                proof {
                    self.ir().lemma_grows_refl();
                    assert(fs.subrange(0, 0) =~= Seq::<Tree>::empty());
                }
                while i < all.len()
                    invariant
                        i <= all@.len(),
                        t == ty@,
                        t == st@,
                        self.follows(old(self)),
                        self.counted(old(self), fields_count(t, fs.subrange(0, i as int))),
                        fs == t.nodes(NodeClass::Exactly(Token::FieldType)),
                        all@.len() == fs.len(),
                        forall|k: int| 0 <= k < all@.len() ==> (#[trigger] all@[k])@ == fs[k],
                        fields@.len() == fields_that_lower(fs.subrange(0, i as int)).len(),
                        forall|k: int|
                            0 <= k < fields@.len() ==> (#[trigger] fields@[k]).ty < self.ir().len(),
                        !self.is_full() ==> forall|k: int|
                            0 <= k < fields@.len() ==> self.ir().field_made(
                                #[trigger] fields@[k],
                                fields_that_lower(fs.subrange(0, i as int))[k],
                            ),
                    decreases all@.len() - i,
                {
                    let ghost before = self.ir();
                    let ghost sofar = fields_that_lower(fs.subrange(0, i as int));
                    proof {
                        t.lemma_nodes_smaller(NodeClass::Exactly(Token::FieldType), i as int);
                        assert(fs.subrange(0, i + 1).drop_last() =~= fs.subrange(0, i as int));
                        assert(fs.subrange(0, i + 1).last() == fs[i as int]);
                    }
                    let field = self.typed_ident(all[i]);
                    proof {
                        if !self.is_full() {
                            assert forall|k: int| 0 <= k < fields@.len() implies self.ir().field_made(
                                #[trigger] fields@[k],
                                sofar[k],
                            ) by {
                                assert(before.field_made(fields@[k], sofar[k]));
                                assert(self.ir().upto(fields@[k].ty) == before.upto(fields@[k].ty));
                            }
                        }
                    }
                    match field {
                        Some(f) => {
                            fields.push(f);
                        },
                        None => {},
                    }
                    i = i + 1;
                }
                assert(fs.subrange(0, fs.len() as int) =~= fs);
                let ghost mid = self.ir();
                let r = self.alloc_node(span, Node::Struct(StructType(fields)));
                proof {
                    if !self.is_full() {
                        let wanted = fields_that_lower(fs);
                        assert forall|k: int| 0 <= k < fields@.len() implies self.ir().is_field(
                            #[trigger] fields@[k],
                            wanted[k],
                        ) by {
                            assert(mid.field_made(fields@[k], wanted[k]));
                            assert(self.ir().upto(fields@[k].ty) == mid.upto(fields@[k].ty));
                        }
                        assert(self.ir().are_fields(fields@, wanted));
                    }
                }
                Some(r)
            },
        }
    }

    /// Lowers a field: its name, and the node of its type. A field without
    /// a name, or without a type that can be lowered, is not lowered.
    fn typed_ident(&mut self, field: ast::FieldType<'_>) -> (r: Option<TypedIdent>)
        requires
            old(self).wf(),
        ensures
            final(self).follows(old(self)),
            final(self).counted(old(self), field_count(field@)),
            r.is_some() == field_lowers(field@),
            r.is_some() ==> r.unwrap().ty < final(self).ir().len(),
            r.is_some() && !final(self).is_full() ==> final(self).ir().field_made(
                r.unwrap(),
                field@,
            ),
        decreases field@.size(),
    {
        proof {
            use_type_invariant(&field);
            self.ir().lemma_grows_refl();
        }
        let ident = match field.ident() {
            Some(ident) => ident,
            None => {
                return None;
            },
        };
        let ty = match field.type_() {
            Some(ty) => ty,
            None => {
                return None;
            },
        };
        proof {
            field@.lemma_nth_smaller(NodeClass::Type, 0);
        }
        match self.type_(ty) {
            Some(ty) => Some(TypedIdent { ident, ty }),
            None => None,
        }
    }

    /// Lowers a system. A system without a body is not lowered.
    fn system(&mut self, system: ast::System<'_>) -> (r: Option<NodeIdx>)
        requires
            old(self).wf(),
            system@.kind() == Token::System,
        ensures
            final(self).follows(old(self)),
            final(self).counted(old(self), item_made(system@)),
            r.is_some() == item_lowers(system@),
            r.is_some() ==> r.unwrap() < final(self).ir().len(),
            r.is_some() && !final(self).is_full() ==> final(self).ir().item_at(
                r.unwrap(),
                system@,
            ),
    {
        proof {
            self.ir().lemma_grows_refl();
        }
        let body = match system.block() {
            Some(b) => {
                proof {
                    use_type_invariant(&b);
                }
                b
            },
            None => {
                return None;
            },
        };
        let block = self.expr(Some(ast::Expr::Block(body)));
        let ghost mid = self.ir();
        let ident = system.ident();
        let r = self.alloc_node(span(system.syntax()), Node::System(System { ident, block }));
        proof {
            if !self.is_full() {
                assert(self.ir().upto(block) == mid.upto(block));
            }
        }
        Some(r)
    }

    /// Lowers a top-level item, where it can be lowered.
    fn item(&mut self, item: ast::Item<'_>) -> (r: Option<NodeIdx>)
        requires
            old(self).wf(),
        ensures
            final(self).follows(old(self)),
            final(self).counted(old(self), item_made(item@)),
            r.is_some() == item_lowers(item@),
            r.is_some() ==> r.unwrap() < final(self).ir().len(),
            r.is_some() && !final(self).is_full() ==> final(self).ir().item_at(r.unwrap(), item@),
    {
        proof {
            self.ir().lemma_grows_refl();
        }
        match item {
            ast::Item::System(system) => {
                proof {
                    use_type_invariant(&system);
                }
                self.system(system)
            },
            ast::Item::Resource(resource) => {
                proof {
                    use_type_invariant(&resource);
                }
                let span = span(resource.syntax());
                let field = match resource.field() {
                    Some(field) => field,
                    None => {
                        return None;
                    },
                };
                let ghost f = field@;
                match self.typed_ident(field) {
                    Some(typed_ident) => {
                        let ghost mid = self.ir();
                        let ghost ty = typed_ident.ty;
                        let r = self.alloc_node(span, Node::Resource(typed_ident));
                        proof {
                            if !self.is_full() {
                                assert(self.ir().upto(ty) == mid.upto(ty));
                            }
                        }
                        Some(r)
                    },
                    None => None,
                }
            },
            ast::Item::Component(component) => {
                proof {
                    use_type_invariant(&component);
                }
                let span = span(component.syntax());
                let field = match component.field() {
                    Some(field) => field,
                    None => {
                        return None;
                    },
                };
                match self.typed_ident(field) {
                    Some(typed_ident) => {
                        let ghost mid = self.ir();
                        let ghost ty = typed_ident.ty;
                        let r = self.alloc_node(span, Node::Component(typed_ident));
                        proof {
                            if !self.is_full() {
                                assert(self.ir().upto(ty) == mid.upto(ty));
                            }
                        }
                        Some(r)
                    },
                    None => None,
                }
            },
            ast::Item::Import(import) => {
                proof {
                    use_type_invariant(&import);
                }
                let span = span(import.syntax());
                match import.ident() {
                    Some(name) => Some(self.alloc_node(span, Node::Import(name))),
                    None => None,
                }
            },
        }
    }

    /// Lowers a top-level item to its node. An item that cannot be lowered
    /// becomes the mark of a missing part, with a diagnostic: every item
    /// has a node.
    fn top_level_item(&mut self, item: ast::Item<'_>) -> (r: NodeIdx)
        requires
            old(self).wf(),
        ensures
            final(self).follows(old(self)),
            final(self).counted(old(self), item_count(item@)),
            r < final(self).ir().len(),
            !final(self).is_full() ==> final(self).ir().stands_for(r, item@),
    {
        match self.item(item) {
            Some(id) => id,
            None => self.alloc_expr_poison(),
        }
    }

    /// Lowers an expression; a missing one becomes a poison node.
    fn expr(&mut self, e: Option<ast::Expr<'_>>) -> (r: NodeIdx)
        requires
            old(self).wf(),
        ensures
            final(self).made(old(self), r),
            final(self).counted(old(self), expr_count(expr_tree(e))),
            e.is_none() ==> final(self).counted(old(self), 1),
            !final(self).is_full() ==> final(self).ir().upto(r).is_expr(expr_tree(e)),
        decreases expr_size(e), 2int,
    {
        proof {
            lemma_count_missing();
        }
        match e {
            None => self.alloc_expr_poison(),
            Some(ast::Expr::UnaryExpr(u)) => {
                proof {
                    use_type_invariant(&u);
                }
                self.unary_expr(u)
            },
            Some(ast::Expr::BinaryExpr(b)) => {
                proof {
                    use_type_invariant(&b);
                }
                self.binary_expr(b)
            },
            Some(ast::Expr::Literal(l)) => {
                proof {
                    use_type_invariant(&l);
                    lemma_count_literal(l@);
                }
                self.literal(l)
            },
            Some(ast::Expr::Query(x)) => self.query_expr(x),
            Some(ast::Expr::Block(x)) => self.block_expr(x),
            Some(ast::Expr::ECSAccess(x)) => self.access_expr(x),
            Some(ast::Expr::Let(x)) => self.let_expr(x),
            Some(ast::Expr::Del(x)) => self.del_expr(x),
            Some(ast::Expr::If(x)) => self.if_expr(x),
            Some(ast::Expr::While(x)) => self.while_expr(x),
            Some(ast::Expr::Call(x)) => self.call_expr(x),
            Some(ast::Expr::Struct(x)) => self.struct_expr(x),
            Some(ast::Expr::Paren(x)) => self.paren_expr(x),
        }
    }
}

/// The source range of a node.
fn span(node: &SyntaxNode) -> (r: Option<Span>)
    ensures
        r == span_of(node@),
{
    proof {
        crate::syntax::lemma_node_view(*node);
    }
    Some((node.start, node.end))
}

/// Why a tree could not be lowered.
#[derive(Debug, Clone, Copy, PartialEq, Eq)]
pub enum LowerError {
    /// The module needs more nodes than an index can tell apart.
    TooManyNodes,
}

/// Whether the nodes that the lowering of the tree `root` makes are no
/// more than a module can hold.
pub open spec fn fits(root: Tree) -> bool {
    items_count(root.nodes(NodeClass::Item)) <= u32::MAX
}

/// What holds of the module that a tree was lowered to: each item of the
/// tree has its node among the top-level items, in order, and the
/// diagnostics are those of the parser and then one for each part that was
/// found missing.
pub open spec fn lowered(m: Module, root: Tree, source: Seq<char>, module: ModuleID, parse_errors: Seq<Report>) -> bool {
    &&& m.wf()
    &&& m.source@ == source
    &&& m.ir().len() == items_count(root.nodes(NodeClass::Item))
    &&& m.ir().items_at(m.top_level@, root.nodes(NodeClass::Item))
    &&& m.parser_errors@ == parse_errors + missing_reports(module, m.ir().missing_count())
}

/// Lowers the tree `root` of the source `source` of module `module_id`,
/// which was parsed with the diagnostics `parse_errors`.
pub fn run(root: ast::Root<'_>, source: String, module_id: ModuleID, parse_errors: Vec<Report>) -> (r:
    Result<Module, LowerError>)
    ensures
        match r {
            Ok(m) => lowered(m, root@, source@, module_id, parse_errors@),
            Err(e) => e == LowerError::TooManyNodes,
        },
        r.is_ok() == fits(root@),
{
    let ghost t = root@;
    let ghost ts = t.nodes(NodeClass::Item);
    let mut lower = LowerCtx::new(module_id, parse_errors);
    let items = root.items();
    let mut top_level: Vec<NodeIdx> = Vec::new();
    let mut i: usize = 0;
    assert(ts.subrange(0, 0) =~= Seq::<Tree>::empty());
    while i < items.len()
        invariant
            i <= items@.len(),
            lower.wf(),
            lower.module() == module_id,
            lower.parse_errors() == parse_errors@,
            ts == t.nodes(NodeClass::Item),
            items@.len() == ts.len(),
            forall|k: int| 0 <= k < items@.len() ==> (#[trigger] items@[k])@ == ts[k],
            top_level@.len() == i,
            !lower.is_full() ==> lower.ir().len() == items_count(ts.subrange(0, i as int)),
            lower.is_full() ==> items_count(ts.subrange(0, i as int)) > u32::MAX,
            forall|k: int| 0 <= k < top_level@.len() ==> #[trigger] top_level@[k] < lower.ir().len(),
            !lower.is_full() ==> forall|k: int|
                0 <= k < top_level@.len() ==> lower.ir().stands_for(#[trigger] top_level@[k], ts[k]),
        decreases items@.len() - i,
    {
        let ghost before = lower.ir();
        proof {
            assert(ts.subrange(0, i + 1).drop_last() =~= ts.subrange(0, i as int));
            assert(ts.subrange(0, i + 1).last() == ts[i as int]);
        }
        let id = lower.top_level_item(items[i]);
        proof {
            if !lower.is_full() {
                assert forall|k: int| 0 <= k < top_level@.len() implies lower.ir().stands_for(
                    #[trigger] top_level@[k],
                    ts[k],
                ) by {
                    assert(before.stands_for(top_level@[k], ts[k]));
                    assert(lower.ir().upto(top_level@[k]) == before.upto(top_level@[k]));
                }
            }
        }
        top_level.push(id);
        i = i + 1;
    }
    assert(ts.subrange(0, ts.len() as int) =~= ts);
    if lower.full {
        return Err(LowerError::TooManyNodes);
    }
    Ok(
        Module {
            source,
            nodes: lower.nodes,
            spans: lower.spans,
            top_level,
            parser_errors: lower.errors,
        },
    )
}

impl Ir {
    /// The nodes with one more behind them.
    pub open spec fn push(self, node: Node, span: Option<Span>) -> Ir {
        Ir { nodes: self.nodes.push(node), spans: self.spans.push(span) }
    }

    /// Whether `self` starts with the nodes of `old`: what was said of a
    /// node of `old` and the nodes before it still holds.
    pub open spec fn grows(self, old: Ir) -> bool {
        &&& old.len() <= self.len()
        &&& forall|j: NodeIdx| j < old.len() ==> #[trigger] self.upto(j) == old.upto(j)
    }

    /// Two nodes that were lowered one after the other are a pair before
    /// any node made later.
    pub proof fn lemma_is_pair(
        self,
        ir1: Ir,
        ir2: Ir,
        a: NodeIdx,
        x: Option<Tree>,
        b: NodeIdx,
        y: Option<Tree>,
    )
        requires
            ir2.grows(ir1),
            self.grows(ir2),
            a < ir1.len(),
            b < ir2.len(),
            ir2.len() < self.len(),
            ir1.upto(a).is_expr(x),
            ir2.upto(b).is_expr(y),
        ensures
            self.is_pair(a, x, b, y),
    {
        assert(ir2.upto(a) == ir1.upto(a));
        assert(self.upto(a) == ir2.upto(a));
        assert(self.upto(b) == ir2.upto(b));
    }

    pub proof fn lemma_grows_refl(self)
        ensures
            self.grows(self),
    {
    }

    /// What one more node changes: nothing of what was there, and the count
    /// of missing parts only if the node marks one.
    pub proof fn lemma_push(self, node: Node, span: Option<Span>)
        requires
            self.spans.len() == self.nodes.len(),
            wf_nodes(self.nodes),
            node.below(self.len()),
            self.len() <= u32::MAX,
        ensures
            self.push(node, span).grows(self),
            wf_nodes(self.push(node, span).nodes),
            self.push(node, span).len() == self.len() + 1,
            self.push(node, span).take(self.len()) == self,
            self.push(node, span).upto(self.len() as NodeIdx) == self.push(node, span),
            self.push(node, span).root() == node,
            self.push(node, span).root_span() == span,
            self.push(node, span).missing_count() == self.missing_count() + if node matches Node::Expr(
                Expr::Poison,
            ) {
                1nat
            } else {
                0nat
            },
    {
        let next = self.push(node, span);
        assert(next.take(self.len()).nodes =~= self.nodes);
        assert(next.take(self.len()).spans =~= self.spans);
        assert forall|j: NodeIdx| j < self.len() implies #[trigger] next.upto(j) == self.upto(j) by {
            assert(next.upto(j).nodes =~= self.upto(j).nodes);
            assert(next.upto(j).spans =~= self.upto(j).spans);
        }
        assert(next.upto(self.len() as NodeIdx).nodes =~= next.nodes);
        assert(next.upto(self.len() as NodeIdx).spans =~= next.spans);
    }
}

} // verus!
