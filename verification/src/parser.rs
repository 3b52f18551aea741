//! The parser: turns the token sequence into a syntax tree under a
//! deliberately minimal grammar. A statement is a declaration when it
//! starts with the keyword `int`; any other statement collapses to a
//! single-token expression leaf. Parsing never fails at the top level.

use vstd::prelude::*;
use crate::text::str_eq;
use crate::types::{ASTNode, ASTNodeType, NodeV, Token, TokenType, TokenV, node_view, nodes_view,
    tokens_view, lemma_nodes_view, children_size, lemma_children_size_nonneg, node_size};

verus! {

// ---------------------------------------------------------------------------
// Grammar specification.
// ---------------------------------------------------------------------------

/// One expression: a leaf carrying the current token's text. Consumes
/// exactly one token.
pub open spec fn spec_parse_expression(toks: Seq<TokenV>, pos: int) -> (NodeV, int) {
    (
        NodeV { node_type: ASTNodeType::Expression, value: toks[pos].value, children: Seq::empty() },
        pos + 1,
    )
}

/// One declaration, standing at the `int` keyword: the declared name as
/// child 0, and, after an `=` token, one expression as child 1.
pub open spec fn spec_parse_declaration(toks: Seq<TokenV>, pos: int) -> (NodeV, int) {
    let p1 = pos + 1;
    if p1 < toks.len() {
        let name = NodeV {
            node_type: ASTNodeType::Expression,
            value: toks[p1].value,
            children: Seq::empty(),
        };
        let p2 = p1 + 1;
        if p2 < toks.len() && toks[p2].value == "="@ {
            let p3 = p2 + 1;
            if p3 < toks.len() {
                let (expr, p4) = spec_parse_expression(toks, p3);
                (
                    NodeV {
                        node_type: ASTNodeType::Declaration,
                        value: "declaration"@,
                        children: seq![name, expr],
                    },
                    p4,
                )
            } else {
                (
                    NodeV {
                        node_type: ASTNodeType::Declaration,
                        value: "declaration"@,
                        children: seq![name],
                    },
                    p3,
                )
            }
        } else {
            (
                NodeV {
                    node_type: ASTNodeType::Declaration,
                    value: "declaration"@,
                    children: seq![name],
                },
                p2,
            )
        }
    } else {
        (
            NodeV {
                node_type: ASTNodeType::Declaration,
                value: "declaration"@,
                children: Seq::empty(),
            },
            p1,
        )
    }
}

/// One statement: a declaration where the current token is the keyword
/// `int`, else a single-token expression.
pub open spec fn spec_parse_statement(toks: Seq<TokenV>, pos: int) -> (NodeV, int) {
    if toks[pos].token_type == TokenType::Keyword && toks[pos].value == "int"@ {
        spec_parse_declaration(toks, pos)
    } else {
        spec_parse_expression(toks, pos)
    }
}

/// A statement consumes at least one token and stops within the input.
pub proof fn lemma_parse_statement_bounds(toks: Seq<TokenV>, pos: int)
    requires
        0 <= pos < toks.len(),
    ensures
        pos < spec_parse_statement(toks, pos).1 <= toks.len(),
{
}

/// The statements parsed from `pos` to the end of the tokens.
pub open spec fn spec_parse(toks: Seq<TokenV>, pos: int) -> Seq<NodeV>
    decreases toks.len() - pos
        when 0 <= pos
{
    if pos >= toks.len() {
        Seq::empty()
    } else {
        {
            proof {
                lemma_parse_statement_bounds(toks, pos);
            }
            let (node, p2) = spec_parse_statement(toks, pos);
            seq![node] + spec_parse(toks, p2)
        }
    }
}

/// The whole parse: a Program node whose children are the statements
/// parsed from `pos`.
pub open spec fn spec_parse_program(toks: Seq<TokenV>, pos: int) -> NodeV {
    NodeV { node_type: ASTNodeType::Program, value: "program"@, children: spec_parse(toks, pos) }
}

/// Dropping the head of a forest shifts the size index.
proof fn lemma_children_size_shift(x: NodeV, ys: Seq<NodeV>, i: int)
    requires
        0 <= i <= ys.len(),
    ensures
        children_size(seq![x] + ys, i + 1) == children_size(ys, i),
    decreases ys.len() - i,
{
    if i < ys.len() {
        assert((seq![x] + ys)[i + 1] == ys[i]);
        lemma_children_size_shift(x, ys, i + 1);
    }
}

/// A statement's tree holds no more nodes than the tokens it consumed.
pub proof fn lemma_statement_size(toks: Seq<TokenV>, pos: int)
    requires
        0 <= pos < toks.len(),
    ensures
        node_size(spec_parse_statement(toks, pos).0) <= spec_parse_statement(toks, pos).1 - pos,
{
    let (node, p2) = spec_parse_statement(toks, pos);
    lemma_children_size_nonneg(node.children, 0);
    assert forall|c: NodeV| node.children.contains(c) implies node_size(c) == 1 by {
        assert(c.children.len() == 0);
        assert(children_size(c.children, 0) == 0);
    }
    if node.children.len() == 0 {
        assert(children_size(node.children, 0) == 0);
    } else if node.children.len() == 1 {
        assert(node.children.contains(node.children[0]));
        assert(children_size(node.children, 0) == node_size(node.children[0]) + children_size(
            node.children,
            1,
        ));
        assert(children_size(node.children, 1) == 0);
    } else {
        assert(node.children.contains(node.children[0]));
        assert(node.children.contains(node.children[1]));
        assert(children_size(node.children, 0) == node_size(node.children[0]) + children_size(
            node.children,
            1,
        ));
        assert(children_size(node.children, 1) == node_size(node.children[1]) + children_size(
            node.children,
            2,
        ));
        assert(children_size(node.children, 2) == 0);
    }
}

/// The parsed forest holds no more nodes than there are tokens.
pub proof fn lemma_parse_size(toks: Seq<TokenV>, pos: int)
    requires
        0 <= pos <= toks.len(),
    ensures
        children_size(spec_parse(toks, pos), 0) <= toks.len() - pos,
    decreases toks.len() - pos,
{
    if pos < toks.len() {
        lemma_parse_statement_bounds(toks, pos);
        lemma_statement_size(toks, pos);
        let (node, p2) = spec_parse_statement(toks, pos);
        lemma_parse_size(toks, p2);
        let rest = spec_parse(toks, p2);
        assert((seq![node] + rest)[0] == node);
        lemma_children_size_shift(node, rest, 0);
        assert(children_size(spec_parse(toks, pos), 0) == node_size(node) + children_size(
            rest,
            0,
        ));
    }
}

// ---------------------------------------------------------------------------
// The executable parser.
// ---------------------------------------------------------------------------

/// The parser: holds the token sequence and a cursor into it.
#[derive(Debug)]
pub struct Parser {
    pub tokens: Vec<Token>,
    pub position: usize,
}

impl Parser {
    /// A parser over `tokens`, with the cursor at the first token.
    pub fn new(tokens: Vec<Token>) -> (r: Parser)
        ensures
            r.tokens == tokens,
            r.position == 0,
    {
        Parser { tokens, position: 0 }
    }

    /// One expression leaf from the current token. Fails exactly at the
    /// end of the input, leaving the parser unchanged.
    fn parse_expression(&mut self) -> (r: Result<ASTNode, String>)
        ensures
            final(self).tokens == old(self).tokens,
            r is Ok <==> old(self).position < old(self).tokens@.len(),
            r matches Ok(node) ==> {
                &&& node@ == spec_parse_expression(
                    tokens_view(old(self).tokens@),
                    old(self).position as int,
                ).0
                &&& final(self).position == spec_parse_expression(
                    tokens_view(old(self).tokens@),
                    old(self).position as int,
                ).1
            },
            r is Err ==> *final(self) == *old(self),
    {
        if self.position >= self.tokens.len() {
            return Err("Unexpected end of input".to_owned());
        }
        let value = self.tokens[self.position].value.clone();
        self.position += 1;
        let node = ASTNode { node_type: ASTNodeType::Expression, value, children: Vec::new() };
        proof {
            assert(node@.children =~= Seq::<NodeV>::empty());
        }
        Ok(node)
    }

    /// One declaration, with the cursor at its `int` keyword. Never
    /// fails.
    fn parse_declaration(&mut self) -> (r: Result<ASTNode, String>)
        requires
            old(self).position < old(self).tokens@.len(),
        ensures
            final(self).tokens == old(self).tokens,
            r matches Ok(node) ==> {
                &&& node@ == spec_parse_declaration(
                    tokens_view(old(self).tokens@),
                    old(self).position as int,
                ).0
                &&& final(self).position == spec_parse_declaration(
                    tokens_view(old(self).tokens@),
                    old(self).position as int,
                ).1
            },
            r is Ok,
    {
        let ghost toks = tokens_view(old(self).tokens@);
        let n = self.tokens.len();
        let mut decl = ASTNode {
            node_type: ASTNodeType::Declaration,
            value: "declaration".to_owned(),
            children: Vec::new(),
        };
        self.position += 1;
        if self.position < n {
            let var_name = self.tokens[self.position].value.clone();
            decl.children.push(
                ASTNode { node_type: ASTNodeType::Expression, value: var_name, children: Vec::new() },
            );
            self.position += 1;
        }
        if self.position < n && str_eq(self.tokens[self.position].value.as_str(), "=") {
            self.position += 1;
            match self.parse_expression() {
                Ok(expr) => {
                    decl.children.push(expr);
                },
                Err(_) => {},
            }
        }
        proof {
            let pos0 = old(self).position as int;
            let sp = spec_parse_declaration(toks, pos0);
            lemma_nodes_view(decl.children@);
            assert(toks.len() == old(self).tokens@.len());
            assert(decl@.children =~~= nodes_view(decl.children@));
            assert(decl@.node_type == sp.0.node_type);
            assert(decl@.value == sp.0.value);
            assert(decl@.children.len() == sp.0.children.len());
            assert(self.position == sp.1);
            assert forall|i: int| 0 <= i < decl@.children.len() implies decl@.children[i]
                =~~= sp.0.children[i] by {
                assert(decl@.children[i] == node_view(decl.children@[i]));
            }
            assert(decl@.children =~~= sp.0.children);
            assert(decl@ =~~= sp.0);
        }
        Ok(decl)
    }

    /// One statement: a declaration after the keyword `int`, else an
    /// expression leaf. Fails exactly at the end of the input.
    fn parse_statement(&mut self) -> (r: Result<ASTNode, String>)
        ensures
            final(self).tokens == old(self).tokens,
            r is Ok <==> old(self).position < old(self).tokens@.len(),
            r matches Ok(node) ==> {
                &&& node@ == spec_parse_statement(
                    tokens_view(old(self).tokens@),
                    old(self).position as int,
                ).0
                &&& final(self).position == spec_parse_statement(
                    tokens_view(old(self).tokens@),
                    old(self).position as int,
                ).1
            },
            r is Err ==> *final(self) == *old(self),
    {
        if self.position >= self.tokens.len() {
            return Err("Unexpected end of input".to_owned());
        }
        let t = &self.tokens[self.position];
        if t.token_type == TokenType::Keyword && str_eq(t.value.as_str(), "int") {
            self.parse_declaration()
        } else {
            self.parse_expression()
        }
    }

    /// The whole parse: always a Program node; a statement that cannot
    /// be parsed would be skipped, so the top level never fails.
    pub fn parse(&mut self) -> (r: Result<ASTNode, String>)
        ensures
            final(self).tokens == old(self).tokens,
            r matches Ok(root) && root@ == spec_parse_program(
                tokens_view(old(self).tokens@),
                old(self).position as int,
            ),
    {
        let ghost toks = tokens_view(old(self).tokens@);
        let mut program = ASTNode {
            node_type: ASTNodeType::Program,
            value: "program".to_owned(),
            children: Vec::new(),
        };
        while self.position < self.tokens.len()
            invariant
                self.tokens == old(self).tokens,
                toks == tokens_view(old(self).tokens@),
                toks.len() == self.tokens@.len(),
                0 <= self.position,
                program.node_type == ASTNodeType::Program,
                program.value@ == "program"@,
                spec_parse(toks, old(self).position as int) == nodes_view(program.children@)
                    + spec_parse(toks, self.position as int),
            decreases self.tokens@.len() - self.position,
        {
            let ghost pre_pos = self.position as int;
            let ghost pre_children = program.children@;
            match self.parse_statement() {
                Ok(node) => {
                    program.children.push(node);
                    proof {
                        lemma_parse_statement_bounds(toks, pre_pos);
                        lemma_nodes_view(pre_children);
                        lemma_nodes_view(program.children@);
                        assert(nodes_view(program.children@) =~= nodes_view(pre_children) + seq![
                            node_view(program.children@.last()),
                        ]);
                    }
                },
                Err(_) => {
                    proof {
                        assert(false);
                    }
                    self.position += 1;
                },
            }
        }
        proof {
            let pos0 = old(self).position as int;
            assert(spec_parse(toks, self.position as int) =~= Seq::<NodeV>::empty());
            assert(nodes_view(program.children@) + Seq::<NodeV>::empty() =~= nodes_view(
                program.children@,
            ));
            assert(program@.children == nodes_view(program.children@));
            assert(program@.children == spec_parse(toks, pos0));
            assert(program@.node_type == spec_parse_program(toks, pos0).node_type);
            assert(program@.value == spec_parse_program(toks, pos0).value);
            assert(program@ =~~= spec_parse_program(toks, pos0));
        }
        Ok(program)
    }
}

} // verus!
