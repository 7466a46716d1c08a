//! How the parser reads statements, blocks and sequences.

use vstd::prelude::*;
use crate::folding::arguments_of;
use crate::lexer::Cursor;
use crate::node::{
    lemma_nodes_view, lemma_nodes_view_push, node_view, nodes_view, BlockNode, FuncDefNode, IfNode,
    Node, NodeView, ReturnNode, TupleNode, WhileNode,
};
use crate::parser::{
    lemma_parsed_body, lemma_parsed_conditional, lemma_parsed_fn, lemma_parsed_keyword,
    lemma_parsed_list, lemma_parsed_tuple, agrees, agrees_list, option_view, parsed_body,
    parsed_body_next, parsed_body_rest, parsed_conditional, parsed_fn, parsed_keyword, parsed_list,
    parsed_program, parsed_statement, parsed_tuple, ParsedList, Parser, ParserError,
    ParserErrorView,
};
use crate::token::{KeywordType, TokenType};

verus! {

impl Parser {
    /// Parses the whole text: its statements, as a block.
    pub fn parse(&mut self) -> (r: Result<Node, ParserError>)
        requires
            old(self).lexer.wf(),
        ensures
            final(self).goes_on(old(self)),
            match parsed_program(
                old(self).source(),
                old(self).lexer.cursor(),
                old(self).getting_params,
                Seq::empty(),
            ).result {
                Ok(n) => r is Ok && Some(node_view(r->Ok_0)) == n,
                Err(e) => r is Err && r->Err_0@ == e,
            },
    {
        let mut statements: Vec<Node> = Vec::new();
        let ghost goal = parsed_program(
            self.source(),
            self.lexer.cursor(),
            self.getting_params,
            Seq::empty(),
        );
        assert(nodes_view(statements@, 0) =~= Seq::<NodeView>::empty());
        loop
            invariant
                self.goes_on(old(self)),
                goal == parsed_program(
                    old(self).source(),
                    old(self).lexer.cursor(),
                    old(self).getting_params,
                    Seq::empty(),
                ),
                goal == parsed_program(
                    self.source(),
                    self.lexer.cursor(),
                    self.getting_params,
                    nodes_view(statements@, 0),
                ),
            decreases self.left(),
        {
            match self.skip_newline_or_semicolon() {
                Ok(()) => {},
                Err(e) => {
                    return Err(e);
                },
            }
            match self.parse_statement() {
                Err(e) => {
                    return Err(e);
                },
                Ok(None) => {
                    return Ok(Node::Block(BlockNode { statements }));
                },
                Ok(Some(statement)) => {
                    proof {
                        lemma_nodes_view_push(statements@, statement);
                    }
                    statements.push(statement);
                },
            }
        }
    }

    pub(crate) fn parse_keyword(&mut self) -> (r: Result<Option<Node>, ParserError>)
        requires
            old(self).lexer.wf(),
        ensures
            final(self).goes_on(old(self)),
            agrees(
                parsed_keyword(old(self).source(), old(self).lexer.cursor(), old(self).getting_params),
                r,
                *final(self),
            ),
            r matches Ok(Some(_)) ==> final(self).left() < old(self).left(),
        decreases old(self).left(), 13int,
    {
        proof {
            lemma_parsed_keyword(self.source(), self.lexer.cursor(), self.getting_params);
        }
        let token = match self.next_token() {
            Ok(token) => token,
            Err(e) => {
                return Err(e);
            },
        };
        if token.token_type == TokenType::EndOfFile {
            return Err(self.unexpected_here());
        }
        match token.keyword_type {
            KeywordType::Fn => self.parse_fn(),
            KeywordType::If => self.parse_if(),
            KeywordType::While => self.parse_while(),
            KeywordType::Return => self.parse_return(),
            _ => Err(self.unexpected_here()),
        }
    }

    /// Parses the condition and the block of an `if` or a `while`.
    pub(crate) fn parse_condition_block(&mut self) -> (r: Result<(Node, BlockNode), ParserError>)
        requires
            old(self).lexer.wf(),
        ensures
            final(self).goes_on(old(self)),
            match parsed_conditional(
                old(self).source(),
                old(self).lexer.cursor(),
                old(self).getting_params,
                false,
            ).result {
                Ok(n) => r is Ok && n == Some(
                    NodeView::If {
                        condition: Box::new(node_view(r->Ok_0.0)),
                        block: nodes_view(r->Ok_0.1.statements@, 0),
                    },
                ) && final(self).lexer.cursor() == parsed_conditional(
                    old(self).source(),
                    old(self).lexer.cursor(),
                    old(self).getting_params,
                    false,
                ).cursor && final(self).getting_params == parsed_conditional(
                    old(self).source(),
                    old(self).lexer.cursor(),
                    old(self).getting_params,
                    false,
                ).flag,
                Err(e) => r is Err && r->Err_0@ == e,
            },
            r is Ok ==> final(self).left() < old(self).left(),
        decreases old(self).left(), 39int,
    {
        proof {
            lemma_parsed_conditional(self.source(), self.lexer.cursor(), self.getting_params, false);
        }
        let condition = match self.parse_statement() {
            Err(e) => {
                return Err(e);
            },
            Ok(None) => {
                return Err(self.unexpected_here());
            },
            Ok(Some(condition)) => condition,
        };
        match self.parse_body(TokenType::LBRACE, TokenType::RBRACE, false, false) {
            Err(e) => Err(e),
            Ok((statements, _)) => Ok((condition, BlockNode { statements })),
        }
    }

    pub(crate) fn parse_if(&mut self) -> (r: Result<Option<Node>, ParserError>)
        requires
            old(self).lexer.wf(),
        ensures
            final(self).goes_on(old(self)),
            agrees(
                parsed_conditional(
                    old(self).source(),
                    old(self).lexer.cursor(),
                    old(self).getting_params,
                    false,
                ),
                r,
                *final(self),
            ),
            r matches Ok(Some(_)) ==> final(self).left() < old(self).left(),
        decreases old(self).left(), 40int,
    {
        proof {
            lemma_parsed_conditional(self.source(), self.lexer.cursor(), self.getting_params, false);
        }
        match self.parse_condition_block() {
            Err(e) => Err(e),
            Ok((condition, block)) => Ok(
                Some(Node::If(IfNode { condition: Box::new(condition), block: Box::new(block) })),
            ),
        }
    }

    pub(crate) fn parse_while(&mut self) -> (r: Result<Option<Node>, ParserError>)
        requires
            old(self).lexer.wf(),
        ensures
            final(self).goes_on(old(self)),
            agrees(
                parsed_conditional(
                    old(self).source(),
                    old(self).lexer.cursor(),
                    old(self).getting_params,
                    true,
                ),
                r,
                *final(self),
            ),
            r matches Ok(Some(_)) ==> final(self).left() < old(self).left(),
        decreases old(self).left(), 40int,
    {
        proof {
            lemma_parsed_conditional(self.source(), self.lexer.cursor(), self.getting_params, false);
            lemma_parsed_conditional(self.source(), self.lexer.cursor(), self.getting_params, true);
        }
        match self.parse_condition_block() {
            Err(e) => Err(e),
            Ok((condition, block)) => Ok(
                Some(
                    Node::While(
                        WhileNode { condition: Box::new(condition), block: Box::new(block) },
                    ),
                ),
            ),
        }
    }

    pub(crate) fn parse_return(&mut self) -> (r: Result<Option<Node>, ParserError>)
        requires
            old(self).lexer.wf(),
        ensures
            final(self).goes_on(old(self)),
            match parsed_statement(
                old(self).source(),
                old(self).lexer.cursor(),
                old(self).getting_params,
            ).result {
                Ok(v) => r is Ok && option_view(r->Ok_0) == Some(
                    NodeView::Return(
                        match v {
                            Some(n) => Some(Box::new(n)),
                            None => None,
                        },
                    ),
                ) && final(self).lexer.cursor() == parsed_statement(
                    old(self).source(),
                    old(self).lexer.cursor(),
                    old(self).getting_params,
                ).cursor && final(self).getting_params == parsed_statement(
                    old(self).source(),
                    old(self).lexer.cursor(),
                    old(self).getting_params,
                ).flag,
                Err(e) => r is Err && r->Err_0@ == e,
            },
        decreases old(self).left(), 40int,
    {
        match self.parse_statement() {
            Err(e) => Err(e),
            Ok(Some(value)) => Ok(Some(Node::Return(ReturnNode { value: Some(Box::new(value)) }))),
            Ok(None) => Ok(Some(Node::Return(ReturnNode { value: None }))),
        }
    }

    pub(crate) fn parse_fn(&mut self) -> (r: Result<Option<Node>, ParserError>)
        requires
            old(self).lexer.wf(),
        ensures
            final(self).goes_on(old(self)),
            agrees(
                parsed_fn(old(self).source(), old(self).lexer.cursor(), old(self).getting_params),
                r,
                *final(self),
            ),
            r matches Ok(Some(_)) ==> final(self).left() < old(self).left(),
        decreases old(self).left(), 40int,
    {
        proof {
            lemma_parsed_fn(self.source(), self.lexer.cursor(), self.getting_params);
        }
        let value = match self.parse_factor() {
            Err(e) => {
                return Err(e);
            },
            Ok(value) => value,
        };
        self.getting_params = true;
        let list = match self.parse_tuple(true) {
            Err(e) => {
                return Err(e);
            },
            Ok(list) => list,
        };
        self.getting_params = false;
        let name = match value {
            Some(Node::Id(name)) => name,
            _ => {
                return Err(self.unexpected_here());
            },
        };
        let params = arguments_of(list);
        match self.parse_body(TokenType::LBRACE, TokenType::RBRACE, false, false) {
            Err(e) => Err(e),
            Ok((statements, _)) => Ok(
                Some(
                    Node::FuncDef(
                        FuncDefNode {
                            name: Box::new(name),
                            params,
                            body: Box::new(BlockNode { statements }),
                        },
                    ),
                ),
            ),
        }
    }

    /// Parses the statements between two delimiters. `commas` says whether
    /// commas stand between them, `noted` whether one may stand at the end;
    /// the second result says whether a comma was met.
    pub(crate) fn parse_body(&mut self, open: TokenType, close: TokenType, commas: bool, noted: bool) -> (r:
        Result<(Vec<Node>, bool), ParserError>)
        requires
            old(self).lexer.wf(),
            open != TokenType::EndOfFile,
        ensures
            final(self).goes_on(old(self)),
            agrees_list(
                parsed_body(
                    old(self).source(),
                    old(self).lexer.cursor(),
                    old(self).getting_params,
                    open,
                    close,
                    commas,
                    noted,
                ),
                r,
                *final(self),
            ),
            r is Ok ==> final(self).left() < old(self).left(),
        decreases old(self).left(), 10int,
    {
        proof {
            lemma_parsed_body(self.source(), self.lexer.cursor(), self.getting_params, open, close, commas, noted);
        }
        let mut nodes: Vec<Node> = Vec::new();
        let mut got_comma = false;
        match self.eat(&open) {
            Ok(()) => {},
            Err(e) => {
                return Err(e);
            },
        }
        match self.skip_newline_or_semicolon() {
            Ok(()) => {},
            Err(e) => {
                return Err(e);
            },
        }
        assert(nodes_view(nodes@, 0) =~= Seq::<NodeView>::empty());
        let ghost goal = parsed_body_rest(
            self.source(),
            self.lexer.cursor(),
            self.getting_params,
            close,
            commas,
            noted,
            nodes_view(nodes@, 0),
            got_comma,
        );
        loop
            invariant
                self.goes_on(old(self)),
                self.left() < old(self).left(),
                goal == parsed_body(
                    old(self).source(),
                    old(self).lexer.cursor(),
                    old(self).getting_params,
                    open,
                    close,
                    commas,
                    noted,
                ),
                goal == parsed_body_rest(
                    self.source(),
                    self.lexer.cursor(),
                    self.getting_params,
                    close,
                    commas,
                    noted,
                    nodes_view(nodes@, 0),
                    got_comma,
                ),
            decreases self.left(),
        {
            let ghost from = self.lexer.cursor();
            match self.body_item(close, &mut nodes, Ghost(commas), Ghost(noted), Ghost(got_comma)) {
                Err(e) => {
                    return Err(e);
                },
                Ok(true) => {
                    return Ok((nodes, got_comma));
                },
                Ok(false) => {},
            }
            match self.body_separator(
                close,
                commas,
                noted,
                &mut got_comma,
                Ghost(from),
                Ghost(nodes_view(nodes@, 0)),
            ) {
                Err(e) => {
                    return Err(e);
                },
                Ok(true) => {
                    return Ok((nodes, got_comma));
                },
                Ok(false) => {},
            }
        }
    }

    /// Parses the next statement of a body, unless the body ends here. The
    /// result says whether it ended.
    fn body_item(
        &mut self,
        close: TokenType,
        nodes: &mut Vec<Node>,
        Ghost(commas): Ghost<bool>,
        Ghost(noted): Ghost<bool>,
        Ghost(got_comma): Ghost<bool>,
    ) -> (r: Result<bool, ParserError>)
        requires
            old(self).lexer.wf(),
        ensures
            final(self).goes_on(old(self)),
            ({
                let said = parsed_body_rest(
                    old(self).source(),
                    old(self).lexer.cursor(),
                    old(self).getting_params,
                    close,
                    commas,
                    noted,
                    nodes_view(old(nodes)@, 0),
                    got_comma,
                );
                match r {
                    Ok(true) => said == (ParsedList {
                        result: Ok(nodes_view(final(nodes)@, 0)),
                        cursor: final(self).lexer.cursor(),
                        flag: final(self).getting_params,
                        got_comma,
                    }) && final(nodes)@ == old(nodes)@,
                    Ok(false) => said == parsed_body_next(
                        old(self).source(),
                        old(self).lexer.cursor(),
                        final(self).lexer.cursor(),
                        final(self).getting_params,
                        close,
                        commas,
                        noted,
                        nodes_view(final(nodes)@, 0),
                        got_comma,
                    ) && final(self).left() < old(self).left(),
                    Err(e) => said.result == Err::<Seq<NodeView>, ParserErrorView>(e@),
                }
            }),
        decreases old(self).left(), 50int,
    {
        let ttype = match self.peek_type() {
            Ok(t) => t,
            Err(e) => {
                return Err(e);
            },
        };
        if ttype == close || ttype == TokenType::EndOfFile {
            match self.eat(&close) {
                Ok(()) => {},
                Err(e) => {
                    return Err(e);
                },
            }
            return Ok(true);
        }
        match self.skip_newline_or_semicolon() {
            Ok(()) => {},
            Err(e) => {
                return Err(e);
            },
        }
        let expr = match self.parse_statement() {
            Err(e) => {
                return Err(e);
            },
            Ok(None) => {
                return Err(self.unexpected_here());
            },
            Ok(Some(expr)) => expr,
        };
        proof {
            lemma_nodes_view_push(nodes@, expr);
        }
        nodes.push(expr);
        match self.skip_newline_or_semicolon() {
            Ok(()) => {},
            Err(e) => {
                return Err(e);
            },
        }
        Ok(false)
    }

    /// Reads what follows a statement of a body: a comma, or the end of the
    /// body. The result says whether the body ended.
    fn body_separator(
        &mut self,
        close: TokenType,
        commas: bool,
        noted: bool,
        got_comma: &mut bool,
        Ghost(from): Ghost<Cursor>,
        Ghost(nodes): Ghost<Seq<NodeView>>,
    ) -> (r: Result<bool, ParserError>)
        requires
            old(self).lexer.wf(),
            0 <= from.position < old(self).lexer.position,
        ensures
            final(self).goes_on(old(self)),
            ({
                let said = parsed_body_next(
                    old(self).source(),
                    from,
                    old(self).lexer.cursor(),
                    old(self).getting_params,
                    close,
                    commas,
                    noted,
                    nodes,
                    *old(got_comma),
                );
                match r {
                    Ok(true) => said == (ParsedList {
                        result: Ok(nodes),
                        cursor: final(self).lexer.cursor(),
                        flag: final(self).getting_params,
                        got_comma: *final(got_comma),
                    }),
                    Ok(false) => said == parsed_body_rest(
                        old(self).source(),
                        final(self).lexer.cursor(),
                        final(self).getting_params,
                        close,
                        commas,
                        noted,
                        nodes,
                        *final(got_comma),
                    ),
                    Err(e) => said.result == Err::<Seq<NodeView>, ParserErrorView>(e@),
                }
            }),
    {
        if !commas {
            return Ok(false);
        }
        let kind = match self.peek_type() {
            Ok(kind) => kind,
            Err(e) => {
                return Err(e);
            },
        };
        if kind == TokenType::COMMA {
            match self.eat(&TokenType::COMMA) {
                Ok(()) => {},
                Err(e) => {
                    return Err(e);
                },
            }
            if noted {
                *got_comma = true;
            } else {
                let after = match self.peek_token() {
                    Ok(after) => after,
                    Err(e) => {
                        return Err(e);
                    },
                };
                if after.token_type == close {
                    return Err(ParserError::UnfinishedList(after));
                }
            }
            Ok(false)
        } else {
            match self.eat(&close) {
                Ok(()) => {},
                Err(e) => {
                    return Err(e);
                },
            }
            Ok(true)
        }
    }

    pub(crate) fn parse_tuple(&mut self, must_be_tuple: bool) -> (r: Result<Option<Node>, ParserError>)
        requires
            old(self).lexer.wf(),
        ensures
            final(self).goes_on(old(self)),
            agrees(
                parsed_tuple(
                    old(self).source(),
                    old(self).lexer.cursor(),
                    old(self).getting_params,
                    must_be_tuple,
                ),
                r,
                *final(self),
            ),
            r is Ok ==> final(self).left() < old(self).left(),
        decreases old(self).left(), 12int,
    {
        proof {
            lemma_parsed_tuple(self.source(), self.lexer.cursor(), self.getting_params, must_be_tuple);
        }
        let (mut values, got_comma) = match self.parse_body(
            TokenType::LPAREN,
            TokenType::RPAREN,
            true,
            true,
        ) {
            Err(e) => {
                return Err(e);
            },
            Ok(body) => body,
        };
        proof {
            lemma_nodes_view(values@, 0);
        }
        if !must_be_tuple && values.len() == 1 && !got_comma {
            let ghost all = values@;
            proof {
                lemma_nodes_view(all, 0);
                assert(nodes_view(all, 0)[0] == node_view(all[0int + 0]));
            }
            let only = values.pop();
            assert(only == Some(all[0]));
            return Ok(only);
        }
        Ok(Some(Node::Tuple(TupleNode { values, is_list: false })))
    }

    pub(crate) fn parse_list(&mut self) -> (r: Result<Option<Node>, ParserError>)
        requires
            old(self).lexer.wf(),
        ensures
            final(self).goes_on(old(self)),
            agrees(
                parsed_list(old(self).source(), old(self).lexer.cursor(), old(self).getting_params),
                r,
                *final(self),
            ),
            r is Ok ==> final(self).left() < old(self).left(),
        decreases old(self).left(), 12int,
    {
        proof {
            lemma_parsed_list(self.source(), self.lexer.cursor(), self.getting_params);
        }
        self.getting_params = true;
        let values = match self.parse_body(
            TokenType::LBRACKET,
            TokenType::RBRACKET,
            true,
            false,
        ) {
            Err(e) => {
                return Err(e);
            },
            Ok((values, _)) => values,
        };
        self.getting_params = false;
        Ok(Some(Node::Tuple(TupleNode { values, is_list: true })))
    }
}

} // verus!
