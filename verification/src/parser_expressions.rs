//! How the parser reads expressions.

use vstd::prelude::*;
use crate::folding::{arguments_of, as_callee, fold, in_level, prefix};
use crate::lexer::Cursor;
use crate::node::{
    lemma_nodes_view_push, node_view, nodes_view, AccessNode, AssignmentNode, FloatNode,
    FuncCallNode, IdNode, IntNode, Node, NodeView, StringNode, SubscriptNode, TupleNode,
};
use crate::parser::{
    lemma_parsed_statement, agrees, option_view, past_token, parsed_after, parsed_assignment,
    parsed_before, parsed_commas, parsed_commas_rest, parsed_access, parsed_call, parsed_factor,
    parsed_subscript, parsed_level, parsed_level_rest, parsed_statement, token_at, Parser,
    ParserError,
};
use crate::token::TokenType;

verus! {

impl Parser {
    pub(crate) fn parse_statement(&mut self) -> (r: Result<Option<Node>, ParserError>)
        requires
            old(self).lexer.wf(),
        ensures
            final(self).goes_on(old(self)),
            agrees(
                parsed_statement(
                    old(self).source(),
                    old(self).lexer.cursor(),
                    old(self).getting_params,
                ),
                r,
                *final(self),
            ),
            r matches Ok(Some(_)) ==> final(self).left() < old(self).left(),
        decreases old(self).left(), 33int,
    {
        proof {
            lemma_parsed_statement(self.source(), self.lexer.cursor(), self.getting_params);
        }
        self.parse_assignment()
    }

    pub(crate) fn parse_assignment(&mut self) -> (r: Result<Option<Node>, ParserError>)
        requires
            old(self).lexer.wf(),
        ensures
            final(self).goes_on(old(self)),
            agrees(
                parsed_assignment(
                    old(self).source(),
                    old(self).lexer.cursor(),
                    old(self).getting_params,
                ),
                r,
                *final(self),
            ),
            r matches Ok(Some(_)) ==> final(self).left() < old(self).left(),
        decreases old(self).left(), 32int,
    {
        let left = match self.parse_commas() {
            Err(e) => {
                return Err(e);
            },
            Ok(None) => {
                return Ok(None);
            },
            Ok(Some(left)) => left,
        };
        let op = match self.peek_type() {
            Ok(op) => op,
            Err(e) => {
                return Err(e);
            },
        };
        if !(op == TokenType::EQUALS || op == TokenType::AddEq || op == TokenType::SubEq || op
            == TokenType::MulEq || op == TokenType::DivEq || op == TokenType::ModEq) {
            return Ok(Some(left));
        }
        match self.eat(&op) {
            Ok(()) => {},
            Err(e) => {
                return Err(e);
            },
        }
        let right = match self.parse_assignment() {
            Err(e) => {
                return Err(e);
            },
            Ok(None) => {
                return Err(self.unexpected_here());
            },
            Ok(Some(right)) => right,
        };
        Ok(
            Some(
                Node::Assignment(
                    AssignmentNode { left: Box::new(left), right: Box::new(right), op },
                ),
            ),
        )
    }

    pub(crate) fn parse_commas(&mut self) -> (r: Result<Option<Node>, ParserError>)
        requires
            old(self).lexer.wf(),
        ensures
            final(self).goes_on(old(self)),
            agrees(
                parsed_commas(old(self).source(), old(self).lexer.cursor(), old(self).getting_params),
                r,
                *final(self),
            ),
            r matches Ok(Some(_)) ==> final(self).left() < old(self).left(),
        decreases old(self).left(), 31int,
    {
        let value = match self.parse_binary_op(0) {
            Err(e) => {
                return Err(e);
            },
            Ok(None) => {
                return Ok(None);
            },
            Ok(Some(value)) => value,
        };
        if self.getting_params {
            return Ok(Some(value));
        }
        let kind = match self.peek_type() {
            Ok(kind) => kind,
            Err(e) => {
                return Err(e);
            },
        };
        if kind != TokenType::COMMA {
            return Ok(Some(value));
        }
        let mut values: Vec<Node> = Vec::new();
        proof {
            lemma_nodes_view_push(Seq::empty(), value);
            assert(nodes_view(Seq::<Node>::empty(), 0) =~= Seq::<NodeView>::empty());
            assert(Seq::<NodeView>::empty().push(node_view(value)) =~= seq![node_view(value)]);
        }
        values.push(value);
        assert(values@ =~= Seq::<Node>::empty().push(value));
        let ghost start = old(self).lexer.cursor();
        let ghost goal = parsed_commas_rest(
            self.source(),
            self.lexer.cursor(),
            self.getting_params,
            nodes_view(values@, 0),
            start,
        );
        loop
            invariant
                self.goes_on(old(self)),
                self.left() < old(self).left(),
                goal == parsed_commas(
                    old(self).source(),
                    old(self).lexer.cursor(),
                    old(self).getting_params,
                ),
                goal == parsed_commas_rest(
                    self.source(),
                    self.lexer.cursor(),
                    self.getting_params,
                    nodes_view(values@, 0),
                    start,
                ),
            decreases self.left(),
        {
            let kind = match self.peek_type() {
                Ok(kind) => kind,
                Err(e) => {
                    return Err(e);
                },
            };
            if kind != TokenType::COMMA {
                return Ok(Some(Node::Tuple(TupleNode { values, is_list: false })));
            }
            match self.eat(&TokenType::COMMA) {
                Ok(()) => {},
                Err(e) => {
                    return Err(e);
                },
            }
            let after = match self.peek_type() {
                Ok(kind) => kind,
                Err(e) => {
                    return Err(e);
                },
            };
            if after == TokenType::EndOfFile {
                return Ok(Some(Node::Tuple(TupleNode { values, is_list: false })));
            }
            match self.parse_binary_op(0) {
                Err(e) => {
                    return Err(e);
                },
                Ok(None) => {
                    return Ok(Some(Node::Tuple(TupleNode { values, is_list: false })));
                },
                Ok(Some(v)) => {
                    proof {
                        lemma_nodes_view_push(values@, v);
                    }
                    values.push(v);
                },
            }
        }
    }

    /// Parses the operations of a level of precedence, and of the levels
    /// that bind more.
    pub(crate) fn parse_binary_op(&mut self, level: u8) -> (r: Result<Option<Node>, ParserError>)
        requires
            old(self).lexer.wf(),
        ensures
            final(self).goes_on(old(self)),
            agrees(
                parsed_level(
                    old(self).source(),
                    old(self).lexer.cursor(),
                    old(self).getting_params,
                    level as int,
                ),
                r,
                *final(self),
            ),
            r matches Ok(Some(_)) ==> final(self).left() < old(self).left(),
        decreases old(self).left(), (if level <= 10 {
            30 - level
        } else {
            19
        }),
    {
        if level > 10 {
            return self.parse_before();
        }
        let mut left = match self.parse_binary_op(level + 1) {
            Err(e) => {
                return Err(e);
            },
            Ok(left) => left,
        };
        let ghost goal = parsed_level_rest(
            self.source(),
            self.lexer.cursor(),
            self.getting_params,
            level as int,
            option_view(left),
        );
        while !self.getting_params
            invariant
                self.goes_on(old(self)),
                level <= 10,
                left is Some ==> self.left() < old(self).left(),
                goal == parsed_level(
                    old(self).source(),
                    old(self).lexer.cursor(),
                    old(self).getting_params,
                    level as int,
                ),
                goal == parsed_level_rest(
                    self.source(),
                    self.lexer.cursor(),
                    self.getting_params,
                    level as int,
                    option_view(left),
                ),
            decreases self.left(),
        {
            let op = match self.peek_type() {
                Ok(op) => op,
                Err(e) => {
                    return Err(e);
                },
            };
            if !in_level(level, op) {
                return Ok(left);
            }
            match self.eat(&op) {
                Ok(()) => {},
                Err(e) => {
                    return Err(e);
                },
            }
            let right = match self.parse_binary_op(level + 1) {
                Err(e) => {
                    return Err(e);
                },
                Ok(None) => {
                    return Err(self.unexpected_here());
                },
                Ok(Some(right)) => right,
            };
            left = match left {
                None => {
                    return Err(self.unexpected_here());
                },
                Some(l) => Some(fold(op, l, right)),
            };
        }
        Ok(left)
    }

    pub(crate) fn parse_before(&mut self) -> (r: Result<Option<Node>, ParserError>)
        requires
            old(self).lexer.wf(),
        ensures
            final(self).goes_on(old(self)),
            agrees(
                parsed_before(old(self).source(), old(self).lexer.cursor(), old(self).getting_params),
                r,
                *final(self),
            ),
            r matches Ok(Some(_)) ==> final(self).left() < old(self).left(),
        decreases old(self).left(), 16int,
    {
        let ttype = match self.peek_type() {
            Ok(t) => t,
            Err(e) => {
                return Err(e);
            },
        };
        if !(ttype == TokenType::NOT || ttype == TokenType::BoolNot || ttype == TokenType::SUB
            || ttype == TokenType::ADD) {
            return self.parse_after(None);
        }
        match self.eat(&ttype) {
            Ok(()) => {},
            Err(e) => {
                return Err(e);
            },
        }
        let value = match self.parse_before() {
            Err(e) => {
                return Err(e);
            },
            Ok(None) => {
                return Err(self.unexpected_here());
            },
            Ok(Some(value)) => value,
        };
        Ok(Some(prefix(ttype, value)))
    }

    pub(crate) fn parse_after(&mut self, prev: Option<Node>) -> (r: Result<Option<Node>, ParserError>)
        requires
            old(self).lexer.wf(),
        ensures
            final(self).goes_on(old(self)),
            agrees(
                parsed_after(
                    old(self).source(),
                    old(self).lexer.cursor(),
                    old(self).getting_params,
                    option_view(prev),
                ),
                r,
                *final(self),
            ),
            prev is None && r is Ok && r->Ok_0 is Some ==> final(self).left() < old(self).left(),
        decreases old(self).left(), 15int,
    {
        let ghost origin = self.lexer.cursor();
        let value = match prev {
            None => match self.parse_factor() {
                Err(e) => {
                    return Err(e);
                },
                Ok(value) => value,
            },
            Some(p) => Some(p),
        };
        let kind = match self.peek_type() {
            Ok(kind) => kind,
            Err(e) => {
                return Err(e);
            },
        };
        if kind == TokenType::LPAREN {
            self.parse_call(value, Ghost(origin))
        } else if kind == TokenType::DOT {
            self.parse_access(value, Ghost(origin))
        } else if kind == TokenType::LBRACKET {
            self.parse_subscript(value, Ghost(origin))
        } else {
            Ok(value)
        }
    }

    /// Parses the arguments of a call of `value`, and what follows the call.
    fn parse_call(&mut self, value: Option<Node>, Ghost(origin): Ghost<Cursor>) -> (r: Result<
        Option<Node>,
        ParserError,
    >)
        requires
            old(self).lexer.wf(),
            0 <= origin.position <= old(self).lexer.position,
        ensures
            final(self).goes_on(old(self)),
            agrees(
                parsed_call(
                    old(self).source(),
                    origin,
                    old(self).lexer.cursor(),
                    old(self).getting_params,
                    option_view(value),
                ),
                r,
                *final(self),
            ),
            r is Ok ==> final(self).left() < old(self).left(),
        decreases old(self).lexer.text().len() - origin.position, 14int,
    {
        let list = match self.parse_tuple(true) {
            Err(e) => {
                return Err(e);
            },
            Ok(list) => list,
        };
        let callee = match value {
            Some(callee) => callee,
            None => {
                return Err(self.unexpected_here());
            },
        };
        let args = arguments_of(list);
        let (callee, is_access) = as_callee(callee);
        self.parse_after(
            Some(Node::FuncCall(FuncCallNode { callee: Box::new(callee), args, add_arg: is_access })),
        )
    }

    /// Parses the access to a member of `value`, and what follows it.
    fn parse_access(&mut self, value: Option<Node>, Ghost(origin): Ghost<Cursor>) -> (r: Result<
        Option<Node>,
        ParserError,
    >)
        requires
            old(self).lexer.wf(),
            0 <= origin.position <= old(self).lexer.position,
            token_at(old(self).source(), old(self).lexer.cursor()) is Ok,
            token_at(old(self).source(), old(self).lexer.cursor())->Ok_0.token_type
                == TokenType::DOT,
        ensures
            final(self).goes_on(old(self)),
            agrees(
                parsed_access(
                    old(self).source(),
                    origin,
                    old(self).lexer.cursor(),
                    old(self).getting_params,
                    option_view(value),
                ),
                r,
                *final(self),
            ),
            r is Ok ==> final(self).left() < old(self).left(),
        decreases old(self).lexer.text().len() - origin.position, 14int,
    {
        match self.eat(&TokenType::DOT) {
            Ok(()) => {},
            Err(e) => {
                return Err(e);
            },
        }
        let name = match self.next_token() {
            Ok(name) => name,
            Err(e) => {
                return Err(e);
            },
        };
        let object = match value {
            Some(object) => object,
            None => {
                return Err(self.unexpected_here());
            },
        };
        let field = Node::Id(IdNode { value: name.value });
        assert(node_view(field) == NodeView::Id(name.value@));
        self.parse_after(
            Some(
                Node::Access(
                    AccessNode { value: Box::new(object), field: Box::new(field), load_self: false },
                ),
            ),
        )
    }

    /// Parses the subscript of `value`, and what follows it.
    fn parse_subscript(&mut self, value: Option<Node>, Ghost(origin): Ghost<Cursor>) -> (r: Result<
        Option<Node>,
        ParserError,
    >)
        requires
            old(self).lexer.wf(),
            0 <= origin.position <= old(self).lexer.position,
            token_at(old(self).source(), old(self).lexer.cursor()) is Ok,
            token_at(old(self).source(), old(self).lexer.cursor())->Ok_0.token_type
                == TokenType::LBRACKET,
        ensures
            final(self).goes_on(old(self)),
            agrees(
                parsed_subscript(
                    old(self).source(),
                    origin,
                    old(self).lexer.cursor(),
                    old(self).getting_params,
                    option_view(value),
                ),
                r,
                *final(self),
            ),
            r is Ok ==> final(self).left() < old(self).left(),
        decreases old(self).lexer.text().len() - origin.position, 14int,
    {
        match self.eat(&TokenType::LBRACKET) {
            Ok(()) => {},
            Err(e) => {
                return Err(e);
            },
        }
        let subscript = match self.parse_statement() {
            Err(e) => {
                return Err(e);
            },
            Ok(subscript) => subscript,
        };
        match self.eat(&TokenType::RBRACKET) {
            Ok(()) => {},
            Err(e) => {
                return Err(e);
            },
        }
        match (value, subscript) {
            (Some(object), Some(index)) => self.parse_after(
                Some(
                    Node::Subscript(
                        SubscriptNode { value: Box::new(object), subscript: Box::new(index) },
                    ),
                ),
            ),
            _ => Err(self.unexpected_here()),
        }
    }

    pub(crate) fn parse_factor(&mut self) -> (r: Result<Option<Node>, ParserError>)
        requires
            old(self).lexer.wf(),
        ensures
            final(self).goes_on(old(self)),
            agrees(
                parsed_factor(old(self).source(), old(self).lexer.cursor(), old(self).getting_params),
                r,
                *final(self),
            ),
            r matches Ok(Some(_)) ==> final(self).left() < old(self).left(),
        decreases old(self).left(), 14int,
    {
        let token = match self.peek_token() {
            Ok(token) => token,
            Err(e) => {
                return Err(e);
            },
        };
        match token.token_type {
            TokenType::INT => self.parse_int(),
            TokenType::FLOAT => self.parse_float(),
            TokenType::STRING => self.parse_string(),
            TokenType::ID => self.parse_id(),
            TokenType::LPAREN => self.parse_tuple(false),
            TokenType::LBRACKET => self.parse_list(),
            TokenType::KEYWORD => self.parse_keyword(),
            TokenType::EndOfFile | TokenType::NewLine => Ok(None),
            _ => Err(ParserError::UnexpectedToken(token)),
        }
    }

    pub(crate) fn parse_int(&mut self) -> (r: Result<Option<Node>, ParserError>)
        requires
            old(self).lexer.wf(),
        ensures
            final(self).goes_on(old(self)),
            final(self).getting_params == old(self).getting_params,
            final(self).lexer.cursor() == past_token(old(self).source(), old(self).lexer.cursor()),
            match token_at(old(self).source(), old(self).lexer.cursor()) {
                Ok(t) => r is Ok && option_view(r->Ok_0) == Some(NodeView::Int(t.int_value)) && (
                t.token_type != TokenType::EndOfFile ==> final(self).left() < old(self).left()),
                Err(e) => r is Err && r->Err_0@ == e,
            },
    {
        match self.next_token() {
            Ok(t) => Ok(Some(Node::Int(IntNode { value: t.int_value }))),
            Err(e) => Err(e),
        }
    }

    pub(crate) fn parse_float(&mut self) -> (r: Result<Option<Node>, ParserError>)
        requires
            old(self).lexer.wf(),
        ensures
            final(self).goes_on(old(self)),
            final(self).getting_params == old(self).getting_params,
            final(self).lexer.cursor() == past_token(old(self).source(), old(self).lexer.cursor()),
            match token_at(old(self).source(), old(self).lexer.cursor()) {
                Ok(t) => r is Ok && option_view(r->Ok_0) == Some(
                    NodeView::Float { text: t.value, worked: None },
                ) && (t.token_type != TokenType::EndOfFile ==> final(self).left() < old(self).left()),
                Err(e) => r is Err && r->Err_0@ == e,
            },
    {
        match self.next_token() {
            Ok(t) => Ok(Some(Node::Float(FloatNode { text: t.value, value: None }))),
            Err(e) => Err(e),
        }
    }

    pub(crate) fn parse_string(&mut self) -> (r: Result<Option<Node>, ParserError>)
        requires
            old(self).lexer.wf(),
        ensures
            final(self).goes_on(old(self)),
            final(self).getting_params == old(self).getting_params,
            final(self).lexer.cursor() == past_token(old(self).source(), old(self).lexer.cursor()),
            match token_at(old(self).source(), old(self).lexer.cursor()) {
                Ok(t) => r is Ok && option_view(r->Ok_0) == Some(NodeView::String(t.value)) && (
                t.token_type != TokenType::EndOfFile ==> final(self).left() < old(self).left()),
                Err(e) => r is Err && r->Err_0@ == e,
            },
    {
        match self.next_token() {
            Ok(t) => Ok(Some(Node::String(StringNode { value: t.value }))),
            Err(e) => Err(e),
        }
    }

    pub(crate) fn parse_id(&mut self) -> (r: Result<Option<Node>, ParserError>)
        requires
            old(self).lexer.wf(),
        ensures
            final(self).goes_on(old(self)),
            final(self).getting_params == old(self).getting_params,
            final(self).lexer.cursor() == past_token(old(self).source(), old(self).lexer.cursor()),
            match token_at(old(self).source(), old(self).lexer.cursor()) {
                Ok(t) => r is Ok && option_view(r->Ok_0) == Some(NodeView::Id(t.value)) && (
                t.token_type != TokenType::EndOfFile ==> final(self).left() < old(self).left()),
                Err(e) => r is Err && r->Err_0@ == e,
            },
    {
        match self.next_token() {
            Ok(t) => Ok(Some(Node::Id(IdNode { value: t.value }))),
            Err(e) => Err(e),
        }
    }
}

} // verus!
