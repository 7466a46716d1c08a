//! The parser: it reads the tokens of the lexer and builds the syntax tree.
//! Operations on integer literals are worked out while the tree is built.
//!
//! What the parser makes of a text is defined here, one function for each
//! kind of phrase. A function goes on with the rest of a phrase only from a
//! place further on in the text (`ahead`, `onward`): that is what makes the
//! definitions well-founded, and the parser always meets it, since it moves
//! on with every token that it takes.

use vstd::prelude::*;
use crate::lexer::{next_token, Cursor, Lexer, LexerError, LexerErrorView};
use crate::node::{node_view, nodes_view, Node, NodeView};
use crate::token::{KeywordType, Token, TokenType, TokenView};

verus! {

/// Why the text is no program.
#[derive(Debug)]
pub enum ParserError {
    /// A token that nothing can start or go on with.
    UnexpectedToken(Token),
    /// A token in the place of one of the given kind.
    UnexpectedTokenExpected(Token, TokenType),
    /// A list that ends after a comma.
    UnfinishedList(Token),
    /// The lexer found no token.
    Lexer(LexerError),
}

pub enum ParserErrorView {
    UnexpectedToken(TokenView),
    UnexpectedTokenExpected(TokenView, TokenType),
    UnfinishedList(TokenView),
    Lexer(LexerErrorView),
}

impl View for ParserError {
    type V = ParserErrorView;

    open spec fn view(&self) -> ParserErrorView {
        match self {
            ParserError::UnexpectedToken(t) => ParserErrorView::UnexpectedToken(t@),
            ParserError::UnexpectedTokenExpected(t, k) => ParserErrorView::UnexpectedTokenExpected(
                t@,
                *k,
            ),
            ParserError::UnfinishedList(t) => ParserErrorView::UnfinishedList(t@),
            ParserError::Lexer(e) => ParserErrorView::Lexer(e@),
        }
    }
}

/// The text that is parsed and the name it is known under.
pub struct Source {
    pub text: Seq<char>,
    pub filename: Seq<char>,
}

/// What a step of the parser gives: a node, or none where none starts, the
/// place after it, and whether the parser reads parameters then.
pub struct Parsed {
    pub result: Result<Option<NodeView>, ParserErrorView>,
    pub cursor: Cursor,
    pub flag: bool,
}

/// What a step of the parser that reads a sequence gives.
pub struct ParsedList {
    pub result: Result<Seq<NodeView>, ParserErrorView>,
    pub cursor: Cursor,
    pub flag: bool,
    pub got_comma: bool,
}

/// What a step of the parser that builds nothing gives.
pub struct Skipped {
    pub result: Result<(), ParserErrorView>,
    pub cursor: Cursor,
}

pub open spec fn done(node: Option<NodeView>, cursor: Cursor, flag: bool) -> Parsed {
    Parsed { result: Ok(node), cursor, flag }
}

pub open spec fn fail(error: ParserErrorView, cursor: Cursor, flag: bool) -> Parsed {
    Parsed { result: Err(error), cursor, flag }
}

pub open spec fn fail_list(error: ParserErrorView, cursor: Cursor, flag: bool) -> ParsedList {
    ParsedList { result: Err(error), cursor, flag, got_comma: false }
}

/// The token at a place.
pub open spec fn token_at(src: Source, c: Cursor) -> Result<TokenView, ParserErrorView> {
    match next_token(src.text, src.filename, c).result {
        Ok(t) => Ok(t),
        Err(e) => Err(ParserErrorView::Lexer(e)),
    }
}

/// The place after the token at a place.
pub open spec fn past_token(src: Source, c: Cursor) -> Cursor {
    next_token(src.text, src.filename, c).cursor
}

/// The error for the token at a place, which nothing can go on with.
pub open spec fn unexpected(src: Source, c: Cursor) -> ParserErrorView {
    match token_at(src, c) {
        Ok(t) => ParserErrorView::UnexpectedToken(t),
        Err(e) => e,
    }
}

/// Whether a place lies after another, in the text.
pub open spec fn ahead(src: Source, from: Cursor, to: Cursor) -> bool {
    from.position < to.position <= src.text.len()
}

/// Whether a place lies at or after another, in the text.
pub open spec fn onward(src: Source, from: Cursor, to: Cursor) -> bool {
    from.position <= to.position <= src.text.len()
}

/// The token at a place is taken, if it is of the given kind.
pub open spec fn eaten(src: Source, c: Cursor, kind: TokenType) -> Skipped {
    match token_at(src, c) {
        Err(e) => Skipped { result: Err(e), cursor: past_token(src, c) },
        Ok(t) => Skipped {
            result: if t.token_type == kind {
                Ok(())
            } else {
                Err(ParserErrorView::UnexpectedTokenExpected(t, kind))
            },
            cursor: past_token(src, c),
        },
    }
}

/// The line ends and semicolons at a place are passed over.
#[verifier::opaque]
pub open spec fn skipped(src: Source, c: Cursor) -> Skipped
    decreases src.text.len() - c.position,
{
    match token_at(src, c) {
        Err(e) => Skipped { result: Err(e), cursor: c },
        Ok(t) => if (t.token_type == TokenType::NewLine || t.token_type == TokenType::SEMI)
            && ahead(src, c, past_token(src, c)) {
            skipped(src, past_token(src, c))
        } else {
            Skipped { result: Ok(()), cursor: c }
        },
    }
}

/// Whether a binary operator belongs to a level of precedence. Level 0 binds
/// least.
pub open spec fn level_has(level: int, op: TokenType) -> bool {
    if level == 0 || level == 2 {
        op == TokenType::OR
    } else if level == 1 || level == 4 {
        op == TokenType::AND
    } else if level == 3 {
        op == TokenType::HAT
    } else if level == 5 {
        op == TokenType::BoolEq || op == TokenType::BoolNe
    } else if level == 6 {
        op == TokenType::BoolGt || op == TokenType::BoolLt || op == TokenType::BoolGte || op
            == TokenType::BoolLte
    } else if level == 7 {
        op == TokenType::SHL || op == TokenType::SHR
    } else if level == 8 {
        op == TokenType::ADD || op == TokenType::SUB
    } else if level == 9 {
        op == TokenType::MUL || op == TokenType::DIV || op == TokenType::MOD
    } else if level == 10 {
        op == TokenType::POW
    } else {
        false
    }
}

/// Whether an operator assigns.
pub open spec fn assigns(op: TokenType) -> bool {
    op == TokenType::EQUALS || op == TokenType::AddEq || op == TokenType::SubEq || op
        == TokenType::MulEq || op == TokenType::DivEq || op == TokenType::ModEq
}

/// Whether an operator can stand before its operand.
pub open spec fn prefixes(op: TokenType) -> bool {
    op == TokenType::NOT || op == TokenType::BoolNot || op == TokenType::SUB || op
        == TokenType::ADD
}

/// The value of a binary operation on two integer literals, where it is
/// worked out by the parser: a sum, a difference or a product that fits in
/// 64 bits, and a shift by less than 64 bits.
pub open spec fn folded_value(op: TokenType, l: i64, r: i64) -> Option<i64> {
    match op {
        TokenType::ADD => if i64::MIN <= l + r <= i64::MAX {
            Some((l + r) as i64)
        } else {
            None
        },
        TokenType::SUB => if i64::MIN <= l - r <= i64::MAX {
            Some((l - r) as i64)
        } else {
            None
        },
        TokenType::MUL => if i64::MIN <= l * r <= i64::MAX {
            Some((l * r) as i64)
        } else {
            None
        },
        TokenType::SHR => if 0 <= r < 64 {
            Some(l >> r)
        } else {
            None
        },
        TokenType::SHL => if 0 <= r < 64 {
            Some(l << r)
        } else {
            None
        },
        _ => None,
    }
}

/// The node of a binary operation: an integer literal where the parser works
/// it out, else the operation.
pub open spec fn folded(op: TokenType, left: NodeView, right: NodeView) -> NodeView {
    match (left, right) {
        (NodeView::Int(l), NodeView::Int(r)) => match folded_value(op, l, r) {
            Some(v) => NodeView::Int(v),
            None => NodeView::BinaryOp { left: Box::new(left), right: Box::new(right), op },
        },
        _ => NodeView::BinaryOp { left: Box::new(left), right: Box::new(right), op },
    }
}

/// The node of an operator before its operand: an integer literal where the
/// operand is one, else the operation.
pub open spec fn prefixed(op: TokenType, value: NodeView) -> NodeView {
    match value {
        NodeView::Int(i) => match op {
            TokenType::NOT => NodeView::Int((-1 - i) as i64),
            TokenType::BoolNot => NodeView::Int(
                if i == 0 {
                    1
                } else {
                    0
                },
            ),
            TokenType::SUB => if i != i64::MIN {
                NodeView::Int((-i) as i64)
            } else {
                NodeView::UnaryOp { value: Box::new(value), op }
            },
            _ => value,
        },
        _ => NodeView::UnaryOp { value: Box::new(value), op },
    }
}

/// The arguments that a parenthesized sequence stands for.
pub open spec fn arguments(tuple: Option<NodeView>) -> Seq<NodeView> {
    match tuple {
        Some(NodeView::Tuple { values, is_list }) => values,
        Some(other) => seq![other],
        None => Seq::empty(),
    }
}

/// A callee as it stands in a call: an access loads its object as well.
pub open spec fn called(callee: NodeView) -> NodeView {
    match callee {
        NodeView::Access { value, field, load_self } => NodeView::Access {
            value,
            field,
            load_self: true,
        },
        other => other,
    }
}

/// The statement at a place.
#[verifier::opaque]
pub open spec fn parsed_statement(src: Source, c: Cursor, flag: bool) -> Parsed
    decreases src.text.len() - c.position, 33int, 1int,
{
    parsed_statement_steps(src, c, flag)
}

/// What `parsed_statement` stands for, step by step.
pub open spec fn parsed_statement_steps(src: Source, c: Cursor, flag: bool) -> Parsed
    decreases src.text.len() - c.position, 33int, 0int,
{
    parsed_assignment(src, c, flag)
}

/// `parsed_statement` is what its steps give.
pub proof fn lemma_parsed_statement(src: Source, c: Cursor, flag: bool)
    ensures
        parsed_statement(src, c, flag) == parsed_statement_steps(src, c, flag),
{
    reveal(parsed_statement);
}

/// The assignment, or what stands in the place of one, at a place.
pub open spec fn parsed_assignment(src: Source, c: Cursor, flag: bool) -> Parsed
    decreases src.text.len() - c.position, 32int,
{
    let left = parsed_commas(src, c, flag);
    match left.result {
        Err(_) => left,
        Ok(None) => left,
        Ok(Some(target)) => match token_at(src, left.cursor) {
            Err(e) => fail(e, left.cursor, left.flag),
            Ok(t) => if !assigns(t.token_type) {
                left
            } else if !ahead(src, c, past_token(src, left.cursor)) {
                left
            } else {
                let right = parsed_assignment(src, past_token(src, left.cursor), left.flag);
                match right.result {
                    Err(_) => right,
                    Ok(None) => fail(unexpected(src, right.cursor), right.cursor, right.flag),
                    Ok(Some(value)) => done(
                        Some(
                            NodeView::Assignment {
                                left: Box::new(target),
                                right: Box::new(value),
                                op: t.token_type,
                            },
                        ),
                        right.cursor,
                        right.flag,
                    ),
                }
            },
        },
    }
}

/// The values with commas between them at a place, as a tuple, or the one
/// value that is there.
pub open spec fn parsed_commas(src: Source, c: Cursor, flag: bool) -> Parsed
    decreases src.text.len() - c.position, 31int,
{
    let first = parsed_level(src, c, flag, 0);
    match first.result {
        Err(_) => first,
        Ok(None) => first,
        Ok(Some(value)) => if first.flag {
            first
        } else {
            match token_at(src, first.cursor) {
                Err(e) => fail(e, first.cursor, first.flag),
                Ok(t) => if t.token_type == TokenType::COMMA && onward(src, c, first.cursor) {
                    parsed_commas_rest(src, first.cursor, first.flag, seq![value], c)
                } else {
                    first
                },
            }
        },
    }
}

/// The rest of the values with commas between them, after those in `values`.
pub open spec fn parsed_commas_rest(
    src: Source,
    c: Cursor,
    flag: bool,
    values: Seq<NodeView>,
    start: Cursor,
) -> Parsed
    decreases src.text.len() - c.position, 1int,
{
    let tuple = Some(NodeView::Tuple { values, is_list: false });
    match token_at(src, c) {
        Err(e) => fail(e, c, flag),
        Ok(t) => if t.token_type != TokenType::COMMA || !ahead(src, c, past_token(src, c)) {
            done(tuple, c, flag)
        } else {
            let after = past_token(src, c);
            match token_at(src, after) {
                Err(e) => fail(e, after, flag),
                Ok(t2) => if t2.token_type == TokenType::EndOfFile {
                    done(tuple, after, flag)
                } else {
                    let next = parsed_level(src, after, flag, 0);
                    match next.result {
                        Err(_) => next,
                        Ok(None) => done(tuple, next.cursor, next.flag),
                        Ok(Some(value)) => if onward(src, after, next.cursor) {
                            parsed_commas_rest(src, next.cursor, next.flag, values.push(value), start)
                        } else {
                            done(tuple, next.cursor, next.flag)
                        },
                    }
                },
            }
        },
    }
}

/// The operations of a level of precedence, and of the levels that bind
/// more, at a place.
pub open spec fn parsed_level(src: Source, c: Cursor, flag: bool, level: int) -> Parsed
    decreases src.text.len() - c.position, (if 0 <= level <= 10 {
        30 - level
    } else {
        19
    }),
{
    if level < 0 || level > 10 {
        parsed_before(src, c, flag)
    } else {
        let first = parsed_level(src, c, flag, level + 1);
        match first.result {
            Err(_) => first,
            Ok(left) => if onward(src, c, first.cursor) {
                parsed_level_rest(src, first.cursor, first.flag, level, left)
            } else {
                first
            },
        }
    }
}

/// The rest of the operations of a level, after the operand `left`.
pub open spec fn parsed_level_rest(
    src: Source,
    c: Cursor,
    flag: bool,
    level: int,
    left: Option<NodeView>,
) -> Parsed
    decreases src.text.len() - c.position, 0int,
{
    if flag || level < 0 || level > 10 {
        done(left, c, flag)
    } else {
        match token_at(src, c) {
            Err(e) => fail(e, c, flag),
            Ok(t) => if !level_has(level, t.token_type) || !ahead(src, c, past_token(src, c)) {
                done(left, c, flag)
            } else {
                let right = parsed_level(src, past_token(src, c), flag, level + 1);
                match right.result {
                    Err(_) => right,
                    Ok(None) => fail(unexpected(src, right.cursor), right.cursor, right.flag),
                    Ok(Some(r)) => match left {
                        None => fail(unexpected(src, right.cursor), right.cursor, right.flag),
                        Some(l) => if onward(src, past_token(src, c), right.cursor) {
                            parsed_level_rest(
                                src,
                                right.cursor,
                                right.flag,
                                level,
                                Some(folded(t.token_type, l, r)),
                            )
                        } else {
                            right
                        },
                    },
                }
            },
        }
    }
}

/// The operand at a place, with the operators that stand before it.
pub open spec fn parsed_before(src: Source, c: Cursor, flag: bool) -> Parsed
    decreases src.text.len() - c.position, 16int,
{
    match token_at(src, c) {
        Err(e) => fail(e, c, flag),
        Ok(t) => if !prefixes(t.token_type) {
            parsed_after(src, c, flag, None)
        } else if !ahead(src, c, past_token(src, c)) {
            fail(unexpected(src, c), c, flag)
        } else {
            let value = parsed_before(src, past_token(src, c), flag);
            match value.result {
                Err(_) => value,
                Ok(None) => fail(unexpected(src, value.cursor), value.cursor, value.flag),
                Ok(Some(v)) => done(Some(prefixed(t.token_type, v)), value.cursor, value.flag),
            }
        },
    }
}

/// The operand at a place, or `prev` where it is given, with the calls,
/// accesses and subscripts that follow it.
pub open spec fn parsed_after(src: Source, c: Cursor, flag: bool, prev: Option<NodeView>) -> Parsed
    decreases src.text.len() - c.position, 15int,
{
    let first = if prev is None {
        parsed_factor(src, c, flag)
    } else {
        done(prev, c, flag)
    };
    match first.result {
        Err(_) => first,
        Ok(value) => if !onward(src, c, first.cursor) {
            first
        } else {
            match token_at(src, first.cursor) {
                Err(e) => fail(e, first.cursor, first.flag),
                Ok(t) => if t.token_type == TokenType::LPAREN {
                    parsed_call(src, c, first.cursor, first.flag, value)
                } else if t.token_type == TokenType::DOT {
                    parsed_access(src, c, first.cursor, first.flag, value)
                } else if t.token_type == TokenType::LBRACKET {
                    parsed_subscript(src, c, first.cursor, first.flag, value)
                } else {
                    first
                },
            }
        },
    }
}

/// The call of `value` with the arguments at place `c`, and what follows it.
/// `origin` is where the operand started.
pub open spec fn parsed_call(
    src: Source,
    origin: Cursor,
    c: Cursor,
    flag: bool,
    value: Option<NodeView>,
) -> Parsed
    decreases src.text.len() - origin.position, 14int,
{
    if !onward(src, origin, c) {
        done(value, c, flag)
    } else {
        let tuple = parsed_tuple(src, c, flag, true);
        match (tuple.result, value) {
            (Err(_), _) => tuple,
            (Ok(list), Some(callee)) => if ahead(src, origin, tuple.cursor) {
                parsed_after(
                    src,
                    tuple.cursor,
                    tuple.flag,
                    Some(
                        NodeView::FuncCall {
                            callee: Box::new(called(callee)),
                            args: arguments(list),
                            add_arg: callee is Access,
                        },
                    ),
                )
            } else {
                tuple
            },
            (Ok(_), None) => fail(unexpected(src, tuple.cursor), tuple.cursor, tuple.flag),
        }
    }
}

/// The access to a member of `value`, whose point stands at place `c`, and
/// what follows it.
pub open spec fn parsed_access(
    src: Source,
    origin: Cursor,
    c: Cursor,
    flag: bool,
    value: Option<NodeView>,
) -> Parsed
    decreases src.text.len() - origin.position, 14int,
{
    let after = past_token(src, c);
    match (token_at(src, after), value) {
        (Err(e), _) => fail(e, after, flag),
        (Ok(name), Some(object)) => if ahead(src, origin, past_token(src, after)) {
            parsed_after(
                src,
                past_token(src, after),
                flag,
                Some(
                    NodeView::Access {
                        value: Box::new(object),
                        field: Box::new(NodeView::Id(name.value)),
                        load_self: false,
                    },
                ),
            )
        } else {
            done(value, c, flag)
        },
        (Ok(_), None) => fail(
            unexpected(src, past_token(src, after)),
            past_token(src, after),
            flag,
        ),
    }
}

/// The subscript of `value`, whose bracket stands at place `c`, and what
/// follows it.
pub open spec fn parsed_subscript(
    src: Source,
    origin: Cursor,
    c: Cursor,
    flag: bool,
    value: Option<NodeView>,
) -> Parsed
    decreases src.text.len() - origin.position, 14int,
{
    let after = past_token(src, c);
    if !ahead(src, origin, after) {
        done(value, c, flag)
    } else {
        let index = parsed_statement(src, after, flag);
        match index.result {
            Err(_) => index,
            Ok(subscript) => {
                let close = eaten(src, index.cursor, TokenType::RBRACKET);
                match (close.result, value, subscript) {
                    (Err(e), _, _) => fail(e, close.cursor, index.flag),
                    (Ok(_), Some(object), Some(i)) => if ahead(src, origin, close.cursor) {
                        parsed_after(
                            src,
                            close.cursor,
                            index.flag,
                            Some(
                                NodeView::Subscript {
                                    value: Box::new(object),
                                    subscript: Box::new(i),
                                },
                            ),
                        )
                    } else {
                        index
                    },
                    _ => fail(unexpected(src, close.cursor), close.cursor, index.flag),
                }
            },
        }
    }
}

/// The literal, name, parenthesized sequence, list or keyword statement at a
/// place; none at the end of the text or of a line.
pub open spec fn parsed_factor(src: Source, c: Cursor, flag: bool) -> Parsed
    decreases src.text.len() - c.position, 14int,
{
    match token_at(src, c) {
        Err(e) => fail(e, c, flag),
        Ok(t) => match t.token_type {
            TokenType::INT => done(Some(NodeView::Int(t.int_value)), past_token(src, c), flag),
            TokenType::FLOAT => done(
                Some(NodeView::Float { text: t.value, worked: None }),
                past_token(src, c),
                flag,
            ),
            TokenType::STRING => done(Some(NodeView::String(t.value)), past_token(src, c), flag),
            TokenType::ID => done(Some(NodeView::Id(t.value)), past_token(src, c), flag),
            TokenType::LPAREN => parsed_tuple(src, c, flag, false),
            TokenType::LBRACKET => parsed_list(src, c, flag),
            TokenType::KEYWORD => parsed_keyword(src, c, flag),
            TokenType::EndOfFile | TokenType::NewLine => done(None, c, flag),
            _ => fail(ParserErrorView::UnexpectedToken(t), c, flag),
        },
    }
}

/// The statement that the keyword at a place starts.
#[verifier::opaque]
pub open spec fn parsed_keyword(src: Source, c: Cursor, flag: bool) -> Parsed
    decreases src.text.len() - c.position, 13int, 1int,
{
    parsed_keyword_steps(src, c, flag)
}

/// What `parsed_keyword` stands for, step by step.
pub open spec fn parsed_keyword_steps(src: Source, c: Cursor, flag: bool) -> Parsed
    decreases src.text.len() - c.position, 13int, 0int,
{
    let after = past_token(src, c);
    match token_at(src, c) {
        Err(e) => fail(e, c, flag),
        Ok(t) => if t.token_type == TokenType::EndOfFile || !ahead(src, c, after) {
            fail(unexpected(src, after), after, flag)
        } else {
            match t.keyword_type {
                KeywordType::Fn => parsed_fn(src, after, flag),
                KeywordType::If => parsed_conditional(src, after, flag, false),
                KeywordType::While => parsed_conditional(src, after, flag, true),
                KeywordType::Return => {
                    let value = parsed_statement(src, after, flag);
                    match value.result {
                        Err(_) => value,
                        Ok(v) => done(
                            Some(
                                NodeView::Return(
                                    match v {
                                        Some(n) => Some(Box::new(n)),
                                        None => None,
                                    },
                                ),
                            ),
                            value.cursor,
                            value.flag,
                        ),
                    }
                },
                _ => fail(unexpected(src, after), after, flag),
            }
        },
    }
}

/// `parsed_keyword` is what its steps give.
pub proof fn lemma_parsed_keyword(src: Source, c: Cursor, flag: bool)
    ensures
        parsed_keyword(src, c, flag) == parsed_keyword_steps(src, c, flag),
{
    reveal(parsed_keyword);
}

/// The condition and the block of an `if` or a `while` at a place.
#[verifier::opaque]
pub open spec fn parsed_conditional(src: Source, c: Cursor, flag: bool, repeats: bool) -> Parsed
    decreases src.text.len() - c.position, 40int, 1int,
{
    parsed_conditional_steps(src, c, flag, repeats)
}

/// What `parsed_conditional` stands for, step by step.
pub open spec fn parsed_conditional_steps(src: Source, c: Cursor, flag: bool, repeats: bool) -> Parsed
    decreases src.text.len() - c.position, 40int, 0int,
{
    let condition = parsed_statement(src, c, flag);
    match condition.result {
        Err(_) => condition,
        Ok(None) => fail(unexpected(src, condition.cursor), condition.cursor, condition.flag),
        Ok(Some(test)) => if !onward(src, c, condition.cursor) {
            condition
        } else {
            let block = parsed_body(
                src,
                condition.cursor,
                condition.flag,
                TokenType::LBRACE,
                TokenType::RBRACE,
                false,
                false,
            );
            match block.result {
                Err(e) => fail(e, block.cursor, block.flag),
                Ok(statements) => done(
                    Some(
                        if repeats {
                            NodeView::While { condition: Box::new(test), block: statements }
                        } else {
                            NodeView::If { condition: Box::new(test), block: statements }
                        },
                    ),
                    block.cursor,
                    block.flag,
                ),
            }
        },
    }
}

/// `parsed_conditional` is what its steps give.
pub proof fn lemma_parsed_conditional(src: Source, c: Cursor, flag: bool, repeats: bool)
    ensures
        parsed_conditional(src, c, flag, repeats) == parsed_conditional_steps(src, c, flag, repeats),
{
    reveal(parsed_conditional);
}

/// The definition of a function at a place, after its keyword.
#[verifier::opaque]
pub open spec fn parsed_fn(src: Source, c: Cursor, flag: bool) -> Parsed
    decreases src.text.len() - c.position, 40int, 1int,
{
    parsed_fn_steps(src, c, flag)
}

/// What `parsed_fn` stands for, step by step.
pub open spec fn parsed_fn_steps(src: Source, c: Cursor, flag: bool) -> Parsed
    decreases src.text.len() - c.position, 40int, 0int,
{
    let name = parsed_factor(src, c, flag);
    match name.result {
        Err(_) => name,
        Ok(named) => if !onward(src, c, name.cursor) {
            name
        } else {
            let params = parsed_tuple(src, name.cursor, true, true);
            match params.result {
                Err(_) => params,
                Ok(list) => match named {
                    Some(NodeView::Id(id)) => if !onward(src, c, params.cursor) {
                        params
                    } else {
                        let body = parsed_body(
                            src,
                            params.cursor,
                            false,
                            TokenType::LBRACE,
                            TokenType::RBRACE,
                            false,
                            false,
                        );
                        match body.result {
                            Err(e) => fail(e, body.cursor, body.flag),
                            Ok(statements) => done(
                                Some(
                                    NodeView::FuncDef {
                                        name: id,
                                        params: arguments(list),
                                        body: statements,
                                    },
                                ),
                                body.cursor,
                                body.flag,
                            ),
                        }
                    },
                    _ => fail(unexpected(src, params.cursor), params.cursor, false),
                },
            }
        },
    }
}

/// `parsed_fn` is what its steps give.
pub proof fn lemma_parsed_fn(src: Source, c: Cursor, flag: bool)
    ensures
        parsed_fn(src, c, flag) == parsed_fn_steps(src, c, flag),
{
    reveal(parsed_fn);
}

/// The parenthesized sequence at a place. One value without a comma stands
/// for itself, unless a tuple is asked for.
#[verifier::opaque]
pub open spec fn parsed_tuple(src: Source, c: Cursor, flag: bool, must_be_tuple: bool) -> Parsed
    decreases src.text.len() - c.position, 12int, 1int,
{
    parsed_tuple_steps(src, c, flag, must_be_tuple)
}

/// What `parsed_tuple` stands for, step by step.
pub open spec fn parsed_tuple_steps(src: Source, c: Cursor, flag: bool, must_be_tuple: bool) -> Parsed
    decreases src.text.len() - c.position, 12int, 0int,
{
    let body = parsed_body(src, c, flag, TokenType::LPAREN, TokenType::RPAREN, true, true);
    match body.result {
        Err(e) => fail(e, body.cursor, body.flag),
        Ok(values) => if !must_be_tuple && values.len() == 1 && !body.got_comma {
            done(Some(values[0]), body.cursor, body.flag)
        } else {
            done(Some(NodeView::Tuple { values, is_list: false }), body.cursor, body.flag)
        },
    }
}

/// `parsed_tuple` is what its steps give.
pub proof fn lemma_parsed_tuple(src: Source, c: Cursor, flag: bool, must_be_tuple: bool)
    ensures
        parsed_tuple(src, c, flag, must_be_tuple) == parsed_tuple_steps(src, c, flag, must_be_tuple),
{
    reveal(parsed_tuple);
}

/// The list in brackets at a place.
#[verifier::opaque]
pub open spec fn parsed_list(src: Source, c: Cursor, flag: bool) -> Parsed
    decreases src.text.len() - c.position, 12int, 1int,
{
    parsed_list_steps(src, c, flag)
}

/// What `parsed_list` stands for, step by step.
pub open spec fn parsed_list_steps(src: Source, c: Cursor, flag: bool) -> Parsed
    decreases src.text.len() - c.position, 12int, 0int,
{
    let body = parsed_body(src, c, true, TokenType::LBRACKET, TokenType::RBRACKET, true, false);
    match body.result {
        Err(e) => fail(e, body.cursor, body.flag),
        Ok(values) => done(Some(NodeView::Tuple { values, is_list: true }), body.cursor, false),
    }
}

/// `parsed_list` is what its steps give.
pub proof fn lemma_parsed_list(src: Source, c: Cursor, flag: bool)
    ensures
        parsed_list(src, c, flag) == parsed_list_steps(src, c, flag),
{
    reveal(parsed_list);
}

/// The statements between two delimiters at a place. `commas` says whether
/// commas stand between them, `noted` whether one may stand at the end.
#[verifier::opaque]
pub open spec fn parsed_body(src: Source,
    c: Cursor,
    flag: bool,
    open: TokenType,
    close: TokenType,
    commas: bool,
    noted: bool,) -> ParsedList
    decreases src.text.len() - c.position, 10int, 1int,
{
    parsed_body_steps(src, c, flag, open, close, commas, noted)
}

/// What `parsed_body` stands for, step by step.
pub open spec fn parsed_body_steps(src: Source,
    c: Cursor,
    flag: bool,
    open: TokenType,
    close: TokenType,
    commas: bool,
    noted: bool,) -> ParsedList
    decreases src.text.len() - c.position, 10int, 0int,
{
    let start = eaten(src, c, open);
    match start.result {
        Err(e) => fail_list(e, start.cursor, flag),
        Ok(_) => if !ahead(src, c, start.cursor) {
            fail_list(unexpected(src, c), start.cursor, flag)
        } else {
            let first = skipped(src, start.cursor);
            match first.result {
                Err(e) => fail_list(e, first.cursor, flag),
                Ok(_) => if !onward(src, start.cursor, first.cursor) {
                    fail_list(unexpected(src, c), first.cursor, flag)
                } else {
                    parsed_body_rest(
                        src,
                        first.cursor,
                        flag,
                        close,
                        commas,
                        noted,
                        Seq::empty(),
                        false,
                    )
                },
            }
        },
    }
}

/// `parsed_body` is what its steps give.
pub proof fn lemma_parsed_body(src: Source,
    c: Cursor,
    flag: bool,
    open: TokenType,
    close: TokenType,
    commas: bool,
    noted: bool,)
    ensures
        parsed_body(src, c, flag, open, close, commas, noted) == parsed_body_steps(src, c, flag, open, close, commas, noted),
{
    reveal(parsed_body);
}

/// The rest of the statements before a closing delimiter, after those in
/// `nodes`.
pub open spec fn parsed_body_rest(
    src: Source,
    c: Cursor,
    flag: bool,
    close: TokenType,
    commas: bool,
    noted: bool,
    nodes: Seq<NodeView>,
    got_comma: bool,
) -> ParsedList
    decreases src.text.len() - c.position, 50int,
{
    match token_at(src, c) {
        Err(e) => fail_list(e, c, flag),
        Ok(t) => if t.token_type == close || t.token_type == TokenType::EndOfFile {
            let end = eaten(src, c, close);
            match end.result {
                Err(e) => fail_list(e, end.cursor, flag),
                Ok(_) => ParsedList { result: Ok(nodes), cursor: end.cursor, flag, got_comma },
            }
        } else {
            let before = skipped(src, c);
            match before.result {
                Err(e) => fail_list(e, before.cursor, flag),
                Ok(_) => if !onward(src, c, before.cursor) {
                    fail_list(unexpected(src, c), before.cursor, flag)
                } else {
                    let statement = parsed_statement(src, before.cursor, flag);
                    match statement.result {
                        Err(e) => fail_list(e, statement.cursor, statement.flag),
                        Ok(None) => fail_list(
                            unexpected(src, statement.cursor),
                            statement.cursor,
                            statement.flag,
                        ),
                        Ok(Some(node)) => {
                            let after = skipped(src, statement.cursor);
                            match after.result {
                                Err(e) => fail_list(e, after.cursor, statement.flag),
                                Ok(_) => parsed_body_next(
                                    src,
                                    c,
                                    after.cursor,
                                    statement.flag,
                                    close,
                                    commas,
                                    noted,
                                    nodes.push(node),
                                    got_comma,
                                ),
                            }
                        },
                    }
                },
            }
        },
    }
}

/// What follows a statement before a closing delimiter: a comma and more
/// statements, or the delimiter. `from` is where the statement started.
pub open spec fn parsed_body_next(
    src: Source,
    from: Cursor,
    c: Cursor,
    flag: bool,
    close: TokenType,
    commas: bool,
    noted: bool,
    nodes: Seq<NodeView>,
    got_comma: bool,
) -> ParsedList
    decreases src.text.len() - from.position, 49int,
{
    if !commas {
        if ahead(src, from, c) {
            parsed_body_rest(src, c, flag, close, commas, noted, nodes, got_comma)
        } else {
            fail_list(unexpected(src, c), c, flag)
        }
    } else {
        match token_at(src, c) {
            Err(e) => fail_list(e, c, flag),
            Ok(t) => if t.token_type == TokenType::COMMA {
                let after = past_token(src, c);
                let ended = match token_at(src, after) {
                    Err(e) => Some(e),
                    Ok(t2) => if t2.token_type == close {
                        Some(ParserErrorView::UnfinishedList(t2))
                    } else {
                        None
                    },
                };
                if !noted && ended is Some {
                    fail_list(ended->0, after, flag)
                } else if ahead(src, from, after) {
                    parsed_body_rest(src, after, flag, close, commas, noted, nodes, noted || got_comma)
                } else {
                    fail_list(unexpected(src, c), after, flag)
                }
            } else {
                let end = eaten(src, c, close);
                match end.result {
                    Err(e) => fail_list(e, end.cursor, flag),
                    Ok(_) => ParsedList { result: Ok(nodes), cursor: end.cursor, flag, got_comma },
                }
            },
        }
    }
}

/// The statements of the text from a place on, after those in `statements`.
pub open spec fn parsed_program(src: Source, c: Cursor, flag: bool, statements: Seq<NodeView>) -> Parsed
    decreases src.text.len() - c.position, 60int,
{
    let start = skipped(src, c);
    match start.result {
        Err(e) => fail(e, start.cursor, flag),
        Ok(_) => if !onward(src, c, start.cursor) {
            fail(unexpected(src, c), start.cursor, flag)
        } else {
            let statement = parsed_statement(src, start.cursor, flag);
            match statement.result {
                Err(_) => statement,
                Ok(None) => done(
                    Some(NodeView::Block(statements)),
                    statement.cursor,
                    statement.flag,
                ),
                Ok(Some(node)) => if ahead(src, c, statement.cursor) {
                    parsed_program(src, statement.cursor, statement.flag, statements.push(node))
                } else {
                    fail(unexpected(src, c), statement.cursor, statement.flag)
                },
            }
        },
    }
}

/// The parser: the lexer it reads from, and whether it reads the parameters
/// of a function or the members of a list, where operators are not looked
/// for.
#[derive(Debug)]
pub struct Parser {
    pub lexer: Lexer,
    pub getting_params: bool,
}

/// What an optional node holds.
pub open spec fn option_view(node: Option<Node>) -> Option<NodeView> {
    match node {
        Some(n) => Some(node_view(n)),
        None => None,
    }
}

/// Whether the outcome of a step of the parser is what the specification
/// says of it.
pub open spec fn agrees(said: Parsed, r: Result<Option<Node>, ParserError>, after: Parser) -> bool {
    match said.result {
        Ok(n) => r is Ok && option_view(r->Ok_0) == n && after.lexer.cursor() == said.cursor
            && after.getting_params == said.flag,
        Err(e) => r is Err && r->Err_0@ == e,
    }
}

/// Whether the outcome of a step that reads a sequence is what the
/// specification says of it.
pub open spec fn agrees_list(
    said: ParsedList,
    r: Result<(Vec<Node>, bool), ParserError>,
    after: Parser,
) -> bool {
    match said.result {
        Ok(n) => r is Ok && nodes_view(r->Ok_0.0@, 0) == n && r->Ok_0.1 == said.got_comma
            && after.lexer.cursor() == said.cursor && after.getting_params == said.flag,
        Err(e) => r is Err && r->Err_0@ == e,
    }
}

/// Whether the outcome of a step that builds nothing is what the
/// specification says of it.
pub open spec fn agrees_skip(said: Skipped, r: Result<(), ParserError>, after: Parser) -> bool {
    match said.result {
        Ok(_) => r is Ok && after.lexer.cursor() == said.cursor,
        Err(e) => r is Err && r->Err_0@ == e,
    }
}

impl Parser {
    /// The text that is parsed and the name it is known under.
    pub open spec fn source(&self) -> Source {
        Source { text: self.lexer.text(), filename: self.lexer.filename@ }
    }

    /// Whether the parser reads on in the same text as before.
    pub open spec fn goes_on(&self, before: &Parser) -> bool {
        self.lexer.reads_on(&before.lexer)
    }

    /// The characters that are left to read.
    pub open spec fn left(&self) -> int {
        self.lexer.text().len() - self.lexer.position
    }

    /// A parser that reads from `lexer`.
    pub fn new(lexer: Lexer) -> (parser: Parser)
        ensures
            parser.lexer == lexer,
            !parser.getting_params,
    {
        Parser { lexer, getting_params: false }
    }
}

} // verus!
