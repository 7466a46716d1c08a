//! How the parser takes tokens from the lexer.

use vstd::prelude::*;
use crate::parser::{
    agrees_skip, eaten, past_token, skipped, token_at, unexpected, Parser, ParserError,
};
use crate::token::{Token, TokenType};

verus! {

impl Parser {
    /// The token at the place of the lexer, which stays there.
    pub(crate) fn peek_token(&mut self) -> (r: Result<Token, ParserError>)
        requires
            old(self).lexer.wf(),
        ensures
            final(self).goes_on(old(self)),
            final(self).lexer.cursor() == old(self).lexer.cursor(),
            final(self).getting_params == old(self).getting_params,
            match token_at(old(self).source(), old(self).lexer.cursor()) {
                Ok(t) => r is Ok && r->Ok_0@ == t,
                Err(e) => r is Err && r->Err_0@ == e,
            },
    {
        match self.lexer.peek() {
            Ok(t) => Ok(t),
            Err(e) => Err(ParserError::Lexer(e)),
        }
    }

    /// The kind of the token at the place of the lexer.
    pub(crate) fn peek_type(&mut self) -> (r: Result<TokenType, ParserError>)
        requires
            old(self).lexer.wf(),
        ensures
            final(self).goes_on(old(self)),
            final(self).lexer.cursor() == old(self).lexer.cursor(),
            final(self).getting_params == old(self).getting_params,
            match token_at(old(self).source(), old(self).lexer.cursor()) {
                Ok(t) => r == Ok::<TokenType, ParserError>(t.token_type),
                Err(e) => r is Err && r->Err_0@ == e,
            },
    {
        match self.lexer.peek() {
            Ok(t) => Ok(t.token_type),
            Err(e) => Err(ParserError::Lexer(e)),
        }
    }

    /// The token at the place of the lexer, which moves past it.
    pub(crate) fn next_token(&mut self) -> (r: Result<Token, ParserError>)
        requires
            old(self).lexer.wf(),
        ensures
            final(self).goes_on(old(self)),
            final(self).lexer.cursor() == past_token(old(self).source(), old(self).lexer.cursor()),
            final(self).getting_params == old(self).getting_params,
            match token_at(old(self).source(), old(self).lexer.cursor()) {
                Ok(t) => r is Ok && r->Ok_0@ == t,
                Err(e) => r is Err && r->Err_0@ == e,
            },
            r is Ok && r->Ok_0.token_type != TokenType::EndOfFile ==> final(self).left() < old(self).left(),
    {
        match self.lexer.next() {
            Ok(t) => Ok(t),
            Err(e) => Err(ParserError::Lexer(e)),
        }
    }

    /// The error for the token at the place of the lexer.
    pub(crate) fn unexpected_here(&mut self) -> (e: ParserError)
        requires
            old(self).lexer.wf(),
        ensures
            final(self).goes_on(old(self)),
            final(self).lexer.cursor() == old(self).lexer.cursor(),
            final(self).getting_params == old(self).getting_params,
            e@ == unexpected(old(self).source(), old(self).lexer.cursor()),
    {
        match self.lexer.peek() {
            Ok(t) => ParserError::UnexpectedToken(t),
            Err(e) => ParserError::Lexer(e),
        }
    }

    /// Takes the next token, which has to be of the given kind.
    pub(crate) fn eat(&mut self, token_type: &TokenType) -> (r: Result<(), ParserError>)
        requires
            old(self).lexer.wf(),
        ensures
            final(self).goes_on(old(self)),
            final(self).getting_params == old(self).getting_params,
            final(self).lexer.cursor() == past_token(old(self).source(), old(self).lexer.cursor()),
            agrees_skip(
                eaten(old(self).source(), old(self).lexer.cursor(), *token_type),
                r,
                *final(self),
            ),
            r is Ok && *token_type != TokenType::EndOfFile ==> final(self).left() < old(self).left(),
    {
        let next = match self.lexer.next() {
            Ok(t) => t,
            Err(e) => {
                return Err(ParserError::Lexer(e));
            },
        };
        if next.token_type == *token_type {
            Ok(())
        } else {
            Err(ParserError::UnexpectedTokenExpected(next, *token_type))
        }
    }

    /// Passes over line ends and semicolons.
    pub(crate) fn skip_newline_or_semicolon(&mut self) -> (r: Result<(), ParserError>)
        requires
            old(self).lexer.wf(),
        ensures
            final(self).goes_on(old(self)),
            final(self).getting_params == old(self).getting_params,
            agrees_skip(skipped(old(self).source(), old(self).lexer.cursor()), r, *final(self)),
    {
        proof {
            reveal(skipped);
        }
        let ghost goal = skipped(self.source(), self.lexer.cursor());
        loop
            invariant
                self.goes_on(old(self)),
                self.getting_params == old(self).getting_params,
                goal == skipped(old(self).source(), old(self).lexer.cursor()),
                goal == skipped(self.source(), self.lexer.cursor()),
            decreases self.left(),
        {
            proof {
                reveal(skipped);
            }
            let kind = match self.peek_type() {
                Ok(kind) => kind,
                Err(e) => {
                    return Err(e);
                },
            };
            if !(kind == TokenType::NewLine || kind == TokenType::SEMI) {
                return Ok(());
            }
            match self.next_token() {
                Ok(_) => {},
                Err(e) => {
                    return Err(e);
                },
            }
        }
    }
}

} // verus!
