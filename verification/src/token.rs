//! Tokens of the source language and the tables of its symbols and keywords.

use vstd::prelude::*;

verus! {

/// The kind of a token.
#[derive(Debug, PartialEq, Eq, Structural, Clone, Copy, Hash)]
pub enum TokenType {
    Unknown,
    EndOfFile,
    ADD,
    SUB,
    DIV,
    MUL,
    MOD,
    POW,
    AddEq,
    SubEq,
    DivEq,
    MulEq,
    ModEq,
    AND,
    OR,
    HAT,
    SHL,
    SHR,
    NOT,
    BoolNot,
    BoolEq,
    BoolNe,
    BoolLt,
    BoolGt,
    BoolLte,
    BoolGte,
    BoolAnd,
    BoolOr,
    ID,
    KEYWORD,
    STRING,
    INT,
    FLOAT,
    LPAREN,
    RPAREN,
    LBRACKET,
    RBRACKET,
    LBRACE,
    RBRACE,
    EQUALS,
    COMMA,
    DOT,
    COLON,
    NAMESPACE,
    SEMI,
    QUESTION,
    AT,
    HASH,
    LineComment,
    MultilineCommentStart,
    MultilineCommentEnd,
    POINTER,
    ARROW,
    BACKSLASH,
    NewLine,
}

/// The keyword that an identifier is, if it is one.
#[derive(Debug, PartialEq, Eq, Structural, Clone, Copy)]
pub enum KeywordType {
    Unknown,
    Null,
    Fn,
    If,
    Else,
    While,
    For,
    Return,
    Import,
    As,
    From,
    Break,
    Continue,
    True,
    False,
}

/// A token: its kind, its text, the value of an integer literal, and the line
/// and column at which it starts. A literal with a fraction carries its text
/// only.
#[derive(Debug, PartialEq, Clone)]
pub struct Token {
    pub token_type: TokenType,
    pub keyword_type: KeywordType,
    pub value: String,
    pub int_value: i64,
    pub line: usize,
    pub column: usize,
}

/// What a token holds.
pub struct TokenView {
    pub token_type: TokenType,
    pub keyword_type: KeywordType,
    pub value: Seq<char>,
    pub int_value: i64,
    pub line: int,
    pub column: int,
}

impl View for Token {
    type V = TokenView;

    open spec fn view(&self) -> TokenView {
        TokenView {
            token_type: self.token_type,
            keyword_type: self.keyword_type,
            value: self.value@,
            int_value: self.int_value,
            line: self.line as int,
            column: self.column as int,
        }
    }
}

/// A token that is no keyword and has no integer value.
pub open spec fn plain_token(
    token_type: TokenType,
    value: Seq<char>,
    line: int,
    column: int,
) -> TokenView {
    TokenView {
        token_type,
        keyword_type: KeywordType::Unknown,
        value,
        int_value: 0,
        line,
        column,
    }
}

/// The token that stands for the end of the input.
pub open spec fn eof_token() -> TokenView {
    plain_token(TokenType::EndOfFile, Seq::empty(), 0, 0)
}

impl Token {
    pub fn new(type_: TokenType, value: String, line: usize, column: usize) -> (token: Self)
        ensures
            token@ == plain_token(type_, value@, line as int, column as int),
    {
        Token {
            token_type: type_,
            keyword_type: KeywordType::Unknown,
            value,
            int_value: 0,
            line,
            column,
        }
    }

    /// A token that holds the same.
    pub fn duplicate(&self) -> (token: Self)
        ensures
            token@ == self@,
    {
        Token {
            token_type: self.token_type,
            keyword_type: self.keyword_type,
            value: self.value.clone(),
            int_value: self.int_value,
            line: self.line,
            column: self.column,
        }
    }
}

/// The token that stands for the end of the input.
pub fn eof() -> (token: Token)
    ensures
        token@ == eof_token(),
{
    Token {
        token_type: TokenType::EndOfFile,
        keyword_type: KeywordType::Unknown,
        value: String::new(),
        int_value: 0,
        line: 0,
        column: 0,
    }
}

/// Whether a character starts a symbol.
pub open spec fn symbol_char(ch: char) -> bool {
    match ch {
        '(' | ')' | '[' | ']' | '{' | '}' | '=' | ',' | ':' | ';' | '?' | '%' | '\\' | '#' | '@' | '+' | '-' | '/' | '*' | '&' | '|' | '^' | '<' | '>' | '~' | '!' | '.' => true,
        _ => false,
    }
}

/// The kind of the symbol made of one character, or of two.
pub open spec fn symbol_type(first: char, second: Option<char>) -> TokenType {
    match second {
        None => match first {
            '(' => TokenType::LPAREN,
            ')' => TokenType::RPAREN,
            '[' => TokenType::LBRACKET,
            ']' => TokenType::RBRACKET,
            '{' => TokenType::LBRACE,
            '}' => TokenType::RBRACE,
            '=' => TokenType::EQUALS,
            ',' => TokenType::COMMA,
            ':' => TokenType::COLON,
            ';' => TokenType::SEMI,
            '?' => TokenType::QUESTION,
            '%' => TokenType::MOD,
            '\\' => TokenType::BACKSLASH,
            '#' => TokenType::HASH,
            '@' => TokenType::AT,
            '+' => TokenType::ADD,
            '-' => TokenType::SUB,
            '/' => TokenType::DIV,
            '*' => TokenType::MUL,
            '&' => TokenType::AND,
            '|' => TokenType::OR,
            '^' => TokenType::HAT,
            '<' => TokenType::BoolLt,
            '>' => TokenType::BoolGt,
            '~' => TokenType::NOT,
            '!' => TokenType::BoolNot,
            '.' => TokenType::DOT,
            _ => TokenType::Unknown,
        },
        Some(next) => match (first, next) {
            (':', ':') => TokenType::NAMESPACE,
            ('&', '&') => TokenType::BoolAnd,
            ('|', '|') => TokenType::BoolOr,
            ('*', '*') => TokenType::POW,
            ('/', '/') => TokenType::LineComment,
            ('/', '*') => TokenType::MultilineCommentStart,
            ('*', '/') => TokenType::MultilineCommentEnd,
            ('-', '>') => TokenType::POINTER,
            ('!', '=') => TokenType::BoolNe,
            ('=', '=') => TokenType::BoolEq,
            ('=', '>') => TokenType::ARROW,
            ('<', '<') => TokenType::SHL,
            ('>', '>') => TokenType::SHR,
            ('<', '=') => TokenType::BoolLte,
            ('>', '=') => TokenType::BoolGte,
            ('+', '=') => TokenType::AddEq,
            ('-', '=') => TokenType::SubEq,
            ('/', '=') => TokenType::DivEq,
            ('*', '=') => TokenType::MulEq,
            ('%', '=') => TokenType::ModEq,
            _ => TokenType::Unknown,
        },
    }
}

/// The kind of the symbol with the given text.
pub open spec fn symbol_type_of(text: Seq<char>) -> TokenType {
    if text.len() == 1 {
        symbol_type(text[0], None)
    } else if text.len() == 2 {
        symbol_type(text[0], Some(text[1]))
    } else {
        TokenType::Unknown
    }
}

/// Whether a character starts a symbol.
pub fn is_symbol(ch: char) -> (b: bool)
    ensures
        b == symbol_char(ch),
{
    match ch {
        '(' | ')' | '[' | ']' | '{' | '}' | '=' | ',' | ':' | ';' | '?' | '%' | '\\' | '#' | '@' | '+' | '-' | '/' | '*' | '&' | '|' | '^' | '<' | '>' | '~' | '!' | '.' => true,
        _ => false,
    }
}

/// The kind of the symbol made of one character, or of two; `Unknown` where
/// there is no such symbol.
pub fn find_symbol_type(first: char, second: Option<char>) -> (t: TokenType)
    ensures
        t == symbol_type(first, second),
{
    match second {
        None => match first {
            '(' => TokenType::LPAREN,
            ')' => TokenType::RPAREN,
            '[' => TokenType::LBRACKET,
            ']' => TokenType::RBRACKET,
            '{' => TokenType::LBRACE,
            '}' => TokenType::RBRACE,
            '=' => TokenType::EQUALS,
            ',' => TokenType::COMMA,
            ':' => TokenType::COLON,
            ';' => TokenType::SEMI,
            '?' => TokenType::QUESTION,
            '%' => TokenType::MOD,
            '\\' => TokenType::BACKSLASH,
            '#' => TokenType::HASH,
            '@' => TokenType::AT,
            '+' => TokenType::ADD,
            '-' => TokenType::SUB,
            '/' => TokenType::DIV,
            '*' => TokenType::MUL,
            '&' => TokenType::AND,
            '|' => TokenType::OR,
            '^' => TokenType::HAT,
            '<' => TokenType::BoolLt,
            '>' => TokenType::BoolGt,
            '~' => TokenType::NOT,
            '!' => TokenType::BoolNot,
            '.' => TokenType::DOT,
            _ => TokenType::Unknown,
        },
        Some(next) => match (first, next) {
            (':', ':') => TokenType::NAMESPACE,
            ('&', '&') => TokenType::BoolAnd,
            ('|', '|') => TokenType::BoolOr,
            ('*', '*') => TokenType::POW,
            ('/', '/') => TokenType::LineComment,
            ('/', '*') => TokenType::MultilineCommentStart,
            ('*', '/') => TokenType::MultilineCommentEnd,
            ('-', '>') => TokenType::POINTER,
            ('!', '=') => TokenType::BoolNe,
            ('=', '=') => TokenType::BoolEq,
            ('=', '>') => TokenType::ARROW,
            ('<', '<') => TokenType::SHL,
            ('>', '>') => TokenType::SHR,
            ('<', '=') => TokenType::BoolLte,
            ('>', '=') => TokenType::BoolGte,
            ('+', '=') => TokenType::AddEq,
            ('-', '=') => TokenType::SubEq,
            ('/', '=') => TokenType::DivEq,
            ('*', '=') => TokenType::MulEq,
            ('%', '=') => TokenType::ModEq,
            _ => TokenType::Unknown,
        },
    }
}

/// The symbols of the language with their kinds.
pub open spec fn symbol_table() -> Seq<(Seq<char>, TokenType)> {
    seq![
        (seq![':', ':'], TokenType::NAMESPACE),
        (seq!['&', '&'], TokenType::BoolAnd),
        (seq!['|', '|'], TokenType::BoolOr),
        (seq!['*', '*'], TokenType::POW),
        (seq!['/', '/'], TokenType::LineComment),
        (seq!['/', '*'], TokenType::MultilineCommentStart),
        (seq!['*', '/'], TokenType::MultilineCommentEnd),
        (seq!['-', '>'], TokenType::POINTER),
        (seq!['!', '='], TokenType::BoolNe),
        (seq!['=', '='], TokenType::BoolEq),
        (seq!['=', '>'], TokenType::ARROW),
        (seq!['<', '<'], TokenType::SHL),
        (seq!['>', '>'], TokenType::SHR),
        (seq!['<', '='], TokenType::BoolLte),
        (seq!['>', '='], TokenType::BoolGte),
        (seq!['('], TokenType::LPAREN),
        (seq![')'], TokenType::RPAREN),
        (seq!['['], TokenType::LBRACKET),
        (seq![']'], TokenType::RBRACKET),
        (seq!['{'], TokenType::LBRACE),
        (seq!['}'], TokenType::RBRACE),
        (seq!['='], TokenType::EQUALS),
        (seq![','], TokenType::COMMA),
        (seq![':'], TokenType::COLON),
        (seq![';'], TokenType::SEMI),
        (seq!['?'], TokenType::QUESTION),
        (seq!['%'], TokenType::MOD),
        (seq!['\\'], TokenType::BACKSLASH),
        (seq!['#'], TokenType::HASH),
        (seq!['@'], TokenType::AT),
        (seq!['+'], TokenType::ADD),
        (seq!['-'], TokenType::SUB),
        (seq!['/'], TokenType::DIV),
        (seq!['*'], TokenType::MUL),
        (seq!['&'], TokenType::AND),
        (seq!['|'], TokenType::OR),
        (seq!['^'], TokenType::HAT),
        (seq!['<'], TokenType::BoolLt),
        (seq!['>'], TokenType::BoolGt),
        (seq!['~'], TokenType::NOT),
        (seq!['!'], TokenType::BoolNot),
        (seq!['.'], TokenType::DOT),
        (seq!['+', '='], TokenType::AddEq),
        (seq!['-', '='], TokenType::SubEq),
        (seq!['/', '='], TokenType::DivEq),
        (seq!['*', '='], TokenType::MulEq),
        (seq!['%', '='], TokenType::ModEq),
    ]
}

/// The symbols of the language with their kinds.
pub fn get_symbols() -> (table: Vec<(&'static str, TokenType)>)
    ensures
        table@.len() == symbol_table().len(),
        forall|i: int|
            0 <= i < table@.len() ==> (#[trigger] table@[i]).0@ == symbol_table()[i].0 && table@[i].1
                == symbol_table()[i].1,
{
    let mut table: Vec<(&'static str, TokenType)> = Vec::new();
    table.push(("::", TokenType::NAMESPACE));
    table.push(("&&", TokenType::BoolAnd));
    table.push(("||", TokenType::BoolOr));
    table.push(("**", TokenType::POW));
    table.push(("//", TokenType::LineComment));
    table.push(("/*", TokenType::MultilineCommentStart));
    table.push(("*/", TokenType::MultilineCommentEnd));
    table.push(("->", TokenType::POINTER));
    table.push(("!=", TokenType::BoolNe));
    table.push(("==", TokenType::BoolEq));
    table.push(("=>", TokenType::ARROW));
    table.push(("<<", TokenType::SHL));
    table.push((">>", TokenType::SHR));
    table.push(("<=", TokenType::BoolLte));
    table.push((">=", TokenType::BoolGte));
    table.push(("(", TokenType::LPAREN));
    table.push((")", TokenType::RPAREN));
    table.push(("[", TokenType::LBRACKET));
    table.push(("]", TokenType::RBRACKET));
    table.push(("{", TokenType::LBRACE));
    table.push(("}", TokenType::RBRACE));
    table.push(("=", TokenType::EQUALS));
    table.push((",", TokenType::COMMA));
    table.push((":", TokenType::COLON));
    table.push((";", TokenType::SEMI));
    table.push(("?", TokenType::QUESTION));
    table.push(("%", TokenType::MOD));
    table.push(("\\", TokenType::BACKSLASH));
    table.push(("#", TokenType::HASH));
    table.push(("@", TokenType::AT));
    table.push(("+", TokenType::ADD));
    table.push(("-", TokenType::SUB));
    table.push(("/", TokenType::DIV));
    table.push(("*", TokenType::MUL));
    table.push(("&", TokenType::AND));
    table.push(("|", TokenType::OR));
    table.push(("^", TokenType::HAT));
    table.push(("<", TokenType::BoolLt));
    table.push((">", TokenType::BoolGt));
    table.push(("~", TokenType::NOT));
    table.push(("!", TokenType::BoolNot));
    table.push((".", TokenType::DOT));
    table.push(("+=", TokenType::AddEq));
    table.push(("-=", TokenType::SubEq));
    table.push(("/=", TokenType::DivEq));
    table.push(("*=", TokenType::MulEq));
    table.push(("%=", TokenType::ModEq));
    proof {
        reveal_strlit("::");
        reveal_strlit("&&");
        reveal_strlit("||");
        reveal_strlit("**");
        reveal_strlit("//");
        reveal_strlit("/*");
        reveal_strlit("*/");
        reveal_strlit("->");
        reveal_strlit("!=");
        reveal_strlit("==");
        reveal_strlit("=>");
        reveal_strlit("<<");
        reveal_strlit(">>");
        reveal_strlit("<=");
        reveal_strlit(">=");
        reveal_strlit("(");
        reveal_strlit(")");
        reveal_strlit("[");
        reveal_strlit("]");
        reveal_strlit("{");
        reveal_strlit("}");
        reveal_strlit("=");
        reveal_strlit(",");
        reveal_strlit(":");
        reveal_strlit(";");
        reveal_strlit("?");
        reveal_strlit("%");
        reveal_strlit("\\");
        reveal_strlit("#");
        reveal_strlit("@");
        reveal_strlit("+");
        reveal_strlit("-");
        reveal_strlit("/");
        reveal_strlit("*");
        reveal_strlit("&");
        reveal_strlit("|");
        reveal_strlit("^");
        reveal_strlit("<");
        reveal_strlit(">");
        reveal_strlit("~");
        reveal_strlit("!");
        reveal_strlit(".");
        reveal_strlit("+=");
        reveal_strlit("-=");
        reveal_strlit("/=");
        reveal_strlit("*=");
        reveal_strlit("%=");
        assert forall|i: int| 0 <= i < table@.len() implies (#[trigger] table@[i]).0@
            == symbol_table()[i].0 && table@[i].1 == symbol_table()[i].1 by {
            assert(table@[i].0@ =~= symbol_table()[i].0);
        }
    }
    table
}

/// Every symbol in the table is found under its text with its kind.
pub proof fn lemma_symbol_table(i: int)
    requires
        0 <= i < symbol_table().len(),
    ensures
        symbol_type_of(symbol_table()[i].0) == symbol_table()[i].1,
        symbol_table()[i].1 != TokenType::Unknown,
{
}

/// The text of the symbol of a kind, or nothing for a kind without a symbol.
pub open spec fn symbol_text(op: TokenType) -> Seq<char> {
    match op {
        TokenType::NAMESPACE => seq![':', ':'],
        TokenType::BoolAnd => seq!['&', '&'],
        TokenType::BoolOr => seq!['|', '|'],
        TokenType::POW => seq!['*', '*'],
        TokenType::LineComment => seq!['/', '/'],
        TokenType::MultilineCommentStart => seq!['/', '*'],
        TokenType::MultilineCommentEnd => seq!['*', '/'],
        TokenType::POINTER => seq!['-', '>'],
        TokenType::BoolNe => seq!['!', '='],
        TokenType::BoolEq => seq!['=', '='],
        TokenType::ARROW => seq!['=', '>'],
        TokenType::SHL => seq!['<', '<'],
        TokenType::SHR => seq!['>', '>'],
        TokenType::BoolLte => seq!['<', '='],
        TokenType::BoolGte => seq!['>', '='],
        TokenType::LPAREN => seq!['('],
        TokenType::RPAREN => seq![')'],
        TokenType::LBRACKET => seq!['['],
        TokenType::RBRACKET => seq![']'],
        TokenType::LBRACE => seq!['{'],
        TokenType::RBRACE => seq!['}'],
        TokenType::EQUALS => seq!['='],
        TokenType::COMMA => seq![','],
        TokenType::COLON => seq![':'],
        TokenType::SEMI => seq![';'],
        TokenType::QUESTION => seq!['?'],
        TokenType::MOD => seq!['%'],
        TokenType::BACKSLASH => seq!['\\'],
        TokenType::HASH => seq!['#'],
        TokenType::AT => seq!['@'],
        TokenType::ADD => seq!['+'],
        TokenType::SUB => seq!['-'],
        TokenType::DIV => seq!['/'],
        TokenType::MUL => seq!['*'],
        TokenType::AND => seq!['&'],
        TokenType::OR => seq!['|'],
        TokenType::HAT => seq!['^'],
        TokenType::BoolLt => seq!['<'],
        TokenType::BoolGt => seq!['>'],
        TokenType::NOT => seq!['~'],
        TokenType::BoolNot => seq!['!'],
        TokenType::DOT => seq!['.'],
        TokenType::AddEq => seq!['+', '='],
        TokenType::SubEq => seq!['-', '='],
        TokenType::DivEq => seq!['/', '='],
        TokenType::MulEq => seq!['*', '='],
        TokenType::ModEq => seq!['%', '='],
        _ => Seq::empty(),
    }
}

/// The text of the symbol of a kind, or nothing for a kind without a symbol.
pub fn symbol_of(op: TokenType) -> (text: &'static str)
    ensures
        text@ == symbol_text(op),
{
    let text = match op {
        TokenType::NAMESPACE => "::",
        TokenType::BoolAnd => "&&",
        TokenType::BoolOr => "||",
        TokenType::POW => "**",
        TokenType::LineComment => "//",
        TokenType::MultilineCommentStart => "/*",
        TokenType::MultilineCommentEnd => "*/",
        TokenType::POINTER => "->",
        TokenType::BoolNe => "!=",
        TokenType::BoolEq => "==",
        TokenType::ARROW => "=>",
        TokenType::SHL => "<<",
        TokenType::SHR => ">>",
        TokenType::BoolLte => "<=",
        TokenType::BoolGte => ">=",
        TokenType::LPAREN => "(",
        TokenType::RPAREN => ")",
        TokenType::LBRACKET => "[",
        TokenType::RBRACKET => "]",
        TokenType::LBRACE => "{",
        TokenType::RBRACE => "}",
        TokenType::EQUALS => "=",
        TokenType::COMMA => ",",
        TokenType::COLON => ":",
        TokenType::SEMI => ";",
        TokenType::QUESTION => "?",
        TokenType::MOD => "%",
        TokenType::BACKSLASH => "\\",
        TokenType::HASH => "#",
        TokenType::AT => "@",
        TokenType::ADD => "+",
        TokenType::SUB => "-",
        TokenType::DIV => "/",
        TokenType::MUL => "*",
        TokenType::AND => "&",
        TokenType::OR => "|",
        TokenType::HAT => "^",
        TokenType::BoolLt => "<",
        TokenType::BoolGt => ">",
        TokenType::NOT => "~",
        TokenType::BoolNot => "!",
        TokenType::DOT => ".",
        TokenType::AddEq => "+=",
        TokenType::SubEq => "-=",
        TokenType::DivEq => "/=",
        TokenType::MulEq => "*=",
        TokenType::ModEq => "%=",
        _ => "",
    };
    proof {
        reveal_strlit("::");
        reveal_strlit("&&");
        reveal_strlit("||");
        reveal_strlit("**");
        reveal_strlit("//");
        reveal_strlit("/*");
        reveal_strlit("*/");
        reveal_strlit("->");
        reveal_strlit("!=");
        reveal_strlit("==");
        reveal_strlit("=>");
        reveal_strlit("<<");
        reveal_strlit(">>");
        reveal_strlit("<=");
        reveal_strlit(">=");
        reveal_strlit("(");
        reveal_strlit(")");
        reveal_strlit("[");
        reveal_strlit("]");
        reveal_strlit("{");
        reveal_strlit("}");
        reveal_strlit("=");
        reveal_strlit(",");
        reveal_strlit(":");
        reveal_strlit(";");
        reveal_strlit("?");
        reveal_strlit("%");
        reveal_strlit("\\");
        reveal_strlit("#");
        reveal_strlit("@");
        reveal_strlit("+");
        reveal_strlit("-");
        reveal_strlit("/");
        reveal_strlit("*");
        reveal_strlit("&");
        reveal_strlit("|");
        reveal_strlit("^");
        reveal_strlit("<");
        reveal_strlit(">");
        reveal_strlit("~");
        reveal_strlit("!");
        reveal_strlit(".");
        reveal_strlit("+=");
        reveal_strlit("-=");
        reveal_strlit("/=");
        reveal_strlit("*=");
        reveal_strlit("%=");
        reveal_strlit("");
        if op == TokenType::NAMESPACE { assert(text@ =~= seq![':', ':']); }
        if op == TokenType::BoolAnd { assert(text@ =~= seq!['&', '&']); }
        if op == TokenType::BoolOr { assert(text@ =~= seq!['|', '|']); }
        if op == TokenType::POW { assert(text@ =~= seq!['*', '*']); }
        if op == TokenType::LineComment { assert(text@ =~= seq!['/', '/']); }
        if op == TokenType::MultilineCommentStart { assert(text@ =~= seq!['/', '*']); }
        if op == TokenType::MultilineCommentEnd { assert(text@ =~= seq!['*', '/']); }
        if op == TokenType::POINTER { assert(text@ =~= seq!['-', '>']); }
        if op == TokenType::BoolNe { assert(text@ =~= seq!['!', '=']); }
        if op == TokenType::BoolEq { assert(text@ =~= seq!['=', '=']); }
        if op == TokenType::ARROW { assert(text@ =~= seq!['=', '>']); }
        if op == TokenType::SHL { assert(text@ =~= seq!['<', '<']); }
        if op == TokenType::SHR { assert(text@ =~= seq!['>', '>']); }
        if op == TokenType::BoolLte { assert(text@ =~= seq!['<', '=']); }
        if op == TokenType::BoolGte { assert(text@ =~= seq!['>', '=']); }
        if op == TokenType::LPAREN { assert(text@ =~= seq!['(']); }
        if op == TokenType::RPAREN { assert(text@ =~= seq![')']); }
        if op == TokenType::LBRACKET { assert(text@ =~= seq!['[']); }
        if op == TokenType::RBRACKET { assert(text@ =~= seq![']']); }
        if op == TokenType::LBRACE { assert(text@ =~= seq!['{']); }
        if op == TokenType::RBRACE { assert(text@ =~= seq!['}']); }
        if op == TokenType::EQUALS { assert(text@ =~= seq!['=']); }
        if op == TokenType::COMMA { assert(text@ =~= seq![',']); }
        if op == TokenType::COLON { assert(text@ =~= seq![':']); }
        if op == TokenType::SEMI { assert(text@ =~= seq![';']); }
        if op == TokenType::QUESTION { assert(text@ =~= seq!['?']); }
        if op == TokenType::MOD { assert(text@ =~= seq!['%']); }
        if op == TokenType::BACKSLASH { assert(text@ =~= seq!['\\']); }
        if op == TokenType::HASH { assert(text@ =~= seq!['#']); }
        if op == TokenType::AT { assert(text@ =~= seq!['@']); }
        if op == TokenType::ADD { assert(text@ =~= seq!['+']); }
        if op == TokenType::SUB { assert(text@ =~= seq!['-']); }
        if op == TokenType::DIV { assert(text@ =~= seq!['/']); }
        if op == TokenType::MUL { assert(text@ =~= seq!['*']); }
        if op == TokenType::AND { assert(text@ =~= seq!['&']); }
        if op == TokenType::OR { assert(text@ =~= seq!['|']); }
        if op == TokenType::HAT { assert(text@ =~= seq!['^']); }
        if op == TokenType::BoolLt { assert(text@ =~= seq!['<']); }
        if op == TokenType::BoolGt { assert(text@ =~= seq!['>']); }
        if op == TokenType::NOT { assert(text@ =~= seq!['~']); }
        if op == TokenType::BoolNot { assert(text@ =~= seq!['!']); }
        if op == TokenType::DOT { assert(text@ =~= seq!['.']); }
        if op == TokenType::AddEq { assert(text@ =~= seq!['+', '=']); }
        if op == TokenType::SubEq { assert(text@ =~= seq!['-', '=']); }
        if op == TokenType::DivEq { assert(text@ =~= seq!['/', '=']); }
        if op == TokenType::MulEq { assert(text@ =~= seq!['*', '=']); }
        if op == TokenType::ModEq { assert(text@ =~= seq!['%', '=']); }
        if symbol_text(op).len() == 0 {
            assert(text@ =~= Seq::<char>::empty());
        }
    }
    text
}

/// The keyword that a word is, or `Unknown`.
pub open spec fn keyword_type(word: Seq<char>) -> KeywordType {
    if word == seq!['n', 'u', 'l', 'l'] {
        KeywordType::Null
    } else if word == seq!['f', 'n'] {
        KeywordType::Fn
    } else if word == seq!['i', 'f'] {
        KeywordType::If
    } else if word == seq!['e', 'l', 's', 'e'] {
        KeywordType::Else
    } else if word == seq!['w', 'h', 'i', 'l', 'e'] {
        KeywordType::While
    } else if word == seq!['f', 'o', 'r'] {
        KeywordType::For
    } else if word == seq!['r', 'e', 't', 'u', 'r', 'n'] {
        KeywordType::Return
    } else if word == seq!['i', 'm', 'p', 'o', 'r', 't'] {
        KeywordType::Import
    } else if word == seq!['a', 's'] {
        KeywordType::As
    } else if word == seq!['f', 'r', 'o', 'm'] {
        KeywordType::From
    } else if word == seq!['b', 'r', 'e', 'a', 'k'] {
        KeywordType::Break
    } else if word == seq!['c', 'o', 'n', 't', 'i', 'n', 'u', 'e'] {
        KeywordType::Continue
    } else if word == seq!['t', 'r', 'u', 'e'] {
        KeywordType::True
    } else if word == seq!['f', 'a', 'l', 's', 'e'] {
        KeywordType::False
    } else {
        KeywordType::Unknown
    }
}

/// The keyword that a word is, or `Unknown`.
pub fn find_keyword_type(word: &Vec<char>) -> (k: KeywordType)
    ensures
        k == keyword_type(word@),
{
    let k = if word.len() == 4 && word[0] == 'n' && word[1] == 'u' && word[2] == 'l' && word[3] == 'l' {
        KeywordType::Null
    } else if word.len() == 2 && word[0] == 'f' && word[1] == 'n' {
        KeywordType::Fn
    } else if word.len() == 2 && word[0] == 'i' && word[1] == 'f' {
        KeywordType::If
    } else if word.len() == 4 && word[0] == 'e' && word[1] == 'l' && word[2] == 's' && word[3] == 'e' {
        KeywordType::Else
    } else if word.len() == 5 && word[0] == 'w' && word[1] == 'h' && word[2] == 'i' && word[3] == 'l' && word[4] == 'e' {
        KeywordType::While
    } else if word.len() == 3 && word[0] == 'f' && word[1] == 'o' && word[2] == 'r' {
        KeywordType::For
    } else if word.len() == 6 && word[0] == 'r' && word[1] == 'e' && word[2] == 't' && word[3] == 'u' && word[4] == 'r' && word[5] == 'n' {
        KeywordType::Return
    } else if word.len() == 6 && word[0] == 'i' && word[1] == 'm' && word[2] == 'p' && word[3] == 'o' && word[4] == 'r' && word[5] == 't' {
        KeywordType::Import
    } else if word.len() == 2 && word[0] == 'a' && word[1] == 's' {
        KeywordType::As
    } else if word.len() == 4 && word[0] == 'f' && word[1] == 'r' && word[2] == 'o' && word[3] == 'm' {
        KeywordType::From
    } else if word.len() == 5 && word[0] == 'b' && word[1] == 'r' && word[2] == 'e' && word[3] == 'a' && word[4] == 'k' {
        KeywordType::Break
    } else if word.len() == 8 && word[0] == 'c' && word[1] == 'o' && word[2] == 'n' && word[3] == 't' && word[4] == 'i' && word[5] == 'n' && word[6] == 'u' && word[7] == 'e' {
        KeywordType::Continue
    } else if word.len() == 4 && word[0] == 't' && word[1] == 'r' && word[2] == 'u' && word[3] == 'e' {
        KeywordType::True
    } else if word.len() == 5 && word[0] == 'f' && word[1] == 'a' && word[2] == 'l' && word[3] == 's' && word[4] == 'e' {
        KeywordType::False
    } else {
        KeywordType::Unknown
    };
    proof {
        let w = word@;
        if k == KeywordType::Null { assert(w =~= seq!['n', 'u', 'l', 'l']); }
        if k == KeywordType::Fn { assert(w =~= seq!['f', 'n']); }
        if k == KeywordType::If { assert(w =~= seq!['i', 'f']); }
        if k == KeywordType::Else { assert(w =~= seq!['e', 'l', 's', 'e']); }
        if k == KeywordType::While { assert(w =~= seq!['w', 'h', 'i', 'l', 'e']); }
        if k == KeywordType::For { assert(w =~= seq!['f', 'o', 'r']); }
        if k == KeywordType::Return { assert(w =~= seq!['r', 'e', 't', 'u', 'r', 'n']); }
        if k == KeywordType::Import { assert(w =~= seq!['i', 'm', 'p', 'o', 'r', 't']); }
        if k == KeywordType::As { assert(w =~= seq!['a', 's']); }
        if k == KeywordType::From { assert(w =~= seq!['f', 'r', 'o', 'm']); }
        if k == KeywordType::Break { assert(w =~= seq!['b', 'r', 'e', 'a', 'k']); }
        if k == KeywordType::Continue { assert(w =~= seq!['c', 'o', 'n', 't', 'i', 'n', 'u', 'e']); }
        if k == KeywordType::True { assert(w =~= seq!['t', 'r', 'u', 'e']); }
        if k == KeywordType::False { assert(w =~= seq!['f', 'a', 'l', 's', 'e']); }
    }
    k
}

/// The character of a decimal digit.
pub open spec fn digit_char(d: int) -> char {
    ('0' as int + d) as char
}

/// The decimal digits of a number that is not negative.
pub open spec fn digits_text(n: int) -> Seq<char>
    decreases n,
{
    if n < 10 {
        seq![digit_char(n)]
    } else {
        digits_text(n / 10).push(digit_char(n % 10))
    }
}

/// Appends the decimal digits of `n`.
pub(crate) fn write_digits(out: &mut String, n: u64)
    ensures
        final(out)@ == old(out)@ + digits_text(n as int),
    decreases n,
{
    if n >= 10 {
        write_digits(out, n / 10);
    }
    out.push(((n % 10) as u8 + 48u8) as char);
    assert(out@ =~= old(out)@ + digits_text(n as int));
}

} // verus!
