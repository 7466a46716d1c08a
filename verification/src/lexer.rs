//! The lexer: it reads the source text character by character and hands out
//! tokens.

use vstd::prelude::*;
use vstd::std_specs::iter::IteratorSpec;
use crate::token::{
    digits_text, eof, eof_token, find_keyword_type, find_symbol_type, is_symbol, keyword_type,
    plain_token, symbol_char, symbol_type, write_digits, KeywordType, Token, TokenType, TokenView,
};

verus! {

/// Whether a character is alphabetic, as the Unicode tables of the standard
/// library have it.
pub uninterp spec fn alphabetic(c: char) -> bool;

/// Whether a character is alphabetic or numeric, as the Unicode tables of the
/// standard library have it.
pub uninterp spec fn alphanumeric(c: char) -> bool;

/// The text `filename:line:column: ch`, with the numbers in decimal.
pub open spec fn position_message(filename: Seq<char>, line: int, column: int, ch: char) -> Seq<
    char,
> {
    filename + seq![':'] + digits_text(line) + seq![':'] + digits_text(column) + seq![':', ' ', ch]
}

/// `char::is_alphabetic` of the standard library: its result is given the
/// name `alphabetic`. What is alphabetic is alphanumeric too, as the
/// documentation of `char::is_alphanumeric` says.
pub assume_specification[ char::is_alphabetic ](c: char) -> (b: bool)
    ensures
        b == alphabetic(c),
        b ==> alphanumeric(c),
;

/// `char::is_alphanumeric` of the standard library: its result is given the
/// name `alphanumeric`, and nothing more is said of it.
pub assume_specification[ char::is_alphanumeric ](c: char) -> (b: bool)
    ensures
        b == alphanumeric(c),
;

/// `String::push` of the standard library appends the character to the end
/// of the string.
pub assume_specification[ std::string::String::push ](s: &mut std::string::String, ch: char)
    ensures
        final(s)@ == old(s)@.push(ch),
;

/// The text that names the place of an error.
fn position_message_of(filename: &str, line: usize, column: usize, ch: char) -> (message: String)
    ensures
        message@ == position_message(filename@, line as int, column as int, ch),
{
    let mut message = filename.to_owned();
    message.push(':');
    write_digits(&mut message, line as u64);
    message.push(':');
    write_digits(&mut message, column as u64);
    message.push(':');
    message.push(' ');
    message.push(ch);
    assert(message@ =~= position_message(filename@, line as int, column as int, ch));
    message
}

/// Why the text has no next token.
#[derive(Debug, Clone, PartialEq, Eq)]
pub enum LexerError {
    /// A character that starts no token, or that follows a backslash in a
    /// string and names no escape, with its place.
    UnexpectedCharacter(String),
    /// A string without its closing quote, with what was read of it.
    UnterminatedString(String),
    /// An integer literal without digits or beyond 64 bits, with its digits.
    InvalidNumber(String),
}

pub enum LexerErrorView {
    UnexpectedCharacter(Seq<char>),
    UnterminatedString(Seq<char>),
    InvalidNumber(Seq<char>),
}

impl View for LexerError {
    type V = LexerErrorView;

    open spec fn view(&self) -> LexerErrorView {
        match self {
            LexerError::UnexpectedCharacter(s) => LexerErrorView::UnexpectedCharacter(s@),
            LexerError::UnterminatedString(s) => LexerErrorView::UnterminatedString(s@),
            LexerError::InvalidNumber(s) => LexerErrorView::InvalidNumber(s@),
        }
    }
}

impl LexerError {
    /// What the error says.
    pub fn message(&self) -> (m: String)
        ensures
            m@ == (match self@ {
                LexerErrorView::UnexpectedCharacter(s) => "Unexpected character: "@ + s,
                LexerErrorView::UnterminatedString(s) => "Unterminated string: "@ + s,
                LexerErrorView::InvalidNumber(s) => "Invalid number: "@ + s,
            }),
    {
        let mut m = String::new();
        match self {
            LexerError::UnexpectedCharacter(s) => {
                m.append("Unexpected character: ");
                m.append(s.as_str());
            },
            LexerError::UnterminatedString(s) => {
                m.append("Unterminated string: ");
                m.append(s.as_str());
            },
            LexerError::InvalidNumber(s) => {
                m.append("Invalid number: ");
                m.append(s.as_str());
            },
        }
        assert(Seq::<char>::empty() + "Unexpected character: "@ =~= "Unexpected character: "@);
        assert(Seq::<char>::empty() + "Unterminated string: "@ =~= "Unterminated string: "@);
        assert(Seq::<char>::empty() + "Invalid number: "@ =~= "Invalid number: "@);
        m
    }
}

/// A place in the text: the index of a character, and the line and column
/// that the lexer counts for it.
pub struct Cursor {
    pub position: int,
    pub line: int,
    pub column: int,
}

/// The character at an index, or NUL beyond the end.
pub open spec fn char_at(text: Seq<char>, position: int) -> char {
    if 0 <= position < text.len() {
        text[position]
    } else {
        '\0'
    }
}

/// Whether the lexer can leave the place: it stands on a character that is
/// not NUL.
pub open spec fn can_move(text: Seq<char>, c: Cursor) -> bool {
    char_at(text, c.position) != '\0'
}

/// The place after one step: a line feed starts a line at column 0.
pub open spec fn moved(text: Seq<char>, c: Cursor) -> Cursor {
    if !can_move(text, c) {
        c
    } else if char_at(text, c.position) == '\n' {
        Cursor { position: c.position + 1, line: c.line + 1, column: 0 }
    } else {
        Cursor { position: c.position + 1, line: c.line, column: c.column + 1 }
    }
}

/// The place after the blanks and tabs at a place.
pub open spec fn after_blanks(text: Seq<char>, c: Cursor) -> Cursor
    decreases text.len() - c.position,
{
    if can_move(text, c) && (char_at(text, c.position) == ' ' || char_at(text, c.position) == '\t') {
        after_blanks(text, moved(text, c))
    } else {
        c
    }
}

/// The first place from a place on that holds `stop`, or that cannot be left.
pub open spec fn after_until(text: Seq<char>, c: Cursor, stop: char) -> Cursor
    decreases text.len() - c.position,
{
    if can_move(text, c) && char_at(text, c.position) != stop {
        after_until(text, moved(text, c), stop)
    } else {
        c
    }
}

/// The first place from a place on at which `*/` starts, or that cannot be
/// left.
pub open spec fn after_until_close(text: Seq<char>, c: Cursor) -> Cursor
    decreases text.len() - c.position,
{
    if can_move(text, c) && !(char_at(text, c.position) == '*' && char_at(text, c.position + 1)
        == '/') {
        after_until_close(text, moved(text, c))
    } else {
        c
    }
}

/// Whether a comment starts at a place.
pub open spec fn comment_starts(text: Seq<char>, c: Cursor) -> bool {
    char_at(text, c.position) == '/' && (char_at(text, c.position + 1) == '/' || char_at(
        text,
        c.position + 1,
    ) == '*')
}

/// The place after the comment that starts at a place, if one does: a line
/// comment ends after its line feed, the other kind after `*/`.
pub open spec fn after_comment(text: Seq<char>, c: Cursor) -> Cursor {
    if !comment_starts(text, c) {
        c
    } else if char_at(text, c.position + 1) == '/' {
        moved(text, after_until(text, c, '\n'))
    } else {
        moved(text, moved(text, after_until_close(text, c)))
    }
}

/// What a scan collected and where it ended.
pub struct Scan {
    pub out: Seq<char>,
    pub cursor: Cursor,
}

/// Whether a character is a digit in a radix of at most 16.
pub open spec fn radix_digit(ch: char, radix: int) -> bool {
    digit_of(ch) < radix
}

/// The value of a character as a digit, or 16 if it is none.
pub open spec fn digit_of(ch: char) -> int {
    if '0' <= ch <= '9' {
        ch as int - '0' as int
    } else if 'a' <= ch <= 'f' {
        ch as int - 'a' as int + 10
    } else if 'A' <= ch <= 'F' {
        ch as int - 'A' as int + 10
    } else {
        16
    }
}

/// What a character starts, at a place that blanks and comments do not
/// start.
#[derive(Debug, Clone, Copy, PartialEq, Eq, Structural)]
pub enum TokenStart {
    /// The end of the text.
    End,
    /// A string in quotes.
    String,
    /// A number.
    Number,
    /// An identifier or a keyword.
    Word,
    /// A symbol.
    Symbol,
    /// The end of a line.
    Line,
    /// No token.
    Nothing,
}

/// What the character `ch` starts: `after` is the character that follows it,
/// `is_alphabetic` says whether `ch` is alphabetic.
pub open spec fn token_start(ch: char, after: char, is_alphabetic: bool) -> TokenStart {
    if ch == '\0' {
        TokenStart::End
    } else if ch == '"' || ch == '\'' {
        TokenStart::String
    } else if radix_digit(ch, 10) || (ch == '.' && radix_digit(after, 10)) {
        TokenStart::Number
    } else if is_alphabetic || ch == '_' {
        TokenStart::Word
    } else if symbol_char(ch) {
        TokenStart::Symbol
    } else if ch == '\n' || (ch == '\r' && after == '\n') {
        TokenStart::Line
    } else {
        TokenStart::Nothing
    }
}

/// Whether a character goes on an identifier: it is alphanumeric, which
/// `is_alphanumeric` says, or an underscore.
pub open spec fn word_char(ch: char, is_alphanumeric: bool) -> bool {
    is_alphanumeric || ch == '_'
}

/// What the character `ch` starts: `after` is the character that follows it,
/// `is_alphabetic` says whether `ch` is alphabetic.
pub fn starts_token(ch: char, after: char, is_alphabetic: bool) -> (start: TokenStart)
    ensures
        start == token_start(ch, after, is_alphabetic),
{
    if ch == '\0' {
        TokenStart::End
    } else if ch == '"' || ch == '\'' {
        TokenStart::String
    } else if digit_value(ch) < 10 || (ch == '.' && digit_value(after) < 10) {
        TokenStart::Number
    } else if is_alphabetic || ch == '_' {
        TokenStart::Word
    } else if is_symbol(ch) {
        TokenStart::Symbol
    } else if ch == '\n' || (ch == '\r' && after == '\n') {
        TokenStart::Line
    } else {
        TokenStart::Nothing
    }
}

/// Whether a character goes on an identifier.
pub fn continues_word(ch: char, is_alphanumeric: bool) -> (b: bool)
    ensures
        b == word_char(ch, is_alphanumeric),
{
    is_alphanumeric || ch == '_'
}

/// The identifier that starts at a place, after what is in `acc`.
pub open spec fn word_scan(text: Seq<char>, c: Cursor, acc: Seq<char>) -> Scan
    decreases text.len() - c.position,
{
    let ch = char_at(text, c.position);
    if can_move(text, c) && word_char(ch, alphanumeric(ch)) {
        word_scan(text, moved(text, c), acc.push(ch))
    } else {
        Scan { out: acc, cursor: c }
    }
}

/// The decimal digits that start at a place, after what is in `acc`.
pub open spec fn digits_scan(text: Seq<char>, c: Cursor, acc: Seq<char>) -> Scan
    decreases text.len() - c.position,
{
    let ch = char_at(text, c.position);
    if can_move(text, c) && radix_digit(ch, 10) {
        digits_scan(text, moved(text, c), acc.push(ch))
    } else {
        Scan { out: acc, cursor: c }
    }
}

/// How a number starts: what it contributes to the digits, where the digits
/// go on, and the radix. `0x`, `0b` and `0o` choose a radix; another number
/// that starts with 0 or with a point has 0 as its first digit.
pub struct NumberStart {
    pub out: Seq<char>,
    pub cursor: Cursor,
    pub radix: int,
}

pub open spec fn number_start(text: Seq<char>, c: Cursor) -> NumberStart {
    let ch = char_at(text, c.position);
    if ch == '0' {
        let next = moved(text, c);
        let after = char_at(text, next.position);
        if can_move(text, next) && after == 'x' {
            NumberStart { out: Seq::empty(), cursor: moved(text, next), radix: 16 }
        } else if can_move(text, next) && after == 'b' {
            NumberStart { out: Seq::empty(), cursor: moved(text, next), radix: 2 }
        } else if can_move(text, next) && after == 'o' {
            NumberStart { out: Seq::empty(), cursor: moved(text, next), radix: 8 }
        } else {
            NumberStart { out: seq!['0'], cursor: next, radix: 10 }
        }
    } else if ch == '.' {
        NumberStart { out: seq!['0'], cursor: c, radix: 10 }
    } else {
        NumberStart { out: Seq::empty(), cursor: c, radix: 10 }
    }
}

/// What the scan of a number collected, where it ended, and whether it met a
/// point.
pub struct NumberScan {
    pub out: Seq<char>,
    pub cursor: Cursor,
    pub dot: bool,
}

/// The digits of a number from a place on, after what is in `acc`: digits of
/// the radix, and for a decimal number one point among them.
pub open spec fn number_scan(text: Seq<char>, c: Cursor, radix: int, dot: bool, acc: Seq<char>) -> NumberScan
    decreases text.len() - c.position,
{
    let ch = char_at(text, c.position);
    if can_move(text, c) && (radix_digit(ch, radix) || (radix == 10 && ch == '.')) {
        if ch == '.' && dot {
            NumberScan { out: acc, cursor: c, dot }
        } else {
            number_scan(text, moved(text, c), radix, dot || ch == '.', acc.push(ch))
        }
    } else {
        NumberScan { out: acc, cursor: c, dot }
    }
}

/// The number that a sequence of digits stands for in a radix.
pub open spec fn digits_value(digits: Seq<char>, radix: int) -> int
    decreases digits.len(),
{
    if digits.len() == 0 {
        0
    } else {
        digits_value(digits.drop_last(), radix) * radix + digit_of(digits.last())
    }
}

/// The value of an integer literal, if it has digits and fits in 64 signed
/// bits.
pub open spec fn number_value(digits: Seq<char>, radix: int) -> Option<i64> {
    if digits.len() > 0 && digits_value(digits, radix) <= i64::MAX {
        Some(digits_value(digits, radix) as i64)
    } else {
        None
    }
}

/// What a step of the lexer gives and where it leaves the lexer.
pub struct Lexed {
    pub result: Result<TokenView, LexerErrorView>,
    pub cursor: Cursor,
}

/// The identifier or keyword that starts at a place.
pub open spec fn word_token(text: Seq<char>, c: Cursor) -> Lexed {
    let scan = word_scan(text, c, Seq::empty());
    let keyword = keyword_type(scan.out);
    Lexed {
        result: Ok(
            TokenView {
                token_type: if keyword != KeywordType::Unknown {
                    TokenType::KEYWORD
                } else {
                    TokenType::ID
                },
                keyword_type: keyword,
                value: scan.out,
                int_value: 0,
                line: c.line,
                column: c.column,
            },
        ),
        cursor: scan.cursor,
    }
}

/// The number that starts at a place.
pub open spec fn number_token(text: Seq<char>, c: Cursor) -> Lexed {
    let start = number_start(text, c);
    let scan = number_scan(text, start.cursor, start.radix, false, start.out);
    let end = if scan.dot {
        digits_scan(text, scan.cursor, scan.out)
    } else {
        Scan { out: scan.out, cursor: scan.cursor }
    };
    if scan.dot {
        Lexed {
            result: Ok(
                plain_token(TokenType::FLOAT, end.out, c.line, c.column),
            ),
            cursor: end.cursor,
        }
    } else {
        match number_value(end.out, start.radix) {
            Some(value) => Lexed {
                result: Ok(
                    TokenView {
                        int_value: value,
                        ..plain_token(TokenType::INT, end.out, c.line, c.column)
                    },
                ),
                cursor: end.cursor,
            },
            None => Lexed {
                result: Err(LexerErrorView::InvalidNumber(end.out)),
                cursor: end.cursor,
            },
        }
    }
}

/// The character that an escape names, if it names one.
pub open spec fn escaped(ch: char) -> Option<char> {
    match ch {
        'b' => Some('\x08'),
        'n' => Some('\n'),
        't' => Some('\t'),
        'r' => Some('\r'),
        '\'' => Some('\''),
        '"' => Some('"'),
        '\\' => Some('\\'),
        _ => None,
    }
}

/// What the scan of a string collected, where it ended, and whether it ended
/// at a backslash that names no escape.
pub struct StringScan {
    pub out: Seq<char>,
    pub cursor: Cursor,
    pub bad_escape: bool,
}

/// The characters of a string from a place on, up to its closing quote, after
/// what is in `acc`.
pub open spec fn string_scan(text: Seq<char>, c: Cursor, quote: char, acc: Seq<char>) -> StringScan
    decreases text.len() - c.position,
{
    let ch = char_at(text, c.position);
    if can_move(text, c) && ch != quote {
        if ch == '\\' {
            let next = moved(text, c);
            if !can_move(text, next) {
                StringScan { out: acc, cursor: next, bad_escape: false }
            } else {
                match escaped(char_at(text, next.position)) {
                    Some(e) => string_scan(text, moved(text, next), quote, acc.push(e)),
                    None => StringScan { out: acc, cursor: next, bad_escape: true },
                }
            }
        } else {
            string_scan(text, moved(text, c), quote, acc.push(ch))
        }
    } else {
        StringScan { out: acc, cursor: c, bad_escape: false }
    }
}

/// The string that starts at a place with a quote.
pub open spec fn string_token(text: Seq<char>, filename: Seq<char>, c: Cursor) -> Lexed {
    let quote = if char_at(text, c.position) == '\'' {
        '\''
    } else {
        '"'
    };
    let scan = string_scan(text, moved(text, c), quote, Seq::empty());
    if scan.bad_escape {
        Lexed {
            result: Err(
                LexerErrorView::UnexpectedCharacter(
                    position_message(
                        filename,
                        scan.cursor.line,
                        scan.cursor.column,
                        char_at(text, scan.cursor.position),
                    ),
                ),
            ),
            cursor: scan.cursor,
        }
    } else if char_at(text, scan.cursor.position) != quote {
        Lexed { result: Err(LexerErrorView::UnterminatedString(scan.out)), cursor: scan.cursor }
    } else {
        Lexed {
            result: Ok(
                plain_token(TokenType::STRING, scan.out, c.line, c.column),
            ),
            cursor: moved(text, scan.cursor),
        }
    }
}

/// The symbol that starts at a place: two characters where they make a
/// symbol, else one.
pub open spec fn symbol_token(text: Seq<char>, c: Cursor) -> Lexed {
    let first = char_at(text, c.position);
    let next = moved(text, c);
    let second = char_at(text, next.position);
    if can_move(text, next) && symbol_char(second) && symbol_type(first, Some(second))
        != TokenType::Unknown {
        Lexed {
            result: Ok(
                plain_token(
                    symbol_type(first, Some(second)),
                    seq![first, second],
                    c.line,
                    c.column,
                ),
            ),
            cursor: moved(text, next),
        }
    } else {
        Lexed {
            result: Ok(
                plain_token(
                    symbol_type(first, None),
                    seq![first],
                    c.line,
                    c.column,
                ),
            ),
            cursor: next,
        }
    }
}

/// The next token from a place on. Blanks and comments are passed over; the
/// end of the text gives the end token; a line feed gives a token that also
/// takes the character after it. Where a comment follows a comment the
/// search starts again behind it, which is further on in the text.
#[verifier::opaque]
pub open spec fn next_token(text: Seq<char>, filename: Seq<char>, c: Cursor) -> Lexed
    decreases text.len() - c.position,
{
    let start = after_comment(text, after_blanks(text, c));
    let ch = char_at(text, start.position);
    match token_start(ch, char_at(text, start.position + 1), alphabetic(ch)) {
        TokenStart::End => Lexed { result: Ok(eof_token()), cursor: start },
        TokenStart::String => string_token(text, filename, start),
        TokenStart::Number => number_token(text, start),
        TokenStart::Word => word_token(text, start),
        TokenStart::Symbol => {
            let again = after_comment(text, start);
            if comment_starts(text, again) || !symbol_char(char_at(text, again.position)) {
                if c.position < again.position <= text.len() {
                    next_token(text, filename, again)
                } else {
                    Lexed { result: Ok(eof_token()), cursor: again }
                }
            } else {
                symbol_token(text, again)
            }
        },
        TokenStart::Line => {
            let after = moved(text, moved(text, start));
            Lexed {
                result: Ok(plain_token(TokenType::NewLine, Seq::empty(), after.line, after.column)),
                cursor: after,
            }
        },
        TokenStart::Nothing => Lexed {
            result: Err(
                LexerErrorView::UnexpectedCharacter(
                    position_message(filename, start.line, start.column, ch),
                ),
            ),
            cursor: start,
        },
    }
}

/// The lexer: the text, the place in it, and the character at that place.
#[derive(Debug)]
pub struct Lexer {
    pub filename: String,
    pub contents: String,
    pub position: usize,
    pub line: usize,
    pub column: usize,
    pub ch: char,
    /// The characters of `contents`.
    pub chars: Vec<char>,
}

/// The characters of a string.
fn chars_of(s: &str) -> (v: Vec<char>)
    ensures
        v@ == s@,
{
    broadcast use vstd::string::axiom_spec_iter;
    broadcast use vstd::string::next_postcondition;

    let mut v: Vec<char> = Vec::new();
    let mut it = s.chars();
    assert(it.remaining() == s@);
    loop
        invariant
            v@ + it.remaining() == s@,
            it.obeys_prophetic_iter_laws(),
            it.decrease() is Some,
        decreases it.decrease()->0,
    {
        match it.next() {
            Some(c) => {
                v.push(c);
                assert(v@ + it.remaining() =~= s@);
            },
            None => {
                assert(v@ =~= s@);
                return v;
            },
        }
    }
}

/// The string made of the given characters.
fn string_of(v: &Vec<char>) -> (s: String)
    ensures
        s@ == v@,
{
    let mut s = String::new();
    let mut i: usize = 0;
    while i < v.len()
        invariant
            i <= v@.len(),
            s@ == v@.subrange(0, i as int),
        decreases v@.len() - i,
    {
        s.push(v[i]);
        i += 1;
        assert(s@ =~= v@.subrange(0, i as int));
    }
    assert(v@.subrange(0, i as int) =~= v@);
    s
}

/// The value of a character as a digit, or 16 if it is none.
fn digit_value(ch: char) -> (d: u8)
    ensures
        d == digit_of(ch),
        d <= 16,
{
    if '0' <= ch && ch <= '9' {
        (ch as u32 - '0' as u32) as u8
    } else if 'a' <= ch && ch <= 'f' {
        (ch as u32 - 'a' as u32 + 10) as u8
    } else if 'A' <= ch && ch <= 'F' {
        (ch as u32 - 'A' as u32 + 10) as u8
    } else {
        16
    }
}

proof fn lemma_digits_grow(digits: Seq<char>, radix: int, k: int)
    requires
        0 <= k <= digits.len(),
        1 <= radix,
    ensures
        0 <= digits_value(digits.subrange(0, k), radix) <= digits_value(digits, radix),
    decreases digits.len() - k,
{
    let part = digits.subrange(0, k);
    if k == 0 {
        lemma_digits_positive(digits, radix);
    } else {
        lemma_digits_positive(part, radix);
    }
    if k < digits.len() {
        let more = digits.subrange(0, k + 1);
        assert(more.drop_last() =~= part);
        lemma_digits_grow(digits, radix, k + 1);
        let v = digits_value(part, radix);
        assert(v * radix + digit_of(more.last()) >= v) by (nonlinear_arith)
            requires
                v >= 0,
                radix >= 1,
                digit_of(more.last()) >= 0,
        ;
    } else {
        assert(part =~= digits);
    }
}

proof fn lemma_digits_positive(digits: Seq<char>, radix: int)
    requires
        1 <= radix,
    ensures
        0 <= digits_value(digits, radix),
    decreases digits.len(),
{
    if digits.len() > 0 {
        lemma_digits_positive(digits.drop_last(), radix);
        let v = digits_value(digits.drop_last(), radix);
        assert(v * radix >= 0) by (nonlinear_arith)
            requires
                v >= 0,
                radix >= 1,
        ;
    }
}

/// The value of an integer literal, if it has digits and fits in 64 signed
/// bits.
fn number_of(digits: &Vec<char>, radix: u8) -> (r: Option<i64>)
    requires
        1 <= radix <= 16,
    ensures
        r == number_value(digits@, radix as int),
{
    if digits.len() == 0 {
        return None;
    }
    let mut value: u64 = 0;
    let mut i: usize = 0;
    assert(digits@.subrange(0, 0) =~= Seq::<char>::empty());
    while i < digits.len()
        invariant
            i <= digits@.len(),
            1 <= radix <= 16,
            value <= i64::MAX,
            value == digits_value(digits@.subrange(0, i as int), radix as int),
        decreases digits@.len() - i,
    {
        let d = digit_value(digits[i]);
        let ghost more = digits@.subrange(0, i + 1);
        assert(more.drop_last() =~= digits@.subrange(0, i as int));
        assert(more.last() == digits@[i as int]);
        assert(value * radix <= 0x7fff_ffff_ffff_ffff * 16) by (nonlinear_arith)
            requires
                value <= 0x7fff_ffff_ffff_ffff,
                radix <= 16,
        ;
        let next: u128 = (value as u128) * (radix as u128) + (d as u128);
        if next > 0x7fff_ffff_ffff_ffff {
            proof {
                lemma_digits_grow(digits@, radix as int, i + 1);
            }
            return None;
        }
        value = next as u64;
        i += 1;
    }
    assert(digits@.subrange(0, i as int) =~= digits@);
    Some(value as i64)
}

/// Whether the place keeps within what the lexer counts on: the line and the
/// column are at most one more than the index.
pub open spec fn counted(c: Cursor) -> bool {
    0 <= c.position && 0 <= c.line <= c.position + 1 && 0 <= c.column <= c.position + 1
}

impl Lexer {
    /// The characters of the text.
    pub open spec fn text(&self) -> Seq<char> {
        self.chars@
    }

    /// The place at which the lexer stands.
    pub open spec fn cursor(&self) -> Cursor {
        Cursor {
            position: self.position as int,
            line: self.line as int,
            column: self.column as int,
        }
    }

    /// Whether the fields of the lexer fit together.
    pub open spec fn wf(&self) -> bool {
        &&& self.chars@ == self.contents@
        &&& self.chars@.len() < usize::MAX
        &&& self.position <= self.chars@.len()
        &&& counted(self.cursor())
        &&& self.ch == char_at(self.chars@, self.position as int)
    }

    /// Whether the lexer reads the same text under the same name as before.
    pub open spec fn reads_on(&self, before: &Lexer) -> bool {
        &&& self.wf()
        &&& self.text() == before.text()
        &&& self.filename == before.filename
        &&& self.contents == before.contents
        &&& self.position >= before.position
    }

    /// A lexer at the start of `contents`, which is known as `filename`.
    pub fn new(filename: &str, contents: &str) -> (lexer: Lexer)
        requires
            contents@.len() < usize::MAX,
        ensures
            lexer.wf(),
            lexer.text() == contents@,
            lexer.filename@ == filename@,
            lexer.contents@ == contents@,
            lexer.cursor() == (Cursor { position: 0, line: 1, column: 1 }),
    {
        let chars = chars_of(contents);
        let ch = if chars.len() > 0 {
            chars[0]
        } else {
            '\0'
        };
        Lexer {
            filename: filename.to_owned(),
            contents: contents.to_owned(),
            position: 0,
            line: 1,
            column: 1,
            ch,
            chars,
        }
    }

    /// The character at an index, or NUL beyond the end.
    fn char_here(&self, position: usize) -> (ch: char)
        ensures
            ch == char_at(self.text(), position as int),
    {
        if position < self.chars.len() {
            self.chars[position]
        } else {
            '\0'
        }
    }

    fn can_advance(&self) -> (b: bool)
        requires
            self.wf(),
        ensures
            b == can_move(self.text(), self.cursor()),
    {
        self.ch != '\0'
    }

    fn advance(&mut self)
        requires
            old(self).wf(),
        ensures
            final(self).reads_on(old(self)),
            final(self).cursor() == moved(old(self).text(), old(self).cursor()),
    {
        if !self.can_advance() {
            return ;
        }
        if self.ch == '\n' {
            self.line += 1;
            self.column = 0;
        } else {
            self.column += 1;
        }
        self.position += 1;
        self.ch = self.char_here(self.position);
    }

    fn peek_char(&self, offset: usize) -> (ch: char)
        requires
            self.wf(),
            offset <= 1,
        ensures
            ch == char_at(self.text(), self.position + offset),
    {
        self.char_here(self.position + offset)
    }

    fn is_start_of_comment(&self) -> (b: bool)
        requires
            self.wf(),
        ensures
            b == comment_starts(self.text(), self.cursor()),
    {
        self.ch == '/' && (self.peek_char(1) == '/' || self.peek_char(1) == '*')
    }

    fn skip_whitespace(&mut self)
        requires
            old(self).wf(),
        ensures
            final(self).reads_on(old(self)),
            final(self).cursor() == after_blanks(old(self).text(), old(self).cursor()),
    {
        while self.can_advance() && (self.ch == ' ' || self.ch == '\t')
            invariant
                self.reads_on(old(self)),
                after_blanks(self.text(), self.cursor()) == after_blanks(
                    old(self).text(),
                    old(self).cursor(),
                ),
            decreases self.text().len() - self.position,
        {
            self.advance();
        }
    }

    fn skip_until_char(&mut self, ch: char)
        requires
            old(self).wf(),
        ensures
            final(self).reads_on(old(self)),
            final(self).cursor() == after_until(old(self).text(), old(self).cursor(), ch),
            can_move(old(self).text(), old(self).cursor()) && old(self).ch != ch ==> final(self).position > old(self).position,
    {
        while self.can_advance() && self.ch != ch
            invariant
                self.reads_on(old(self)),
                after_until(self.text(), self.cursor(), ch) == after_until(
                    old(self).text(),
                    old(self).cursor(),
                    ch,
                ),
                can_move(old(self).text(), old(self).cursor()) && old(self).ch != ch ==> (
                self.position > old(self).position || self.cursor() == old(self).cursor()),
            decreases self.text().len() - self.position,
        {
            self.advance();
        }
    }

    fn skip_until_close(&mut self)
        requires
            old(self).wf(),
        ensures
            final(self).reads_on(old(self)),
            final(self).cursor() == after_until_close(old(self).text(), old(self).cursor()),
    {
        while self.can_advance() && !(self.ch == '*' && self.peek_char(1) == '/')
            invariant
                self.reads_on(old(self)),
                after_until_close(self.text(), self.cursor()) == after_until_close(
                    old(self).text(),
                    old(self).cursor(),
                ),
            decreases self.text().len() - self.position,
        {
            self.advance();
        }
    }

    fn skip_comments(&mut self)
        requires
            old(self).wf(),
        ensures
            final(self).reads_on(old(self)),
            final(self).cursor() == after_comment(old(self).text(), old(self).cursor()),
            comment_starts(old(self).text(), old(self).cursor()) ==> final(self).position > old(self).position,
    {
        if !self.can_advance() {
            return ;
        }
        if self.ch != '/' {
            return ;
        }
        let peek = self.peek_char(1);
        if peek == '/' {
            self.skip_until_char('\n');
            self.advance();
        } else if peek == '*' {
            self.skip_until_close();
            self.advance();
            self.advance();
            assert(old(self).ch != '*');
            assert(self.position > old(self).position);
        }
    }

    fn collect_identifier(&mut self) -> (r: Result<Token, LexerError>)
        requires
            old(self).wf(),
        ensures
            final(self).reads_on(old(self)),
            final(self).cursor() == word_token(old(self).text(), old(self).cursor()).cursor,
            r is Ok,
            Ok::<TokenView, LexerErrorView>(r->Ok_0@) == word_token(
                old(self).text(),
                old(self).cursor(),
            ).result,
            can_move(old(self).text(), old(self).cursor()) && word_char(
                old(self).ch,
                alphanumeric(old(self).ch),
            ) ==> final(self).position > old(self).position,
    {
        let mut identifier: Vec<char> = Vec::new();
        let this_line = self.line;
        let this_column = self.column;
        while self.can_advance() && continues_word(self.ch, self.ch.is_alphanumeric())
            invariant
                self.reads_on(old(self)),
                word_scan(self.text(), self.cursor(), identifier@) == word_scan(
                    old(self).text(),
                    old(self).cursor(),
                    Seq::empty(),
                ),
                self.position > old(self).position || self.cursor() == old(self).cursor(),
            decreases self.text().len() - self.position,
        {
            identifier.push(self.ch);
            self.advance();
        }
        let ktype = find_keyword_type(&identifier);
        let ttype = if ktype != KeywordType::Unknown {
            TokenType::KEYWORD
        } else {
            TokenType::ID
        };
        let mut tok = Token::new(ttype, string_of(&identifier), this_line, this_column);
        tok.keyword_type = ktype;
        Ok(tok)
    }

    fn collect_number(&mut self) -> (r: Result<Token, LexerError>)
        requires
            old(self).wf(),
        ensures
            final(self).reads_on(old(self)),
            final(self).cursor() == number_token(old(self).text(), old(self).cursor()).cursor,
            match number_token(old(self).text(), old(self).cursor()).result {
                Ok(token) => r is Ok && r->Ok_0@ == token,
                Err(error) => r is Err && r->Err_0@ == error,
            },
            can_move(old(self).text(), old(self).cursor()) && (radix_digit(old(self).ch, 10) || (
            old(self).ch == '.' && radix_digit(
                char_at(old(self).text(), old(self).position + 1),
                10,
            ))) ==> final(self).position > old(self).position,
    {
        let mut number: Vec<char> = Vec::new();
        let this_line = self.line;
        let this_column = self.column;
        let mut dot = false;
        let mut radix: u8 = 10;
        if self.ch == '0' {
            self.advance();
            if self.can_advance() && self.ch == 'x' {
                radix = 16;
                self.advance();
            } else if self.can_advance() && self.ch == 'b' {
                radix = 2;
                self.advance();
            } else if self.can_advance() && self.ch == 'o' {
                radix = 8;
                self.advance();
            } else {
                number.push('0');
            }
        } else if self.ch == '.' {
            number.push('0');
        }
        let ghost start = number_start(old(self).text(), old(self).cursor());
        assert(number@ =~= start.out);
        while self.can_advance() && (digit_value(self.ch) < radix || (radix == 10 && self.ch
            == '.')) && !(self.ch == '.' && dot)
            invariant
                self.reads_on(old(self)),
                1 <= radix <= 16,
                number_scan(self.text(), self.cursor(), radix as int, dot, number@) == number_scan(
                    old(self).text(),
                    start.cursor,
                    start.radix,
                    false,
                    start.out,
                ),
                self.position > old(self).position || (self.cursor() == old(self).cursor()
                    && dot == false),
            decreases self.text().len() - self.position,
        {
            if self.ch == '.' {
                dot = true;
            }
            number.push(self.ch);
            self.advance();
        }
        let ghost scan = number_scan(
            old(self).text(),
            start.cursor,
            start.radix,
            false,
            start.out,
        );
        assert(scan.out == number@ && scan.cursor == self.cursor() && scan.dot == dot);
        if dot {
            while self.can_advance() && digit_value(self.ch) < 10
                invariant
                    self.reads_on(old(self)),
                    digits_scan(self.text(), self.cursor(), number@) == digits_scan(
                        old(self).text(),
                        scan.cursor,
                        scan.out,
                    ),
                decreases self.text().len() - self.position,
            {
                number.push(self.ch);
                self.advance();
            }
            return Ok(Token::new(TokenType::FLOAT, string_of(&number), this_line, this_column));
        }
        match number_of(&number, radix) {
            Some(value) => {
                let mut tok = Token::new(
                    TokenType::INT,
                    string_of(&number),
                    this_line,
                    this_column,
                );
                tok.int_value = value;
                Ok(tok)
            },
            None => Err(LexerError::InvalidNumber(string_of(&number))),
        }
    }

    fn collect_string(&mut self) -> (r: Result<Token, LexerError>)
        requires
            old(self).wf(),
        ensures
            final(self).reads_on(old(self)),
            final(self).cursor() == string_token(
                old(self).text(),
                old(self).filename@,
                old(self).cursor(),
            ).cursor,
            match string_token(old(self).text(), old(self).filename@, old(self).cursor()).result {
                Ok(token) => r is Ok && r->Ok_0@ == token,
                Err(error) => r is Err && r->Err_0@ == error,
            },
            can_move(old(self).text(), old(self).cursor()) ==> final(self).position > old(self).position,
    {
        let mut string: Vec<char> = Vec::new();
        let quote = if self.ch == '\'' {
            '\''
        } else {
            '"'
        };
        let this_line = self.line;
        let this_column = self.column;
        self.advance();
        let ghost first = self.cursor();
        let ghost goal = string_scan(old(self).text(), first, quote, Seq::empty());
        while self.can_advance() && self.ch != quote
            invariant
                old(self).wf(),
                self.reads_on(old(self)),
                quote == (if old(self).ch == '\'' {
                    '\''
                } else {
                    '"'
                }),
                first == moved(old(self).text(), old(self).cursor()),
                self.position >= first.position,
                goal == string_scan(old(self).text(), first, quote, Seq::empty()),
                string_scan(self.text(), self.cursor(), quote, string@) == goal,
            decreases self.text().len() - self.position,
        {
            if self.ch == '\\' {
                self.advance();
                if !self.can_advance() {
                    assert(goal.out == string@ && goal.cursor == self.cursor()
                        && !goal.bad_escape);
                    return Err(LexerError::UnterminatedString(string_of(&string)));
                }
                let escape = match self.ch {
                    'b' => Some('\x08'),
                    'n' => Some('\n'),
                    't' => Some('\t'),
                    'r' => Some('\r'),
                    '\'' => Some('\''),
                    '"' => Some('"'),
                    '\\' => Some('\\'),
                    _ => None,
                };
                match escape {
                    Some(e) => {
                        string.push(e);
                    },
                    None => {
                        assert(goal.bad_escape && goal.cursor == self.cursor());
                        return Err(
                            LexerError::UnexpectedCharacter(
                                position_message_of(
                                    self.filename.as_str(),
                                    self.line,
                                    self.column,
                                    self.ch,
                                ),
                            ),
                        );
                    },
                }
                self.advance();
                continue ;
            }
            string.push(self.ch);
            self.advance();
        }
        assert(goal.out == string@ && goal.cursor == self.cursor() && !goal.bad_escape);
        if self.ch != quote {
            return Err(LexerError::UnterminatedString(string_of(&string)));
        }
        self.advance();
        Ok(Token::new(TokenType::STRING, string_of(&string), this_line, this_column))
    }

    fn collect_symbol(&mut self) -> (r: Result<Token, LexerError>)
        requires
            old(self).wf(),
        ensures
            final(self).reads_on(old(self)),
            final(self).cursor() == symbol_token(old(self).text(), old(self).cursor()).cursor,
            r is Ok,
            Ok::<TokenView, LexerErrorView>(r->Ok_0@) == symbol_token(
                old(self).text(),
                old(self).cursor(),
            ).result,
            can_move(old(self).text(), old(self).cursor()) ==> final(self).position > old(self).position,
    {
        let this_line = self.line;
        let this_column = self.column;
        let first = self.ch;
        let mut symbol: Vec<char> = Vec::new();
        symbol.push(first);
        self.advance();
        let mut ttype = find_symbol_type(first, None);
        if self.can_advance() && is_symbol(self.ch) {
            let second_type = find_symbol_type(first, Some(self.ch));
            if second_type != TokenType::Unknown {
                ttype = second_type;
                symbol.push(self.ch);
                self.advance();
                assert(symbol@ =~= seq![first, symbol@[1]]);
                return Ok(Token::new(ttype, string_of(&symbol), this_line, this_column));
            }
        }
        assert(symbol@ =~= seq![first]);
        Ok(Token::new(ttype, string_of(&symbol), this_line, this_column))
    }

    /// The next token. The lexer moves past it; only at the end of the text
    /// does it stay where it is.
    pub fn next(&mut self) -> (r: Result<Token, LexerError>)
        requires
            old(self).wf(),
        ensures
            final(self).reads_on(old(self)),
            r is Ok && r->Ok_0.token_type != TokenType::EndOfFile ==> final(self).position > old(self).position,
            final(self).cursor() == next_token(
                old(self).text(),
                old(self).filename@,
                old(self).cursor(),
            ).cursor,
            match next_token(old(self).text(), old(self).filename@, old(self).cursor()).result {
                Ok(token) => r is Ok && r->Ok_0@ == token,
                Err(error) => r is Err && r->Err_0@ == error,
            },
    {
        let ghost goal = next_token(old(self).text(), old(self).filename@, old(self).cursor());
        loop
            invariant
                self.reads_on(old(self)),
                goal == next_token(old(self).text(), old(self).filename@, old(self).cursor()),
                goal == next_token(self.text(), self.filename@, self.cursor()),
            decreases self.text().len() - self.position,
        {
            proof {
                reveal(next_token);
            }
            self.skip_whitespace();
            self.skip_comments();
            match starts_token(self.ch, self.peek_char(1), self.ch.is_alphabetic()) {
                TokenStart::End => {
                    return Ok(eof());
                },
                TokenStart::String => {
                    return self.collect_string();
                },
                TokenStart::Number => {
                    return self.collect_number();
                },
                TokenStart::Word => {
                    return self.collect_identifier();
                },
                TokenStart::Symbol => {
                    self.skip_comments();
                    if self.is_start_of_comment() || !is_symbol(self.ch) {
                        continue ;
                    }
                    return self.collect_symbol();
                },
                TokenStart::Line => {
                    self.advance();
                    self.advance();
                    return Ok(
                        Token::new(TokenType::NewLine, String::new(), self.line, self.column),
                    );
                },
                TokenStart::Nothing => {
                    return Err(
                        LexerError::UnexpectedCharacter(
                            position_message_of(
                                self.filename.as_str(),
                                self.line,
                                self.column,
                                self.ch,
                            ),
                        ),
                    );
                },
            }
        }
    }

    /// The next token. The lexer stays where it is.
    pub fn peek(&mut self) -> (r: Result<Token, LexerError>)
        requires
            old(self).wf(),
        ensures
            final(self).reads_on(old(self)),
            final(self).cursor() == old(self).cursor(),
            match next_token(old(self).text(), old(self).filename@, old(self).cursor()).result {
                Ok(token) => r is Ok && r->Ok_0@ == token,
                Err(error) => r is Err && r->Err_0@ == error,
            },
    {
        let old_position = self.position;
        let old_line = self.line;
        let old_column = self.column;
        let old_ch = self.ch;
        let token = self.next();
        self.position = old_position;
        self.line = old_line;
        self.column = old_column;
        self.ch = old_ch;
        token
    }
}

} // verus!
