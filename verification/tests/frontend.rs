use kod::bytekod::{Code, CodeError, CodeLine, Constant, FloatConstant, Module, Opcode};
use kod::lexer::{Lexer, LexerError};
use kod::node::{CompileError, FloatNode, IdNode, IntNode, Node, ReturnNode, TupleNode};
use kod::node::{AssignmentNode, BlockNode, IfNode, StringNode};
use kod::parser::{Parser, ParserError};
use kod::token::{eof, find_symbol_type, get_symbols, is_symbol, symbol_of};
use kod::token::{KeywordType, Token, TokenType};

fn tokens(source: &str) -> Vec<(TokenType, String)> {
    let mut lexer = Lexer::new("t", source);
    let mut out = Vec::new();
    loop {
        let token = lexer.next().unwrap();
        if token.token_type == TokenType::EndOfFile {
            return out;
        }
        out.push((token.token_type, token.value));
    }
}

fn kinds(source: &str) -> Vec<TokenType> {
    tokens(source).into_iter().map(|t| t.0).collect()
}

fn parse(source: &str) -> Result<Node, ParserError> {
    Parser::new(Lexer::new("t", source)).parse()
}

fn text(source: &str) -> String {
    parse(source).unwrap().to_string()
}

fn compile(source: &str) -> (Module, Code) {
    let tree = parse(source).unwrap();
    let mut module = Module::new(String::from("m"));
    let mut code = Code::new(String::from("__main__"), vec![], vec![]);
    tree.compile(&mut module, &mut code).unwrap();
    (module, code)
}

#[test]
fn lexer_reads_names_numbers_and_symbols() {
    let mut lexer = Lexer::new("t", "x = 10");
    let x = lexer.next().unwrap();
    assert_eq!(x.token_type, TokenType::ID);
    assert_eq!(x.value, "x");
    assert_eq!((x.line, x.column), (1, 1));
    let eq = lexer.next().unwrap();
    assert_eq!(eq.token_type, TokenType::EQUALS);
    assert_eq!(eq.value, "=");
    assert_eq!((eq.line, eq.column), (1, 3));
    let ten = lexer.next().unwrap();
    assert_eq!(ten.token_type, TokenType::INT);
    assert_eq!(ten.value, "10");
    assert_eq!(ten.int_value, 10);
    assert_eq!((ten.line, ten.column), (1, 5));
    assert_eq!(lexer.next().unwrap(), eof());
    assert_eq!(lexer.next().unwrap(), eof());
}

#[test]
fn lexer_peek_stays_in_place() {
    let mut lexer = Lexer::new("t", "a b");
    assert_eq!(lexer.peek().unwrap().value, "a");
    assert_eq!(lexer.peek().unwrap().value, "a");
    assert_eq!(lexer.position, 0);
    assert_eq!(lexer.next().unwrap().value, "a");
    assert_eq!(lexer.peek().unwrap().value, "b");
}

#[test]
fn lexer_knows_the_keywords() {
    let mut lexer = Lexer::new("t", "fn while iffy");
    let f = lexer.next().unwrap();
    assert_eq!(f.token_type, TokenType::KEYWORD);
    assert_eq!(f.keyword_type, KeywordType::Fn);
    let w = lexer.next().unwrap();
    assert_eq!(w.keyword_type, KeywordType::While);
    let i = lexer.next().unwrap();
    assert_eq!(i.token_type, TokenType::ID);
    assert_eq!(i.keyword_type, KeywordType::Unknown);
    assert_eq!(i.value, "iffy");
}

#[test]
fn lexer_reads_numbers_in_every_radix() {
    let mut lexer = Lexer::new("t", "0x1F 0b101 0o17 05 0 1.5 .5 7.");
    let expected: [(TokenType, &str, i64); 8] = [
        (TokenType::INT, "1F", 31),
        (TokenType::INT, "101", 5),
        (TokenType::INT, "17", 15),
        (TokenType::INT, "05", 5),
        (TokenType::INT, "0", 0),
        (TokenType::FLOAT, "1.5", 0),
        (TokenType::FLOAT, "0.5", 0),
        (TokenType::FLOAT, "7.", 0),
    ];
    for (kind, value, int_value) in expected {
        let token = lexer.next().unwrap();
        assert_eq!(token.token_type, kind);
        assert_eq!(token.value, value);
        assert_eq!(token.int_value, int_value);
    }
}

#[test]
fn lexer_stops_a_number_at_its_second_point() {
    assert_eq!(
        tokens("1.2.3"),
        vec![
            (TokenType::FLOAT, String::from("1.2")),
            (TokenType::FLOAT, String::from("0.3")),
        ]
    );
}

#[test]
fn lexer_rejects_numbers_beyond_64_bits() {
    let mut lexer = Lexer::new("t", "9223372036854775807 9223372036854775808");
    assert_eq!(lexer.next().unwrap().int_value, i64::MAX);
    assert_eq!(
        lexer.next(),
        Err(LexerError::InvalidNumber(String::from("9223372036854775808")))
    );
    let mut empty = Lexer::new("t", "0x");
    assert_eq!(empty.next(), Err(LexerError::InvalidNumber(String::new())));
}

#[test]
fn lexer_reads_strings_with_escapes() {
    assert_eq!(
        tokens("\"a\\nb\" 'c\\'d' \"\\\\\""),
        vec![
            (TokenType::STRING, String::from("a\nb")),
            (TokenType::STRING, String::from("c'd")),
            (TokenType::STRING, String::from("\\")),
        ]
    );
}

#[test]
fn lexer_string_errors() {
    let mut open = Lexer::new("t", "\"abc");
    assert_eq!(
        open.next(),
        Err(LexerError::UnterminatedString(String::from("abc")))
    );
    let mut escape = Lexer::new("t", "\"\\q\"");
    assert_eq!(
        escape.next(),
        Err(LexerError::UnexpectedCharacter(String::from("t:1:3: q")))
    );
    let mut cut = Lexer::new("t", "'ab\\");
    assert_eq!(
        cut.next(),
        Err(LexerError::UnterminatedString(String::from("ab")))
    );
}

#[test]
fn lexer_reads_symbols_of_one_and_two_characters() {
    assert_eq!(
        kinds("== = -> += << <= < :: ** ! != ( ] ~"),
        vec![
            TokenType::BoolEq,
            TokenType::EQUALS,
            TokenType::POINTER,
            TokenType::AddEq,
            TokenType::SHL,
            TokenType::BoolLte,
            TokenType::BoolLt,
            TokenType::NAMESPACE,
            TokenType::POW,
            TokenType::BoolNot,
            TokenType::BoolNe,
            TokenType::LPAREN,
            TokenType::RBRACKET,
            TokenType::NOT,
        ]
    );
    assert_eq!(
        tokens("+-"),
        vec![
            (TokenType::ADD, String::from("+")),
            (TokenType::SUB, String::from("-")),
        ]
    );
}

#[test]
fn lexer_passes_over_comments() {
    assert_eq!(kinds("a // c\nb"), vec![TokenType::ID, TokenType::ID]);
    assert_eq!(kinds("a /* c \n c */b"), vec![TokenType::ID, TokenType::ID]);
    assert_eq!(kinds("/* c *//* d */ b"), vec![TokenType::ID]);
    assert_eq!(kinds("a +/* c */b"), vec![TokenType::ID, TokenType::ADD, TokenType::ID]);
    assert_eq!(kinds("a / b"), vec![TokenType::ID, TokenType::DIV, TokenType::ID]);
    assert_eq!(kinds("// only"), Vec::<TokenType>::new());
}

#[test]
fn the_place_of_an_error_is_written_in_decimal() {
    let mut text = String::new();
    for _ in 0..11 {
        text.push_str("a\n\n");
    }
    text.push_str("abcdefghijkl $");
    let mut lexer = Lexer::new("dir/file.kod", &text);
    let error = loop {
        match lexer.next() {
            Ok(_) => {}
            Err(e) => break e,
        }
    };
    assert_eq!(
        error,
        LexerError::UnexpectedCharacter(String::from("dir/file.kod:23:13: $"))
    );
}

#[test]
fn lexer_wants_a_token_right_after_a_leading_comment() {
    let mut lexer = Lexer::new("t", "/* c */ b");
    assert_eq!(
        lexer.next(),
        Err(LexerError::UnexpectedCharacter(String::from("t:1:8:  ")))
    );
}

#[test]
fn lexer_line_feed_takes_the_next_character() {
    let mut lexer = Lexer::new("t", "a\nbc");
    assert_eq!(lexer.next().unwrap().value, "a");
    let line = lexer.next().unwrap();
    assert_eq!(line.token_type, TokenType::NewLine);
    assert_eq!((line.line, line.column), (2, 1));
    assert_eq!(lexer.next().unwrap().value, "c");
    assert_eq!(
        kinds("a\r\nb"),
        vec![TokenType::ID, TokenType::NewLine, TokenType::ID]
    );
}

#[test]
fn lexer_reports_an_unexpected_character() {
    let mut lexer = Lexer::new("file", "a $");
    lexer.next().unwrap();
    let error = lexer.next().unwrap_err();
    assert_eq!(
        error,
        LexerError::UnexpectedCharacter(String::from("file:1:3: $"))
    );
    assert_eq!(error.message(), "Unexpected character: file:1:3: $");
    assert_eq!(
        LexerError::UnterminatedString(String::from("x")).message(),
        "Unterminated string: x"
    );
    assert_eq!(
        LexerError::InvalidNumber(String::from("9")).message(),
        "Invalid number: 9"
    );
}

#[test]
fn symbols_are_found_by_their_characters() {
    assert!(is_symbol('('));
    assert!(is_symbol('\\'));
    assert!(!is_symbol('a'));
    assert!(!is_symbol('$'));
    assert_eq!(find_symbol_type('=', None), TokenType::EQUALS);
    assert_eq!(find_symbol_type('=', Some('=')), TokenType::BoolEq);
    assert_eq!(find_symbol_type('=', Some('+')), TokenType::Unknown);
    assert_eq!(find_symbol_type('a', None), TokenType::Unknown);
    let table = get_symbols();
    assert_eq!(table.len(), 47);
    for (text, kind) in table {
        assert_eq!(symbol_of(kind), text);
        let mut chars = text.chars();
        let first = chars.next().unwrap();
        assert_eq!(find_symbol_type(first, chars.next()), kind);
    }
    assert_eq!(symbol_of(TokenType::ID), "");
}

#[test]
fn tokens_start_plain() {
    let t = Token::new(TokenType::ID, String::from("x"), 3, 4);
    assert_eq!(t.keyword_type, KeywordType::Unknown);
    assert_eq!(t.int_value, 0);
    assert_eq!((t.line, t.column), (3, 4));
    assert_eq!(t.duplicate(), t);
    assert_eq!(eof().token_type, TokenType::EndOfFile);
}

#[test]
fn parser_works_out_integer_operations() {
    assert_eq!(text("x = 1 + 2"), "x = 3\n");
    assert_eq!(text("2 * 3 + 4"), "10\n");
    assert_eq!(text("1 << 4"), "16\n");
    assert_eq!(text("256 >> 4"), "16\n");
    assert_eq!(text("7 - 10"), "-3\n");
    assert_eq!(text("-5"), "-5\n");
    assert_eq!(text("!0"), "1\n");
    assert_eq!(text("!7"), "0\n");
    assert_eq!(text("~5"), "-6\n");
    assert_eq!(text("+5"), "5\n");
    assert_eq!(text("--5"), "5\n");
    assert_eq!(text("6 / 3"), "(6 / 3)\n");
    assert_eq!(text("x + 1 + 2"), "((x + 1) + 2)\n");
    assert_eq!(text("1 + 2 + x"), "(3 + x)\n");
}

#[test]
fn parser_leaves_what_does_not_fit() {
    assert_eq!(
        text("9223372036854775807 + 1"),
        "(9223372036854775807 + 1)\n"
    );
    assert_eq!(text("1 << 64"), "(1 << 64)\n");
    assert_eq!(text("1.5 + 2"), "(1.5 + 2)\n");
    assert_eq!(text("-1.5"), "(-1.5)\n");
}

#[test]
fn parser_follows_precedence() {
    assert_eq!(text("a + b * c"), "(a + (b * c))\n");
    assert_eq!(text("(a + b) * c"), "((a + b) * c)\n");
    assert_eq!(text("a < b == c"), "((a < b) == c)\n");
    assert_eq!(text("a | b ^ c & d"), "(a | (b ^ (c & d)))\n");
    assert_eq!(text("-a ** b"), "((-a) ** b)\n");
    assert_eq!(text("a = b = c"), "a = b = c\n");
}

#[test]
fn parser_reads_calls_accesses_and_subscripts() {
    assert_eq!(text("f(1, x)"), "f((1, x))\n");
    assert_eq!(text("f(x)"), "f(x)\n");
    assert_eq!(text("f()"), "f()\n");
    assert_eq!(text("a.b.c"), "a.b.c\n");
    assert_eq!(text("a[1][2]"), "a[1][2]\n");
    assert_eq!(text("a.b(1)(2)"), "a.b(1)(2)\n");
    assert_eq!(text("a\r\nb"), "a\nb\n");
    match parse("a.b(1)").unwrap() {
        Node::Block(block) => match &block.statements[0] {
            Node::FuncCall(call) => {
                assert!(call.add_arg);
                match &*call.callee {
                    Node::Access(access) => assert!(access.load_self),
                    other => panic!("{:?}", other),
                }
            }
            other => panic!("{:?}", other),
        },
        other => panic!("{:?}", other),
    }
}

#[test]
fn parser_reads_tuples_and_lists() {
    assert_eq!(text("1, 2, 3"), "(1, 2, 3)\n");
    assert_eq!(text("(1)"), "1\n");
    assert!(parse("(1,)").is_err());
    assert_eq!(text("()"), "()\n");
    assert_eq!(text("[1, 2]"), "[1, 2]\n");
    assert_eq!(text("[]"), "[]\n");
    assert_eq!(text("a, b = 1, 2"), "(a, b) = (1, 2)\n");
}

#[test]
fn parser_reads_statements() {
    assert_eq!(text("if x { y }"), "if x {\ny\n}\n");
    assert_eq!(text("while x { y; z }"), "while x {\ny\nz\n}\n");
    assert_eq!(
        text("fn f(a, b) { return a }"),
        "f(a, b) {\nreturn a\n}\n"
    );
    assert_eq!(text("return"), "return null\n");
    assert_eq!(text("return \"s\""), "return \"s\"\n");
    assert_eq!(text("a; b; c"), "a\nb\nc\n");
    assert_eq!(text(""), "");
}

#[test]
fn parser_errors() {
    match parse("(1, 2") {
        Err(ParserError::UnexpectedTokenExpected(token, kind)) => {
            assert_eq!(token.token_type, TokenType::EndOfFile);
            assert_eq!(kind, TokenType::RPAREN);
        }
        other => panic!("{:?}", other),
    }
    match parse("[1,]") {
        Err(ParserError::UnfinishedList(token)) => {
            assert_eq!(token.token_type, TokenType::RBRACKET)
        }
        other => panic!("{:?}", other),
    }
    match parse("1 +") {
        Err(ParserError::UnexpectedToken(token)) => {
            assert_eq!(token.token_type, TokenType::EndOfFile)
        }
        other => panic!("{:?}", other),
    }
    match parse(") x") {
        Err(ParserError::UnexpectedToken(token)) => {
            assert_eq!(token.token_type, TokenType::RPAREN)
        }
        other => panic!("{:?}", other),
    }
    match parse("x = $") {
        Err(ParserError::Lexer(LexerError::UnexpectedCharacter(message))) => {
            assert_eq!(message, "t:1:5: $")
        }
        other => panic!("{:?}", other),
    }
    match parse("for x") {
        Err(ParserError::UnexpectedToken(token)) => assert_eq!(token.value, "x"),
        other => panic!("{:?}", other),
    }
    match parse("fn 1() {}") {
        Err(ParserError::UnexpectedToken(token)) => {
            assert_eq!(token.token_type, TokenType::LBRACE)
        }
        other => panic!("{:?}", other),
    }
}

#[test]
fn nodes_print_themselves() {
    let node = Node::Return(ReturnNode {
        value: Some(Box::new(Node::Tuple(TupleNode {
            values: vec![
                Node::Int(IntNode { value: i64::MIN }),
                Node::Float(FloatNode { text: String::from("2.5"), value: None }),
                Node::String(StringNode { value: String::from("s") }),
                Node::Id(IdNode { value: String::from("x") }),
            ],
            is_list: true,
        }))),
    });
    assert_eq!(
        node.to_string(),
        "return [-9223372036854775808, 2.5, \"s\", x]"
    );
    assert!(!node.pushes());
    assert!(node.is_return_statement());
    assert!(!node.is_constant());
    assert!(Node::Int(IntNode { value: 0 }).pushes());
    assert!(Node::Int(IntNode { value: 0 }).is_constant());
    assert!(!Node::Id(IdNode { value: String::from("x") }).is_constant());
}

#[test]
fn constants_of_literals() {
    assert_eq!(
        Node::Int(IntNode { value: 4 }).to_constant(),
        Some(Constant::Int(4))
    );
    let float = FloatConstant { bits: 0x3ff8_0000_0000_0000, whole: 1 };
    let tuple = Node::Tuple(TupleNode {
        values: vec![
            Node::String(StringNode { value: String::from("s") }),
            Node::Float(FloatNode { text: String::from("1.5"), value: Some(float) }),
        ],
        is_list: false,
    });
    assert!(tuple.is_constant());
    assert_eq!(
        tuple.to_constant(),
        Some(Constant::Tuple(vec![
            Constant::String(String::from("s")),
            Constant::Float(float)
        ]))
    );
    assert_eq!(
        Node::Float(FloatNode { text: String::from("1.5"), value: None }).to_constant(),
        None
    );
    assert_eq!(Node::Id(IdNode { value: String::from("x") }).to_constant(), None);
}

#[test]
fn assignment_compiles_to_a_store() {
    let (module, code) = compile("x = 5");
    assert_eq!(
        code.code,
        vec![
            0x00, 0, 0, 0, 0, // LOAD_CONST 0
            0x05, 0, 0, 0, 0, // STORE_NAME 0
            0x00, 1, 0, 0, 0, // LOAD_CONST 1
            0x20, // RETURN
        ]
    );
    assert_eq!(module.constant_pool, vec![Constant::Int(5), Constant::Null]);
    assert_eq!(module.name_pool, vec![String::from("x")]);
}

#[test]
fn expression_compiles_to_stack_code() {
    let (module, code) = compile("1 + x; y - x");
    assert_eq!(
        code.code,
        vec![
            0x00, 0, 0, 0, 0, // LOAD_CONST 0
            0x01, 0, 0, 0, 0, // LOAD_NAME 0
            0x0c, // BINARY_ADD
            0x07, // POP_TOP
            0x01, 1, 0, 0, 0, // LOAD_NAME 1
            0x01, 0, 0, 0, 0, // LOAD_NAME 0
            0x0d, // BINARY_SUB
            0x20, // RETURN
        ]
    );
    assert_eq!(module.constant_pool, vec![Constant::Int(1)]);
    assert_eq!(module.name_pool, vec![String::from("x"), String::from("y")]);
}

#[test]
fn pools_hold_nothing_twice() {
    let (module, code) = compile("a = 7; b = 7; a = \"s\"; b = \"s\"");
    assert_eq!(
        module.constant_pool,
        vec![Constant::Int(7), Constant::String(String::from("s")), Constant::Null]
    );
    assert_eq!(module.name_pool, vec![String::from("a"), String::from("b")]);
    assert_eq!(code.code.len(), 4 * 10 + 6);
}

#[test]
fn conditional_jumps_over_its_body() {
    let (_, code) = compile("if x { y }");
    assert_eq!(
        code.code,
        vec![
            0x01, 0, 0, 0, 0, // LOAD_NAME 0
            0x22, 16, 0, 0, 0, // POP_JUMP_IF_FALSE 16
            0x01, 1, 0, 0, 0, // LOAD_NAME 1
            0x07, // POP_TOP
            0x00, 0, 0, 0, 0, // LOAD_CONST 0
            0x20, // RETURN
        ]
    );
}

#[test]
fn loop_jumps_back_to_its_condition() {
    let (_, code) = compile("a; while x { y }");
    assert_eq!(
        code.code,
        vec![
            0x01, 0, 0, 0, 0, // LOAD_NAME 0
            0x07, // POP_TOP
            0x01, 1, 0, 0, 0, // LOAD_NAME 1
            0x22, 27, 0, 0, 0, // POP_JUMP_IF_FALSE 27
            0x01, 2, 0, 0, 0, // LOAD_NAME 2
            0x07, // POP_TOP
            0x21, 6, 0, 0, 0, // JUMP 6
            0x00, 0, 0, 0, 0, // LOAD_CONST 0
            0x20, // RETURN
        ]
    );
}

#[test]
fn function_becomes_a_code_constant() {
    let (module, code) = compile("fn f(a) { return a }");
    assert_eq!(
        code.code,
        vec![
            0x00, 0, 0, 0, 0, // LOAD_CONST 0
            0x05, 1, 0, 0, 0, // STORE_NAME 1
            0x00, 1, 0, 0, 0, // LOAD_CONST 1
            0x20, // RETURN
        ]
    );
    assert_eq!(
        module.constant_pool,
        vec![
            Constant::Code(Code::new(
                String::from("f"),
                vec![String::from("a")],
                vec![0x01, 0, 0, 0, 0, 0x20]
            )),
            Constant::Null
        ]
    );
    assert_eq!(module.name_pool, vec![String::from("a"), String::from("f")]);
}

#[test]
fn call_counts_its_arguments() {
    let (_, code) = compile("f(1)(2)");
    assert_eq!(
        code.code,
        vec![
            0x01, 0, 0, 0, 0, // LOAD_NAME 0
            0x00, 0, 0, 0, 0, // LOAD_CONST 0
            0x1f, 1, 0, 0, 0, // CALL 1
            0x00, 1, 0, 0, 0, // LOAD_CONST 1
            0x1f, 1, 0, 0, 0, // CALL 1
            0x20, // RETURN
        ]
    );
    let tree = parse("f(1, 2)").unwrap();
    let mut module = Module::new(String::from("m"));
    let mut code = Code::new(String::from("c"), vec![], vec![]);
    assert_eq!(
        tree.compile(&mut module, &mut code),
        Err(CompileError::Unimplemented)
    );
}

#[test]
fn tuple_assignment_unpacks() {
    let (module, code) = compile("a, b = c");
    assert_eq!(
        code.code,
        vec![
            0x01, 0, 0, 0, 0, // LOAD_NAME 0
            0x28, 2, 0, 0, 0, // UNPACK_SEQUENCE 2
            0x05, 1, 0, 0, 0, // STORE_NAME 1
            0x05, 2, 0, 0, 0, // STORE_NAME 2
            0x00, 0, 0, 0, 0, // LOAD_CONST 0
            0x20, // RETURN
        ]
    );
    assert_eq!(
        module.name_pool,
        vec![String::from("c"), String::from("a"), String::from("b")]
    );
}

#[test]
fn assignment_as_a_value_loads_its_name() {
    let (_, code) = compile("return x = 1");
    assert_eq!(
        code.code,
        vec![
            0x00, 0, 0, 0, 0, // LOAD_CONST 0
            0x05, 0, 0, 0, 0, // STORE_NAME 0
            0x01, 0, 0, 0, 0, // LOAD_NAME 0
            0x20, // RETURN
        ]
    );
}

#[test]
fn floats_compile_once_their_value_is_known() {
    let mut module = Module::new(String::from("m"));
    let mut code = Code::new(String::from("c"), vec![], vec![]);
    let unknown = Node::Float(FloatNode { text: String::from("1.5"), value: None });
    assert_eq!(
        unknown.compile(&mut module, &mut code),
        Err(CompileError::UnevaluatedFloat)
    );
    let plus = FloatConstant { bits: 0, whole: 0 };
    let minus = FloatConstant { bits: 0x8000_0000_0000_0000, whole: 0 };
    let nan = FloatConstant { bits: 0x7ff8_0000_0000_0000, whole: 0 };
    for value in [plus, minus, nan, nan] {
        let node = Node::Float(FloatNode { text: String::new(), value: Some(value) });
        assert_eq!(node.compile(&mut module, &mut code), Ok(()));
    }
    assert_eq!(
        module.constant_pool,
        vec![Constant::Float(plus), Constant::Float(nan), Constant::Float(nan)]
    );
    assert_eq!(
        code.code,
        vec![0, 0, 0, 0, 0, 0, 0, 0, 0, 0, 0, 1, 0, 0, 0, 0, 2, 0, 0, 0]
    );
}

#[test]
fn compile_errors() {
    let mut module = Module::new(String::from("m"));
    let mut code = Code::new(String::from("c"), vec![], vec![]);
    let fails = |source: &str, module: &mut Module, code: &mut Code| {
        parse(source).unwrap().compile(module, code).unwrap_err()
    };
    assert_eq!(fails("a.b", &mut module, &mut code), CompileError::Unimplemented);
    assert_eq!(fails("a[1]", &mut module, &mut code), CompileError::Unimplemented);
    assert_eq!(fails("x = 1, 2", &mut module, &mut code), CompileError::Unimplemented);
    assert_eq!(
        fails("x += 1", &mut module, &mut code),
        CompileError::UnsupportedAssignment
    );
    assert_eq!(
        fails("1 = 2", &mut module, &mut code),
        CompileError::UnsupportedAssignment
    );
    assert_eq!(
        fails("x = return 1", &mut module, &mut code),
        CompileError::NoValue
    );
    let misplaced = Node::Assignment(AssignmentNode {
        left: Box::new(Node::Id(IdNode { value: String::from("x") })),
        right: Box::new(Node::Int(IntNode { value: 1 })),
        op: TokenType::EQUALS,
    });
    let operation = Node::BinaryOp(kod::node::BinaryOpNode {
        left: Box::new(Node::Int(IntNode { value: 1 })),
        right: Box::new(Node::Int(IntNode { value: 1 })),
        op: TokenType::COMMA,
    });
    assert_eq!(
        operation.compile(&mut module, &mut code),
        Err(CompileError::InvalidOperator(TokenType::COMMA))
    );
    let nested = Node::If(IfNode {
        condition: Box::new(Node::Int(IntNode { value: 1 })),
        block: Box::new(BlockNode {
            statements: vec![Node::Block(BlockNode { statements: vec![misplaced] })],
        }),
    });
    assert_eq!(
        nested.compile(&mut module, &mut code),
        Err(CompileError::BlockInBody)
    );
}

#[test]
fn listing_decodes_opcodes_and_operands() {
    let (_, code) = compile("x = 5");
    assert_eq!(
        code.listing(),
        Ok(vec![
            CodeLine { offset: 0, opcode: Opcode::LOAD_CONST, operand: Some(0) },
            CodeLine { offset: 5, opcode: Opcode::STORE_NAME, operand: Some(0) },
            CodeLine { offset: 10, opcode: Opcode::LOAD_CONST, operand: Some(1) },
            CodeLine { offset: 15, opcode: Opcode::RETURN, operand: None },
        ])
    );
    let bad = Code::new(String::new(), vec![], vec![0x20, 0x77]);
    assert_eq!(bad.listing(), Err(CodeError::InvalidOpcode(1, 0x77)));
    let empty = Code::new(String::new(), vec![String::from("p")], vec![]);
    assert_eq!(empty.listing(), Ok(vec![]));
    let cut = Code::new(String::new(), vec![], vec![0x20, 0x21, 0x00]);
    assert_eq!(cut.listing(), Err(CodeError::MissingOperand(1, Opcode::JUMP)));
}

#[test]
fn compiled_program_runs_in_the_interpreter() {
    let (mut module, code) = compile("x = 1; x = 7; return x");
    module.entry = code;
    let mut vm = kod::runtime::VM::new(module);
    let events = vm.run().unwrap();
    assert_eq!(events.last(), Some(&kod::runtime::Event::Returned(7)));
}
