use ilo::ast::{Expr, Statement};
use ilo::errors::{report_error, ErrorDetails};
use ilo::lexer::Lexer;
use ilo::parser::Parser;
use ilo::token::{Kind, Token, TokenType};

fn scan(source: &str) -> Result<Vec<Token>, Vec<ErrorDetails>> {
    Lexer::new(String::from(source)).scan_tokens()
}

/// Kind, lexeme, line and column of every token.
fn tokens(source: &str) -> Vec<(Kind, String, i64, i64)> {
    scan(source)
        .unwrap()
        .iter()
        .map(|t| (t.kind(), String::from(t.lexeme()), t.line(), t.column()))
        .collect()
}

fn kinds(source: &str) -> Vec<Kind> {
    scan(source).unwrap().iter().map(|t| t.kind()).collect()
}

fn scan_errors(source: &str) -> Vec<String> {
    scan(source).unwrap_err().into_iter().map(report_error).collect()
}

fn parse(source: &str) -> Result<Vec<Statement>, Vec<ErrorDetails>> {
    Parser::new(scan(source).unwrap()).parse()
}

fn parse_errors(source: &str) -> Vec<String> {
    parse(source).unwrap_err().into_iter().map(report_error).collect()
}

/// The expression as text, with every operation in brackets.
fn shape(expr: &Expr) -> String {
    match expr {
        Expr::Primary { value } => String::from(value.lexeme()),
        Expr::Variable { name } => format!("${}", name.lexeme()),
        Expr::Unary { operator, expr } => format!("({}{})", operator.lexeme(), shape(expr)),
        Expr::Binary { left_expr, operator, right_expr } => {
            format!("({} {} {})", shape(left_expr), operator.lexeme(), shape(right_expr))
        }
        Expr::Grouping { expr } => format!("[{}]", shape(expr)),
        Expr::Call { callee, arguments, .. } => {
            let arguments: Vec<String> = arguments.iter().map(shape).collect();
            format!("{}({})", shape(callee), arguments.join(", "))
        }
    }
}

fn expression(source: &str) -> String {
    match parse(source).unwrap().as_slice() {
        [Statement::Expr { expr }] => shape(expr),
        other => panic!("{:?}", other),
    }
}

#[test]
fn positions_start_at_one() {
    assert_eq!(
        tokens("a = 1\n\tb"),
        vec![
            (Kind::Identifier, String::from("a"), 1, 1),
            (Kind::Equal, String::from("="), 1, 3),
            (Kind::NumberLiteral, String::from("1"), 1, 5),
            (Kind::EOL, String::from("\n"), 1, 6),
            (Kind::Identifier, String::from("b"), 2, 3),
            (Kind::EOF, String::new(), 2, 4),
        ]
    );
    assert_eq!(tokens(""), vec![(Kind::EOF, String::new(), 1, 1)]);
}

#[test]
fn strings_may_span_lines() {
    assert_eq!(
        tokens("\"ab\ncd\" x"),
        vec![
            (Kind::StringLiteral, String::from("\"ab\ncd\""), 1, 1),
            (Kind::Identifier, String::from("x"), 2, 5),
            (Kind::EOF, String::new(), 2, 6),
        ]
    );
    assert_eq!(tokens("\"ab\n\" x")[1], (Kind::Identifier, String::from("x"), 2, 3));
    assert_eq!(tokens("\"\" x")[1], (Kind::Identifier, String::from("x"), 1, 4));
    let scanned = scan("\"one\ntwo\"").unwrap();
    assert_eq!(scanned[0].literal(), "one\ntwo");
    assert!(matches!(scanned[0].token_type(), TokenType::StringLiteral(text) if text == "one\ntwo"));
    assert_eq!(scanned[1].literal(), "");
}

#[test]
fn lexemes_are_counted_in_characters() {
    assert_eq!(
        tokens("\"\u{e9}\u{4e2d}\" x"),
        vec![
            (Kind::StringLiteral, String::from("\"\u{e9}\u{4e2d}\""), 1, 1),
            (Kind::Identifier, String::from("x"), 1, 6),
            (Kind::EOF, String::new(), 1, 7),
        ]
    );
    assert_eq!(tokens("\"\u{e9}\n\u{e9}\u{e9}\" x")[1], (Kind::Identifier, String::from("x"), 2, 5));
    assert_eq!(
        scan_errors("\u{e9} x \u{4e2d}"),
        vec![
            "Lexical error at line 1, column 1: Unexpected character `\u{e9}`.",
            "Lexical error at line 1, column 5: Unexpected character `\u{4e2d}`.",
        ]
    );
}

#[test]
fn comments_are_skipped() {
    assert_eq!(tokens("// c\nx")[0], (Kind::EOL, String::from("\n"), 1, 5));
    assert_eq!(tokens("// c\nx")[1], (Kind::Identifier, String::from("x"), 2, 1));
    assert_eq!(tokens("/* a\n b */ x")[0], (Kind::Identifier, String::from("x"), 2, 7));
    assert_eq!(tokens("/*/ x")[0], (Kind::Identifier, String::from("x"), 1, 5));
    assert_eq!(tokens("/* \t */x")[0], (Kind::Identifier, String::from("x"), 1, 8));
    assert_eq!(kinds("1 / 2 /= 3"), vec![
        Kind::NumberLiteral,
        Kind::Slash,
        Kind::NumberLiteral,
        Kind::SlashEqual,
        Kind::NumberLiteral,
        Kind::EOF
    ]);
    assert_eq!(
        scan_errors("x /* open\n"),
        vec!["Lexical error at line 2, column 1: Unterminated comment."]
    );
}

#[test]
fn the_longest_operator_wins() {
    assert_eq!(
        kinds("-> -= -- - != ! ... . == = >= > <= < += ++ + *= * ^= ^ %= %"),
        vec![
            Kind::Arrow,
            Kind::MinusEqual,
            Kind::MinusMinus,
            Kind::Minus,
            Kind::BangEqual,
            Kind::Bang,
            Kind::DotDotDot,
            Kind::Dot,
            Kind::EqualEqual,
            Kind::Equal,
            Kind::GreaterEqual,
            Kind::Greater,
            Kind::LessEqual,
            Kind::Less,
            Kind::PlusEqual,
            Kind::PlusPlus,
            Kind::Plus,
            Kind::StarEqual,
            Kind::Star,
            Kind::CaretEqual,
            Kind::Caret,
            Kind::PercentEqual,
            Kind::Percent,
            Kind::EOF,
        ]
    );
    assert_eq!(kinds("{}[],:?()"), vec![
        Kind::LeftBrace,
        Kind::RightBrace,
        Kind::LeftBracket,
        Kind::RightBracket,
        Kind::Comma,
        Kind::Colon,
        Kind::Interrogation,
        Kind::LeftParen,
        Kind::RightParen,
        Kind::EOF
    ]);
    // two dots are no operator: each is a dot of its own
    assert_eq!(
        tokens(".."),
        vec![
            (Kind::Dot, String::from("."), 1, 1),
            (Kind::Dot, String::from("."), 1, 2),
            (Kind::EOF, String::new(), 1, 3),
        ]
    );
    assert_eq!(
        tokens("...."),
        vec![
            (Kind::DotDotDot, String::from("..."), 1, 1),
            (Kind::Dot, String::from("."), 1, 4),
            (Kind::EOF, String::new(), 1, 5),
        ]
    );
    assert_eq!(
        tokens("a..b"),
        vec![
            (Kind::Identifier, String::from("a"), 1, 1),
            (Kind::Dot, String::from("."), 1, 2),
            (Kind::Dot, String::from("."), 1, 3),
            (Kind::Identifier, String::from("b"), 1, 4),
            (Kind::EOF, String::new(), 1, 5),
        ]
    );
    assert_eq!(kinds(". .. ..."), vec![Kind::Dot, Kind::Dot, Kind::Dot, Kind::DotDotDot, Kind::EOF]);
    assert_eq!(kinds("--->"), vec![Kind::MinusMinus, Kind::Arrow, Kind::EOF]);
}

#[test]
fn words_are_keywords_or_identifiers() {
    assert_eq!(
        kinds(
            "and ask boolean break cmd continue default delete else empty f false for if in \
             keys match number or out return size string true while"
        ),
        vec![
            Kind::And,
            Kind::Ask,
            Kind::Boolean,
            Kind::Break,
            Kind::Cmd,
            Kind::Continue,
            Kind::Default,
            Kind::Delete,
            Kind::Else,
            Kind::Empty,
            Kind::Function,
            Kind::False,
            Kind::For,
            Kind::If,
            Kind::In,
            Kind::Keys,
            Kind::Match,
            Kind::Number,
            Kind::Or,
            Kind::Out,
            Kind::Return,
            Kind::Size,
            Kind::String,
            Kind::True,
            Kind::While,
            Kind::EOF,
        ]
    );
    assert_eq!(
        kinds("andy _if f2 For time x_1"),
        vec![
            Kind::Identifier,
            Kind::Identifier,
            Kind::Identifier,
            Kind::Identifier,
            Kind::Identifier,
            Kind::Identifier,
            Kind::EOF
        ]
    );
}

#[test]
fn numerals_have_digits_on_both_sides_of_the_dot() {
    assert_eq!(
        tokens("12.50.3 4. .5"),
        vec![
            (Kind::NumberLiteral, String::from("12.50"), 1, 1),
            (Kind::Dot, String::from("."), 1, 6),
            (Kind::NumberLiteral, String::from("3"), 1, 7),
            (Kind::NumberLiteral, String::from("4"), 1, 9),
            (Kind::Dot, String::from("."), 1, 10),
            (Kind::Dot, String::from("."), 1, 12),
            (Kind::NumberLiteral, String::from("5"), 1, 13),
            (Kind::EOF, String::new(), 1, 14),
        ]
    );
}

#[test]
fn every_lexical_error_of_a_pass_is_reported() {
    assert_eq!(
        scan_errors("a ; b\n# \"open"),
        vec![
            "Lexical error at line 1, column 3: Unexpected character `;`.",
            "Lexical error at line 2, column 1: Unexpected character `#`.",
            "Lexical error at line 2, column 3: Unterminated string.",
        ]
    );
}

#[test]
fn scanning_is_repeatable() {
    let source = "f g(a) {\n return a * 2 // twice\n}\n\"text\" g(1.5)";
    assert_eq!(tokens(source), tokens(source));
    // a scanner that has reached the end only adds the end of input again
    let mut lexer = Lexer::new(String::from("a"));
    assert_eq!(lexer.scan_tokens().unwrap().len(), 2);
    let again = lexer.scan_tokens().unwrap();
    assert_eq!(again.iter().map(|t| t.kind()).collect::<Vec<_>>(), vec![
        Kind::Identifier,
        Kind::EOF,
        Kind::EOF
    ]);
}

#[test]
fn operators_bind_by_precedence_to_the_left() {
    assert_eq!(expression("1 - 2 - 3"), "((1 - 2) - 3)");
    assert_eq!(expression("2 ^ 3 ^ 2"), "((2 ^ 3) ^ 2)");
    assert_eq!(expression("1 + 2 * 3"), "(1 + (2 * 3))");
    assert_eq!(expression("1 * 2 % 3 * 4"), "((1 * 2) % (3 * 4))");
    assert_eq!(expression("1 + 2 % 3"), "(1 + (2 % 3))");
    assert_eq!(expression("-2 ^ 2"), "((-2) ^ 2)");
    assert_eq!(expression("a or b and c == d < e + g"), "($a or ($b and ($c == ($d < ($e + $g)))))");
    assert_eq!(expression("1 < 2 == 3 > 4"), "((1 < 2) == (3 > 4))");
    assert_eq!(expression("-!x"), "(-(!$x))");
    assert_eq!(expression("(1 + 2) * 3"), "([(1 + 2)] * 3)");
    assert_eq!(expression("g(1)(2, x)()"), "$g(1)(2, $x)()");
    assert_eq!(expression("out(\"a\" + b)"), "$out((\"a\" + $b))");
    assert_eq!(expression("empty == x"), "(empty == $x)");
    assert_eq!(expression("x != empty"), "($x != empty)");
}

#[test]
fn statements_are_recognised() {
    let program = parse(
        "x = empty(number)\ny = empty\n{\n z = 1\n}\nif a {\n} else if b {\n}\n\nelse {\n}\n\
         while c {\n}\nf g(p, q) {\n return p\n}\ng(1, 2)",
    )
    .unwrap();
    assert_eq!(program.len(), 7);
    assert!(matches!(&program[0], Statement::Assignment { ident, value: Expr::Primary { value } }
        if ident.lexeme() == "x" && value.kind() == Kind::Number));
    assert!(matches!(&program[1], Statement::Assignment { value: Expr::Primary { value }, .. }
        if value.kind() == Kind::Empty));
    assert!(matches!(&program[2], Statement::Block { statements } if statements.len() == 1));
    match &program[3] {
        Statement::If { otherwise: Some(other), .. } => {
            assert!(matches!(&**other, Statement::If { otherwise: Some(last), .. }
                if matches!(&**last, Statement::Block { .. })));
        }
        other => panic!("{:?}", other),
    }
    assert!(matches!(&program[4], Statement::While { body, .. }
        if matches!(&**body, Statement::Block { .. })));
    match &program[5] {
        Statement::FunctionDeclaration { ident, params, body } => {
            assert_eq!(ident.lexeme(), "g");
            assert_eq!(params.iter().map(|p| p.lexeme()).collect::<Vec<_>>(), vec!["p", "q"]);
            assert!(matches!(body.as_slice(), [Statement::Return { .. }]));
        }
        other => panic!("{:?}", other),
    }
    assert_eq!(program[6].first_token().lexeme(), "g");
    assert_eq!(program[0].first_token().lexeme(), "x");
    assert_eq!(program[3].first_token().lexeme(), "a");
    assert_eq!(program[5].first_token().column(), 3);
    assert_eq!(parse("").unwrap().len(), 0);
    assert_eq!(parse("\n\n").unwrap().len(), 0);
}

#[test]
fn the_first_token_anchors_an_expression() {
    let program = parse("(a + 1)(2) * -3").unwrap();
    match &program[0] {
        Statement::Expr { expr } => {
            assert_eq!(expr.first_token().lexeme(), "a");
            assert_eq!(expr.first_token().column(), 2);
        }
        other => panic!("{:?}", other),
    }
}

#[test]
fn syntax_errors_name_what_is_missing() {
    let first = |source: &str| parse_errors(source).remove(0);
    assert_eq!(
        first("((((((((3)))))))"),
        "Syntax error at line 1, column 17: Expected a closing `)` after expression."
    );
    assert_eq!(
        first("5/"),
        "Syntax error at line 1, column 3: Unexpected token ``."
    );
    assert_eq!(
        first("1 +\n"),
        "Syntax error at line 1, column 4: Unexpected token `EOL`."
    );
    assert_eq!(
        first("{}"),
        "Syntax error at line 1, column 2: Expected new line after block start."
    );
    assert_eq!(
        first("{\n a = 1\n"),
        "Syntax error at line 3, column 1: Expected a closing `}` after block statement."
    );
    assert_eq!(
        first("if true out(4)"),
        "Syntax error at line 1, column 9: Expected an opening `{{` after the condition in an `if` statement."
    );
    assert_eq!(
        first("if true {\n} else out(5)"),
        "Syntax error at line 2, column 8: Expected an opening `{{` after the `else` keyword."
    );
    assert_eq!(
        first("while true out(4)"),
        "Syntax error at line 1, column 12: Expected an opening `{{` after the condition in a `while` statement."
    );
    assert_eq!(
        first("var = empty(string)"),
        "Syntax error at line 1, column 13: Empty string variables must be initialized with `\"\"`."
    );
    assert_eq!(
        first("var = empty(test)"),
        "Syntax error at line 1, column 13: Empty variables must be initialized with `empty(boolean)`, `empty(number)`, or an empty string `\"\"`."
    );
    assert_eq!(
        first("var = empty(number"),
        "Syntax error at line 1, column 19: Expected a closing `)` after empty variable assignment."
    );
    assert_eq!(
        first("x = 1 + empty"),
        "Syntax error at line 1, column 9: The `empty` keyword can only be used in variable declarations or assignments."
    );
    assert_eq!(
        first("a = 1 b"),
        "Syntax error at line 1, column 7: Line must end after an assignment."
    );
    assert_eq!(
        first("out(\"something\") 1 + 1"),
        "Syntax error at line 1, column 18: Line must end after an expression statement."
    );
    assert_eq!(
        first("f g() {\n return 1 2\n}"),
        "Syntax error at line 2, column 11: Line must end after a return statement."
    );
    assert_eq!(
        first("out(1"),
        "Syntax error at line 1, column 6: Expected a closing `)` after the argument."
    );
    assert_eq!(
        first("out(1, 2"),
        "Syntax error at line 1, column 9: Expected a closing `)` after the arguments."
    );
    assert_eq!(
        first("f (a) {\n}"),
        "Syntax error at line 1, column 3: Expected a function name."
    );
    assert_eq!(
        first("f g {\n}"),
        "Syntax error at line 1, column 5: Expected an opening `(` after the name of the function g."
    );
    assert_eq!(
        first("f test(f) {\n}"),
        "Syntax error at line 1, column 8: Expected parameter name for function test."
    );
    assert_eq!(
        first("f g(a b) {\n}"),
        "Syntax error at line 1, column 7: Expected a closing `)` after the parameter."
    );
    assert_eq!(
        first("f g(a, b c) {\n}"),
        "Syntax error at line 1, column 10: Expected a closing `)` after the parameters."
    );
    assert_eq!(
        first("f g()\n"),
        "Syntax error at line 1, column 6: Expected an opening `{` for the declaration of `g`'s body."
    );
    assert_eq!(
        first("break"),
        "Syntax error at line 1, column 1: Unexpected token `break`."
    );
}

#[test]
fn parsing_goes_on_after_an_error() {
    assert_eq!(
        parse_errors("1 +\n2\n3 *\n4 4"),
        vec![
            "Syntax error at line 1, column 4: Unexpected token `EOL`.",
            "Syntax error at line 3, column 4: Unexpected token `EOL`.",
            "Syntax error at line 4, column 3: Line must end after an expression statement.",
        ]
    );
    // recovery stops before a keyword that starts a statement
    assert_eq!(
        parse_errors(") 1 2 if true {\n}\n)"),
        vec![
            "Syntax error at line 1, column 1: Unexpected token `)`.",
            "Syntax error at line 3, column 1: Unexpected token `)`.",
        ]
    );
    assert_eq!(
        parse_errors(") delete"),
        vec![
            "Syntax error at line 1, column 1: Unexpected token `)`.",
            "Syntax error at line 1, column 3: Unexpected token `delete`.",
        ]
    );
}

#[test]
fn parsing_is_repeatable() {
    let source = "f g(a) {\n if a > 1 {\n return g(a - 1)\n }\n return a\n}\ng(3)";
    assert_eq!(format!("{:?}", parse(source).unwrap()), format!("{:?}", parse(source).unwrap()));
}

#[test]
fn tokens_can_be_made_by_hand() {
    let token = Token::new(TokenType::StringLiteral(String::from("a")), String::from("\"a\""), 2, 3);
    assert_eq!(token.kind(), Kind::StringLiteral);
    assert_eq!(token.literal(), "a");
    assert_eq!((token.lexeme(), token.line(), token.column()), ("\"a\"", 2, 3));
    let copy = token.copy();
    assert_eq!(format!("{:?}", copy), format!("{:?}", token));
    let tokens = vec![
        Token::new(TokenType::True, String::from("true"), 1, 1),
        Token::new(TokenType::EOF, String::new(), 1, 5),
    ];
    let program = Parser::new(tokens).parse().unwrap();
    assert!(matches!(program.as_slice(), [Statement::Expr { expr: Expr::Primary { value } }]
        if value.kind() == Kind::True));
}
