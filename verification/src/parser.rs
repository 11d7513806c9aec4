//! The parser: recursive descent over a token list, with recovery at
//! statement boundaries so that one pass reports every syntax error.

use crate::ast::{
    block_view, call_view, exprs_view, function_view, statements_view, Expr, ExprView, Statement,
    StatementView,
};
use crate::errors::{ErrorDetails, ErrorType};
use crate::grammar::{
    accept, binary, binary_rest, block, block_items, block_statement, call, call_rest,
    else_branch, empty_type, expect,
    expect_line_end, expression, expression_statement, finish_call, function_body,
    function_parameter_message, function_statement, if_statement, kind_at, level_has, primary,
    program_from, return_statement, skip_lines, starts_statement, statement, synchronize,
    synchronize_from, syntax_error, unary, while_statement, assign_statement,
    Outcome, Program,
};
use crate::lexer::{errors_view, errors_view_push, tokens_view_push};
use crate::text::str_eq;
use crate::token::{tokens_view, Kind, Token, TokenView};
use vstd::prelude::*;

verus! {

/// One more expression than `exprs` holds.
pub proof fn exprs_view_push(exprs: Seq<Expr>, expr: Expr)
    ensures
        exprs_view(exprs.push(expr)) == exprs_view(exprs).push(expr@),
{
    assert(exprs_view(exprs.push(expr)) =~= exprs_view(exprs).push(expr@));
}

/// One more statement than `statements` holds.
pub proof fn statements_view_push(statements: Seq<Statement>, statement: Statement)
    ensures
        statements_view(statements.push(statement)) == statements_view(statements).push(
            statement@,
        ),
{
    assert(statements_view(statements.push(statement)) =~= statements_view(statements).push(
        statement@,
    ));
}

/// What an expression parser returned, as the grammar states it.
pub open spec fn expr_outcome(r: Result<Expr, ErrorDetails>, pos: int) -> Outcome<ExprView> {
    Outcome {
        result: match r {
            Ok(expr) => Ok(expr@),
            Err(error) => Err(error@),
        },
        pos,
    }
}

/// What a statement parser returned, as the grammar states it.
pub open spec fn statement_outcome(r: Result<Statement, ErrorDetails>, pos: int) -> Outcome<
    StatementView,
> {
    Outcome {
        result: match r {
            Ok(statement) => Ok(statement@),
            Err(error) => Err(error@),
        },
        pos,
    }
}

/// What a block parser returned, as the grammar states it.
pub open spec fn block_outcome(r: Result<Vec<Statement>, ErrorDetails>, pos: int) -> Outcome<
    Seq<StatementView>,
> {
    Outcome {
        result: match r {
            Ok(statements) => Ok(statements_view(statements@)),
            Err(error) => Err(error@),
        },
        pos,
    }
}

/// What a single-token parser returned, as the grammar states it.
pub open spec fn token_outcome(r: Result<Token, ErrorDetails>, pos: int) -> Outcome<TokenView> {
    Outcome {
        result: match r {
            Ok(token) => Ok(token@),
            Err(error) => Err(error@),
        },
        pos,
    }
}

/// Whether `r` is what parsing `tokens` from their start returns: the
/// statements of the program if every one of them parsed, and otherwise the
/// diagnostics of those that did not.
pub open spec fn parse_result(tokens: Seq<TokenView>, r: Result<Vec<Statement>, Vec<ErrorDetails>>) -> bool {
    match r {
        Ok(statements) => crate::grammar::program(tokens).errors.len() == 0 && statements_view(
            statements@,
        ) == crate::grammar::program(tokens).statements,
        Err(errors) => crate::grammar::program(tokens).errors.len() > 0 && errors_view(errors@)
            == crate::grammar::program(tokens).errors,
    }
}

/// Parsing is a function of the tokens: two parses of the same tokens,
/// each from their start, agree on whether they succeed, on the syntax
/// tree and on the diagnostics.
pub proof fn parse_is_deterministic(
    tokens: Seq<TokenView>,
    first: Result<Vec<Statement>, Vec<ErrorDetails>>,
    second: Result<Vec<Statement>, Vec<ErrorDetails>>,
)
    requires
        parse_result(tokens, first),
        parse_result(tokens, second),
    ensures
        first is Ok <==> second is Ok,
        first is Ok ==> statements_view(first->Ok_0@) == statements_view(second->Ok_0@),
        first is Err ==> errors_view(first->Err_0@) == errors_view(second->Err_0@),
{
}

/// A token list that is parsed, with the position reached.
pub struct Parser {
    tokens: Vec<Token>,
    current: usize,
}

impl Parser {
    /// The tokens that are parsed.
    pub closed spec fn tokens(&self) -> Seq<TokenView> {
        tokens_view(self.tokens@)
    }

    /// Index of the next token to read.
    pub closed spec fn position(&self) -> int {
        self.current as int
    }

    /// The parser's invariant: the list ends with the end-of-input token,
    /// and the position is inside the list.
    pub closed spec fn well_formed(&self) -> bool {
        &&& self.tokens.len() > 0
        &&& self.tokens@.last()@.kind == Kind::EOF
        &&& self.current < self.tokens.len()
    }

    /// Whether this parser is `before` after some tokens were consumed.
    pub closed spec fn follows(&self, before: &Parser) -> bool {
        &&& self.well_formed()
        &&& self.tokens == before.tokens
        &&& self.current >= before.current
    }

    /// A parser at the start of `tokens`, which end with the end-of-input token.
    pub fn new(tokens: Vec<Token>) -> (r: Self)
        requires
            tokens.len() > 0,
            tokens@.last()@.kind == Kind::EOF,
        ensures
            r.well_formed(),
            r.tokens() == tokens_view(tokens@),
            r.position() == 0,
    {
        Self { tokens, current: 0 }
    }

    /// Parses the rest of the token list.
    ///
    /// Returns the statements if every one of them parsed, and otherwise
    /// the diagnostics of those that did not, in source order.
    pub fn parse(&mut self) -> (r: Result<Vec<Statement>, Vec<ErrorDetails>>)
        requires
            old(self).well_formed(),
        ensures
            final(self).well_formed(),
            final(self).tokens() == old(self).tokens(),
            ({
                let end = program_from(
                    old(self).tokens(),
                    Program {
                        statements: Seq::empty(),
                        errors: Seq::empty(),
                        pos: old(self).position(),
                    },
                );
                &&& final(self).position() == end.pos
                &&& match r {
                    Ok(statements) => end.errors.len() == 0 && statements_view(statements@)
                        == end.statements,
                    Err(errors) => end.errors.len() > 0 && errors_view(errors@) == end.errors,
                }
            }),
            old(self).position() == 0 ==> parse_result(old(self).tokens(), r),
            kind_at(final(self).tokens(), final(self).position()) == Kind::EOF,
            r is Ok ==> crate::ast::all_well_formed(statements_view(r->Ok_0@)),
    {
        reveal(crate::grammar::program_from);
        let mut statements: Vec<Statement> = Vec::new();
        let mut errors: Vec<ErrorDetails> = Vec::new();
        let ghost toks = self.tokens();
        let ghost start = Program {
            statements: Seq::empty(),
            errors: Seq::empty(),
            pos: self.position(),
        };
        assert(statements_view(statements@) =~= Seq::empty());
        assert(errors_view(errors@) =~= Seq::empty());
        proof {
            crate::grammar::program_reaches_the_end(toks, start);
        }
        while !self.is_at_end()
            invariant
                self.follows(old(self)),
                toks == self.tokens(),
                program_from(
                    toks,
                    Program {
                        statements: statements_view(statements@),
                        errors: errors_view(errors@),
                        pos: self.position(),
                    },
                ) == program_from(toks, start),
            decreases self.tokens.len() - self.current,
        {
                reveal(crate::grammar::program_from);
            if self.match_one(Kind::EOL) {
                continue ;
            }
            match self.statement() {
                Ok(statement) => {
                    proof {
                        statements_view_push(statements@, statement);
                    }
                    statements.push(statement);
                },
                Err(error) => {
                    proof {
                        errors_view_push(errors@, error);
                    }
                    errors.push(error);
                    self.synchronize();
                },
            }
        }
        if errors.len() > 0 {
            Err(errors)
        } else {
            Ok(statements)
        }
    }

    /// Drops tokens until parsing can resume: up to the end of input, past
    /// an end of line, or up to a token that starts a statement.
    fn synchronize(&mut self)
        requires
            old(self).well_formed(),
        ensures
            final(self).follows(old(self)),
            final(self).current == synchronize(old(self).tokens(), old(self).current as int),
            kind_at(old(self).tokens(), old(self).current as int) != Kind::EOF ==> final(self).current > old(self).current,
    {
        let ghost toks = self.tokens();
        self.advance();
        while !self.is_at_end()
            invariant
                self.follows(old(self)),
                toks == self.tokens(),
                self.current >= 1 || kind_at(toks, 0) == Kind::EOF,
                kind_at(toks, old(self).current as int) != Kind::EOF ==> self.current > old(self).current,
                synchronize_from(toks, self.current as int) == synchronize(
                    toks,
                    old(self).current as int,
                ),
            decreases self.tokens.len() - self.current,
        {
            if self.previous().kind() == Kind::EOL {
                return ;
            }
            if Self::starts_statement(self.peek().kind()) {
                return ;
            }
            self.advance();
        }
    }

    fn starts_statement(kind: Kind) -> (r: bool)
        ensures
            r == starts_statement(kind),
    {
        match kind {
            Kind::Function | Kind::For | Kind::If | Kind::While | Kind::Return | Kind::Match
            | Kind::Delete => true,
            _ => false,
        }
    }

    fn advance(&mut self)
        requires
            old(self).well_formed(),
        ensures
            final(self).follows(old(self)),
            final(self).current == if kind_at(old(self).tokens(), old(self).current as int)
                == Kind::EOF {
                old(self).current as int
            } else {
                old(self).current + 1
            },
    {
        if !self.is_at_end() {
            self.current += 1;
        }
    }

    fn backtrack(&mut self)
        requires
            old(self).well_formed(),
        ensures
            final(self).well_formed(),
            final(self).tokens == old(self).tokens,
            final(self).current == if old(self).current == 0 {
                0
            } else {
                old(self).current - 1
            },
    {
        if self.current != 0 {
            self.current -= 1;
        }
    }

    fn previous(&self) -> (r: &Token)
        requires
            self.well_formed(),
            self.current >= 1,
        ensures
            r@ == self.tokens()[self.current - 1],
    {
        &self.tokens[self.current - 1]
    }

    fn is_at_end(&self) -> (r: bool)
        requires
            self.well_formed(),
        ensures
            r == (kind_at(self.tokens(), self.current as int) == Kind::EOF),
    {
        self.peek().kind() == Kind::EOF
    }

    fn peek(&self) -> (r: &Token)
        requires
            self.well_formed(),
        ensures
            r@ == self.tokens()[self.current as int],
            r@.kind == kind_at(self.tokens(), self.current as int),
    {
        &self.tokens[self.current]
    }

    fn match_one(&mut self, kind: Kind) -> (r: bool)
        requires
            old(self).well_formed(),
        ensures
            final(self).follows(old(self)),
            r == (kind != Kind::EOF && kind_at(old(self).tokens(), old(self).current as int)
                == kind),
            final(self).current == if r {
                old(self).current + 1
            } else {
                old(self).current as int
            },
    {
        if self.next_is(kind) {
            self.advance();
            return true;
        }
        false
    }

    fn match_any(&mut self, kinds: Vec<Kind>) -> (r: bool)
        requires
            old(self).well_formed(),
        ensures
            final(self).follows(old(self)),
            r == (kinds@.contains(kind_at(old(self).tokens(), old(self).current as int))
                && kind_at(old(self).tokens(), old(self).current as int) != Kind::EOF),
            final(self).current == if r {
                old(self).current + 1
            } else {
                old(self).current as int
            },
    {
        let mut i: usize = 0;
        while i < kinds.len()
            invariant
                i <= kinds.len(),
                *self == *old(self),
                self.well_formed(),
                forall|j: int|
                    0 <= j < i ==> !(kinds@[j] != Kind::EOF && kinds@[j] == kind_at(
                        self.tokens(),
                        self.current as int,
                    )),
            decreases kinds.len() - i,
        {
            if self.next_is(kinds[i]) {
                self.advance();
                return true;
            }
            i += 1;
        }
        false
    }

    fn next_is(&self, kind: Kind) -> (r: bool)
        requires
            self.well_formed(),
        ensures
            r == (kind != Kind::EOF && kind_at(self.tokens(), self.current as int) == kind),
    {
        if self.is_at_end() {
            return false;
        }
        self.peek().kind() == kind
    }

    fn ignore_empty_lines(&mut self)
        requires
            old(self).well_formed(),
        ensures
            final(self).follows(old(self)),
            final(self).current == skip_lines(old(self).tokens(), old(self).current as int),
    {
        while self.peek().kind() == Kind::EOL && !self.is_at_end()
            invariant
                self.follows(old(self)),
                skip_lines(self.tokens(), self.current as int) == skip_lines(
                    old(self).tokens(),
                    old(self).current as int,
                ),
            decreases self.tokens.len() - self.current,
        {
            self.advance();
        }
    }

    /// The diagnostic for a syntax error with `message` at `token`.
    fn report_parsing_error(message: String, token: &Token) -> (r: ErrorDetails)
        ensures
            r@ == syntax_error(message@, token@),
    {
        ErrorDetails::new(ErrorType::ParsingError, message, token.line(), token.column())
    }

    fn consume_or_report(&mut self, kind: Kind, error_message: String) -> (r: Result<
        Token,
        ErrorDetails,
    >)
        requires
            old(self).well_formed(),
        ensures
            final(self).follows(old(self)),
            token_outcome(r, final(self).current as int) == expect(
                old(self).tokens(),
                old(self).current as int,
                kind,
                error_message@,
            ),
    {
        if self.next_is(kind) {
            self.advance();
            return Ok(self.previous().copy());
        }
        Err(Self::report_parsing_error(error_message, self.peek()))
    }

    fn consume_eol_or_report(&mut self, error_message: String) -> (r: Result<(), ErrorDetails>)
        requires
            old(self).well_formed(),
        ensures
            final(self).follows(old(self)),
            (Outcome {
                result: match r {
                    Ok(_) => Ok(()),
                    Err(error) => Err(error@),
                },
                pos: final(self).current as int,
            }) == expect_line_end(old(self).tokens(), old(self).current as int, error_message@),
    {
        if self.peek().kind() == Kind::EOF || self.next_is(Kind::EOL) {
            self.advance();
            return Ok(());
        }
        Err(Self::report_parsing_error(error_message, self.peek()))
    }
}

impl Parser {
    /// `stmt = assignment | block | if | while | funcDecl | return | exprStmt`
    fn statement(&mut self) -> (r: Result<Statement, ErrorDetails>)
        requires
            old(self).well_formed(),
        ensures
            final(self).follows(old(self)),
            statement_outcome(r, final(self).current as int) == statement(
                old(self).tokens(),
                old(self).current as int,
            ),
            r is Ok ==> final(self).current > old(self).current,
        decreases old(self).tokens.len() - old(self).current, 50int,
    {
        reveal(crate::grammar::statement);
        reveal(crate::grammar::block_statement);
        reveal(crate::grammar::if_statement);
        reveal(crate::grammar::while_statement);
        reveal(crate::grammar::function_statement);
        if self.match_one(Kind::Identifier) {
            if self.peek().kind() == Kind::Equal {
                return self.assign_statement();
            } else {
                // if we are at an expression statement using an identifier,
                // it is already consumed by now, so we backtrack
                self.backtrack();
            }
        } else if self.match_one(Kind::LeftBrace) {
            return self.block_as_statement();
        } else if self.match_one(Kind::If) {
            return self.if_statement();
        } else if self.match_one(Kind::While) {
            return self.while_statement();
        } else if self.match_one(Kind::Function) {
            return self.function_statement();
        } else if self.match_one(Kind::Return) {
            return self.return_statement();
        }
        self.expression_statement()
    }

    /// `assignment = IDENT '=' (emptyInit | expr) EOL`, with the identifier
    /// just consumed and the `=` next.
    fn assign_statement(&mut self) -> (r: Result<Statement, ErrorDetails>)
        requires
            old(self).well_formed(),
            old(self).current >= 1,
            kind_at(old(self).tokens(), old(self).current as int) == Kind::Equal,
        ensures
            final(self).follows(old(self)),
            statement_outcome(r, final(self).current as int) == assign_statement(
                old(self).tokens(),
                old(self).current - 1,
            ),
        decreases old(self).tokens.len() - old(self).current, 45int,
    {
        reveal(crate::grammar::assign_statement);
        let ident = self.previous().copy();
        self.advance();
        let parsed = if self.match_one(Kind::Empty) {
            self.empty_type()
        } else {
            self.expression()
        };
        let value = match parsed {
            Ok(value) => value,
            Err(error) => return Err(error),
        };
        match self.consume_eol_or_report("Line must end after an assignment".to_string()) {
            Ok(_) => Ok(Statement::Assignment { ident, value }),
            Err(error) => Err(error),
        }
    }

    /// `emptyInit = 'empty' [ '(' ('boolean'|'number') ')' ]`, with the
    /// `empty` just consumed.
    fn empty_type(&mut self) -> (r: Result<Expr, ErrorDetails>)
        requires
            old(self).well_formed(),
            old(self).current >= 1,
        ensures
            final(self).follows(old(self)),
            expr_outcome(r, final(self).current as int) == empty_type(
                old(self).tokens(),
                old(self).current as int,
            ),
    {
        reveal(crate::grammar::empty_type);
        if !self.match_one(Kind::LeftParen) {
            return Ok(Expr::Primary { value: self.previous().copy() });
        }
        if !self.match_any(vec![Kind::Boolean, Kind::Number]) {
            if self.peek().kind() == Kind::String {
                return Err(
                    Self::report_parsing_error(
                        "Empty string variables must be initialized with `\"\"`".to_string(),
                        self.peek(),
                    ),
                );
            } else {
                return Err(
                    Self::report_parsing_error(
                        "Empty variables must be initialized with `empty(boolean)`, `empty(number)`, or an empty string `\"\"`".to_string(),
                        self.peek(),
                    ),
                );
            }
        }
        let primary_type = self.previous().copy();
        let result = Expr::Primary { value: primary_type };
        match self.consume_or_report(
            Kind::RightParen,
            "Expected a closing `)` after empty variable assignment".to_string(),
        ) {
            Ok(_) => Ok(result),
            Err(error) => Err(error),
        }
    }

    /// `block = '{' EOL { stmt | EOL } '}'`, with the `{` just consumed.
    fn block_statement(&mut self) -> (r: Result<Vec<Statement>, ErrorDetails>)
        requires
            old(self).well_formed(),
        ensures
            final(self).follows(old(self)),
            block_outcome(r, final(self).current as int) == block(
                old(self).tokens(),
                old(self).current as int,
            ),
        decreases old(self).tokens.len() - old(self).current, 52int,
    {
        reveal(crate::grammar::block);
        reveal(crate::grammar::block_items);
        reveal(crate::grammar::statement);
        let ghost toks = self.tokens();
        match self.consume_or_report(
            Kind::EOL,
            "Expected new line after block start".to_string(),
        ) {
            Ok(_) => {},
            Err(error) => return Err(error),
        }
        let mut statements: Vec<Statement> = Vec::new();
        assert(statements_view(statements@) =~= Seq::empty());
        while !self.next_is(Kind::RightBrace) && !self.is_at_end()
            invariant
                self.follows(old(self)),
                self.current > old(self).current,
                toks == self.tokens(),
                toks == old(self).tokens(),
                kind_at(toks, old(self).current as int) == Kind::EOL,
                block_items(toks, self.current as int, statements_view(statements@))
                    == block_items(toks, old(self).current + 1, Seq::empty()),
            decreases self.tokens.len() - self.current,
        {
                reveal(crate::grammar::block);
                reveal(crate::grammar::block_items);
                reveal(crate::grammar::statement);
            if self.match_one(Kind::EOL) {
                continue ;
            }
            match self.statement() {
                Ok(statement) => {
                    proof {
                        statements_view_push(statements@, statement);
                    }
                    statements.push(statement);
                },
                Err(error) => return Err(error),
            }
        }
        match self.consume_or_report(
            Kind::RightBrace,
            "Expected a closing `}` after block statement".to_string(),
        ) {
            Ok(_) => Ok(statements),
            Err(error) => Err(error),
        }
    }

    /// A block as a statement, with the `{` just consumed.
    fn block_as_statement(&mut self) -> (r: Result<Statement, ErrorDetails>)
        requires
            old(self).well_formed(),
        ensures
            final(self).follows(old(self)),
            statement_outcome(r, final(self).current as int) == block_statement(
                old(self).tokens(),
                old(self).current as int,
            ),
        decreases old(self).tokens.len() - old(self).current, 53int,
    {
        reveal(crate::grammar::block_statement);
        reveal(crate::grammar::block);
        match self.block_statement() {
            Ok(statements) => {
                proof {
                    block_view(statements);
                }
                Ok(Statement::Block { statements })
            },
            Err(error) => Err(error),
        }
    }

    /// `if = 'if' expr '{' … '}' [ {EOL} 'else' (if | '{' … '}') ]`, with
    /// the `if` just consumed.
    fn if_statement(&mut self) -> (r: Result<Statement, ErrorDetails>)
        requires
            old(self).well_formed(),
        ensures
            final(self).follows(old(self)),
            statement_outcome(r, final(self).current as int) == if_statement(
                old(self).tokens(),
                old(self).current as int,
            ),
        decreases old(self).tokens.len() - old(self).current, 40int,
    {
        reveal(crate::grammar::if_statement);
        reveal(crate::grammar::else_branch);
        reveal(crate::grammar::block_statement);
        let ghost toks = self.tokens();
        let condition = match self.expression() {
            Ok(condition) => condition,
            Err(error) => return Err(error),
        };
        match self.consume_or_report(
            Kind::LeftBrace,
            "Expected an opening `{{` after the condition in an `if` statement".to_string(),
        ) {
            Ok(_) => {},
            Err(error) => return Err(error),
        }
        let then_branch = match self.block_as_statement() {
            Ok(block) => block,
            Err(error) => return Err(error),
        };
        let mut else_branch: Option<Box<Statement>> = None;
        let ghost floor = self.current as int;
        self.ignore_empty_lines();
        if self.match_one(Kind::Else) {
            if self.match_one(Kind::If) {
                match self.if_statement() {
                    Ok(other) => {
                        else_branch = Some(Box::new(other));
                    },
                    Err(error) => return Err(error),
                }
            } else {
                match self.consume_or_report(
                    Kind::LeftBrace,
                    "Expected an opening `{{` after the `else` keyword".to_string(),
                ) {
                    Ok(_) => {},
                    Err(error) => return Err(error),
                }
                match self.block_as_statement() {
                    Ok(other) => {
                        else_branch = Some(Box::new(other));
                    },
                    Err(error) => return Err(error),
                }
            }
        }
        Ok(Statement::If { condition, then: Box::new(then_branch), otherwise: else_branch })
    }

    /// `while = 'while' expr '{' … '}'`, with the `while` just consumed.
    fn while_statement(&mut self) -> (r: Result<Statement, ErrorDetails>)
        requires
            old(self).well_formed(),
        ensures
            final(self).follows(old(self)),
            statement_outcome(r, final(self).current as int) == while_statement(
                old(self).tokens(),
                old(self).current as int,
            ),
        decreases old(self).tokens.len() - old(self).current, 40int,
    {
        reveal(crate::grammar::while_statement);
        reveal(crate::grammar::block_statement);
        let condition = match self.expression() {
            Ok(condition) => condition,
            Err(error) => return Err(error),
        };
        match self.consume_or_report(
            Kind::LeftBrace,
            "Expected an opening `{{` after the condition in a `while` statement".to_string(),
        ) {
            Ok(_) => {},
            Err(error) => return Err(error),
        }
        match self.block_as_statement() {
            Ok(body) => Ok(Statement::While { condition, body: Box::new(body) }),
            Err(error) => Err(error),
        }
    }

    /// `funcDecl = 'f' IDENT '(' [ IDENT { ',' IDENT } ] ')' '{' … '}'`,
    /// with the `f` just consumed.
    fn function_statement(&mut self) -> (r: Result<Statement, ErrorDetails>)
        requires
            old(self).well_formed(),
        ensures
            final(self).follows(old(self)),
            statement_outcome(r, final(self).current as int) == function_statement(
                old(self).tokens(),
                old(self).current as int,
            ),
        decreases old(self).tokens.len() - old(self).current, 54int,
    {
        reveal(crate::grammar::function_statement);
        reveal(crate::grammar::function_body);
        reveal(crate::grammar::parameters);
        reveal(crate::grammar::block);
        let ghost toks = self.tokens();
        let name = match self.consume_or_report(
            Kind::Identifier,
            "Expected a function name".to_string(),
        ) {
            Ok(name) => name,
            Err(error) => return Err(error),
        };
        let mut paren_message = "Expected an opening `(` after the name of the function ".to_string();
        paren_message.append(name.lexeme());
        match self.consume_or_report(Kind::LeftParen, paren_message) {
            Ok(_) => {},
            Err(error) => return Err(error),
        }
        let mut parameters: Vec<Token> = Vec::new();
        assert(tokens_view(parameters@) =~= Seq::empty());
        if !self.next_is(Kind::RightParen) {
            let ghost message = function_parameter_message(name@.lexeme);
            loop
                invariant_except_break
                    crate::grammar::parameters(
                        toks,
                        self.current as int,
                        message,
                        tokens_view(parameters@),
                    ) == crate::grammar::parameters(
                        toks,
                        old(self).current + 2,
                        message,
                        Seq::empty(),
                    ),
                invariant
                    self.follows(old(self)),
                    self.current >= old(self).current + 2,
                    toks == self.tokens(),
                    toks == old(self).tokens(),
                    message == function_parameter_message(name@.lexeme),
                    kind_at(toks, old(self).current as int) == Kind::Identifier,
                    name@ == toks[old(self).current as int],
                    kind_at(toks, old(self).current + 1) == Kind::LeftParen,
                    kind_at(toks, old(self).current + 2) != Kind::RightParen,
                ensures
                    self.follows(old(self)),
                    self.current >= old(self).current + 2,
                    crate::grammar::parameters(toks, old(self).current + 2, message, Seq::empty()) == accept(
                        tokens_view(parameters@),
                        self.current as int,
                    ),
                decreases self.tokens.len() - self.current,
            {
                    reveal(crate::grammar::function_statement);
                    reveal(crate::grammar::function_body);
                    reveal(crate::grammar::parameters);
                    reveal(crate::grammar::block);
                let mut error_message = "Expected parameter name for function ".to_string();
                error_message.append(name.lexeme());
                match self.consume_or_report(Kind::Identifier, error_message) {
                    Ok(parameter) => {
                        proof {
                            tokens_view_push(parameters@, parameter);
                        }
                        parameters.push(parameter);
                    },
                    Err(error) => return Err(error),
                }
                if !self.match_one(Kind::Comma) {
                    break ;
                }
            }
        }
        let mut closing_message = "Expected a closing `)` after the ".to_string();
        closing_message.append(
            if parameters.len() == 1 {
                "parameter"
            } else if parameters.len() > 1 {
                "parameters"
            } else {
                "opening `(`"
            },
        );
        match self.consume_or_report(Kind::RightParen, closing_message) {
            Ok(_) => {},
            Err(error) => return Err(error),
        }
        let mut body_message = "Expected an opening `{` for the declaration of `".to_string();
        body_message.append(name.lexeme());
        body_message.append("`'s body");
        match self.consume_or_report(Kind::LeftBrace, body_message) {
            Ok(_) => {},
            Err(error) => return Err(error),
        }
        match self.block_statement() {
            Ok(body) => {
                proof {
                    function_view(name, parameters, body);
                }
                Ok(Statement::FunctionDeclaration { ident: name, params: parameters, body })
            },
            Err(error) => Err(error),
        }
    }

    /// `return = 'return' expr EOL`, with the `return` just consumed.
    fn return_statement(&mut self) -> (r: Result<Statement, ErrorDetails>)
        requires
            old(self).well_formed(),
        ensures
            final(self).follows(old(self)),
            statement_outcome(r, final(self).current as int) == return_statement(
                old(self).tokens(),
                old(self).current as int,
            ),
        decreases old(self).tokens.len() - old(self).current, 45int,
    {
        reveal(crate::grammar::return_statement);
        let expr = match self.expression() {
            Ok(expr) => expr,
            Err(error) => return Err(error),
        };
        match self.consume_eol_or_report("Line must end after a return statement".to_string()) {
            Ok(_) => Ok(Statement::Return { expr }),
            Err(error) => Err(error),
        }
    }

    /// `exprStmt = expr EOL`
    fn expression_statement(&mut self) -> (r: Result<Statement, ErrorDetails>)
        requires
            old(self).well_formed(),
        ensures
            final(self).follows(old(self)),
            statement_outcome(r, final(self).current as int) == expression_statement(
                old(self).tokens(),
                old(self).current as int,
            ),
            r is Ok ==> final(self).current > old(self).current,
        decreases old(self).tokens.len() - old(self).current, 45int,
    {
        reveal(crate::grammar::expression_statement);
        let expr = match self.expression() {
            Ok(expr) => expr,
            Err(error) => return Err(error),
        };
        match self.consume_eol_or_report(
            "Line must end after an expression statement".to_string(),
        ) {
            Ok(_) => Ok(Statement::Expr { expr }),
            Err(error) => Err(error),
        }
    }

    /// `expr = or`
    fn expression(&mut self) -> (r: Result<Expr, ErrorDetails>)
        requires
            old(self).well_formed(),
        ensures
            final(self).follows(old(self)),
            expr_outcome(r, final(self).current as int) == expression(
                old(self).tokens(),
                old(self).current as int,
            ),
            r is Ok ==> final(self).current > old(self).current,
        decreases old(self).tokens.len() - old(self).current, 30int,
    {
        reveal(crate::grammar::expression);
        reveal(crate::grammar::binary);
        self.binary(0)
    }

    fn level_has(level: u8, kind: Kind) -> (r: bool)
        ensures
            r == level_has(level as int, kind),
    {
        if level == 0 {
            kind == Kind::Or
        } else if level == 1 {
            kind == Kind::And
        } else if level == 2 {
            kind == Kind::BangEqual || kind == Kind::EqualEqual
        } else if level == 3 {
            kind == Kind::GreaterEqual || kind == Kind::Greater || kind == Kind::LessEqual || kind
                == Kind::Less
        } else if level == 4 {
            kind == Kind::Minus || kind == Kind::Plus
        } else if level == 5 {
            kind == Kind::Percent
        } else if level == 6 {
            kind == Kind::Slash || kind == Kind::Star
        } else if level == 7 {
            kind == Kind::Caret
        } else {
            false
        }
    }

    /// One precedence level of binary operators; see [`binary`].
    fn binary(&mut self, level: u8) -> (r: Result<Expr, ErrorDetails>)
        requires
            old(self).well_formed(),
            level <= 8,
        ensures
            final(self).follows(old(self)),
            expr_outcome(r, final(self).current as int) == binary(
                old(self).tokens(),
                old(self).current as int,
                level as int,
            ),
            r is Ok ==> final(self).current > old(self).current,
        decreases old(self).tokens.len() - old(self).current, 29 - 2 * level,
    {
        reveal(crate::grammar::binary);
        reveal(crate::grammar::binary_rest);
        reveal(crate::grammar::unary);
        let ghost toks = self.tokens();
        if level >= 8 {
            return self.unary();
        }
        if level == 3 && self.match_one(Kind::Empty) {
            return Ok(Expr::Primary { value: self.previous().copy() });
        }
        let mut expr = match self.binary(level + 1) {
            Ok(expr) => expr,
            Err(error) => return Err(error),
        };
        while Self::level_has(level, self.peek().kind())
            invariant
                self.follows(old(self)),
                self.current > old(self).current,
                level < 8,
                toks == self.tokens(),
                binary_rest(toks, self.current as int, level as int, expr@) == binary(
                    toks,
                    old(self).current as int,
                    level as int,
                ),
            decreases self.tokens.len() - self.current,
        {
                reveal(crate::grammar::binary);
                reveal(crate::grammar::binary_rest);
                reveal(crate::grammar::unary);
            self.advance();
            let operator = self.previous().copy();
            let right = match self.binary(level + 1) {
                Ok(right) => right,
                Err(error) => return Err(error),
            };
            expr =
            Expr::Binary { left_expr: Box::new(expr), operator, right_expr: Box::new(right) };
        }
        Ok(expr)
    }

    /// `unary = ('-'|'!') unary | call`
    fn unary(&mut self) -> (r: Result<Expr, ErrorDetails>)
        requires
            old(self).well_formed(),
        ensures
            final(self).follows(old(self)),
            expr_outcome(r, final(self).current as int) == unary(
                old(self).tokens(),
                old(self).current as int,
            ),
            r is Ok ==> final(self).current > old(self).current,
        decreases old(self).tokens.len() - old(self).current, 9int,
    {
        reveal(crate::grammar::unary);
        reveal(crate::grammar::call);
        if self.match_any(vec![Kind::Minus, Kind::Bang]) {
            let operator = self.previous().copy();
            return match self.unary() {
                Ok(expr) => Ok(Expr::Unary { operator, expr: Box::new(expr) }),
                Err(error) => Err(error),
            };
        }
        self.call()
    }

    /// `call = primary { '(' [ expr { ',' expr } ] ')' }`
    fn call(&mut self) -> (r: Result<Expr, ErrorDetails>)
        requires
            old(self).well_formed(),
        ensures
            final(self).follows(old(self)),
            expr_outcome(r, final(self).current as int) == call(
                old(self).tokens(),
                old(self).current as int,
            ),
            r is Ok ==> final(self).current > old(self).current,
        decreases old(self).tokens.len() - old(self).current, 8int,
    {
        reveal(crate::grammar::call);
        reveal(crate::grammar::call_rest);
        reveal(crate::grammar::primary);
        reveal(crate::grammar::finish_call);
        let ghost toks = self.tokens();
        let mut expr = match self.primary() {
            Ok(expr) => expr,
            Err(error) => return Err(error),
        };
        loop
            invariant_except_break
                call_rest(toks, self.current as int, expr@) == call(
                    toks,
                    old(self).current as int,
                ),
            invariant
                self.follows(old(self)),
                self.current > old(self).current,
                toks == self.tokens(),
            ensures
                self.follows(old(self)),
                self.current > old(self).current,
                expr_outcome(Ok(expr), self.current as int) == call(
                    toks,
                    old(self).current as int,
                ),
            decreases self.tokens.len() - self.current,
        {
                reveal(crate::grammar::call);
                reveal(crate::grammar::call_rest);
                reveal(crate::grammar::primary);
                reveal(crate::grammar::finish_call);
            if self.match_one(Kind::LeftParen) {
                expr = match self.finish_call(expr) {
                    Ok(expr) => expr,
                    Err(error) => return Err(error),
                };
            } else {
                break ;
            }
        }
        Ok(expr)
    }

    /// One argument list, with its `(` just consumed.
    fn finish_call(&mut self, expr: Expr) -> (r: Result<Expr, ErrorDetails>)
        requires
            old(self).well_formed(),
            old(self).current >= 1,
        ensures
            final(self).follows(old(self)),
            expr_outcome(r, final(self).current as int) == finish_call(
                old(self).tokens(),
                old(self).current as int,
                expr@,
            ),
            r is Ok ==> final(self).current > old(self).current,
        decreases old(self).tokens.len() - old(self).current, 32int,
    {
        reveal(crate::grammar::finish_call);
        reveal(crate::grammar::arguments);
        reveal(crate::grammar::expression);
        let ghost toks = self.tokens();
        let mut arguments: Vec<Expr> = Vec::new();
        assert(exprs_view(arguments@) =~= Seq::empty());
        if !self.next_is(Kind::RightParen) {
            loop
                invariant_except_break
                    crate::grammar::arguments(toks, self.current as int, exprs_view(arguments@))
                        == crate::grammar::arguments(toks, old(self).current as int, Seq::empty()),
                invariant
                    self.follows(old(self)),
                    toks == self.tokens(),
                    toks == old(self).tokens(),
                    kind_at(toks, old(self).current as int) != Kind::RightParen,
                ensures
                    self.follows(old(self)),
                    crate::grammar::arguments(toks, old(self).current as int, Seq::empty()) == accept(
                        exprs_view(arguments@),
                        self.current as int,
                    ),
                decreases self.tokens.len() - self.current,
            {
                    reveal(crate::grammar::finish_call);
                    reveal(crate::grammar::arguments);
                    reveal(crate::grammar::expression);
                match self.expression() {
                    Ok(argument) => {
                        proof {
                            exprs_view_push(arguments@, argument);
                        }
                        arguments.push(argument);
                    },
                    Err(error) => return Err(error),
                }
                if !self.match_one(Kind::Comma) {
                    break ;
                }
            }
        }
        let mut message = "Expected a closing `)` after the ".to_string();
        message.append(
            if arguments.len() == 1 {
                "argument"
            } else if arguments.len() > 1 {
                "arguments"
            } else {
                "opening `(`"
            },
        );
        match self.consume_or_report(Kind::RightParen, message) {
            Ok(closing_paren) => {
                proof {
                    call_view(expr, closing_paren, arguments);
                }
                Ok(Expr::Call { callee: Box::new(expr), closing_paren, arguments })
            },
            Err(error) => Err(error),
        }
    }

    /// `primary = 'true' | 'false' | NUMBER | STRING | IDENT | '(' expr ')'`
    fn primary(&mut self) -> (r: Result<Expr, ErrorDetails>)
        requires
            old(self).well_formed(),
        ensures
            final(self).follows(old(self)),
            expr_outcome(r, final(self).current as int) == primary(
                old(self).tokens(),
                old(self).current as int,
            ),
            r is Ok ==> final(self).current > old(self).current,
        decreases old(self).tokens.len() - old(self).current, 7int,
    {
        reveal(crate::grammar::primary);
        reveal(crate::grammar::expression);
        if self.match_any(vec![Kind::False, Kind::True]) {
            return Ok(Expr::Primary { value: self.previous().copy() });
        }
        match self.peek().kind() {
            Kind::StringLiteral | Kind::NumberLiteral => {
                self.advance();
                return Ok(Expr::Primary { value: self.previous().copy() });
            },
            Kind::Identifier | Kind::Out | Kind::Ask | Kind::Size | Kind::Cmd => {
                self.advance();
                return Ok(Expr::Variable { name: self.previous().copy() });
            },
            _ => (),
        }
        if self.match_one(Kind::LeftParen) {
            let expr = match self.expression() {
                Ok(expr) => expr,
                Err(error) => return Err(error),
            };
            return match self.consume_or_report(
                Kind::RightParen,
                "Expected a closing `)` after expression".to_string(),
            ) {
                Ok(_) => Ok(Expr::Grouping { expr: Box::new(expr) }),
                Err(error) => Err(error),
            };
        }
        let peek = self.peek();
        match peek.kind() {
            Kind::Empty => Err(
                Self::report_parsing_error(
                    "The `empty` keyword can only be used in variable declarations or assignments".to_string(),
                    peek,
                ),
            ),
            _ => {
                let mut message = "Unexpected token `".to_string();
                if str_eq(peek.lexeme(), "\n") {
                    message.append("EOL");
                } else {
                    message.append(peek.lexeme());
                }
                message.append("`");
                Err(Self::report_parsing_error(message, peek))
            },
        }
    }
}

} // verus!
