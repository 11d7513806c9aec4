//! The grammar, as a function from tokens to syntax trees.
//!
//! Every function reads the token list from a position on and yields what
//! it recognised (or the one diagnostic that stopped it) together with the
//! position it reached.
//!
//! A function that goes on from a position which another function reached
//! first asks that this position lies ahead of its own and inside the list.
//! That question bounds the recursion. In a list that ends with the
//! end-of-input token positions only grow, as the lemmas at the end of this
//! file show, so the answer is always yes and [`stalled`] is never the
//! result.

use crate::ast::{all_well_formed, ExprView, StatementView};
use crate::errors::{ErrorDetailsView, ErrorType};
use crate::token::{Kind, TokenView};
use vstd::prelude::*;

verus! {

/// What a grammar function recognised, and where it stopped.
pub struct Outcome<T> {
    pub result: Result<T, ErrorDetailsView>,
    pub pos: int,
}

/// The kind of the token at `pos`; end of input beyond the list.
pub open spec fn kind_at(toks: Seq<TokenView>, pos: int) -> Kind {
    if 0 <= pos < toks.len() {
        toks[pos].kind
    } else {
        Kind::EOF
    }
}

/// A syntax error with `message`, anchored at `token`.
pub open spec fn syntax_error(message: Seq<char>, token: TokenView) -> ErrorDetailsView {
    ErrorDetailsView {
        error_type: ErrorType::ParsingError,
        message,
        line: token.line,
        column: token.column,
    }
}

/// Success with `value`, stopped at `pos`.
pub open spec fn accept<T>(value: T, pos: int) -> Outcome<T> {
    Outcome { result: Ok(value), pos }
}

/// Failure with `message` at the token at `pos`, stopped at `pos`.
pub open spec fn reject<T>(toks: Seq<TokenView>, pos: int, message: Seq<char>) -> Outcome<T> {
    Outcome { result: Err(syntax_error(message, toks[pos])), pos }
}

/// What is yielded where a position has not moved ahead: a failure without a message.
pub open spec fn stalled<T>(toks: Seq<TokenView>, pos: int) -> Outcome<T> {
    reject(toks, pos, Seq::empty())
}

/// The same failure, for another kind of result.
pub open spec fn propagate<T, U>(error: ErrorDetailsView, pos: int) -> Outcome<U> {
    Outcome { result: Err(error), pos }
}

/// Consumes one token of `kind`, or fails with `message`.
pub open spec fn expect(toks: Seq<TokenView>, pos: int, kind: Kind, message: Seq<char>) -> Outcome<
    TokenView,
> {
    if kind != Kind::EOF && kind_at(toks, pos) == kind {
        accept(toks[pos], pos + 1)
    } else {
        reject(toks, pos, message)
    }
}

/// The end of a line: consumes an end-of-line token, accepts the end of
/// input without consuming it, and fails with `message` on anything else.
pub open spec fn expect_line_end(toks: Seq<TokenView>, pos: int, message: Seq<char>) -> Outcome<()> {
    if kind_at(toks, pos) == Kind::EOF {
        accept((), pos)
    } else if kind_at(toks, pos) == Kind::EOL {
        accept((), pos + 1)
    } else {
        reject(toks, pos, message)
    }
}

/// The binary operators of each precedence level, lowest first: `or`; `and`;
/// `== !=`; `< > <= >=`; `+ -`; `%`; `* /`; `^`.
pub open spec fn level_has(level: int, kind: Kind) -> bool {
    if level == 0 {
        kind == Kind::Or
    } else if level == 1 {
        kind == Kind::And
    } else if level == 2 {
        kind == Kind::BangEqual || kind == Kind::EqualEqual
    } else if level == 3 {
        kind == Kind::GreaterEqual || kind == Kind::Greater || kind == Kind::LessEqual || kind
            == Kind::Less
    } else if level == 4 {
        kind == Kind::Minus || kind == Kind::Plus
    } else if level == 5 {
        kind == Kind::Percent
    } else if level == 6 {
        kind == Kind::Slash || kind == Kind::Star
    } else if level == 7 {
        kind == Kind::Caret
    } else {
        false
    }
}

/// The number of binary precedence levels.
pub open spec fn levels() -> int {
    8
}

/// The level of the comparison operators, where a bare `empty` may stand.
pub open spec fn comparison_level() -> int {
    3
}

/// Whether a keyword names one of the built-in functions and so may stand
/// where a variable may.
pub open spec fn names_builtin(kind: Kind) -> bool {
    kind == Kind::Out || kind == Kind::Ask || kind == Kind::Size || kind == Kind::Cmd
}

/// The message for a token that starts no expression; an end of line is named `EOL`.
pub open spec fn unexpected_token(lexeme: Seq<char>) -> Seq<char> {
    "Unexpected token `"@ + (if lexeme == "\n"@ {
        "EOL"@
    } else {
        lexeme
    }) + "`"@
}

/// The message for an argument list that is not closed, by the number of its arguments.
pub open spec fn closing_paren_message(count: nat) -> Seq<char> {
    "Expected a closing `)` after the "@ + (if count == 1 {
        "argument"@
    } else if count > 1 {
        "arguments"@
    } else {
        "opening `(`"@
    })
}

/// The message for a parameter list that is not closed, by the number of its parameters.
pub open spec fn closing_params_message(count: nat) -> Seq<char> {
    "Expected a closing `)` after the "@ + (if count == 1 {
        "parameter"@
    } else if count > 1 {
        "parameters"@
    } else {
        "opening `(`"@
    })
}

/// `expr = or`
#[verifier::opaque]
pub open spec fn expression(toks: Seq<TokenView>, pos: int) -> Outcome<ExprView>
    decreases toks.len() - pos, 30int,
{
    binary(toks, pos, 0)
}

/// One precedence level: an operand of the next level, then any number of
/// this level's operators, each with another operand, grouped to the left.
/// At the comparison level a bare `empty` is an operand that takes no
/// comparison after it. Beyond the last level stands `unary`.
#[verifier::opaque]
pub open spec fn binary(toks: Seq<TokenView>, pos: int, level: int) -> Outcome<ExprView>
    decreases toks.len() - pos, (if 0 <= level <= 8 {
        29 - 2 * level
    } else {
        13
    }),
{
    if level < 0 || level >= levels() {
        unary(toks, pos)
    } else if level == comparison_level() && kind_at(toks, pos) == Kind::Empty {
        accept(ExprView::Primary { value: toks[pos] }, pos + 1)
    } else {
        let first = binary(toks, pos, level + 1);
        match first.result {
            Err(_) => first,
            Ok(left) => if pos <= first.pos <= toks.len() {
                binary_rest(toks, first.pos, level, left)
            } else {
                first
            },
        }
    }
}

/// The operators of `level` that follow the operand `left`.
#[verifier::opaque]
pub open spec fn binary_rest(toks: Seq<TokenView>, pos: int, level: int, left: ExprView) -> Outcome<
    ExprView,
>
    decreases toks.len() - pos, (if 0 <= level <= 8 {
        28 - 2 * level
    } else {
        12
    }),
{
    if 0 <= level < levels() && level_has(level, kind_at(toks, pos)) {
        let second = binary(toks, pos + 1, level + 1);
        match second.result {
            Err(_) => second,
            Ok(right) => {
                let joined = ExprView::Binary {
                    left_expr: Box::new(left),
                    operator: toks[pos],
                    right_expr: Box::new(right),
                };
                if pos < second.pos <= toks.len() {
                    binary_rest(toks, second.pos, level, joined)
                } else {
                    accept(joined, second.pos)
                }
            },
        }
    } else {
        accept(left, pos)
    }
}

/// `unary = ('-'|'!') unary | call`
#[verifier::opaque]
pub open spec fn unary(toks: Seq<TokenView>, pos: int) -> Outcome<ExprView>
    decreases toks.len() - pos, 9int,
{
    if kind_at(toks, pos) == Kind::Minus || kind_at(toks, pos) == Kind::Bang {
        let inner = unary(toks, pos + 1);
        match inner.result {
            Err(_) => inner,
            Ok(expr) => accept(
                ExprView::Unary { operator: toks[pos], expr: Box::new(expr) },
                inner.pos,
            ),
        }
    } else {
        call(toks, pos)
    }
}

/// `call = primary { '(' [ expr { ',' expr } ] ')' }`
#[verifier::opaque]
pub open spec fn call(toks: Seq<TokenView>, pos: int) -> Outcome<ExprView>
    decreases toks.len() - pos, 8int,
{
    let first = primary(toks, pos);
    match first.result {
        Err(_) => first,
        Ok(callee) => if pos <= first.pos <= toks.len() {
            call_rest(toks, first.pos, callee)
        } else {
            first
        },
    }
}

/// The argument lists that follow `callee`.
#[verifier::opaque]
pub open spec fn call_rest(toks: Seq<TokenView>, pos: int, callee: ExprView) -> Outcome<ExprView>
    decreases toks.len() - pos, 6int,
{
    if kind_at(toks, pos) == Kind::LeftParen {
        let made = finish_call(toks, pos + 1, callee);
        match made.result {
            Err(_) => made,
            Ok(expr) => if pos < made.pos <= toks.len() {
                call_rest(toks, made.pos, expr)
            } else {
                made
            },
        }
    } else {
        accept(callee, pos)
    }
}

/// One argument list, from just after its `(` to its `)`.
#[verifier::opaque]
pub open spec fn finish_call(toks: Seq<TokenView>, pos: int, callee: ExprView) -> Outcome<ExprView>
    decreases toks.len() - pos, 32int,
{
    let listed = if kind_at(toks, pos) == Kind::RightParen {
        accept(Seq::<ExprView>::empty(), pos)
    } else {
        arguments(toks, pos, Seq::empty())
    };
    match listed.result {
        Err(error) => propagate::<Seq<ExprView>, ExprView>(error, listed.pos),
        Ok(values) => {
            let closing = expect(
                toks,
                listed.pos,
                Kind::RightParen,
                closing_paren_message(values.len()),
            );
            match closing.result {
                Err(error) => propagate::<TokenView, ExprView>(error, closing.pos),
                Ok(paren) => accept(
                    ExprView::Call {
                        callee: Box::new(callee),
                        closing_paren: paren,
                        arguments: values,
                    },
                    closing.pos,
                ),
            }
        },
    }
}

/// `expr { ',' expr }`, added to the arguments read so far.
#[verifier::opaque]
pub open spec fn arguments(toks: Seq<TokenView>, pos: int, so_far: Seq<ExprView>) -> Outcome<
    Seq<ExprView>,
>
    decreases toks.len() - pos, 31int,
{
    let one = expression(toks, pos);
    match one.result {
        Err(error) => propagate::<ExprView, Seq<ExprView>>(error, one.pos),
        Ok(value) => if kind_at(toks, one.pos) == Kind::Comma && pos <= one.pos < toks.len() {
            arguments(toks, one.pos + 1, so_far.push(value))
        } else {
            accept(so_far.push(value), one.pos)
        },
    }
}

/// `primary = 'true' | 'false' | NUMBER | STRING | IDENT | '(' expr ')'`,
/// where the keywords that name built-in functions count as identifiers.
#[verifier::opaque]
pub open spec fn primary(toks: Seq<TokenView>, pos: int) -> Outcome<ExprView>
    decreases toks.len() - pos, 7int,
{
    let kind = kind_at(toks, pos);
    if kind == Kind::False || kind == Kind::True || kind == Kind::StringLiteral || kind
        == Kind::NumberLiteral {
        accept(ExprView::Primary { value: toks[pos] }, pos + 1)
    } else if kind == Kind::Identifier || names_builtin(kind) {
        accept(ExprView::Variable { name: toks[pos] }, pos + 1)
    } else if kind == Kind::LeftParen {
        let inner = expression(toks, pos + 1);
        match inner.result {
            Err(_) => inner,
            Ok(expr) => {
                let closing = expect(
                    toks,
                    inner.pos,
                    Kind::RightParen,
                    "Expected a closing `)` after expression"@,
                );
                match closing.result {
                    Err(error) => propagate::<TokenView, ExprView>(error, closing.pos),
                    Ok(_) => accept(ExprView::Grouping { expr: Box::new(expr) }, closing.pos),
                }
            },
        }
    } else if kind == Kind::Empty {
        reject(
            toks,
            pos,
            "The `empty` keyword can only be used in variable declarations or assignments"@,
        )
    } else {
        reject(toks, pos, unexpected_token(toks[pos].lexeme))
    }
}

/// `emptyInit = 'empty' [ '(' ('boolean'|'number') ')' ]`, from just after
/// the `empty`: the bare keyword, or the name of the type.
#[verifier::opaque]
pub open spec fn empty_type(toks: Seq<TokenView>, pos: int) -> Outcome<ExprView> {
    if kind_at(toks, pos) != Kind::LeftParen {
        accept(ExprView::Primary { value: toks[pos - 1] }, pos)
    } else if kind_at(toks, pos + 1) == Kind::Boolean || kind_at(toks, pos + 1) == Kind::Number {
        let closing = expect(
            toks,
            pos + 2,
            Kind::RightParen,
            "Expected a closing `)` after empty variable assignment"@,
        );
        match closing.result {
            Err(error) => propagate::<TokenView, ExprView>(error, closing.pos),
            Ok(_) => accept(ExprView::Primary { value: toks[pos + 1] }, closing.pos),
        }
    } else if kind_at(toks, pos + 1) == Kind::String {
        reject(toks, pos + 1, "Empty string variables must be initialized with `\"\"`"@)
    } else {
        reject(
            toks,
            pos + 1,
            "Empty variables must be initialized with `empty(boolean)`, `empty(number)`, or an empty string `\"\"`"@,
        )
    }
}

/// `assignment = IDENT '=' (emptyInit | expr) EOL`, from the identifier.
#[verifier::opaque]
pub open spec fn assign_statement(toks: Seq<TokenView>, pos: int) -> Outcome<StatementView> {
    let value = if kind_at(toks, pos + 2) == Kind::Empty {
        empty_type(toks, pos + 3)
    } else {
        expression(toks, pos + 2)
    };
    match value.result {
        Err(error) => propagate::<ExprView, StatementView>(error, value.pos),
        Ok(expr) => {
            let end = expect_line_end(toks, value.pos, "Line must end after an assignment"@);
            match end.result {
                Err(error) => propagate::<(), StatementView>(error, end.pos),
                Ok(_) => accept(StatementView::Assignment { ident: toks[pos], value: expr }, end.pos),
            }
        },
    }
}

/// `exprStmt = expr EOL`
#[verifier::opaque]
pub open spec fn expression_statement(toks: Seq<TokenView>, pos: int) -> Outcome<StatementView> {
    let value = expression(toks, pos);
    match value.result {
        Err(error) => propagate::<ExprView, StatementView>(error, value.pos),
        Ok(expr) => {
            let end = expect_line_end(
                toks,
                value.pos,
                "Line must end after an expression statement"@,
            );
            match end.result {
                Err(error) => propagate::<(), StatementView>(error, end.pos),
                Ok(_) => accept(StatementView::Expr { expr }, end.pos),
            }
        },
    }
}

/// `return = 'return' expr EOL`, from just after the keyword.
#[verifier::opaque]
pub open spec fn return_statement(toks: Seq<TokenView>, pos: int) -> Outcome<StatementView> {
    let value = expression(toks, pos);
    match value.result {
        Err(error) => propagate::<ExprView, StatementView>(error, value.pos),
        Ok(expr) => {
            let end = expect_line_end(toks, value.pos, "Line must end after a return statement"@);
            match end.result {
                Err(error) => propagate::<(), StatementView>(error, end.pos),
                Ok(_) => accept(StatementView::Return { expr }, end.pos),
            }
        },
    }
}

/// First position at or after `pos` that holds no end-of-line token.
pub open spec fn skip_lines(toks: Seq<TokenView>, pos: int) -> int
    decreases toks.len() - pos,
{
    if kind_at(toks, pos) == Kind::EOL {
        skip_lines(toks, pos + 1)
    } else {
        pos
    }
}

/// `IDENT { ',' IDENT }`, added to the parameters read so far.
#[verifier::opaque]
pub open spec fn parameters(
    toks: Seq<TokenView>,
    pos: int,
    message: Seq<char>,
    so_far: Seq<TokenView>,
) -> Outcome<Seq<TokenView>>
    decreases toks.len() - pos,
{
    let name = expect(toks, pos, Kind::Identifier, message);
    match name.result {
        Err(error) => propagate::<TokenView, Seq<TokenView>>(error, name.pos),
        Ok(token) => if kind_at(toks, pos + 1) == Kind::Comma {
            parameters(toks, pos + 2, message, so_far.push(token))
        } else {
            accept(so_far.push(token), pos + 1)
        },
    }
}

/// `stmt = assignment | block | if | while | funcDecl | return | exprStmt`
#[verifier::opaque]
pub open spec fn statement(toks: Seq<TokenView>, pos: int) -> Outcome<StatementView>
    decreases toks.len() - pos, 50int,
{
    let kind = kind_at(toks, pos);
    if kind == Kind::Identifier && kind_at(toks, pos + 1) == Kind::Equal {
        assign_statement(toks, pos)
    } else if kind == Kind::LeftBrace {
        block_statement(toks, pos + 1)
    } else if kind == Kind::If {
        if_statement(toks, pos + 1)
    } else if kind == Kind::While {
        while_statement(toks, pos + 1)
    } else if kind == Kind::Function {
        function_statement(toks, pos + 1)
    } else if kind == Kind::Return {
        return_statement(toks, pos + 1)
    } else {
        expression_statement(toks, pos)
    }
}

/// A block as a statement, from just after its `{`.
#[verifier::opaque]
pub open spec fn block_statement(toks: Seq<TokenView>, pos: int) -> Outcome<StatementView>
    decreases toks.len() - pos, 53int,
{
    let body = block(toks, pos);
    match body.result {
        Err(error) => propagate::<Seq<StatementView>, StatementView>(error, body.pos),
        Ok(statements) => accept(StatementView::Block { statements }, body.pos),
    }
}

/// `block = '{' EOL { stmt | EOL } '}'`, from just after the `{`.
#[verifier::opaque]
pub open spec fn block(toks: Seq<TokenView>, pos: int) -> Outcome<Seq<StatementView>>
    decreases toks.len() - pos, 52int,
{
    let line = expect(toks, pos, Kind::EOL, "Expected new line after block start"@);
    match line.result {
        Err(error) => propagate::<TokenView, Seq<StatementView>>(error, line.pos),
        Ok(_) => {
            let items = block_items(toks, pos + 1, Seq::empty());
            match items.result {
                Err(_) => items,
                Ok(statements) => {
                    let closing = expect(
                        toks,
                        items.pos,
                        Kind::RightBrace,
                        "Expected a closing `}` after block statement"@,
                    );
                    match closing.result {
                        Err(error) => propagate::<TokenView, Seq<StatementView>>(
                            error,
                            closing.pos,
                        ),
                        Ok(_) => accept(statements, closing.pos),
                    }
                },
            }
        },
    }
}

/// `{ stmt | EOL }` up to a `}` or the end of input, added to the
/// statements read so far.
#[verifier::opaque]
pub open spec fn block_items(toks: Seq<TokenView>, pos: int, so_far: Seq<StatementView>) -> Outcome<
    Seq<StatementView>,
>
    decreases toks.len() - pos, 51int,
{
    let kind = kind_at(toks, pos);
    if kind == Kind::RightBrace || kind == Kind::EOF {
        accept(so_far, pos)
    } else if kind == Kind::EOL {
        block_items(toks, pos + 1, so_far)
    } else {
        let one = statement(toks, pos);
        match one.result {
            Err(error) => propagate::<StatementView, Seq<StatementView>>(error, one.pos),
            Ok(item) => if pos < one.pos <= toks.len() {
                block_items(toks, one.pos, so_far.push(item))
            } else {
                accept(so_far.push(item), one.pos)
            },
        }
    }
}

/// `if = 'if' expr '{' … '}' [ {EOL} 'else' (if | '{' … '}') ]`, from just
/// after the keyword. The lines after the closing brace are consumed whether
/// or not an `else` follows.
#[verifier::opaque]
pub open spec fn if_statement(toks: Seq<TokenView>, pos: int) -> Outcome<StatementView>
    decreases toks.len() - pos, 40int,
{
    let condition = expression(toks, pos);
    match condition.result {
        Err(error) => propagate::<ExprView, StatementView>(error, condition.pos),
        Ok(cond) => {
            let brace = expect(
                toks,
                condition.pos,
                Kind::LeftBrace,
                "Expected an opening `{{` after the condition in an `if` statement"@,
            );
            match brace.result {
                Err(error) => propagate::<TokenView, StatementView>(error, brace.pos),
                Ok(_) => if pos <= condition.pos < toks.len() {
                    let then = block_statement(toks, condition.pos + 1);
                    match then.result {
                        Err(_) => then,
                        Ok(then_branch) => if condition.pos < then.pos <= toks.len() {
                            else_branch(toks, skip_lines(toks, then.pos), then.pos, cond, then_branch)
                        } else {
                            then
                        },
                    }
                } else {
                    stalled(toks, brace.pos)
                },
            }
        },
    }
}

/// What follows the first block of an `if`, with the lines after it
/// skipped: nothing, `else if …` or `else { … }`.
#[verifier::opaque]
pub open spec fn else_branch(
    toks: Seq<TokenView>,
    pos: int,
    floor: int,
    condition: ExprView,
    then: StatementView,
) -> Outcome<StatementView>
    decreases toks.len() - floor, 39int,
{
    if pos < floor || pos >= toks.len() || kind_at(toks, pos) != Kind::Else {
        accept(
            StatementView::If { condition, then: Box::new(then), otherwise: None },
            pos,
        )
    } else {
        let other = if kind_at(toks, pos + 1) == Kind::If {
            if pos + 2 <= toks.len() {
                if_statement(toks, pos + 2)
            } else {
                stalled(toks, pos)
            }
        } else {
            let brace = expect(
                toks,
                pos + 1,
                Kind::LeftBrace,
                "Expected an opening `{{` after the `else` keyword"@,
            );
            match brace.result {
                Err(error) => propagate::<TokenView, StatementView>(error, brace.pos),
                Ok(_) => if pos + 2 <= toks.len() {
                    block_statement(toks, pos + 2)
                } else {
                    stalled(toks, pos)
                },
            }
        };
        match other.result {
            Err(_) => other,
            Ok(otherwise) => accept(
                StatementView::If {
                    condition,
                    then: Box::new(then),
                    otherwise: Some(Box::new(otherwise)),
                },
                other.pos,
            ),
        }
    }
}

/// `while = 'while' expr '{' … '}'`, from just after the keyword.
#[verifier::opaque]
pub open spec fn while_statement(toks: Seq<TokenView>, pos: int) -> Outcome<StatementView>
    decreases toks.len() - pos, 40int,
{
    let condition = expression(toks, pos);
    match condition.result {
        Err(error) => propagate::<ExprView, StatementView>(error, condition.pos),
        Ok(cond) => {
            let brace = expect(
                toks,
                condition.pos,
                Kind::LeftBrace,
                "Expected an opening `{{` after the condition in a `while` statement"@,
            );
            match brace.result {
                Err(error) => propagate::<TokenView, StatementView>(error, brace.pos),
                Ok(_) => if pos <= condition.pos < toks.len() {
                    let body = block_statement(toks, condition.pos + 1);
                    match body.result {
                        Err(_) => body,
                        Ok(block) => accept(
                            StatementView::While { condition: cond, body: Box::new(block) },
                            body.pos,
                        ),
                    }
                } else {
                    stalled(toks, brace.pos)
                },
            }
        },
    }
}

/// The message for a function name that no `(` follows.
pub open spec fn function_paren_message(name: Seq<char>) -> Seq<char> {
    "Expected an opening `(` after the name of the function "@ + name
}

/// The message for a parameter that is no identifier.
pub open spec fn function_parameter_message(name: Seq<char>) -> Seq<char> {
    "Expected parameter name for function "@ + name
}

/// The message for a parameter list that no `{` follows.
pub open spec fn function_body_message(name: Seq<char>) -> Seq<char> {
    "Expected an opening `{` for the declaration of `"@ + name + "`'s body"@
}

/// `funcDecl = 'f' IDENT '(' [ IDENT { ',' IDENT } ] ')' '{' … '}'`, from
/// just after the keyword.
#[verifier::opaque]
pub open spec fn function_statement(toks: Seq<TokenView>, pos: int) -> Outcome<StatementView>
    decreases toks.len() - pos, 54int,
{
    let name = expect(toks, pos, Kind::Identifier, "Expected a function name"@);
    match name.result {
        Err(error) => propagate::<TokenView, StatementView>(error, name.pos),
        Ok(ident) => {
            let paren = expect(
                toks,
                pos + 1,
                Kind::LeftParen,
                function_paren_message(ident.lexeme),
            );
            match paren.result {
                Err(error) => propagate::<TokenView, StatementView>(error, paren.pos),
                Ok(_) => {
                    let listed = if kind_at(toks, pos + 2) == Kind::RightParen {
                        accept(Seq::<TokenView>::empty(), pos + 2)
                    } else {
                        parameters(
                            toks,
                            pos + 2,
                            function_parameter_message(ident.lexeme),
                            Seq::empty(),
                        )
                    };
                    match listed.result {
                        Err(error) => propagate::<Seq<TokenView>, StatementView>(
                            error,
                            listed.pos,
                        ),
                        Ok(params) => function_body(toks, pos, listed.pos, ident, params),
                    }
                },
            }
        },
    }
}

/// The rest of a function declaration, from the `)` of its parameters.
#[verifier::opaque]
pub open spec fn function_body(
    toks: Seq<TokenView>,
    floor: int,
    pos: int,
    ident: TokenView,
    params: Seq<TokenView>,
) -> Outcome<StatementView>
    decreases toks.len() - floor, 53int,
{
    let closing = expect(toks, pos, Kind::RightParen, closing_params_message(params.len()));
    match closing.result {
        Err(error) => propagate::<TokenView, StatementView>(error, closing.pos),
        Ok(_) => {
            let brace = expect(
                toks,
                pos + 1,
                Kind::LeftBrace,
                function_body_message(ident.lexeme),
            );
            match brace.result {
                Err(error) => propagate::<TokenView, StatementView>(error, brace.pos),
                Ok(_) => if floor <= pos && pos + 2 <= toks.len() {
                    let body = block(toks, pos + 2);
                    match body.result {
                        Err(error) => propagate::<Seq<StatementView>, StatementView>(
                            error,
                            body.pos,
                        ),
                        Ok(statements) => accept(
                            StatementView::FunctionDeclaration { ident, params, body: statements },
                            body.pos,
                        ),
                    }
                } else {
                    stalled(toks, brace.pos)
                },
            }
        },
    }
}

/// Whether a token of `kind` starts a statement at which recovery may stop.
pub open spec fn starts_statement(kind: Kind) -> bool {
    kind == Kind::Function || kind == Kind::For || kind == Kind::If || kind == Kind::While || kind
        == Kind::Return || kind == Kind::Match || kind == Kind::Delete
}

/// Where recovery stops when it looks on from `pos`: at the end of input,
/// just after an end of line, or before a token that starts a statement.
pub open spec fn synchronize_from(toks: Seq<TokenView>, pos: int) -> int
    decreases toks.len() - pos,
{
    if kind_at(toks, pos) == Kind::EOF || kind_at(toks, pos - 1) == Kind::EOL || starts_statement(
        kind_at(toks, pos),
    ) {
        pos
    } else {
        synchronize_from(toks, pos + 1)
    }
}

/// Where parsing resumes after an error at `pos`: one token is dropped
/// (unless the input has ended), then more as `synchronize_from` says.
pub open spec fn synchronize(toks: Seq<TokenView>, pos: int) -> int {
    if kind_at(toks, pos) == Kind::EOF {
        synchronize_from(toks, pos)
    } else {
        synchronize_from(toks, pos + 1)
    }
}

/// What a whole parse yields: the statements that parsed, and the
/// diagnostics of those that did not, both in source order.
pub struct Program {
    pub statements: Seq<StatementView>,
    pub errors: Seq<ErrorDetailsView>,
    pub pos: int,
}

/// `program = { EOL | stmt }`, from `pos` on, added to `so_far`. After a
/// statement that fails, parsing resumes where `synchronize` says.
#[verifier::opaque]
pub open spec fn program_from(toks: Seq<TokenView>, so_far: Program) -> Program
    decreases toks.len() - so_far.pos,
{
    let pos = so_far.pos;
    let kind = kind_at(toks, pos);
    if kind == Kind::EOF {
        so_far
    } else if kind == Kind::EOL {
        program_from(toks, Program { pos: pos + 1, ..so_far })
    } else {
        let one = statement(toks, pos);
        let next = match one.result {
            Ok(item) => Program {
                statements: so_far.statements.push(item),
                errors: so_far.errors,
                pos: one.pos,
            },
            Err(error) => Program {
                statements: so_far.statements,
                errors: so_far.errors.push(error),
                pos: synchronize(toks, one.pos),
            },
        };
        if pos < next.pos <= toks.len() {
            program_from(toks, next)
        } else {
            next
        }
    }
}

/// The parse of a whole token list.
pub open spec fn program(toks: Seq<TokenView>) -> Program {
    program_from(toks, Program { statements: Seq::empty(), errors: Seq::empty(), pos: 0 })
}

/// Whether the list ends with the end-of-input token and `pos` lies in it.
pub open spec fn inside(toks: Seq<TokenView>, pos: int) -> bool {
    0 <= pos < toks.len() && toks.last().kind == Kind::EOF
}

/// Whether an outcome stopped at or after `pos`, inside the list, and
/// after `pos` if it is a success.
pub open spec fn ahead<T>(toks: Seq<TokenView>, pos: int, outcome: Outcome<T>) -> bool {
    pos <= outcome.pos < toks.len() && (outcome.result is Ok ==> pos < outcome.pos)
}

/// Whether an outcome stopped at or after `pos`, inside the list.
pub open spec fn not_behind<T>(toks: Seq<TokenView>, pos: int, outcome: Outcome<T>) -> bool {
    pos <= outcome.pos < toks.len()
}

/// Whether an expression that was recognised is well formed.
pub open spec fn recognises_expression(outcome: Outcome<ExprView>) -> bool {
    outcome.result is Ok ==> outcome.result->Ok_0.well_formed()
}

/// Whether a statement that was recognised is well formed.
pub open spec fn recognises_statement(outcome: Outcome<StatementView>) -> bool {
    outcome.result is Ok ==> outcome.result->Ok_0.well_formed()
}

/// An expression that is recognised holds at least one token, and is well formed.
pub proof fn expression_moves_ahead(toks: Seq<TokenView>, pos: int)
    requires
        inside(toks, pos),
    ensures
        ahead(toks, pos, expression(toks, pos)),
        recognises_expression(expression(toks, pos)),
    decreases toks.len() - pos, 30int,
{
    reveal(expression);
    reveal(binary);
    binary_moves_ahead(toks, pos, 0);
}

/// An expression of any precedence level that is recognised holds at least one token.
pub proof fn binary_moves_ahead(toks: Seq<TokenView>, pos: int, level: int)
    requires
        inside(toks, pos),
    ensures
        ahead(toks, pos, binary(toks, pos, level)),
        recognises_expression(binary(toks, pos, level)),
    decreases toks.len() - pos, (if 0 <= level <= 8 {
        29 - 2 * level
    } else {
        13
    }),
{
    reveal(binary);
    reveal(binary_rest);
    reveal(unary);
    if level < 0 || level >= levels() {
        unary_moves_ahead(toks, pos);
    } else if level == comparison_level() && kind_at(toks, pos) == Kind::Empty {
    } else {
        binary_moves_ahead(toks, pos, level + 1);
        let first = binary(toks, pos, level + 1);
        if first.result is Ok {
            binary_rest_moves_ahead(toks, first.pos, level, first.result->Ok_0);
        }
    }
}

/// The operators after an operand end at or after their start; a failure among them lies further on.
pub proof fn binary_rest_moves_ahead(toks: Seq<TokenView>, pos: int, level: int, left: ExprView)
    requires
        inside(toks, pos),
        left.well_formed(),
    ensures
        not_behind(toks, pos, binary_rest(toks, pos, level, left)),
        binary_rest(toks, pos, level, left).result is Err ==> pos < binary_rest(
            toks,
            pos,
            level,
            left,
        ).pos,
        recognises_expression(binary_rest(toks, pos, level, left)),
    decreases toks.len() - pos, (if 0 <= level <= 8 {
        28 - 2 * level
    } else {
        12
    }),
{
    reveal(binary_rest);
    reveal(binary);
    if 0 <= level < levels() && level_has(level, kind_at(toks, pos)) {
        binary_moves_ahead(toks, pos + 1, level + 1);
        let second = binary(toks, pos + 1, level + 1);
        if second.result is Ok {
            let joined = ExprView::Binary {
                left_expr: Box::new(left),
                operator: toks[pos],
                right_expr: Box::new(second.result->Ok_0),
            };
            binary_rest_moves_ahead(toks, second.pos, level, joined);
        }
    }
}

/// A unary expression that is recognised holds at least one token.
pub proof fn unary_moves_ahead(toks: Seq<TokenView>, pos: int)
    requires
        inside(toks, pos),
    ensures
        ahead(toks, pos, unary(toks, pos)),
        recognises_expression(unary(toks, pos)),
    decreases toks.len() - pos, 9int,
{
    reveal(unary);
    reveal(call);
    if kind_at(toks, pos) == Kind::Minus || kind_at(toks, pos) == Kind::Bang {
        unary_moves_ahead(toks, pos + 1);
    } else {
        call_moves_ahead(toks, pos);
    }
}

/// A call that is recognised holds at least one token.
pub proof fn call_moves_ahead(toks: Seq<TokenView>, pos: int)
    requires
        inside(toks, pos),
    ensures
        ahead(toks, pos, call(toks, pos)),
        recognises_expression(call(toks, pos)),
    decreases toks.len() - pos, 8int,
{
    reveal(call);
    reveal(call_rest);
    reveal(primary);
    primary_moves_ahead(toks, pos);
    let first = primary(toks, pos);
    if first.result is Ok {
        call_rest_moves_ahead(toks, first.pos, first.result->Ok_0);
    }
}

/// The argument lists after a callee end at or after their start.
pub proof fn call_rest_moves_ahead(toks: Seq<TokenView>, pos: int, callee: ExprView)
    requires
        inside(toks, pos),
        callee.well_formed(),
    ensures
        not_behind(toks, pos, call_rest(toks, pos, callee)),
        recognises_expression(call_rest(toks, pos, callee)),
    decreases toks.len() - pos, 6int,
{
    reveal(call_rest);
    reveal(finish_call);
    if kind_at(toks, pos) == Kind::LeftParen {
        finish_call_moves_ahead(toks, pos + 1, callee);
        let made = finish_call(toks, pos + 1, callee);
        if made.result is Ok {
            call_rest_moves_ahead(toks, made.pos, made.result->Ok_0);
        }
    }
}

/// An argument list that is recognised holds at least its closing parenthesis.
pub proof fn finish_call_moves_ahead(toks: Seq<TokenView>, pos: int, callee: ExprView)
    requires
        inside(toks, pos),
        callee.well_formed(),
    ensures
        ahead(toks, pos, finish_call(toks, pos, callee)),
        recognises_expression(finish_call(toks, pos, callee)),
    decreases toks.len() - pos, 32int,
{
    reveal(finish_call);
    reveal(arguments);
    if kind_at(toks, pos) != Kind::RightParen {
        arguments_move_ahead(toks, pos, Seq::empty());
    }
}

/// Arguments that are recognised hold at least one token.
pub proof fn arguments_move_ahead(toks: Seq<TokenView>, pos: int, so_far: Seq<ExprView>)
    requires
        inside(toks, pos),
        forall|i: int| 0 <= i < so_far.len() ==> (#[trigger] so_far[i]).well_formed(),
    ensures
        ahead(toks, pos, arguments(toks, pos, so_far)),
        arguments(toks, pos, so_far).result is Ok ==> forall|i: int|
            0 <= i < arguments(toks, pos, so_far).result->Ok_0.len() ==> (#[trigger] arguments(
                toks,
                pos,
                so_far,
            ).result->Ok_0[i]).well_formed(),
    decreases toks.len() - pos, 31int,
{
    reveal(arguments);
    reveal(expression);
    expression_moves_ahead(toks, pos);
    let one = expression(toks, pos);
    if one.result is Ok && kind_at(toks, one.pos) == Kind::Comma {
        arguments_move_ahead(toks, one.pos + 1, so_far.push(one.result->Ok_0));
    }
}

/// A primary expression that is recognised holds at least one token.
pub proof fn primary_moves_ahead(toks: Seq<TokenView>, pos: int)
    requires
        inside(toks, pos),
    ensures
        ahead(toks, pos, primary(toks, pos)),
        recognises_expression(primary(toks, pos)),
    decreases toks.len() - pos, 7int,
{
    reveal(primary);
    reveal(expression);
    if kind_at(toks, pos) == Kind::LeftParen {
        expression_moves_ahead(toks, pos + 1);
    }
}

/// A statement that is recognised holds at least one token.
pub proof fn statement_moves_ahead(toks: Seq<TokenView>, pos: int)
    requires
        inside(toks, pos),
    ensures
        ahead(toks, pos, statement(toks, pos)),
        recognises_statement(statement(toks, pos)),
    decreases toks.len() - pos, 50int,
{
    reveal(statement);
    reveal(assign_statement);
    reveal(expression_statement);
    reveal(return_statement);
    reveal(empty_type);
    reveal(block_statement);
    reveal(if_statement);
    reveal(while_statement);
    reveal(function_statement);
    let kind = kind_at(toks, pos);
    if kind == Kind::Identifier && kind_at(toks, pos + 1) == Kind::Equal {
        if kind_at(toks, pos + 2) != Kind::Empty {
            expression_moves_ahead(toks, pos + 2);
        }
    } else if kind == Kind::LeftBrace {
        block_statement_moves_ahead(toks, pos + 1);
    } else if kind == Kind::If {
        if_statement_moves_ahead(toks, pos + 1);
    } else if kind == Kind::While {
        while_statement_moves_ahead(toks, pos + 1);
    } else if kind == Kind::Function {
        function_statement_moves_ahead(toks, pos + 1);
    } else if kind == Kind::Return {
        expression_moves_ahead(toks, pos + 1);
    } else {
        expression_moves_ahead(toks, pos);
    }
}

/// A block that is recognised as a statement holds at least one token after its `{`.
pub proof fn block_statement_moves_ahead(toks: Seq<TokenView>, pos: int)
    requires
        inside(toks, pos),
    ensures
        ahead(toks, pos, block_statement(toks, pos)),
        recognises_statement(block_statement(toks, pos)),
    decreases toks.len() - pos, 53int,
{
    reveal(block_statement);
    reveal(block);
    block_moves_ahead(toks, pos);
}

/// A block that is recognised holds at least one token after its `{`.
pub proof fn block_moves_ahead(toks: Seq<TokenView>, pos: int)
    requires
        inside(toks, pos),
    ensures
        ahead(toks, pos, block(toks, pos)),
        block(toks, pos).result is Ok ==> all_well_formed(block(toks, pos).result->Ok_0),
    decreases toks.len() - pos, 52int,
{
    reveal(block);
    reveal(block_items);
    if kind_at(toks, pos) == Kind::EOL {
        block_items_move_ahead(toks, pos + 1, Seq::empty());
    }
}

/// The statements of a block end at or after their start.
pub proof fn block_items_move_ahead(toks: Seq<TokenView>, pos: int, so_far: Seq<StatementView>)
    requires
        inside(toks, pos),
        all_well_formed(so_far),
    ensures
        not_behind(toks, pos, block_items(toks, pos, so_far)),
        block_items(toks, pos, so_far).result is Ok ==> all_well_formed(
            block_items(toks, pos, so_far).result->Ok_0,
        ),
    decreases toks.len() - pos, 51int,
{
    reveal(block_items);
    reveal(statement);
    let kind = kind_at(toks, pos);
    if kind == Kind::RightBrace || kind == Kind::EOF {
    } else if kind == Kind::EOL {
        block_items_move_ahead(toks, pos + 1, so_far);
    } else {
        statement_moves_ahead(toks, pos);
        let one = statement(toks, pos);
        if one.result is Ok {
            block_items_move_ahead(toks, one.pos, so_far.push(one.result->Ok_0));
        }
    }
}

/// Skipping lines stays inside the list.
pub proof fn skip_lines_stays_inside(toks: Seq<TokenView>, pos: int)
    requires
        inside(toks, pos),
    ensures
        pos <= skip_lines(toks, pos) < toks.len(),
    decreases toks.len() - pos,
{
    if kind_at(toks, pos) == Kind::EOL {
        skip_lines_stays_inside(toks, pos + 1);
    }
}

/// An `if` that is recognised holds at least one token after its keyword.
pub proof fn if_statement_moves_ahead(toks: Seq<TokenView>, pos: int)
    requires
        inside(toks, pos),
    ensures
        ahead(toks, pos, if_statement(toks, pos)),
        recognises_statement(if_statement(toks, pos)),
    decreases toks.len() - pos, 40int,
{
    reveal(if_statement);
    reveal(block_statement);
    reveal(else_branch);
    expression_moves_ahead(toks, pos);
    let condition = expression(toks, pos);
    if condition.result is Ok && kind_at(toks, condition.pos) == Kind::LeftBrace {
        block_statement_moves_ahead(toks, condition.pos + 1);
        let then = block_statement(toks, condition.pos + 1);
        if then.result is Ok {
            skip_lines_stays_inside(toks, then.pos);
            else_branch_moves_ahead(
                toks,
                skip_lines(toks, then.pos),
                then.pos,
                condition.result->Ok_0,
                then.result->Ok_0,
            );
        }
    }
}

/// What follows the first block of an `if` ends at or after its start.
pub proof fn else_branch_moves_ahead(
    toks: Seq<TokenView>,
    pos: int,
    floor: int,
    condition: ExprView,
    then: StatementView,
)
    requires
        inside(toks, floor),
        floor <= pos < toks.len(),
        condition.well_formed(),
        then.well_formed(),
    ensures
        not_behind(toks, pos, else_branch(toks, pos, floor, condition, then)),
        recognises_statement(else_branch(toks, pos, floor, condition, then)),
    decreases toks.len() - floor, 39int,
{
    reveal(else_branch);
    reveal(if_statement);
    reveal(block_statement);
    if kind_at(toks, pos) == Kind::Else {
        if kind_at(toks, pos + 1) == Kind::If {
            if_statement_moves_ahead(toks, pos + 2);
        } else if kind_at(toks, pos + 1) == Kind::LeftBrace {
            block_statement_moves_ahead(toks, pos + 2);
        }
    }
}

/// A `while` that is recognised holds at least one token after its keyword.
pub proof fn while_statement_moves_ahead(toks: Seq<TokenView>, pos: int)
    requires
        inside(toks, pos),
    ensures
        ahead(toks, pos, while_statement(toks, pos)),
        recognises_statement(while_statement(toks, pos)),
    decreases toks.len() - pos, 40int,
{
    reveal(while_statement);
    reveal(block_statement);
    expression_moves_ahead(toks, pos);
    let condition = expression(toks, pos);
    if condition.result is Ok && kind_at(toks, condition.pos) == Kind::LeftBrace {
        block_statement_moves_ahead(toks, condition.pos + 1);
    }
}

/// A list of parameters stays inside the list of tokens.
pub proof fn parameters_move_ahead(
    toks: Seq<TokenView>,
    pos: int,
    message: Seq<char>,
    so_far: Seq<TokenView>,
)
    requires
        inside(toks, pos),
    ensures
        ahead(toks, pos, parameters(toks, pos, message, so_far)),
    decreases toks.len() - pos,
{
    reveal(parameters);
    if kind_at(toks, pos) == Kind::Identifier && kind_at(toks, pos + 1) == Kind::Comma {
        parameters_move_ahead(toks, pos + 2, message, so_far.push(toks[pos]));
    }
}

/// A function declaration that is recognised holds at least one token after its keyword.
pub proof fn function_statement_moves_ahead(toks: Seq<TokenView>, pos: int)
    requires
        inside(toks, pos),
    ensures
        ahead(toks, pos, function_statement(toks, pos)),
        recognises_statement(function_statement(toks, pos)),
    decreases toks.len() - pos, 54int,
{
    reveal(function_statement);
    reveal(function_body);
    reveal(block);
    if kind_at(toks, pos) == Kind::Identifier && kind_at(toks, pos + 1) == Kind::LeftParen {
        let ident = toks[pos];
        let listed = if kind_at(toks, pos + 2) == Kind::RightParen {
            accept(Seq::<TokenView>::empty(), pos + 2)
        } else {
            parameters(toks, pos + 2, function_parameter_message(ident.lexeme), Seq::empty())
        };
        if kind_at(toks, pos + 2) != Kind::RightParen {
            parameters_move_ahead(
                toks,
                pos + 2,
                function_parameter_message(ident.lexeme),
                Seq::empty(),
            );
        }
        if listed.result is Ok && kind_at(toks, listed.pos) == Kind::RightParen && kind_at(
            toks,
            listed.pos + 1,
        ) == Kind::LeftBrace {
            block_moves_ahead(toks, listed.pos + 2);
        }
    }
}

/// Recovery stays inside the list.
pub proof fn synchronize_stays_inside(toks: Seq<TokenView>, pos: int)
    requires
        inside(toks, pos),
    ensures
        pos <= synchronize_from(toks, pos) < toks.len(),
    decreases toks.len() - pos,
{
    if !(kind_at(toks, pos) == Kind::EOF || kind_at(toks, pos - 1) == Kind::EOL || starts_statement(
        kind_at(toks, pos),
    )) {
        synchronize_stays_inside(toks, pos + 1);
    }
}

/// A parse reads the tokens up to the end of input.
pub proof fn program_reaches_the_end(toks: Seq<TokenView>, so_far: Program)
    requires
        inside(toks, so_far.pos),
        all_well_formed(so_far.statements),
    ensures
        inside(toks, program_from(toks, so_far).pos),
        kind_at(toks, program_from(toks, so_far).pos) == Kind::EOF,
        all_well_formed(program_from(toks, so_far).statements),
    decreases toks.len() - so_far.pos,
{
    reveal(program_from);
    let pos = so_far.pos;
    let kind = kind_at(toks, pos);
    if kind == Kind::EOF {
    } else if kind == Kind::EOL {
        program_reaches_the_end(toks, Program { pos: pos + 1, ..so_far });
    } else {
        statement_moves_ahead(toks, pos);
        let one = statement(toks, pos);
        let next = match one.result {
            Ok(item) => Program {
                statements: so_far.statements.push(item),
                errors: so_far.errors,
                pos: one.pos,
            },
            Err(error) => Program {
                statements: so_far.statements,
                errors: so_far.errors.push(error),
                pos: synchronize(toks, one.pos),
            },
        };
        if one.result is Err {
            synchronize_stays_inside(toks, one.pos);
            if kind_at(toks, one.pos) != Kind::EOF {
                synchronize_stays_inside(toks, one.pos + 1);
            }
        }
        if pos < next.pos {
            program_reaches_the_end(toks, next);
        }
    }
}

} // verus!
