//! The syntax tree: expressions and statements, each with the tokens it came from.

use crate::token::{tokens_view, Kind, Token, TokenView};
use vstd::prelude::*;

verus! {

broadcast use vstd::std_specs::vec::axiom_vec_index_decreases;

/// An expression.
#[derive(Debug)]
pub enum Expr {
    /// A literal: `true`, `false`, a number, a string, `empty`, or the type
    /// name inside `empty(..)`.
    Primary { value: Token },
    Unary { operator: Token, expr: Box<Expr> },
    Binary { left_expr: Box<Expr>, operator: Token, right_expr: Box<Expr> },
    Grouping { expr: Box<Expr> },
    Variable { name: Token },
    Call { callee: Box<Expr>, closing_paren: Token, arguments: Vec<Expr> },
}

/// The mathematical content of an [`Expr`].
pub enum ExprView {
    Primary { value: TokenView },
    Unary { operator: TokenView, expr: Box<ExprView> },
    Binary { left_expr: Box<ExprView>, operator: TokenView, right_expr: Box<ExprView> },
    Grouping { expr: Box<ExprView> },
    Variable { name: TokenView },
    Call { callee: Box<ExprView>, closing_paren: TokenView, arguments: Seq<ExprView> },
}

impl Expr {
    /// The contents of this expression.
    pub open spec fn content(&self) -> ExprView
        decreases self,
    {
        match self {
            Expr::Primary { value } => ExprView::Primary { value: value@ },
            Expr::Unary { operator, expr } => ExprView::Unary {
                operator: operator@,
                expr: Box::new(expr.content()),
            },
            Expr::Binary { left_expr, operator, right_expr } => ExprView::Binary {
                left_expr: Box::new(left_expr.content()),
                operator: operator@,
                right_expr: Box::new(right_expr.content()),
            },
            Expr::Grouping { expr } => ExprView::Grouping { expr: Box::new(expr.content()) },
            Expr::Variable { name } => ExprView::Variable { name: name@ },
            Expr::Call { callee, closing_paren, arguments } => ExprView::Call {
                callee: Box::new(callee.content()),
                closing_paren: closing_paren@,
                arguments: Seq::new(
                    arguments.len() as nat,
                    |i: int|
                        if 0 <= i < arguments.len() {
                            arguments[i].content()
                        } else {
                            ExprView::Primary { value: closing_paren@ }
                        },
                ),
            },
        }
    }
}

impl View for Expr {
    type V = ExprView;

    open spec fn view(&self) -> ExprView {
        self.content()
    }
}

/// Whether a token of `kind` can be a literal: `true`, `false`, a number, a
/// string, `empty`, or the name of a type inside `empty(..)`.
pub open spec fn is_literal(kind: Kind) -> bool {
    kind == Kind::True || kind == Kind::False || kind == Kind::NumberLiteral || kind
        == Kind::StringLiteral || kind == Kind::Boolean || kind == Kind::Number || kind
        == Kind::Empty
}

/// Whether a token of `kind` can be the operator of a unary expression.
pub open spec fn is_unary_operator(kind: Kind) -> bool {
    kind == Kind::Minus || kind == Kind::Bang
}

/// Whether a token of `kind` can be the operator of a binary expression.
pub open spec fn is_binary_operator(kind: Kind) -> bool {
    kind == Kind::Or || kind == Kind::And || kind == Kind::BangEqual || kind == Kind::EqualEqual
        || kind == Kind::GreaterEqual || kind == Kind::Greater || kind == Kind::LessEqual || kind
        == Kind::Less || kind == Kind::Minus || kind == Kind::Plus || kind == Kind::Percent || kind
        == Kind::Slash || kind == Kind::Star || kind == Kind::Caret
}

impl ExprView {
    /// Whether the expression is one that a parse can yield: its literals
    /// are literals and its operators are operators, all the way down.
    pub open spec fn well_formed(self) -> bool
        decreases self,
    {
        match self {
            ExprView::Primary { value } => is_literal(value.kind),
            ExprView::Unary { operator, expr } => is_unary_operator(operator.kind)
                && expr.well_formed(),
            ExprView::Binary { left_expr, operator, right_expr } => is_binary_operator(
                operator.kind,
            ) && left_expr.well_formed() && right_expr.well_formed(),
            ExprView::Grouping { expr } => expr.well_formed(),
            ExprView::Variable { .. } => true,
            ExprView::Call { callee, arguments, .. } => callee.well_formed() && forall|i: int|
                0 <= i < arguments.len() ==> (#[trigger] arguments[i]).well_formed(),
        }
    }

    /// The token an expression starts with: the anchor of its diagnostics.
    pub open spec fn first_token(self) -> TokenView
        decreases self,
    {
        match self {
            ExprView::Primary { value } => value,
            ExprView::Unary { operator, .. } => operator,
            ExprView::Variable { name } => name,
            ExprView::Binary { left_expr, .. } => left_expr.first_token(),
            ExprView::Grouping { expr } => expr.first_token(),
            ExprView::Call { callee, .. } => callee.first_token(),
        }
    }
}

impl Expr {
    /// The token this expression starts with.
    pub fn first_token(&self) -> (r: &Token)
        ensures
            r@ == self@.first_token(),
        decreases self,
    {
        match self {
            Expr::Primary { value } => value,
            Expr::Unary { operator, .. } => operator,
            Expr::Variable { name } => name,
            Expr::Binary { left_expr, .. } => left_expr.first_token(),
            Expr::Grouping { expr } => expr.first_token(),
            Expr::Call { callee, .. } => callee.first_token(),
        }
    }
}

/// A statement.
#[derive(Debug)]
#[allow(inconsistent_fields)]
pub enum Statement {
    Expr { expr: Expr },
    Assignment { ident: Token, value: Expr },
    Block { statements: Vec<Statement> },
    If { condition: Expr, then: Box<Statement>, otherwise: Option<Box<Statement>> },
    While { condition: Expr, body: Box<Statement> },
    FunctionDeclaration { ident: Token, params: Vec<Token>, body: Vec<Statement> },
    Return { expr: Expr },
}

/// The mathematical content of a [`Statement`].
#[allow(inconsistent_fields)]
pub enum StatementView {
    Expr { expr: ExprView },
    Assignment { ident: TokenView, value: ExprView },
    Block { statements: Seq<StatementView> },
    If { condition: ExprView, then: Box<StatementView>, otherwise: Option<Box<StatementView>> },
    While { condition: ExprView, body: Box<StatementView> },
    FunctionDeclaration { ident: TokenView, params: Seq<TokenView>, body: Seq<StatementView> },
    Return { expr: ExprView },
}

impl Statement {
    /// The contents of this statement.
    pub open spec fn content(&self) -> StatementView
        decreases self,
    {
        match self {
            Statement::Expr { expr } => StatementView::Expr { expr: expr@ },
            Statement::Assignment { ident, value } => StatementView::Assignment {
                ident: ident@,
                value: value@,
            },
            Statement::Block { statements } => StatementView::Block {
                statements: Seq::new(
                    statements.len() as nat,
                    |i: int|
                        if 0 <= i < statements.len() {
                            statements[i].content()
                        } else {
                            StatementView::Block { statements: Seq::empty() }
                        },
                ),
            },
            Statement::If { condition, then, otherwise } => StatementView::If {
                condition: condition@,
                then: Box::new(then.content()),
                otherwise: match otherwise {
                    Some(branch) => Some(Box::new(branch.content())),
                    None => None,
                },
            },
            Statement::While { condition, body } => StatementView::While {
                condition: condition@,
                body: Box::new(body.content()),
            },
            Statement::FunctionDeclaration { ident, params, body } => {
                StatementView::FunctionDeclaration {
                    ident: ident@,
                    params: tokens_view(params@),
                    body: Seq::new(
                        body.len() as nat,
                        |i: int|
                            if 0 <= i < body.len() {
                                body[i].content()
                            } else {
                                StatementView::Block { statements: Seq::empty() }
                            },
                    ),
                }
            },
            Statement::Return { expr } => StatementView::Return { expr: expr@ },
        }
    }
}

impl View for Statement {
    type V = StatementView;

    open spec fn view(&self) -> StatementView {
        self.content()
    }
}

/// The contents of a list of expressions.
pub open spec fn exprs_view(exprs: Seq<Expr>) -> Seq<ExprView> {
    exprs.map_values(|e: Expr| e@)
}

/// The contents of a list of statements.
pub open spec fn statements_view(statements: Seq<Statement>) -> Seq<StatementView> {
    statements.map_values(|s: Statement| s@)
}

/// The contents of a call are the contents of its parts.
pub proof fn call_view(callee: Expr, closing_paren: Token, arguments: Vec<Expr>)
    ensures
        (Expr::Call { callee: Box::new(callee), closing_paren, arguments })@ == (ExprView::Call {
            callee: Box::new(callee@),
            closing_paren: closing_paren@,
            arguments: exprs_view(arguments@),
        }),
{
    let e = Expr::Call { callee: Box::new(callee), closing_paren, arguments };
    assert(e@->Call_arguments =~= exprs_view(arguments@));
}

/// The contents of a block are the contents of its statements.
pub proof fn block_view(statements: Vec<Statement>)
    ensures
        (Statement::Block { statements })@ == (StatementView::Block {
            statements: statements_view(statements@),
        }),
{
    let s = Statement::Block { statements };
    assert(s@->Block_statements =~= statements_view(statements@));
}

/// The contents of a function declaration are the contents of its parts.
pub proof fn function_view(ident: Token, params: Vec<Token>, body: Vec<Statement>)
    ensures
        (Statement::FunctionDeclaration { ident, params, body })@
            == (StatementView::FunctionDeclaration {
            ident: ident@,
            params: tokens_view(params@),
            body: statements_view(body@),
        }),
{
    let s = Statement::FunctionDeclaration { ident, params, body };
    assert(s@->FunctionDeclaration_body =~= statements_view(body@));
}

/// Whether every statement of a list is one that a parse can yield.
pub open spec fn all_well_formed(statements: Seq<StatementView>) -> bool {
    forall|i: int| 0 <= i < statements.len() ==> (#[trigger] statements[i]).well_formed()
}

impl StatementView {
    /// Whether the statement is one that a parse can yield.
    pub open spec fn well_formed(self) -> bool
        decreases self,
    {
        match self {
            StatementView::Expr { expr } => expr.well_formed(),
            StatementView::Assignment { value, .. } => value.well_formed(),
            StatementView::Block { statements } => forall|i: int|
                0 <= i < statements.len() ==> (#[trigger] statements[i]).well_formed(),
            StatementView::If { condition, then, otherwise } => condition.well_formed()
                && then.well_formed() && match otherwise {
                Some(branch) => branch.well_formed(),
                None => true,
            },
            StatementView::While { condition, body } => condition.well_formed()
                && body.well_formed(),
            StatementView::FunctionDeclaration { body, .. } => forall|i: int|
                0 <= i < body.len() ==> (#[trigger] body[i]).well_formed(),
            StatementView::Return { expr } => expr.well_formed(),
        }
    }

    /// The token a statement starts with. A block has none of its own.
    pub open spec fn first_token(self) -> TokenView
        recommends
            !(self is Block),
    {
        match self {
            StatementView::Expr { expr } => expr.first_token(),
            StatementView::If { condition, .. } => condition.first_token(),
            StatementView::While { condition, .. } => condition.first_token(),
            StatementView::Return { expr } => expr.first_token(),
            StatementView::Assignment { ident, .. } => ident,
            StatementView::FunctionDeclaration { ident, .. } => ident,
            StatementView::Block { .. } => arbitrary(),
        }
    }
}

impl Statement {
    /// The token this statement starts with. A block has none of its own.
    pub fn first_token(&self) -> (r: &Token)
        requires
            !(self is Block),
        ensures
            r@ == self@.first_token(),
    {
        match self {
            Statement::Expr { expr } => expr.first_token(),
            Statement::If { condition, .. } => condition.first_token(),
            Statement::While { condition, .. } => condition.first_token(),
            Statement::Return { expr } => expr.first_token(),
            Statement::Assignment { ident, .. } => ident,
            Statement::FunctionDeclaration { ident, .. } => ident,
            Statement::Block { .. } => vstd::pervasive::unreached(),
        }
    }
}

} // verus!
