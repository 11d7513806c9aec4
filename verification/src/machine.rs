//! The data of the evaluator: its control, its frames, and what passes
//! between it and its host.

use crate::ast::{exprs_view, statements_view, Expr, Statement};
use crate::environment::{values_view};
use crate::errors::{ErrorDetails, ErrorType};
use crate::semantics::{
    ActionView, ControlView, EventView, FrameView, MachineView, Operation, ThenView, Transition,
};
use crate::token::Token;
use crate::text::names_view;
use crate::value::{pieces_view, Piece, Value};
use vstd::prelude::*;

verus! {

/// What becomes of a text once it is complete.
#[derive(Debug)]
pub enum Then<'a> {
    /// It is the result of the evaluation.
    Finish,
    /// The host writes it out; the value is what the writing function returns.
    Output(Value<'a>),
    /// It is the message of the error that ends the evaluation.
    Fail { error_type: ErrorType, line: i64, column: i64 },
}

impl<'a> View for Then<'a> {
    type V = ThenView;

    open spec fn view(&self) -> ThenView {
        match self {
            Then::Finish => ThenView::Finish,
            Then::Output(value) => ThenView::Output(value@),
            Then::Fail { error_type, line, column } => ThenView::Fail {
                error_type: *error_type,
                line: *line as int,
                column: *column as int,
            },
        }
    }
}

/// What the machine is about to do.
#[derive(Debug)]
pub enum Control<'a> {
    /// Nothing: no program is loaded, or the evaluation has ended.
    Idle,
    Execute(&'a Statement),
    Evaluate(&'a Expr),
    /// Hand a value to the frame on top of the stack.
    Deliver(Value<'a>),
    /// Carry the value of a `return` down to the call it returns from.
    Unwind { value: Value<'a>, anchor: &'a Token },
    /// Put a text together, piece by piece.
    Compose { done: String, rest: Vec<Piece>, then: Then<'a> },
    /// Wait for the text of a number, to go on composing.
    AwaitText { done: String, rest: Vec<Piece>, then: Then<'a> },
    /// Wait for a number, to deliver it.
    AwaitNumber,
    /// Wait for a text, to deliver it as a string.
    AwaitString,
    /// Wait until the host has written, to deliver the value.
    AwaitOutput(Value<'a>),
}

impl<'a> View for Control<'a> {
    type V = ControlView;

    open spec fn view(&self) -> ControlView {
        match self {
            Control::Idle => ControlView::Idle,
            Control::Execute(statement) => ControlView::Execute(statement@),
            Control::Evaluate(expr) => ControlView::Evaluate(expr@),
            Control::Deliver(value) => ControlView::Deliver(value@),
            Control::Unwind { value, anchor } => ControlView::Unwind {
                value: value@,
                anchor: anchor@,
            },
            Control::Compose { done, rest, then } => ControlView::Compose {
                done: done@,
                rest: pieces_view(rest@),
                then: then@,
            },
            Control::AwaitText { done, rest, then } => ControlView::AwaitText {
                done: done@,
                rest: pieces_view(rest@),
                then: then@,
            },
            Control::AwaitNumber => ControlView::AwaitNumber,
            Control::AwaitString => ControlView::AwaitString,
            Control::AwaitOutput(value) => ControlView::AwaitOutput(value@),
        }
    }
}

/// What is left to do once the control has produced a value.
#[derive(Debug)]
pub enum Frame<'a> {
    /// The statements of the program; `next` is the one to execute next.
    Program { statements: &'a Vec<Statement>, next: usize },
    /// The statements of a block; `scoped` if the block has a scope of its own.
    Block { statements: &'a Vec<Statement>, next: usize, scoped: bool },
    /// The call of a user function: where a `return` stops.
    Call,
    Assign { ident: &'a Token },
    If { then: &'a Statement, otherwise: Option<&'a Statement>, anchor: &'a Token },
    WhileCondition { condition: &'a Expr, body: &'a Statement },
    WhileBody { condition: &'a Expr, body: &'a Statement },
    Return { anchor: &'a Token },
    Unary { operator: &'a Token },
    BinaryLeft { operator: &'a Token, right: &'a Expr },
    LogicRight,
    BinaryRight { operator: &'a Token, left: Value<'a> },
    Callee { closing_paren: &'a Token, arguments: &'a Vec<Expr> },
    Arguments {
        callee: Value<'a>,
        closing_paren: &'a Token,
        arguments: &'a Vec<Expr>,
        values: Vec<Value<'a>>,
    },
}

impl<'a> View for Frame<'a> {
    type V = FrameView;

    open spec fn view(&self) -> FrameView {
        match self {
            Frame::Program { statements, next } => FrameView::Program {
                statements: statements_view(statements@),
                next: *next as nat,
            },
            Frame::Block { statements, next, scoped } => FrameView::Block {
                statements: statements_view(statements@),
                next: *next as nat,
                scoped: *scoped,
            },
            Frame::Call => FrameView::Call,
            Frame::Assign { ident } => FrameView::Assign { ident: ident@ },
            Frame::If { then, otherwise, anchor } => FrameView::If {
                then: then@,
                otherwise: match otherwise {
                    Some(branch) => Some(branch@),
                    None => None,
                },
                anchor: anchor@,
            },
            Frame::WhileCondition { condition, body } => FrameView::WhileCondition {
                condition: condition@,
                body: body@,
            },
            Frame::WhileBody { condition, body } => FrameView::WhileBody {
                condition: condition@,
                body: body@,
            },
            Frame::Return { anchor } => FrameView::Return { anchor: anchor@ },
            Frame::Unary { operator } => FrameView::Unary { operator: operator@ },
            Frame::BinaryLeft { operator, right } => FrameView::BinaryLeft {
                operator: operator@,
                right: right@,
            },
            Frame::LogicRight => FrameView::LogicRight,
            Frame::BinaryRight { operator, left } => FrameView::BinaryRight {
                operator: operator@,
                left: left@,
            },
            Frame::Callee { closing_paren, arguments } => FrameView::Callee {
                closing_paren: closing_paren@,
                arguments: exprs_view(arguments@),
            },
            Frame::Arguments { callee, closing_paren, arguments, values } => FrameView::Arguments {
                callee: callee@,
                closing_paren: closing_paren@,
                arguments: exprs_view(arguments@),
                values: values_view(values@),
            },
        }
    }
}

/// The contents of a list of frames.
pub open spec fn frames_view<'a>(frames: Seq<Frame<'a>>) -> Seq<FrameView> {
    frames.map_values(|frame: Frame<'a>| frame@)
}

/// What the machine asks of its host, or tells it.
#[derive(Debug)]
pub enum Action {
    /// The evaluation is complete; this is the last value, as text.
    Finished(String),
    /// The evaluation has stopped with this error.
    Failed(ErrorDetails),
    /// The steps allowed for this call are used up; resume to go on.
    Paused,
    /// Convert a decimal numeral to a number; reply with `Event::Number`.
    ParseNumber(String),
    /// Compute with two numbers; reply with `Event::Number`.
    Arithmetic(Operation, u64, u64),
    /// Write a number as text; reply with `Event::Text`.
    RenderNumber(u64),
    /// Convert a whole number to a number; reply with `Event::Number`.
    FromInteger(u64),
    /// Write a line to standard output; reply with `Event::Resume`.
    Output(String),
    /// Prompt, and read a line of input; reply with `Event::Text`.
    Ask(String),
    /// Read the clock; reply with `Event::Number`.
    Time,
    /// Run a program and collect what it writes; reply with `Event::Text`.
    Command { program: String, arguments: Vec<String> },
}

impl View for Action {
    type V = ActionView;

    open spec fn view(&self) -> ActionView {
        match self {
            Action::Finished(text) => ActionView::Finished(text@),
            Action::Failed(error) => ActionView::Failed(error@),
            Action::Paused => ActionView::Paused,
            Action::ParseNumber(text) => ActionView::ParseNumber(text@),
            Action::Arithmetic(operation, a, b) => ActionView::Arithmetic(*operation, *a, *b),
            Action::RenderNumber(bits) => ActionView::RenderNumber(*bits),
            Action::FromInteger(n) => ActionView::FromInteger(*n),
            Action::Output(text) => ActionView::Output(text@),
            Action::Ask(prompt) => ActionView::Ask(prompt@),
            Action::Time => ActionView::Time,
            Action::Command { program, arguments } => ActionView::Command {
                program: program@,
                arguments: names_view(arguments@),
            },
        }
    }
}

/// What the host tells the machine when it resumes it.
#[derive(Debug)]
pub enum Event {
    /// Nothing: the machine was paused, or the host has done what was asked.
    Resume,
    Number(u64),
    Text(String),
}

impl View for Event {
    type V = EventView;

    open spec fn view(&self) -> EventView {
        match self {
            Event::Resume => EventView::Resume,
            Event::Number(bits) => EventView::Number(*bits),
            Event::Text(text) => EventView::Text(text@),
        }
    }
}

/// The outcome of a step, as the semantics states it.
pub open spec fn transition(machine: MachineView, action: Option<Action>) -> Transition {
    Transition {
        machine,
        action: match action {
            Some(action) => Some(action@),
            None => None,
        },
    }
}

} // verus!
