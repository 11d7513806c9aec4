//! Runtime values: their types, their equality and how they are shown.

use crate::ast::{statements_view, Statement, StatementView};
use crate::text::{copy_names, decimal_nat, names_view, push_decimal_nat};
use crate::number::{is_zero, number_equal, spec_is_zero, spec_number_equal};
use vstd::prelude::*;

verus! {

/// The functions that the host provides.
#[derive(Debug, Clone, Copy, PartialEq, Eq, Structural)]
pub enum Native {
    /// Writes its argument and a newline to standard output.
    Out,
    /// Prompts with its argument and reads one line of input.
    Ask,
    /// The length of a string.
    Size,
    /// The time, in nanoseconds since the epoch.
    Time,
    /// Runs a command and gives what it wrote to standard output.
    Cmd,
}

/// The type of a value, by which assignments are checked.
#[derive(Debug, Clone, Copy, PartialEq, Eq, Structural)]
pub enum ValueType {
    Boolean,
    Number,
    String,
    /// A function, with the number of its parameters.
    Function(usize),
}

/// A runtime value.
#[derive(Debug)]
pub enum Value<'a> {
    /// The untyped `empty`: equal to every typed hole, and assignable only
    /// to a name that already has a type.
    Empty,
    /// A boolean that is declared and not yet set.
    EmptyBoolean,
    Boolean(bool),
    /// A number that is declared and not yet set.
    EmptyNumber,
    /// A number, as its binary64 bit pattern.
    Number(u64),
    String(String),
    Function { name: String, args: Vec<String>, body: &'a Vec<Statement> },
    NativeFunction { name: String, args: Vec<String>, body: Native },
}

/// The mathematical content of a [`Value`].
pub enum ValueView {
    Empty,
    EmptyBoolean,
    Boolean(bool),
    EmptyNumber,
    Number(u64),
    String(Seq<char>),
    Function { name: Seq<char>, args: Seq<Seq<char>>, body: Seq<StatementView> },
    NativeFunction { name: Seq<char>, args: Seq<Seq<char>>, body: Native },
}

impl<'a> View for Value<'a> {
    type V = ValueView;

    open spec fn view(&self) -> ValueView {
        match self {
            Value::Empty => ValueView::Empty,
            Value::EmptyBoolean => ValueView::EmptyBoolean,
            Value::Boolean(b) => ValueView::Boolean(*b),
            Value::EmptyNumber => ValueView::EmptyNumber,
            Value::Number(bits) => ValueView::Number(*bits),
            Value::String(text) => ValueView::String(text@),
            Value::Function { name, args, body } => ValueView::Function {
                name: name@,
                args: names_view(args@),
                body: statements_view(body@),
            },
            Value::NativeFunction { name, args, body } => ValueView::NativeFunction {
                name: name@,
                args: names_view(args@),
                body: *body,
            },
        }
    }
}

/// A part of a text that is being put together: text that is known, or a
/// number whose text the host has yet to give.
#[derive(Debug)]
pub enum Piece {
    Text(String),
    Number(u64),
}

/// The mathematical content of a [`Piece`].
pub enum PieceView {
    Text(Seq<char>),
    Number(u64),
}

impl View for Piece {
    type V = PieceView;

    open spec fn view(&self) -> PieceView {
        match self {
            Piece::Text(text) => PieceView::Text(text@),
            Piece::Number(bits) => PieceView::Number(*bits),
        }
    }
}

/// The contents of a list of pieces.
pub open spec fn pieces_view(pieces: Seq<Piece>) -> Seq<PieceView> {
    pieces.map_values(|piece: Piece| piece@)
}

impl ValueView {
    /// The type of a value; the untyped `empty` has none.
    pub open spec fn get_type(self) -> Option<ValueType> {
        match self {
            ValueView::EmptyBoolean | ValueView::Boolean(_) => Some(ValueType::Boolean),
            ValueView::EmptyNumber | ValueView::Number(_) => Some(ValueType::Number),
            ValueView::String(_) => Some(ValueType::String),
            ValueView::Function { args, .. } | ValueView::NativeFunction { args, .. } => Some(
                ValueType::Function(args.len() as usize),
            ),
            ValueView::Empty => None,
        }
    }

    /// The hole of the same type: what a boolean or a number becomes when
    /// `empty` is assigned to its name. No other value has one.
    pub open spec fn as_empty(self) -> Option<ValueView> {
        match self {
            ValueView::Boolean(_) | ValueView::EmptyBoolean => Some(ValueView::EmptyBoolean),
            ValueView::Number(_) | ValueView::EmptyNumber => Some(ValueView::EmptyNumber),
            _ => None,
        }
    }

    /// Whether `==` holds between two values. Booleans, numbers and strings
    /// are compared by what they hold, functions by their names. A hole
    /// equals a hole of its type and the untyped `empty`, which also equals
    /// itself. Every other pair is unequal.
    pub open spec fn equals(self, other: ValueView) -> bool {
        match self {
            ValueView::Boolean(left) => match other {
                ValueView::Boolean(right) => left == right,
                _ => false,
            },
            ValueView::Number(left) => match other {
                ValueView::Number(right) => spec_number_equal(left, right),
                _ => false,
            },
            ValueView::String(left) => match other {
                ValueView::String(right) => left == right,
                _ => false,
            },
            ValueView::EmptyBoolean => other is EmptyBoolean || other is Empty,
            ValueView::EmptyNumber => other is EmptyNumber || other is Empty,
            ValueView::Empty => other is EmptyBoolean || other is EmptyNumber || other is Empty,
            ValueView::Function { name: left, .. } | ValueView::NativeFunction { name: left, .. } => {
                match other {
                    ValueView::Function { name: right, .. }
                    | ValueView::NativeFunction { name: right, .. } => left == right,
                    _ => false,
                }
            },
        }
    }

    /// Whether this is the boolean `true`.
    pub open spec fn is_true(self) -> bool {
        self == ValueView::Boolean(true)
    }

    /// How a value is shown. A number other than zero is shown as the host
    /// writes it; everything else has a text of its own: `true` or `false`,
    /// `0` for either zero, a string's characters, nothing for a hole, and
    /// for a function its name and the number of its arguments.
    pub open spec fn shown(self) -> PieceView {
        match self {
            ValueView::Boolean(b) => PieceView::Text(
                if b {
                    "true"@
                } else {
                    "false"@
                },
            ),
            ValueView::Number(bits) => if spec_is_zero(bits) {
                PieceView::Text("0"@)
            } else {
                PieceView::Number(bits)
            },
            ValueView::String(text) => PieceView::Text(text),
            ValueView::EmptyBoolean | ValueView::EmptyNumber | ValueView::Empty => PieceView::Text(
                Seq::empty(),
            ),
            ValueView::Function { name, args, .. } => PieceView::Text(
                function_text(name, args.len(), false),
            ),
            ValueView::NativeFunction { name, args, .. } => PieceView::Text(
                function_text(name, args.len(), true),
            ),
        }
    }
}

/// How a function is shown: `f NAME(K argument[s]) {}`, with
/// ` [native code] ` between the braces for a function of the host.
pub open spec fn function_text(name: Seq<char>, arity: nat, native: bool) -> Seq<char> {
    "f "@ + name + "("@ + decimal_nat(arity) + " argument"@ + (if arity == 1 {
        ""@
    } else {
        "s"@
    }) + ") {"@ + (if native {
        " [native code] "@
    } else {
        ""@
    }) + "}"@
}

impl<'a> Value<'a> {
    /// The type of this value; the untyped `empty` has none.
    pub fn get_type(&self) -> (r: Option<ValueType>)
        ensures
            r == self@.get_type(),
    {
        match self {
            Value::EmptyBoolean | Value::Boolean(_) => Some(ValueType::Boolean),
            Value::EmptyNumber | Value::Number(_) => Some(ValueType::Number),
            Value::String(_) => Some(ValueType::String),
            Value::Function { args, .. } | Value::NativeFunction { args, .. } => Some(
                ValueType::Function(args.len()),
            ),
            Value::Empty => None,
        }
    }

    /// The hole of the same type, for a boolean or a number.
    pub fn as_empty(&self) -> (r: Option<Value<'a>>)
        ensures
            match r {
                Some(hole) => self@.as_empty() == Some(hole@),
                None => self@.as_empty() is None,
            },
    {
        match self {
            Value::Boolean(_) | Value::EmptyBoolean => Some(Value::EmptyBoolean),
            Value::Number(_) | Value::EmptyNumber => Some(Value::EmptyNumber),
            _ => None,
        }
    }

    /// Whether `==` holds between this value and `other`.
    pub fn equals(&self, other: &Value<'a>) -> (r: bool)
        ensures
            r == self@.equals(other@),
    {
        match self {
            Value::Boolean(left) => match other {
                Value::Boolean(right) => *left == *right,
                _ => false,
            },
            Value::Number(left) => match other {
                Value::Number(right) => number_equal(*left, *right),
                _ => false,
            },
            Value::String(left) => match other {
                Value::String(right) => *left == *right,
                _ => false,
            },
            Value::EmptyBoolean => match other {
                Value::EmptyBoolean | Value::Empty => true,
                _ => false,
            },
            Value::EmptyNumber => match other {
                Value::EmptyNumber | Value::Empty => true,
                _ => false,
            },
            Value::Empty => match other {
                Value::EmptyBoolean | Value::EmptyNumber | Value::Empty => true,
                _ => false,
            },
            Value::Function { name: left, .. } | Value::NativeFunction { name: left, .. } => {
                match other {
                    Value::Function { name: right, .. }
                    | Value::NativeFunction { name: right, .. } => *left == *right,
                    _ => false,
                }
            },
        }
    }

    /// Whether this is the boolean `true`.
    pub fn is_true(&self) -> (r: bool)
        ensures
            r == self@.is_true(),
    {
        match self {
            Value::Boolean(b) => *b,
            _ => false,
        }
    }

    /// How this value is shown.
    pub fn shown(&self) -> (r: Piece)
        ensures
            r@ == self@.shown(),
    {
        match self {
            Value::Boolean(b) => Piece::Text(
                if *b {
                    "true".to_string()
                } else {
                    "false".to_string()
                },
            ),
            Value::Number(bits) => if is_zero(*bits) {
                Piece::Text("0".to_string())
            } else {
                Piece::Number(*bits)
            },
            Value::String(text) => Piece::Text(text.clone()),
            Value::EmptyBoolean | Value::EmptyNumber | Value::Empty => Piece::Text(String::new()),
            Value::Function { name, args, .. } => Piece::Text(
                show_function(name.as_str(), args.len(), false),
            ),
            Value::NativeFunction { name, args, .. } => Piece::Text(
                show_function(name.as_str(), args.len(), true),
            ),
        }
    }

    /// A copy with the same contents.
    pub fn copy(&self) -> (r: Value<'a>)
        ensures
            r@ == self@,
    {
        match self {
            Value::Empty => Value::Empty,
            Value::EmptyBoolean => Value::EmptyBoolean,
            Value::Boolean(b) => Value::Boolean(*b),
            Value::EmptyNumber => Value::EmptyNumber,
            Value::Number(bits) => Value::Number(*bits),
            Value::String(text) => Value::String(text.clone()),
            Value::Function { name, args, body } => Value::Function {
                name: name.clone(),
                args: copy_names(args),
                body: *body,
            },
            Value::NativeFunction { name, args, body } => Value::NativeFunction {
                name: name.clone(),
                args: copy_names(args),
                body: *body,
            },
        }
    }
}

/// How a function is shown, as text.
fn show_function(name: &str, arity: usize, native: bool) -> (r: String)
    ensures
        r@ == function_text(name@, arity as nat, native),
{
    let mut out = "f ".to_string();
    out.append(name);
    out.append("(");
    push_decimal_nat(&mut out, arity as u64);
    out.append(" argument");
    out.append(
        if arity == 1 {
            ""
        } else {
            "s"
        },
    );
    out.append(") {");
    out.append(
        if native {
            " [native code] "
        } else {
            ""
        },
    );
    out.append("}");
    out
}

/// Equality does not depend on the order of its operands.
pub proof fn equality_is_symmetric(first: ValueView, second: ValueView)
    ensures
        first.equals(second) == second.equals(first),
{
}

} // verus!
