//! Tokens: the units the scanner produces and the parser consumes.

use vstd::prelude::*;

verus! {

/// The kind of a token, without the text a literal carries.
#[derive(Debug, Clone, Copy, PartialEq, Eq, Structural)]
pub enum Kind {
    /// `{`
    LeftBrace,
    /// `}`
    RightBrace,
    /// `[`
    LeftBracket,
    /// `]`
    RightBracket,
    /// `,`
    Comma,
    /// `:`
    Colon,
    /// `?`
    Interrogation,
    /// `(`
    LeftParen,
    /// `)`
    RightParen,
    /// `->`
    Arrow,
    /// `!`
    Bang,
    /// `!=`
    BangEqual,
    /// `^`
    Caret,
    /// `^=`
    CaretEqual,
    /// `.`
    Dot,
    /// `...`
    DotDotDot,
    /// `=`
    Equal,
    /// `==`
    EqualEqual,
    /// `>`
    Greater,
    /// `>=`
    GreaterEqual,
    /// `<`
    Less,
    /// `<=`
    LessEqual,
    /// `-`
    Minus,
    /// `-=`
    MinusEqual,
    /// `--`
    MinusMinus,
    /// `%`
    Percent,
    /// `%=`
    PercentEqual,
    /// `+`
    Plus,
    /// `+=`
    PlusEqual,
    /// `++`
    PlusPlus,
    /// `/`
    Slash,
    /// `/=`
    SlashEqual,
    /// `*`
    Star,
    /// `*=`
    StarEqual,
    /// a name
    Identifier,
    /// a decimal numeral; its digits are the lexeme
    NumberLiteral,
    /// a double-quoted string
    StringLiteral,
    /// `and`
    And,
    /// `ask`
    Ask,
    /// `boolean`
    Boolean,
    /// `break`
    Break,
    /// `cmd`
    Cmd,
    /// `continue`
    Continue,
    /// `default`
    Default,
    /// `delete`
    Delete,
    /// `else`
    Else,
    /// `empty`
    Empty,
    /// `false`
    False,
    /// `for`
    For,
    /// `f`
    Function,
    /// `if`
    If,
    /// `in`
    In,
    /// `keys`
    Keys,
    /// `match`
    Match,
    /// `number`
    Number,
    /// `or`
    Or,
    /// `out`
    Out,
    /// `return`
    Return,
    /// `size`
    Size,
    /// `string`
    String,
    /// `true`
    True,
    /// `while`
    While,
    /// end of line
    EOL,
    /// end of input
    EOF,
}

/// The kind of a token; a string literal carries its text.
#[derive(Debug, Clone)]
pub enum TokenType {
    /// `{`
    LeftBrace,
    /// `}`
    RightBrace,
    /// `[`
    LeftBracket,
    /// `]`
    RightBracket,
    /// `,`
    Comma,
    /// `:`
    Colon,
    /// `?`
    Interrogation,
    /// `(`
    LeftParen,
    /// `)`
    RightParen,
    /// `->`
    Arrow,
    /// `!`
    Bang,
    /// `!=`
    BangEqual,
    /// `^`
    Caret,
    /// `^=`
    CaretEqual,
    /// `.`
    Dot,
    /// `...`
    DotDotDot,
    /// `=`
    Equal,
    /// `==`
    EqualEqual,
    /// `>`
    Greater,
    /// `>=`
    GreaterEqual,
    /// `<`
    Less,
    /// `<=`
    LessEqual,
    /// `-`
    Minus,
    /// `-=`
    MinusEqual,
    /// `--`
    MinusMinus,
    /// `%`
    Percent,
    /// `%=`
    PercentEqual,
    /// `+`
    Plus,
    /// `+=`
    PlusEqual,
    /// `++`
    PlusPlus,
    /// `/`
    Slash,
    /// `/=`
    SlashEqual,
    /// `*`
    Star,
    /// `*=`
    StarEqual,
    /// a name
    Identifier,
    /// a decimal numeral; its digits are the lexeme
    NumberLiteral,
    /// a double-quoted string
    StringLiteral(String),
    /// `and`
    And,
    /// `ask`
    Ask,
    /// `boolean`
    Boolean,
    /// `break`
    Break,
    /// `cmd`
    Cmd,
    /// `continue`
    Continue,
    /// `default`
    Default,
    /// `delete`
    Delete,
    /// `else`
    Else,
    /// `empty`
    Empty,
    /// `false`
    False,
    /// `for`
    For,
    /// `f`
    Function,
    /// `if`
    If,
    /// `in`
    In,
    /// `keys`
    Keys,
    /// `match`
    Match,
    /// `number`
    Number,
    /// `or`
    Or,
    /// `out`
    Out,
    /// `return`
    Return,
    /// `size`
    Size,
    /// `string`
    String,
    /// `true`
    True,
    /// `while`
    While,
    /// end of line
    EOL,
    /// end of input
    EOF,
}

impl TokenType {
    /// The kind of this token type.
    pub open spec fn spec_kind(&self) -> Kind {
        match self {
            TokenType::LeftBrace => Kind::LeftBrace,
            TokenType::RightBrace => Kind::RightBrace,
            TokenType::LeftBracket => Kind::LeftBracket,
            TokenType::RightBracket => Kind::RightBracket,
            TokenType::Comma => Kind::Comma,
            TokenType::Colon => Kind::Colon,
            TokenType::Interrogation => Kind::Interrogation,
            TokenType::LeftParen => Kind::LeftParen,
            TokenType::RightParen => Kind::RightParen,
            TokenType::Arrow => Kind::Arrow,
            TokenType::Bang => Kind::Bang,
            TokenType::BangEqual => Kind::BangEqual,
            TokenType::Caret => Kind::Caret,
            TokenType::CaretEqual => Kind::CaretEqual,
            TokenType::Dot => Kind::Dot,
            TokenType::DotDotDot => Kind::DotDotDot,
            TokenType::Equal => Kind::Equal,
            TokenType::EqualEqual => Kind::EqualEqual,
            TokenType::Greater => Kind::Greater,
            TokenType::GreaterEqual => Kind::GreaterEqual,
            TokenType::Less => Kind::Less,
            TokenType::LessEqual => Kind::LessEqual,
            TokenType::Minus => Kind::Minus,
            TokenType::MinusEqual => Kind::MinusEqual,
            TokenType::MinusMinus => Kind::MinusMinus,
            TokenType::Percent => Kind::Percent,
            TokenType::PercentEqual => Kind::PercentEqual,
            TokenType::Plus => Kind::Plus,
            TokenType::PlusEqual => Kind::PlusEqual,
            TokenType::PlusPlus => Kind::PlusPlus,
            TokenType::Slash => Kind::Slash,
            TokenType::SlashEqual => Kind::SlashEqual,
            TokenType::Star => Kind::Star,
            TokenType::StarEqual => Kind::StarEqual,
            TokenType::Identifier => Kind::Identifier,
            TokenType::NumberLiteral => Kind::NumberLiteral,
            TokenType::StringLiteral(_) => Kind::StringLiteral,
            TokenType::And => Kind::And,
            TokenType::Ask => Kind::Ask,
            TokenType::Boolean => Kind::Boolean,
            TokenType::Break => Kind::Break,
            TokenType::Cmd => Kind::Cmd,
            TokenType::Continue => Kind::Continue,
            TokenType::Default => Kind::Default,
            TokenType::Delete => Kind::Delete,
            TokenType::Else => Kind::Else,
            TokenType::Empty => Kind::Empty,
            TokenType::False => Kind::False,
            TokenType::For => Kind::For,
            TokenType::Function => Kind::Function,
            TokenType::If => Kind::If,
            TokenType::In => Kind::In,
            TokenType::Keys => Kind::Keys,
            TokenType::Match => Kind::Match,
            TokenType::Number => Kind::Number,
            TokenType::Or => Kind::Or,
            TokenType::Out => Kind::Out,
            TokenType::Return => Kind::Return,
            TokenType::Size => Kind::Size,
            TokenType::String => Kind::String,
            TokenType::True => Kind::True,
            TokenType::While => Kind::While,
            TokenType::EOL => Kind::EOL,
            TokenType::EOF => Kind::EOF,
        }
    }

    /// The text a string literal carries; empty for every other kind.
    pub open spec fn spec_literal(&self) -> Seq<char> {
        match self {
            TokenType::StringLiteral(text) => text@,
            _ => Seq::empty(),
        }
    }

    /// The kind of this token type.
    #[verifier::when_used_as_spec(spec_kind)]
    pub fn kind(&self) -> (r: Kind)
        ensures
            r == self.spec_kind(),
    {
        match self {
            TokenType::LeftBrace => Kind::LeftBrace,
            TokenType::RightBrace => Kind::RightBrace,
            TokenType::LeftBracket => Kind::LeftBracket,
            TokenType::RightBracket => Kind::RightBracket,
            TokenType::Comma => Kind::Comma,
            TokenType::Colon => Kind::Colon,
            TokenType::Interrogation => Kind::Interrogation,
            TokenType::LeftParen => Kind::LeftParen,
            TokenType::RightParen => Kind::RightParen,
            TokenType::Arrow => Kind::Arrow,
            TokenType::Bang => Kind::Bang,
            TokenType::BangEqual => Kind::BangEqual,
            TokenType::Caret => Kind::Caret,
            TokenType::CaretEqual => Kind::CaretEqual,
            TokenType::Dot => Kind::Dot,
            TokenType::DotDotDot => Kind::DotDotDot,
            TokenType::Equal => Kind::Equal,
            TokenType::EqualEqual => Kind::EqualEqual,
            TokenType::Greater => Kind::Greater,
            TokenType::GreaterEqual => Kind::GreaterEqual,
            TokenType::Less => Kind::Less,
            TokenType::LessEqual => Kind::LessEqual,
            TokenType::Minus => Kind::Minus,
            TokenType::MinusEqual => Kind::MinusEqual,
            TokenType::MinusMinus => Kind::MinusMinus,
            TokenType::Percent => Kind::Percent,
            TokenType::PercentEqual => Kind::PercentEqual,
            TokenType::Plus => Kind::Plus,
            TokenType::PlusEqual => Kind::PlusEqual,
            TokenType::PlusPlus => Kind::PlusPlus,
            TokenType::Slash => Kind::Slash,
            TokenType::SlashEqual => Kind::SlashEqual,
            TokenType::Star => Kind::Star,
            TokenType::StarEqual => Kind::StarEqual,
            TokenType::Identifier => Kind::Identifier,
            TokenType::NumberLiteral => Kind::NumberLiteral,
            TokenType::StringLiteral(_) => Kind::StringLiteral,
            TokenType::And => Kind::And,
            TokenType::Ask => Kind::Ask,
            TokenType::Boolean => Kind::Boolean,
            TokenType::Break => Kind::Break,
            TokenType::Cmd => Kind::Cmd,
            TokenType::Continue => Kind::Continue,
            TokenType::Default => Kind::Default,
            TokenType::Delete => Kind::Delete,
            TokenType::Else => Kind::Else,
            TokenType::Empty => Kind::Empty,
            TokenType::False => Kind::False,
            TokenType::For => Kind::For,
            TokenType::Function => Kind::Function,
            TokenType::If => Kind::If,
            TokenType::In => Kind::In,
            TokenType::Keys => Kind::Keys,
            TokenType::Match => Kind::Match,
            TokenType::Number => Kind::Number,
            TokenType::Or => Kind::Or,
            TokenType::Out => Kind::Out,
            TokenType::Return => Kind::Return,
            TokenType::Size => Kind::Size,
            TokenType::String => Kind::String,
            TokenType::True => Kind::True,
            TokenType::While => Kind::While,
            TokenType::EOL => Kind::EOL,
            TokenType::EOF => Kind::EOF,
        }
    }

    /// The payload-free token type of a kind; a string literal gets the empty text.
    pub fn of_kind(kind: Kind) -> (r: TokenType)
        ensures
            r.spec_kind() == kind,
            r.spec_literal() == Seq::<char>::empty(),
    {
        match kind {
            Kind::LeftBrace => TokenType::LeftBrace,
            Kind::RightBrace => TokenType::RightBrace,
            Kind::LeftBracket => TokenType::LeftBracket,
            Kind::RightBracket => TokenType::RightBracket,
            Kind::Comma => TokenType::Comma,
            Kind::Colon => TokenType::Colon,
            Kind::Interrogation => TokenType::Interrogation,
            Kind::LeftParen => TokenType::LeftParen,
            Kind::RightParen => TokenType::RightParen,
            Kind::Arrow => TokenType::Arrow,
            Kind::Bang => TokenType::Bang,
            Kind::BangEqual => TokenType::BangEqual,
            Kind::Caret => TokenType::Caret,
            Kind::CaretEqual => TokenType::CaretEqual,
            Kind::Dot => TokenType::Dot,
            Kind::DotDotDot => TokenType::DotDotDot,
            Kind::Equal => TokenType::Equal,
            Kind::EqualEqual => TokenType::EqualEqual,
            Kind::Greater => TokenType::Greater,
            Kind::GreaterEqual => TokenType::GreaterEqual,
            Kind::Less => TokenType::Less,
            Kind::LessEqual => TokenType::LessEqual,
            Kind::Minus => TokenType::Minus,
            Kind::MinusEqual => TokenType::MinusEqual,
            Kind::MinusMinus => TokenType::MinusMinus,
            Kind::Percent => TokenType::Percent,
            Kind::PercentEqual => TokenType::PercentEqual,
            Kind::Plus => TokenType::Plus,
            Kind::PlusEqual => TokenType::PlusEqual,
            Kind::PlusPlus => TokenType::PlusPlus,
            Kind::Slash => TokenType::Slash,
            Kind::SlashEqual => TokenType::SlashEqual,
            Kind::Star => TokenType::Star,
            Kind::StarEqual => TokenType::StarEqual,
            Kind::Identifier => TokenType::Identifier,
            Kind::NumberLiteral => TokenType::NumberLiteral,
            Kind::StringLiteral => TokenType::StringLiteral(String::new()),
            Kind::And => TokenType::And,
            Kind::Ask => TokenType::Ask,
            Kind::Boolean => TokenType::Boolean,
            Kind::Break => TokenType::Break,
            Kind::Cmd => TokenType::Cmd,
            Kind::Continue => TokenType::Continue,
            Kind::Default => TokenType::Default,
            Kind::Delete => TokenType::Delete,
            Kind::Else => TokenType::Else,
            Kind::Empty => TokenType::Empty,
            Kind::False => TokenType::False,
            Kind::For => TokenType::For,
            Kind::Function => TokenType::Function,
            Kind::If => TokenType::If,
            Kind::In => TokenType::In,
            Kind::Keys => TokenType::Keys,
            Kind::Match => TokenType::Match,
            Kind::Number => TokenType::Number,
            Kind::Or => TokenType::Or,
            Kind::Out => TokenType::Out,
            Kind::Return => TokenType::Return,
            Kind::Size => TokenType::Size,
            Kind::String => TokenType::String,
            Kind::True => TokenType::True,
            Kind::While => TokenType::While,
            Kind::EOL => TokenType::EOL,
            Kind::EOF => TokenType::EOF,
        }
    }

    /// An equal copy.
    pub fn copy(&self) -> (r: TokenType)
        ensures
            r == *self,
    {
        match self {
            TokenType::StringLiteral(text) => TokenType::StringLiteral(text.clone()),
            other => TokenType::of_kind(other.kind()),
        }
    }
}
/// A token: its kind, the exact source text it was read from, and the line and
/// column (both counted from 1) at which that text starts.
#[derive(Debug, Clone)]
pub struct Token {
    token_type: TokenType,
    lexeme: String,
    line: i64,
    column: i64,
}

/// The mathematical content of a [`Token`].
pub struct TokenView {
    pub kind: Kind,
    pub literal: Seq<char>,
    pub lexeme: Seq<char>,
    pub line: int,
    pub column: int,
}

impl View for Token {
    type V = TokenView;

    closed spec fn view(&self) -> TokenView {
        TokenView {
            kind: self.token_type.spec_kind(),
            literal: self.token_type.spec_literal(),
            lexeme: self.lexeme@,
            line: self.line as int,
            column: self.column as int,
        }
    }
}

impl Token {
    /// A token of `token_type` that was read from `lexeme` at `line` and `column`.
    pub fn new(token_type: TokenType, lexeme: String, line: i64, column: i64) -> (r: Self)
        ensures
            r@ == (TokenView {
                kind: token_type.spec_kind(),
                literal: token_type.spec_literal(),
                lexeme: lexeme@,
                line: line as int,
                column: column as int,
            }),
    {
        Token { token_type, lexeme, line, column }
    }

    /// The kind of the token, with the text of a string literal.
    pub fn token_type(&self) -> (r: TokenType)
        ensures
            r.spec_kind() == self@.kind,
            r.spec_literal() == self@.literal,
    {
        self.token_type.copy()
    }

    /// The kind of the token.
    pub fn kind(&self) -> (r: Kind)
        ensures
            r == self@.kind,
    {
        self.token_type.kind()
    }

    /// The source text that the token was read from.
    pub fn lexeme(&self) -> (r: &str)
        ensures
            r@ == self@.lexeme,
    {
        self.lexeme.as_str()
    }

    /// The line at which the token starts, counted from one.
    pub fn line(&self) -> (r: i64)
        ensures
            r as int == self@.line,
    {
        self.line
    }

    /// The column at which the token starts, counted from one.
    pub fn column(&self) -> (r: i64)
        ensures
            r as int == self@.column,
    {
        self.column
    }

    /// The text of a string literal; empty for every other kind.
    pub fn literal(&self) -> (r: String)
        ensures
            r@ == self@.literal,
    {
        match &self.token_type {
            TokenType::StringLiteral(text) => text.clone(),
            _ => String::new(),
        }
    }

    /// An equal copy.
    pub fn copy(&self) -> (r: Token)
        ensures
            r == *self,
    {
        Token {
            token_type: self.token_type.copy(),
            lexeme: self.lexeme.clone(),
            line: self.line,
            column: self.column,
        }
    }
}

/// The contents of a list of tokens.
pub open spec fn tokens_view(tokens: Seq<Token>) -> Seq<TokenView> {
    tokens.map_values(|t: Token| t@)
}

} // verus!
