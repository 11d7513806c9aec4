//! The scanner: source text to tokens, with line and column tracking.

use crate::errors::{ErrorDetails, ErrorDetailsView, ErrorType};
use crate::text::{push_char, str_eq, substring, to_chars};
use crate::token::{tokens_view, Kind, Token, TokenType, TokenView};
use vstd::prelude::*;

verus! {

/// Whether `character` is an ASCII decimal digit.
pub open spec fn spec_is_digit(character: char) -> bool {
    '0' <= character <= '9'
}

/// Whether `character` may start an identifier: an ASCII letter or `_`.
pub open spec fn spec_is_alpha(character: char) -> bool {
    ('a' <= character <= 'z') || ('A' <= character <= 'Z') || character == '_'
}

/// Whether `character` may continue an identifier.
pub open spec fn spec_is_alpha_numeric(character: char) -> bool {
    spec_is_alpha(character) || spec_is_digit(character)
}

/// Whether `character` is an ASCII decimal digit.
#[verifier::when_used_as_spec(spec_is_digit)]
pub fn is_digit(character: char) -> (r: bool)
    ensures
        r == spec_is_digit(character),
{
    '0' <= character && character <= '9'
}

/// Whether `character` may start an identifier: an ASCII letter or `_`.
#[verifier::when_used_as_spec(spec_is_alpha)]
pub fn is_alpha(character: char) -> (r: bool)
    ensures
        r == spec_is_alpha(character),
{
    ('a' <= character && character <= 'z') || ('A' <= character && character <= 'Z')
        || character == '_'
}

/// Whether `character` may continue an identifier.
#[verifier::when_used_as_spec(spec_is_alpha_numeric)]
pub fn is_alpha_numeric(character: char) -> (r: bool)
    ensures
        r == spec_is_alpha_numeric(character),
{
    is_alpha(character) || is_digit(character)
}

/// What a scan has produced so far, and where it stands.
pub struct ScanState {
    /// Index of the next character to read.
    pub pos: int,
    /// Line of the next character.
    pub line: int,
    /// Column of the next character.
    pub column: int,
    pub tokens: Seq<TokenView>,
    pub errors: Seq<ErrorDetailsView>,
}

/// The state before anything is read.
pub open spec fn initial_state() -> ScanState {
    ScanState { pos: 0, line: 1, column: 1, tokens: Seq::empty(), errors: Seq::empty() }
}

/// Whether the character at `pos` exists and is `expected`.
pub open spec fn next_is(src: Seq<char>, pos: int, expected: char) -> bool {
    0 <= pos < src.len() && src[pos] == expected
}

/// First index at or after `pos` that holds no digit.
pub open spec fn digits_end(src: Seq<char>, pos: int) -> int
    decreases src.len() - pos,
{
    if 0 <= pos < src.len() && spec_is_digit(src[pos]) {
        digits_end(src, pos + 1)
    } else {
        pos
    }
}

/// First index at or after `pos` that holds no identifier character.
pub open spec fn word_end(src: Seq<char>, pos: int) -> int
    decreases src.len() - pos,
{
    if 0 <= pos < src.len() && spec_is_alpha_numeric(src[pos]) {
        word_end(src, pos + 1)
    } else {
        pos
    }
}

/// First index at or after `pos` that holds a newline, or the length of `src`.
pub open spec fn line_end(src: Seq<char>, pos: int) -> int
    decreases src.len() - pos,
{
    if 0 <= pos < src.len() && src[pos] != '\n' {
        line_end(src, pos + 1)
    } else {
        pos
    }
}

/// First index at or after `pos` that holds a double quote, or the length of `src`.
pub open spec fn quote_index(src: Seq<char>, pos: int) -> int
    decreases src.len() - pos,
{
    if 0 <= pos < src.len() && src[pos] != '"' {
        quote_index(src, pos + 1)
    } else {
        pos
    }
}

/// Where a numeral ends whose first digit stands just before `pos`: the run
/// of digits, then a dot and a further run only if a digit follows the dot.
pub open spec fn number_end(src: Seq<char>, pos: int) -> int {
    let whole = digits_end(src, pos);
    if next_is(src, whole, '.') && whole + 1 < src.len() && spec_is_digit(src[whole + 1]) {
        digits_end(src, whole + 1)
    } else {
        whole
    }
}

/// Walks a block comment from `pos` on. Stops at the first `/` that follows a
/// `*`, or at the end of `src`; yields that index with the line and column
/// reached. A newline starts a new line, any other character is one column.
pub open spec fn comment_end(src: Seq<char>, pos: int, line: int, column: int) -> (int, int, int)
    decreases src.len() - pos,
{
    if pos < 1 || pos >= src.len() || (src[pos] == '/' && src[pos - 1] == '*') {
        (pos, line, column)
    } else if src[pos] == '\n' {
        comment_end(src, pos + 1, line + 1, 1)
    } else {
        comment_end(src, pos + 1, line, column + 1)
    }
}

/// How many newlines `s` holds.
pub open spec fn count_newlines(s: Seq<char>) -> nat
    decreases s.len(),
{
    if s.len() == 0 {
        0
    } else {
        count_newlines(s.drop_last()) + if s.last() == '\n' {
            1nat
        } else {
            0nat
        }
    }
}

/// How many characters follow the last newline of `s` (all of them if there is none).
pub open spec fn last_line_length(s: Seq<char>) -> nat
    decreases s.len(),
{
    if s.len() == 0 || s.last() == '\n' {
        0
    } else {
        last_line_length(s.drop_last()) + 1
    }
}

/// The kind of a word: a keyword's own kind, `Identifier` otherwise.
pub open spec fn word_kind(word: Seq<char>) -> Kind {
    if word == "and"@ {
        Kind::And
    } else if word == "ask"@ {
        Kind::Ask
    } else if word == "boolean"@ {
        Kind::Boolean
    } else if word == "break"@ {
        Kind::Break
    } else if word == "cmd"@ {
        Kind::Cmd
    } else if word == "continue"@ {
        Kind::Continue
    } else if word == "default"@ {
        Kind::Default
    } else if word == "delete"@ {
        Kind::Delete
    } else if word == "else"@ {
        Kind::Else
    } else if word == "empty"@ {
        Kind::Empty
    } else if word == "f"@ {
        Kind::Function
    } else if word == "false"@ {
        Kind::False
    } else if word == "for"@ {
        Kind::For
    } else if word == "if"@ {
        Kind::If
    } else if word == "in"@ {
        Kind::In
    } else if word == "keys"@ {
        Kind::Keys
    } else if word == "match"@ {
        Kind::Match
    } else if word == "number"@ {
        Kind::Number
    } else if word == "or"@ {
        Kind::Or
    } else if word == "out"@ {
        Kind::Out
    } else if word == "return"@ {
        Kind::Return
    } else if word == "size"@ {
        Kind::Size
    } else if word == "string"@ {
        Kind::String
    } else if word == "true"@ {
        Kind::True
    } else if word == "while"@ {
        Kind::While
    } else {
        Kind::Identifier
    }
}

/// The state after the characters `start..end` became a token of `kind`
/// (any kind but a string literal). The token stands at the line and column
/// of `st`; an end of line starts a new line, any other token moves the
/// column on by its length.
pub open spec fn emit(src: Seq<char>, st: ScanState, start: int, end: int, kind: Kind) -> ScanState {
    let token = TokenView {
        kind,
        literal: Seq::empty(),
        lexeme: src.subrange(start, end),
        line: st.line,
        column: st.column,
    };
    ScanState {
        pos: end,
        line: if kind == Kind::EOL {
            st.line + 1
        } else {
            st.line
        },
        column: if kind == Kind::EOL {
            1
        } else {
            st.column + (end - start)
        },
        tokens: st.tokens.push(token),
        errors: st.errors,
    }
}

/// The state after the characters `start..end`, quotes included, became a
/// string literal. The line moves on by the newlines in the text; the column
/// is the length of the text's last line plus two if the text spans lines,
/// and moves on by the length of the text plus two otherwise.
pub open spec fn emit_string(src: Seq<char>, st: ScanState, start: int, end: int) -> ScanState {
    let text = src.subrange(start + 1, end - 1);
    let token = TokenView {
        kind: Kind::StringLiteral,
        literal: text,
        lexeme: src.subrange(start, end),
        line: st.line,
        column: st.column,
    };
    ScanState {
        pos: end,
        line: st.line + count_newlines(text),
        column: if count_newlines(text) > 0 {
            last_line_length(text) as int + 2
        } else {
            st.column + text.len() + 2
        },
        tokens: st.tokens.push(token),
        errors: st.errors,
    }
}

/// The state after a lexical error with `message` was recorded at the
/// position of `st`, with the scan moved to `pos`, `line` and `column`.
pub open spec fn fail(
    st: ScanState,
    message: Seq<char>,
    pos: int,
    line: int,
    column: int,
    at_line: int,
    at_column: int,
) -> ScanState {
    ScanState {
        pos,
        line,
        column,
        tokens: st.tokens,
        errors: st.errors.push(
            ErrorDetailsView {
                error_type: ErrorType::LexicalError,
                message,
                line: at_line,
                column: at_column,
            },
        ),
    }
}

/// The state after white space or a comment: only the position moves.
pub open spec fn skip(st: ScanState, pos: int, line: int, column: int) -> ScanState {
    ScanState { pos, line, column, tokens: st.tokens, errors: st.errors }
}

/// The message for a character that starts no token.
pub open spec fn unexpected_character(c: char) -> Seq<char> {
    "Unexpected character `"@.push(c) + "`"@
}

/// The kind of the token that `c` makes by itself, if it does.
pub open spec fn single_kind(c: char) -> Option<Kind> {
    if c == '\n' {
        Some(Kind::EOL)
    } else if c == '{' {
        Some(Kind::LeftBrace)
    } else if c == '}' {
        Some(Kind::RightBrace)
    } else if c == '[' {
        Some(Kind::LeftBracket)
    } else if c == ']' {
        Some(Kind::RightBracket)
    } else if c == ',' {
        Some(Kind::Comma)
    } else if c == ':' {
        Some(Kind::Colon)
    } else if c == '?' {
        Some(Kind::Interrogation)
    } else if c == '(' {
        Some(Kind::LeftParen)
    } else if c == ')' {
        Some(Kind::RightParen)
    } else {
        None
    }
}

/// Whether `c` starts an operator of one to three characters (`/` apart).
pub open spec fn starts_operator(c: char) -> bool {
    c == '-' || c == '!' || c == '.' || c == '=' || c == '>' || c == '<' || c == '+' || c == '*'
        || c == '^' || c == '%'
}

/// The operator that starts with `c` at `st.pos`: its kind and where it
/// ends. The longest operator that the following characters allow wins.
/// Three dots are one token; two dots are no operator, so each of them is a
/// `Dot` of its own.
pub open spec fn operator_token(src: Seq<char>, st: ScanState, c: char) -> ScanState
    recommends
        starts_operator(c),
{
    let start = st.pos;
    let p = start + 1;
    if c == '-' {
        if next_is(src, p, '>') {
            emit(src, st, start, p + 1, Kind::Arrow)
        } else if next_is(src, p, '=') {
            emit(src, st, start, p + 1, Kind::MinusEqual)
        } else if next_is(src, p, '-') {
            emit(src, st, start, p + 1, Kind::MinusMinus)
        } else {
            emit(src, st, start, p, Kind::Minus)
        }
    } else if c == '!' {
        if next_is(src, p, '=') {
            emit(src, st, start, p + 1, Kind::BangEqual)
        } else {
            emit(src, st, start, p, Kind::Bang)
        }
    } else if c == '.' {
        if next_is(src, p, '.') && next_is(src, p + 1, '.') {
            emit(src, st, start, p + 2, Kind::DotDotDot)
        } else {
            emit(src, st, start, p, Kind::Dot)
        }
    } else if c == '=' {
        if next_is(src, p, '=') {
            emit(src, st, start, p + 1, Kind::EqualEqual)
        } else {
            emit(src, st, start, p, Kind::Equal)
        }
    } else if c == '>' {
        if next_is(src, p, '=') {
            emit(src, st, start, p + 1, Kind::GreaterEqual)
        } else {
            emit(src, st, start, p, Kind::Greater)
        }
    } else if c == '<' {
        if next_is(src, p, '=') {
            emit(src, st, start, p + 1, Kind::LessEqual)
        } else {
            emit(src, st, start, p, Kind::Less)
        }
    } else if c == '+' {
        if next_is(src, p, '=') {
            emit(src, st, start, p + 1, Kind::PlusEqual)
        } else if next_is(src, p, '+') {
            emit(src, st, start, p + 1, Kind::PlusPlus)
        } else {
            emit(src, st, start, p, Kind::Plus)
        }
    } else if c == '*' {
        if next_is(src, p, '=') {
            emit(src, st, start, p + 1, Kind::StarEqual)
        } else {
            emit(src, st, start, p, Kind::Star)
        }
    } else if c == '^' {
        if next_is(src, p, '=') {
            emit(src, st, start, p + 1, Kind::CaretEqual)
        } else {
            emit(src, st, start, p, Kind::Caret)
        }
    } else {
        if next_is(src, p, '=') {
            emit(src, st, start, p + 1, Kind::PercentEqual)
        } else {
            emit(src, st, start, p, Kind::Percent)
        }
    }
}

/// What a `/` at `st.pos` starts: a comment to the end of the line, a block
/// comment (an error if it is not closed), `/=` or `/`.
pub open spec fn slash_token(src: Seq<char>, st: ScanState) -> ScanState {
    let start = st.pos;
    let p = start + 1;
    if next_is(src, p, '/') {
        let end = line_end(src, p + 1);
        skip(st, end, st.line, st.column + 2 + (end - (p + 1)))
    } else if next_is(src, p, '*') {
        let (end, line, column) = comment_end(src, p + 1, st.line, st.column + 2);
        if end >= src.len() {
            fail(st, "Unterminated comment"@, end, line, column, line, column)
        } else {
            skip(st, end + 1, line, column + 1)
        }
    } else if next_is(src, p, '=') {
        emit(src, st, start, p + 1, Kind::SlashEqual)
    } else {
        emit(src, st, start, p, Kind::Slash)
    }
}

/// What a double quote at `st.pos` starts: a string literal up to the next
/// double quote, or an error if there is none.
pub open spec fn string_token(src: Seq<char>, st: ScanState) -> ScanState {
    let quote = quote_index(src, st.pos + 1);
    if quote >= src.len() {
        fail(st, "Unterminated string"@, quote, st.line, st.column, st.line, st.column)
    } else {
        emit_string(src, st, st.pos, quote + 1)
    }
}

/// One step of the scan: reads the token, white space, comment or stray
/// character that starts at `st.pos`. White space makes no token: a space or
/// a carriage return moves the column on by one, a tab by two.
pub open spec fn scan_token(src: Seq<char>, st: ScanState) -> ScanState
    recommends
        0 <= st.pos < src.len(),
{
    let start = st.pos;
    let c = src[start];
    let p = start + 1;
    if c == ' ' || c == '\r' {
        skip(st, p, st.line, st.column + 1)
    } else if c == '\t' {
        skip(st, p, st.line, st.column + 2)
    } else if single_kind(c) is Some {
        emit(src, st, start, p, single_kind(c)->0)
    } else if starts_operator(c) {
        operator_token(src, st, c)
    } else if c == '/' {
        slash_token(src, st)
    } else if c == '"' {
        string_token(src, st)
    } else if spec_is_digit(c) {
        emit(src, st, start, number_end(src, p), Kind::NumberLiteral)
    } else if spec_is_alpha(c) {
        let end = word_end(src, p);
        emit(src, st, start, end, word_kind(src.subrange(start, end)))
    } else {
        fail(st, unexpected_character(c), p, st.line, st.column + 1, st.line, st.column)
    }
}

/// The scan from `st` to the end of `src`: step after step, as long as
/// there are characters. Every step moves ahead inside the source
/// ([`scan_token_moves_ahead`]); asking whether it did bounds the recursion.
pub open spec fn scan_from(src: Seq<char>, st: ScanState) -> ScanState
    decreases src.len() - st.pos,
{
    if st.pos < 0 || st.pos >= src.len() {
        st
    } else {
        let next = scan_token(src, st);
        if next.pos <= st.pos || next.pos > src.len() {
            st
        } else {
            scan_from(src, next)
        }
    }
}

/// The state after the end-of-input token was added at the position of `st`.
pub open spec fn finish(st: ScanState) -> ScanState {
    ScanState {
        pos: st.pos,
        line: st.line,
        column: st.column,
        tokens: st.tokens.push(
            TokenView {
                kind: Kind::EOF,
                literal: Seq::empty(),
                lexeme: Seq::empty(),
                line: st.line,
                column: st.column,
            },
        ),
        errors: st.errors,
    }
}

/// The complete scan of `src`: its tokens, ending in exactly one end-of-input
/// token, and its lexical errors in source order.
pub open spec fn scan(src: Seq<char>) -> ScanState {
    finish(scan_from(src, initial_state()))
}

/// The contents of a list of diagnostics.
pub open spec fn errors_view(errors: Seq<ErrorDetails>) -> Seq<ErrorDetailsView> {
    errors.map_values(|e: ErrorDetails| e@)
}

/// Whether the state and every token in it stand at a line and a column that are at least one.
pub open spec fn counted_from_one(st: ScanState) -> bool {
    &&& st.line >= 1
    &&& st.column >= 1
    &&& forall|i: int|
        0 <= i < st.tokens.len() ==> (#[trigger] st.tokens[i]).line >= 1 && st.tokens[i].column >= 1
}

/// A block comment ends at a line and a column that are at least one.
pub proof fn comment_end_counts_from_one(src: Seq<char>, pos: int, line: int, column: int)
    requires
        line >= 1,
        column >= 1,
    ensures
        comment_end(src, pos, line, column).1 >= 1,
        comment_end(src, pos, line, column).2 >= 1,
    decreases src.len() - pos,
{
    if !(pos < 1 || pos >= src.len() || (src[pos] == '/' && src[pos - 1] == '*')) {
        if src[pos] == '\n' {
            comment_end_counts_from_one(src, pos + 1, line + 1, 1);
        } else {
            comment_end_counts_from_one(src, pos + 1, line, column + 1);
        }
    }
}

/// One step of the scan keeps lines and columns at least one.
pub proof fn scan_token_counts_from_one(src: Seq<char>, st: ScanState)
    requires
        0 <= st.pos < src.len(),
        counted_from_one(st),
    ensures
        counted_from_one(scan_token(src, st)),
{
    let p = st.pos + 1;
    comment_end_counts_from_one(src, p + 1, st.line, st.column + 2);
    line_end_is_ahead(src, if p + 1 <= src.len() { p + 1 } else { p });
    digits_end_is_ahead(src, p);
    word_end_is_ahead(src, p);
    let whole = digits_end(src, p);
    if whole + 1 <= src.len() {
        digits_end_is_ahead(src, whole + 1);
    }
}

/// Lines and columns count from one: every token of a scan stands at a
/// line and a column that are at least one, and so does the end of the scan.
pub proof fn scan_counts_from_one(src: Seq<char>, st: ScanState)
    requires
        0 <= st.pos <= src.len(),
        counted_from_one(st),
    ensures
        counted_from_one(scan_from(src, st)),
        counted_from_one(finish(scan_from(src, st))),
    decreases src.len() - st.pos,
{
    if st.pos < src.len() {
        scan_token_moves_ahead(src, st);
        scan_token_counts_from_one(src, st);
        scan_counts_from_one(src, scan_token(src, st));
    }
}

/// Whether `r` is what scanning `source` from its start returns: the
/// tokens of the complete scan if it met no error, its errors otherwise.
pub open spec fn scan_result(source: Seq<char>, r: Result<Vec<Token>, Vec<ErrorDetails>>) -> bool {
    match r {
        Ok(tokens) => scan(source).errors.len() == 0 && tokens_view(tokens@) == scan(source).tokens,
        Err(errors) => scan(source).errors.len() > 0 && errors_view(errors@) == scan(
            source,
        ).errors,
    }
}

/// Scanning is deterministic: two scans of the same source, each from its
/// start, agree on whether they succeed, on the tokens and on the errors.
pub proof fn scan_is_deterministic(
    source: Seq<char>,
    first: Result<Vec<Token>, Vec<ErrorDetails>>,
    second: Result<Vec<Token>, Vec<ErrorDetails>>,
)
    requires
        scan_result(source, first),
        scan_result(source, second),
    ensures
        first is Ok <==> second is Ok,
        first is Ok ==> tokens_view(first->Ok_0@) == tokens_view(second->Ok_0@),
        first is Err ==> errors_view(first->Err_0@) == errors_view(second->Err_0@),
{
}

/// A run of digits ends at or after its start, inside the source.
pub proof fn digits_end_is_ahead(src: Seq<char>, pos: int)
    requires
        0 <= pos <= src.len(),
    ensures
        pos <= digits_end(src, pos) <= src.len(),
    decreases src.len() - pos,
{
    if pos < src.len() && spec_is_digit(src[pos]) {
        digits_end_is_ahead(src, pos + 1);
    }
}

/// A word ends at or after its start, inside the source.
pub proof fn word_end_is_ahead(src: Seq<char>, pos: int)
    requires
        0 <= pos <= src.len(),
    ensures
        pos <= word_end(src, pos) <= src.len(),
    decreases src.len() - pos,
{
    if pos < src.len() && spec_is_alpha_numeric(src[pos]) {
        word_end_is_ahead(src, pos + 1);
    }
}

/// A line ends at or after its start, inside the source.
pub proof fn line_end_is_ahead(src: Seq<char>, pos: int)
    requires
        0 <= pos <= src.len(),
    ensures
        pos <= line_end(src, pos) <= src.len(),
    decreases src.len() - pos,
{
    if pos < src.len() && src[pos] != '\n' {
        line_end_is_ahead(src, pos + 1);
    }
}

/// The next double quote stands at or after the start of the search, or there is none.
pub proof fn quote_index_is_ahead(src: Seq<char>, pos: int)
    requires
        0 <= pos <= src.len(),
    ensures
        pos <= quote_index(src, pos) <= src.len(),
    decreases src.len() - pos,
{
    if pos < src.len() && src[pos] != '"' {
        quote_index_is_ahead(src, pos + 1);
    }
}

/// A block comment ends at or after its start, inside the source.
pub proof fn comment_end_is_ahead(src: Seq<char>, pos: int, line: int, column: int)
    requires
        1 <= pos <= src.len(),
    ensures
        pos <= comment_end(src, pos, line, column).0 <= src.len(),
    decreases src.len() - pos,
{
    if pos < src.len() && !(src[pos] == '/' && src[pos - 1] == '*') {
        if src[pos] == '\n' {
            comment_end_is_ahead(src, pos + 1, line + 1, 1);
        } else {
            comment_end_is_ahead(src, pos + 1, line, column + 1);
        }
    }
}

/// Every step of the scan reads at least one character, and none beyond the source.
pub proof fn scan_token_moves_ahead(src: Seq<char>, st: ScanState)
    requires
        0 <= st.pos < src.len(),
    ensures
        st.pos < scan_token(src, st).pos <= src.len(),
{
    let p = st.pos + 1;
    digits_end_is_ahead(src, p);
    let whole = digits_end(src, p);
    if whole + 1 <= src.len() {
        digits_end_is_ahead(src, whole + 1);
    }
    word_end_is_ahead(src, p);
    quote_index_is_ahead(src, p);
    if p + 1 <= src.len() {
        line_end_is_ahead(src, p + 1);
        comment_end_is_ahead(src, p + 1, st.line, st.column + 2);
    }
}

/// The scan reads the source to its end.
pub proof fn scan_from_reaches_the_end(src: Seq<char>, st: ScanState)
    requires
        0 <= st.pos <= src.len(),
    ensures
        scan_from(src, st).pos == src.len(),
    decreases src.len() - st.pos,
{
    if st.pos < src.len() {
        scan_token_moves_ahead(src, st);
        scan_from_reaches_the_end(src, scan_token(src, st));
    }
}

/// Whether no token in `tokens` is the end-of-input token.
pub open spec fn no_end(tokens: Seq<TokenView>) -> bool {
    forall|i: int| 0 <= i < tokens.len() ==> (#[trigger] tokens[i]).kind != Kind::EOF
}

/// One step of the scan adds no end-of-input token.
pub proof fn scan_token_adds_no_end(src: Seq<char>, st: ScanState)
    requires
        no_end(st.tokens),
    ensures
        no_end(scan_token(src, st).tokens),
{
}

/// The scan up to the end of the source adds no end-of-input token.
pub proof fn scan_from_adds_no_end(src: Seq<char>, st: ScanState)
    requires
        no_end(st.tokens),
    ensures
        no_end(scan_from(src, st).tokens),
    decreases src.len() - st.pos,
{
    if 0 <= st.pos < src.len() {
        let next = scan_token(src, st);
        scan_token_adds_no_end(src, st);
        if st.pos < next.pos <= src.len() {
            scan_from_adds_no_end(src, next);
        }
    }
}

/// A complete scan reads the whole source; its tokens end with the
/// end-of-input token and hold no other.
pub proof fn scan_ends_input(source: Seq<char>)
    ensures
        scan(source).pos == source.len(),
        scan(source).tokens.len() > 0,
        scan(source).tokens.last().kind == Kind::EOF,
        no_end(scan(source).tokens.drop_last()),
{
    let body = scan_from(source, initial_state());
    scan_from_reaches_the_end(source, initial_state());
    scan_from_adds_no_end(source, initial_state());
    assert(scan(source).tokens.drop_last() =~= body.tokens);
}

/// One more token than `tokens` holds.
pub proof fn tokens_view_push(tokens: Seq<Token>, token: Token)
    ensures
        tokens_view(tokens.push(token)) == tokens_view(tokens).push(token@),
{
    assert(tokens_view(tokens.push(token)) =~= tokens_view(tokens).push(token@));
}

/// One more diagnostic than `errors` holds.
pub proof fn errors_view_push(errors: Seq<ErrorDetails>, error: ErrorDetails)
    ensures
        errors_view(errors.push(error)) == errors_view(errors).push(error@),
{
    assert(errors_view(errors.push(error)) =~= errors_view(errors).push(error@));
}

/// A source that is scanned, with the tokens read so far.
pub struct Lexer {
    source: String,
    chars: Vec<char>,
    tokens: Vec<Token>,
    /// Offset of the current scanned character
    current: usize,
    /// Line of the start of the current lexeme
    line: i64,
    /// Column of the start of the current lexeme
    column: i64,
}

impl Lexer {
    /// The text that is scanned.
    pub closed spec fn source(&self) -> Seq<char> {
        self.source@
    }

    /// Where the scan stands, with `errors` as the diagnostics of the pass.
    pub closed spec fn state(&self, errors: Seq<ErrorDetailsView>) -> ScanState {
        ScanState {
            pos: self.current as int,
            line: self.line as int,
            column: self.column as int,
            tokens: tokens_view(self.tokens@),
            errors,
        }
    }

    /// The scanner's invariant: positions stay inside the source, and line
    /// and column stay within what the characters read so far allow.
    pub closed spec fn well_formed(&self) -> bool {
        &&& self.chars@ == self.source@
        &&& self.chars.len() < 0x4000_0000_0000_0000
        &&& self.current <= self.chars.len()
        &&& 1 <= self.line <= self.current + 1
        &&& 1 <= self.column <= 2 * self.current + 1
    }

    /// A scanner at the start of `source`.
    pub fn new(source: String) -> (r: Self)
        requires
            source@.len() < 0x4000_0000_0000_0000,
        ensures
            r.well_formed(),
            r.source() == source@,
            r.state(Seq::empty()) == initial_state(),
    {
        let chars = to_chars(source.as_str());
        let r = Self { source, chars, tokens: Vec::new(), current: 0, line: 1, column: 1 };
        assert(tokens_view(r.tokens@) =~= Seq::empty());
        r
    }

    fn report_lexical_error(errors: &mut Vec<ErrorDetails>, message: String, line: i64, column: i64)
        ensures
            final(errors)@.len() == old(errors)@.len() + 1,
            errors_view(final(errors)@) == errors_view(old(errors)@).push(
                ErrorDetailsView {
                    error_type: ErrorType::LexicalError,
                    message: message@,
                    line: line as int,
                    column: column as int,
                },
            ),
    {
        let error = ErrorDetails::new(ErrorType::LexicalError, message, line, column);
        proof {
            errors_view_push(errors@, error);
        }
        errors.push(error);
    }

    /// Scans the rest of the source and adds the end-of-input token.
    ///
    /// Returns every token read so far if the pass met no lexical error, and
    /// the errors of the pass, in source order, otherwise.
    pub fn scan_tokens(&mut self) -> (r: Result<Vec<Token>, Vec<ErrorDetails>>)
        requires
            old(self).well_formed(),
        ensures
            final(self).well_formed(),
            final(self).source() == old(self).source(),
            ({
                let end = finish(scan_from(old(self).source(), old(self).state(Seq::empty())));
                &&& final(self).state(end.errors) == end
                &&& match r {
                    Ok(tokens) => end.errors.len() == 0 && tokens_view(tokens@) == end.tokens,
                    Err(errors) => end.errors.len() > 0 && errors_view(errors@) == end.errors,
                }
            }),
            old(self).state(Seq::empty()) == initial_state() ==> scan_result(old(self).source(), r),
            final(self).state(Seq::empty()).pos == final(self).source().len(),
            match r {
                Ok(tokens) => tokens.len() > 0 && tokens@.last()@.kind == Kind::EOF,
                Err(errors) => errors.len() > 0,
            },
    {
        let mut errors: Vec<ErrorDetails> = Vec::new();
        assert(errors_view(errors@) =~= Seq::empty());
        while !self.is_at_end()
            invariant
                self.well_formed(),
                self.source() == old(self).source(),
                scan_from(self.source(), self.state(errors_view(errors@))) == scan_from(
                    old(self).source(),
                    old(self).state(Seq::empty()),
                ),
            decreases self.chars.len() - self.current,
        {
            self.scan_token(&mut errors);
        }
        let eof = Token::new(TokenType::EOF, String::new(), self.line, self.column);
        proof {
            tokens_view_push(self.tokens@, eof);
        }
        self.tokens.push(eof);
        if errors.len() > 0 {
            Err(errors)
        } else {
            let mut tokens: Vec<Token> = Vec::new();
            let mut i: usize = 0;
            while i < self.tokens.len()
                invariant
                    i <= self.tokens.len(),
                    tokens@ == self.tokens@.take(i as int),
                decreases self.tokens.len() - i,
            {
                tokens.push(self.tokens[i].copy());
                assert(self.tokens@.take(i + 1) =~= self.tokens@.take(i as int).push(
                    self.tokens@[i as int],
                ));
                i += 1;
            }
            assert(self.tokens@.take(i as int) =~= self.tokens@);
            Ok(tokens)
        }
    }

    fn is_at_end(&self) -> (r: bool)
        ensures
            r == (self.current >= self.chars.len()),
    {
        self.current >= self.chars.len()
    }

    /// Reads one token, white space, comment or stray character.
    fn scan_token(&mut self, errors: &mut Vec<ErrorDetails>) -> (r: Result<(), ()>)
        requires
            old(self).well_formed(),
            old(self).current < old(self).chars.len(),
        ensures
            final(self).well_formed(),
            final(self).source() == old(self).source(),
            final(self).current > old(self).current,
            final(self).state(errors_view(final(errors)@)) == scan_token(
                old(self).source(),
                old(self).state(errors_view(old(errors)@)),
            ),
            r is Ok <==> final(errors)@.len() == old(errors)@.len(),
    {
        let mut has_error = false;
        let start = self.current;
        let c = self.advance();
        if c == ' ' || c == '\r' {
            self.column += 1;
        } else if c == '\t' {
            self.column += 2;
        } else if let Some(token_type) = Self::single(c) {
            self.add_token(start, token_type);
        } else if Self::starts_operator(c) {
            self.operator(start, c);
        } else if c == '/' {
            if self.slash(start, errors).is_err() {
                has_error = true;
            }
        } else if c == '"' {
            match self.string(start) {
                Ok(()) => (),
                Err(()) => {
                    has_error = true;
                    Self::report_lexical_error(
                        errors,
                        "Unterminated string".to_string(),
                        self.line,
                        self.column,
                    );
                },
            }
        } else if is_digit(c) {
            self.number(start);
        } else if is_alpha(c) {
            self.identifier(start);
        } else {
            has_error = true;
            let mut message = "Unexpected character `".to_string();
            push_char(&mut message, c);
            message.append("`");
            Self::report_lexical_error(errors, message, self.line, self.column);
            self.column += 1;
        }
        if has_error {
            Err(())
        } else {
            Ok(())
        }
    }

    /// The token type that `c` makes by itself, if it does.
    fn single(c: char) -> (r: Option<TokenType>)
        ensures
            match r {
                Some(token_type) => single_kind(c) == Some(token_type.spec_kind())
                    && token_type.spec_kind() != Kind::StringLiteral && token_type.spec_literal()
                    == Seq::<char>::empty(),
                None => single_kind(c) is None,
            },
    {
        if c == '\n' {
            Some(TokenType::EOL)
        } else if c == '{' {
            Some(TokenType::LeftBrace)
        } else if c == '}' {
            Some(TokenType::RightBrace)
        } else if c == '[' {
            Some(TokenType::LeftBracket)
        } else if c == ']' {
            Some(TokenType::RightBracket)
        } else if c == ',' {
            Some(TokenType::Comma)
        } else if c == ':' {
            Some(TokenType::Colon)
        } else if c == '?' {
            Some(TokenType::Interrogation)
        } else if c == '(' {
            Some(TokenType::LeftParen)
        } else if c == ')' {
            Some(TokenType::RightParen)
        } else {
            None
        }
    }

    fn starts_operator(c: char) -> (r: bool)
        ensures
            r == starts_operator(c),
    {
        c == '-' || c == '!' || c == '.' || c == '=' || c == '>' || c == '<' || c == '+' || c == '*'
            || c == '^' || c == '%'
    }

    /// Reads the operator whose first character `c` stands at `start`.
    fn operator(&mut self, start: usize, c: char)
        requires
            old(self).well_formed(),
            starts_operator(c),
            old(self).current == start + 1,
            1 <= old(self).line <= start + 1,
            1 <= old(self).column <= 2 * start + 1,
        ensures
            final(self).well_formed(),
            final(self).source() == old(self).source(),
            final(self).current > start,
            forall|errors: Seq<ErrorDetailsView>|
                {
                    let before = ScanState {
                        pos: start as int,
                        line: old(self).line as int,
                        column: old(self).column as int,
                        tokens: tokens_view(old(self).tokens@),
                        errors,
                    };
                    #[trigger] final(self).state(errors) == operator_token(old(self).chars@, before, c)
                },
    {
        if c == '-' {
            if self.match_char('>') {
                self.add_token(start, TokenType::Arrow)
            } else if self.match_char('=') {
                self.add_token(start, TokenType::MinusEqual)
            } else if self.match_char('-') {
                self.add_token(start, TokenType::MinusMinus)
            } else {
                self.add_token(start, TokenType::Minus)
            }
        } else if c == '!' {
            if self.match_char('=') {
                self.add_token(start, TokenType::BangEqual)
            } else {
                self.add_token(start, TokenType::Bang)
            }
        } else if c == '.' {
            if self.peek() == '.' && self.peek_next() == '.' {
                self.advance();
                self.advance();
                self.add_token(start, TokenType::DotDotDot)
            } else {
                self.add_token(start, TokenType::Dot)
            }
        } else if c == '=' {
            if self.match_char('=') {
                self.add_token(start, TokenType::EqualEqual)
            } else {
                self.add_token(start, TokenType::Equal)
            }
        } else if c == '>' {
            if self.match_char('=') {
                self.add_token(start, TokenType::GreaterEqual)
            } else {
                self.add_token(start, TokenType::Greater)
            }
        } else if c == '<' {
            if self.match_char('=') {
                self.add_token(start, TokenType::LessEqual)
            } else {
                self.add_token(start, TokenType::Less)
            }
        } else if c == '+' {
            if self.match_char('=') {
                self.add_token(start, TokenType::PlusEqual)
            } else if self.match_char('+') {
                self.add_token(start, TokenType::PlusPlus)
            } else {
                self.add_token(start, TokenType::Plus)
            }
        } else if c == '*' {
            if self.match_char('=') {
                self.add_token(start, TokenType::StarEqual)
            } else {
                self.add_token(start, TokenType::Star)
            }
        } else if c == '^' {
            if self.match_char('=') {
                self.add_token(start, TokenType::CaretEqual)
            } else {
                self.add_token(start, TokenType::Caret)
            }
        } else {
            if self.match_char('=') {
                self.add_token(start, TokenType::PercentEqual)
            } else {
                self.add_token(start, TokenType::Percent)
            }
        }
    }

    /// Reads what the `/` at `start` begins: a comment, `/=` or `/`.
    fn slash(&mut self, start: usize, errors: &mut Vec<ErrorDetails>) -> (r: Result<(), ()>)
        requires
            old(self).well_formed(),
            old(self).current == start + 1,
            1 <= old(self).line <= start + 1,
            1 <= old(self).column <= 2 * start + 1,
        ensures
            final(self).well_formed(),
            final(self).source() == old(self).source(),
            final(self).current > start,
            ({
                let before = ScanState {
                    pos: start as int,
                    line: old(self).line as int,
                    column: old(self).column as int,
                    tokens: tokens_view(old(self).tokens@),
                    errors: errors_view(old(errors)@),
                };
                final(self).state(errors_view(final(errors)@)) == slash_token(
                    old(self).chars@,
                    before,
                )
            }),
            r is Ok <==> final(errors)@.len() == old(errors)@.len(),
    {
        let ghost src = self.chars@;
        if self.match_char('/') {
            // single line comment
            self.column += 2;
            while self.peek() != '\n' && !self.is_at_end()
                invariant
                    self.well_formed(),
                    self.chars@ == src,
                    self.source() == old(self).source(),
                    self.tokens == old(self).tokens,
                    self.line == old(self).line,
                    start + 2 <= self.current <= src.len(),
                    self.column == old(self).column + 2 + (self.current - (start + 2)),
                    line_end(src, self.current as int) == line_end(src, start + 2),
                decreases src.len() - self.current,
            {
                self.advance();
                self.column += 1;
            }
            Ok(())
        } else if self.match_char('*') {
            // block comment
            self.column += 2;
            while !(self.peek() == '/' && self.previous() == '*') && !self.is_at_end()
                invariant
                    self.well_formed(),
                    self.chars@ == src,
                    self.source() == old(self).source(),
                    self.tokens == old(self).tokens,
                    start + 2 <= self.current <= src.len(),
                    comment_end(src, self.current as int, self.line as int, self.column as int)
                        == comment_end(src, start + 2, old(self).line as int, old(self).column + 2),
                decreases src.len() - self.current,
            {
                if self.advance() == '\n' {
                    self.line += 1;
                    self.column = 1;
                } else {
                    self.column += 1;
                }
            }
            if self.is_at_end() {
                Self::report_lexical_error(
                    errors,
                    "Unterminated comment".to_string(),
                    self.line,
                    self.column,
                );
                Err(())
            } else {
                self.advance();
                self.column += 1;
                Ok(())
            }
        } else if self.match_char('=') {
            self.add_token(start, TokenType::SlashEqual);
            Ok(())
        } else {
            self.add_token(start, TokenType::Slash);
            Ok(())
        }
    }

    fn advance(&mut self) -> (r: char)
        requires
            old(self).current < old(self).chars.len(),
        ensures
            r == old(self).chars@[old(self).current as int],
            *final(self) == (Lexer { current: (old(self).current + 1) as usize, ..*old(self) }),
    {
        self.current += 1;
        self.char_at(self.current - 1)
    }

    fn match_char(&mut self, expected: char) -> (r: bool)
        requires
            old(self).current <= old(self).chars.len(),
        ensures
            r == next_is(old(self).chars@, old(self).current as int, expected),
            r ==> *final(self) == (Lexer {
                current: (old(self).current + 1) as usize,
                ..*old(self)
            }),
            !r ==> *final(self) == *old(self),
    {
        if self.is_at_end() {
            return false;
        }
        if self.char_at(self.current) != expected {
            return false;
        }
        self.current += 1;
        true
    }

    fn peek(&self) -> (r: char)
        ensures
            r == if self.current < self.chars.len() {
                self.chars@[self.current as int]
            } else {
                '\0'
            },
    {
        if self.is_at_end() {
            return '\0';
        }
        self.char_at(self.current)
    }

    fn peek_next(&self) -> (r: char)
        ensures
            r == if self.current + 1 < self.chars.len() {
                self.chars@[self.current + 1]
            } else {
                '\0'
            },
    {
        if self.current >= self.chars.len() || self.current + 1 >= self.chars.len() {
            return '\0';
        }
        self.char_at(self.current + 1)
    }

    fn previous(&self) -> (r: char)
        requires
            self.current <= self.chars.len(),
        ensures
            r == if self.current == 0 {
                '\0'
            } else {
                self.chars@[self.current - 1]
            },
    {
        if self.current == 0 {
            return '\0';
        }
        self.char_at(self.current - 1)
    }

    fn char_at(&self, index: usize) -> (r: char)
        requires
            index < self.chars.len(),
        ensures
            r == self.chars@[index as int],
    {
        self.chars[index]
    }

    /// Adds the token that the characters from `start` to the current
    /// position make, and moves line and column past it.
    fn add_token(&mut self, start: usize, token_type: TokenType)
        requires
            old(self).chars@ == old(self).source@,
            old(self).chars.len() < 0x4000_0000_0000_0000,
            start < old(self).current <= old(self).chars.len(),
            1 <= old(self).line <= start + 1,
            1 <= old(self).column <= 2 * start + 1,
            token_type.spec_kind() == Kind::StringLiteral ==> start + 2 <= old(self).current
                && token_type.spec_literal() == old(self).chars@.subrange(
                start + 1,
                old(self).current - 1,
            ),
            token_type.spec_kind() != Kind::StringLiteral ==> token_type.spec_literal()
                == Seq::<char>::empty(),
        ensures
            final(self).well_formed(),
            final(self).source == old(self).source,
            final(self).chars == old(self).chars,
            final(self).current == old(self).current,
            forall|errors: Seq<ErrorDetailsView>|
                {
                    let before = ScanState {
                        pos: start as int,
                        line: old(self).line as int,
                        column: old(self).column as int,
                        tokens: tokens_view(old(self).tokens@),
                        errors,
                    };
                    #[trigger] final(self).state(errors) == if token_type.spec_kind()
                        == Kind::StringLiteral {
                        emit_string(old(self).chars@, before, start as int, old(self).current as int)
                    } else {
                        emit(
                            old(self).chars@,
                            before,
                            start as int,
                            old(self).current as int,
                            token_type.spec_kind(),
                        )
                    }
                },
    {
        let lexeme = substring(self.source.as_str(), start, self.current);
        assert(lexeme@ =~= self.chars@.subrange(start as int, self.current as int));
        let token = Token::new(token_type.copy(), lexeme, self.line, self.column);
        proof {
            tokens_view_push(self.tokens@, token);
        }
        self.tokens.push(token);
        match token_type {
            TokenType::EOL => {
                self.line += 1;
                self.column = 1;
            },
            TokenType::StringLiteral(lit) => {
                let text = to_chars(lit.as_str());
                let mut newlines: usize = 0;
                let mut tail: usize = 0;
                let mut i: usize = 0;
                while i < text.len()
                    invariant
                        i <= text.len(),
                        newlines <= i,
                        tail <= i,
                        newlines == count_newlines(text@.take(i as int)),
                        tail == last_line_length(text@.take(i as int)),
                    decreases text.len() - i,
                {
                    assert(text@.take(i + 1).drop_last() =~= text@.take(i as int));
                    if text[i] == '\n' {
                        newlines += 1;
                        tail = 0;
                    } else {
                        tail += 1;
                    }
                    i += 1;
                }
                assert(text@.take(i as int) =~= text@);
                self.line += newlines as i64;
                if newlines > 0 {
                    self.column = tail as i64 + 2;
                } else {
                    self.column += text.len() as i64 + 2;
                }
            },
            _ => {
                self.column += (self.current - start) as i64;
            },
        }
    }

    /// Reads a string literal whose opening quote stands at `start`.
    fn string(&mut self, start: usize) -> (r: Result<(), ()>)
        requires
            old(self).well_formed(),
            old(self).current == start + 1,
            1 <= old(self).line <= start + 1,
            1 <= old(self).column <= 2 * start + 1,
        ensures
            final(self).well_formed(),
            final(self).source() == old(self).source(),
            forall|errors: Seq<ErrorDetailsView>|
                {
                    let before = ScanState {
                        pos: start as int,
                        line: old(self).line as int,
                        column: old(self).column as int,
                        tokens: tokens_view(old(self).tokens@),
                        errors,
                    };
                    let quote = quote_index(old(self).chars@, start + 1);
                    #[trigger] final(self).state(errors) == if quote >= old(self).chars.len() {
                        skip(before, quote, before.line, before.column)
                    } else {
                        emit_string(old(self).chars@, before, start as int, quote + 1)
                    }
                },
            r is Err <==> quote_index(old(self).chars@, start + 1) >= old(self).chars.len(),
            final(self).current > start,
    {
        while self.peek() != '"' && !self.is_at_end()
            invariant
                self.well_formed(),
                self.chars == old(self).chars,
                self.source == old(self).source,
                self.tokens == old(self).tokens,
                self.line == old(self).line,
                self.column == old(self).column,
                start + 1 <= self.current <= self.chars.len(),
                quote_index(self.chars@, self.current as int) == quote_index(
                    self.chars@,
                    start + 1,
                ),
            decreases self.chars.len() - self.current,
        {
            self.advance();
        }
        if self.is_at_end() {
            return Err(());
        }
        self.advance();
        let literal = substring(self.source.as_str(), start + 1, self.current - 1);
        assert(literal@ =~= self.chars@.subrange(start + 1, self.current - 1));
        self.add_token(start, TokenType::StringLiteral(literal));
        Ok(())
    }

    /// Reads a numeral whose first digit stands at `start`.
    fn number(&mut self, start: usize)
        requires
            old(self).well_formed(),
            old(self).current == start + 1,
            1 <= old(self).line <= start + 1,
            1 <= old(self).column <= 2 * start + 1,
        ensures
            final(self).well_formed(),
            final(self).source() == old(self).source(),
            final(self).current > start,
            forall|errors: Seq<ErrorDetailsView>|
                {
                    let before = ScanState {
                        pos: start as int,
                        line: old(self).line as int,
                        column: old(self).column as int,
                        tokens: tokens_view(old(self).tokens@),
                        errors,
                    };
                    #[trigger] final(self).state(errors) == emit(
                        old(self).chars@,
                        before,
                        start as int,
                        number_end(old(self).chars@, start + 1),
                        Kind::NumberLiteral,
                    )
                },
    {
        self.skip_digits();
        if self.peek() == '.' && is_digit(self.peek_next()) {
            self.advance();
            self.skip_digits();
        }
        self.add_token(start, TokenType::NumberLiteral);
    }

    /// Moves past a run of digits.
    fn skip_digits(&mut self)
        requires
            old(self).current <= old(self).chars.len(),
        ensures
            final(self).current == digits_end(old(self).chars@, old(self).current as int),
            old(self).current <= final(self).current <= old(self).chars.len(),
            *final(self) == (Lexer { current: final(self).current, ..*old(self) }),
    {
        while is_digit(self.peek())
            invariant
                old(self).current <= self.current <= self.chars.len(),
                *self == (Lexer { current: self.current, ..*old(self) }),
                digits_end(self.chars@, self.current as int) == digits_end(
                    old(self).chars@,
                    old(self).current as int,
                ),
            decreases self.chars.len() - self.current,
        {
            self.advance();
        }
    }

    /// Reads an identifier or keyword whose first character stands at `start`.
    fn identifier(&mut self, start: usize)
        requires
            old(self).well_formed(),
            old(self).current == start + 1,
            1 <= old(self).line <= start + 1,
            1 <= old(self).column <= 2 * start + 1,
        ensures
            final(self).well_formed(),
            final(self).source() == old(self).source(),
            final(self).current > start,
            forall|errors: Seq<ErrorDetailsView>|
                {
                    let before = ScanState {
                        pos: start as int,
                        line: old(self).line as int,
                        column: old(self).column as int,
                        tokens: tokens_view(old(self).tokens@),
                        errors,
                    };
                    let end = word_end(old(self).chars@, start + 1);
                    #[trigger] final(self).state(errors) == emit(
                        old(self).chars@,
                        before,
                        start as int,
                        end,
                        word_kind(old(self).chars@.subrange(start as int, end)),
                    )
                },
    {
        while is_alpha_numeric(self.peek())
            invariant
                start + 1 <= self.current <= self.chars.len(),
                *self == (Lexer { current: self.current, ..*old(self) }),
                word_end(self.chars@, self.current as int) == word_end(
                    old(self).chars@,
                    start + 1,
                ),
            decreases self.chars.len() - self.current,
        {
            self.advance();
        }
        let ident = substring(self.source.as_str(), start, self.current);
        assert(ident@ =~= self.chars@.subrange(start as int, self.current as int));
        let word = ident.as_str();
        if str_eq(word, "and") {
            self.add_token(start, TokenType::And)
        } else if str_eq(word, "ask") {
            self.add_token(start, TokenType::Ask)
        } else if str_eq(word, "boolean") {
            self.add_token(start, TokenType::Boolean)
        } else if str_eq(word, "break") {
            self.add_token(start, TokenType::Break)
        } else if str_eq(word, "cmd") {
            self.add_token(start, TokenType::Cmd)
        } else if str_eq(word, "continue") {
            self.add_token(start, TokenType::Continue)
        } else if str_eq(word, "default") {
            self.add_token(start, TokenType::Default)
        } else if str_eq(word, "delete") {
            self.add_token(start, TokenType::Delete)
        } else if str_eq(word, "else") {
            self.add_token(start, TokenType::Else)
        } else if str_eq(word, "empty") {
            self.add_token(start, TokenType::Empty)
        } else if str_eq(word, "f") {
            self.add_token(start, TokenType::Function)
        } else if str_eq(word, "false") {
            self.add_token(start, TokenType::False)
        } else if str_eq(word, "for") {
            self.add_token(start, TokenType::For)
        } else if str_eq(word, "if") {
            self.add_token(start, TokenType::If)
        } else if str_eq(word, "in") {
            self.add_token(start, TokenType::In)
        } else if str_eq(word, "keys") {
            self.add_token(start, TokenType::Keys)
        } else if str_eq(word, "match") {
            self.add_token(start, TokenType::Match)
        } else if str_eq(word, "number") {
            self.add_token(start, TokenType::Number)
        } else if str_eq(word, "or") {
            self.add_token(start, TokenType::Or)
        } else if str_eq(word, "out") {
            self.add_token(start, TokenType::Out)
        } else if str_eq(word, "return") {
            self.add_token(start, TokenType::Return)
        } else if str_eq(word, "size") {
            self.add_token(start, TokenType::Size)
        } else if str_eq(word, "string") {
            self.add_token(start, TokenType::String)
        } else if str_eq(word, "true") {
            self.add_token(start, TokenType::True)
        } else if str_eq(word, "while") {
            self.add_token(start, TokenType::While)
        } else {
            self.add_token(start, TokenType::Identifier)
        }
    }
}

} // verus!
