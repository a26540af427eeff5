//! The scanner: from source text to tokens.
//!
//! The lexical grammar is stated on bytes, as the mathematical function
//! `scan`; the executable scanner is proved to compute it. The source is
//! UTF-8, and every byte that means something to the grammar is ASCII, so a
//! character of more than one byte only ever occurs inside a string, inside
//! a comment, or as an unexpected character.

use crate::errors::{error, faults, spec_error, Fault, LoxError};
use crate::number::{decimal_value, parse_decimal, spells_decimal, MAX_DECIMAL_BYTES};
use crate::parser::only;
use crate::token::{keyword, spec_keyword, Token, TokenKind, TokenType};
use vstd::prelude::*;
use vstd::std_specs::cmp::PartialEqSpec;
use vstd::string::StringSliceAdditionalSpecFns;
use vstd::string::StringExecFns;
use vstd::utf8::{
    decode_utf8, encode_utf8, encode_utf8_decode_utf8, encode_utf8_valid_utf8, is_char_boundary,
    is_char_boundary_iff_not_is_continuation_byte, is_char_boundary_start_end_of_seq,
    is_continuation_byte, length_of_first_scalar, pop_first_scalar, valid_first_scalar,
    valid_utf8, valid_utf8_split,
};

verus! {

/// The most bytes that a source may have: as many as a number in it may
/// have.
pub const MAX_SOURCE_BYTES: usize = MAX_DECIMAL_BYTES;

pub open spec fn is_digit(b: u8) -> bool {
    0x30 <= b <= 0x39
}

/// A letter or an underscore.
pub open spec fn is_alpha(b: u8) -> bool {
    (0x61 <= b <= 0x7a) || (0x41 <= b <= 0x5a) || b == 0x5f
}

pub open spec fn is_alpha_or_digit(b: u8) -> bool {
    is_alpha(b) || is_digit(b)
}

/// The classes of bytes that the scanner runs over.
pub enum Run {
    /// Decimal digits.
    Digits,
    /// Letters, digits and underscores.
    Word,
    /// Everything up to a double quote.
    Quoted,
    /// Everything up to a newline.
    Comment,
    /// The bytes after the first of a character of more than one byte.
    Continuation,
}

impl Run {
    /// Whether a run of this class goes on over the byte `b`.
    pub open spec fn takes(self, b: u8) -> bool {
        match self {
            Run::Digits => is_digit(b),
            Run::Word => is_alpha_or_digit(b),
            Run::Quoted => b != 0x22,
            Run::Comment => b != 0x0a,
            Run::Continuation => is_continuation_byte(b),
        }
    }
}

/// Where the run of class `run` that starts at `from` ends: the first
/// position at or after `from` whose byte the run does not take, or the end
/// of the input.
pub open spec fn run_end(bytes: Seq<u8>, from: int, run: Run) -> int
    decreases bytes.len() - from,
{
    if 0 <= from < bytes.len() && run.takes(bytes[from]) {
        run_end(bytes, from + 1, run)
    } else {
        from
    }
}

/// How many newlines there are in `bytes[from..to]`.
pub open spec fn newlines(bytes: Seq<u8>, from: int, to: int) -> nat
    decreases to - from,
{
    if from < 0 || from >= to || to > bytes.len() {
        0
    } else if bytes[to - 1] == 0x0a {
        newlines(bytes, from, to - 1) + 1
    } else {
        newlines(bytes, from, to - 1)
    }
}

/// What the scanner finds at one place.
pub enum Found {
    /// A token of this kind.
    Token(TokenKind),
    /// White space or a comment.
    Nothing,
    /// A character that starts no token.
    Unexpected,
    /// A string without its closing quote.
    Unterminated,
}

/// One step of the scanner: what it finds, where that ends, and how many
/// newlines lie within it.
pub struct Step {
    pub found: Found,
    pub end: int,
    pub lines: nat,
}

/// Whether `bytes[at]` exists and is `b`.
pub open spec fn byte_is(bytes: Seq<u8>, at: int, b: u8) -> bool {
    0 <= at < bytes.len() && bytes[at] == b
}

/// The kind of a one- or two-character operator that begins with `first`,
/// given whether an `=` follows it.
pub open spec fn operator_kind(first: u8, followed: bool) -> TokenKind {
    if first == 0x21 {
        if followed {
            TokenKind::BangEqual
        } else {
            TokenKind::Bang
        }
    } else if first == 0x3d {
        if followed {
            TokenKind::EqualEqual
        } else {
            TokenKind::Equal
        }
    } else if first == 0x3c {
        if followed {
            TokenKind::LessEqual
        } else {
            TokenKind::Less
        }
    } else {
        if followed {
            TokenKind::GreaterEqual
        } else {
            TokenKind::Greater
        }
    }
}

/// The kind of the token that the single character `b` is, if it is one.
pub open spec fn single_kind(b: u8) -> Option<TokenKind> {
    if b == 0x28 {
        Some(TokenKind::LeftParen)
    } else if b == 0x29 {
        Some(TokenKind::RightParen)
    } else if b == 0x7b {
        Some(TokenKind::LeftBrace)
    } else if b == 0x7d {
        Some(TokenKind::RightBrace)
    } else if b == 0x2c {
        Some(TokenKind::Comma)
    } else if b == 0x2e {
        Some(TokenKind::Dot)
    } else if b == 0x2d {
        Some(TokenKind::Minus)
    } else if b == 0x2b {
        Some(TokenKind::Plus)
    } else if b == 0x3b {
        Some(TokenKind::Semicolon)
    } else if b == 0x2a {
        Some(TokenKind::Star)
    } else {
        None
    }
}

/// The text that `bytes[from..to]` encodes.
pub open spec fn text_of(bytes: Seq<u8>, from: int, to: int) -> Seq<char> {
    decode_utf8(bytes.subrange(from, to))
}

/// The kind of the word `bytes[from..to]`: a keyword's, or an identifier's.
pub open spec fn word_kind(bytes: Seq<u8>, from: int, to: int) -> TokenKind {
    match spec_keyword(text_of(bytes, from, to)) {
        Some(token_type) => token_type.spec_kind(),
        None => TokenKind::Identifier,
    }
}

/// Where the number that starts at `start` ends: after its digits, and
/// after a fractional part if a dot and at least one digit follow them.
pub open spec fn number_end(bytes: Seq<u8>, start: int) -> int {
    let whole = run_end(bytes, start, Run::Digits);
    if byte_is(bytes, whole, 0x2e) && whole + 1 < bytes.len() && is_digit(bytes[whole + 1]) {
        run_end(bytes, whole + 1, Run::Digits)
    } else {
        whole
    }
}

/// The lexical grammar: what stands at `start`, a position before the end
/// of `bytes`.
pub open spec fn step(bytes: Seq<u8>, start: int) -> Step {
    let c = bytes[start];
    if single_kind(c) is Some {
        Step { found: Found::Token(single_kind(c)->0), end: start + 1, lines: 0 }
    } else if c == 0x21 || c == 0x3d || c == 0x3c || c == 0x3e {
        let followed = byte_is(bytes, start + 1, 0x3d);
        Step {
            found: Found::Token(operator_kind(c, followed)),
            end: if followed {
                start + 2
            } else {
                start + 1
            },
            lines: 0,
        }
    } else if c == 0x2f {
        if byte_is(bytes, start + 1, 0x2f) {
            Step { found: Found::Nothing, end: run_end(bytes, start + 2, Run::Comment), lines: 0 }
        } else {
            Step { found: Found::Token(TokenKind::Slash), end: start + 1, lines: 0 }
        }
    } else if c == 0x20 || c == 0x0d || c == 0x09 {
        Step { found: Found::Nothing, end: start + 1, lines: 0 }
    } else if c == 0x0a {
        Step { found: Found::Nothing, end: start + 1, lines: 1 }
    } else if c == 0x22 {
        let closing = run_end(bytes, start + 1, Run::Quoted);
        if closing >= bytes.len() {
            Step {
                found: Found::Unterminated,
                end: closing,
                lines: newlines(bytes, start + 1, closing),
            }
        } else {
            Step {
                found: Found::Token(TokenKind::String),
                end: closing + 1,
                lines: newlines(bytes, start + 1, closing),
            }
        }
    } else if is_digit(c) {
        Step { found: Found::Token(TokenKind::Number), end: number_end(bytes, start), lines: 0 }
    } else if is_alpha(c) {
        let end = run_end(bytes, start, Run::Word);
        Step { found: Found::Token(word_kind(bytes, start, end)), end, lines: 0 }
    } else {
        Step {
            found: Found::Unexpected,
            end: run_end(bytes, start + 1, Run::Continuation),
            lines: 0,
        }
    }
}

/// A token as the grammar gives it: its kind, the bytes it spans, and the
/// line it is on.
pub struct Span {
    pub kind: TokenKind,
    pub start: int,
    pub end: int,
    pub line: nat,
}

/// What scanning gives: the tokens in order, and the errors in order.
pub struct Scan {
    pub tokens: Seq<Span>,
    pub errors: Seq<Fault>,
}

/// The error, if any, that the step `s` at `start` on line `line` reports.
pub open spec fn step_error(bytes: Seq<u8>, start: int, line: nat, s: Step) -> Option<Fault> {
    let at = (line + s.lines) as usize;
    match s.found {
        Found::Unexpected => Some(spec_error(at, "Unexpected character."@)),
        Found::Unterminated => Some(spec_error(at, "Unterminated string."@)),
        _ => None,
    }
}

/// The token, if any, that the step `s` at `start` on line `line` gives. A
/// token is on the line on which it ends.
pub open spec fn step_token(bytes: Seq<u8>, start: int, line: nat, s: Step) -> Option<Span> {
    match s.found {
        Found::Token(kind) => Some(Span { kind, start, end: s.end, line: line + s.lines }),
        _ => None,
    }
}

/// The tokens and errors of `bytes[from..]`, where `from` is on line `line`.
/// The last token is the end-of-input token.
pub open spec fn scan_from(bytes: Seq<u8>, from: int, line: nat) -> Scan
    decreases bytes.len() - from,
{
    if from < 0 || from >= bytes.len() {
        Scan {
            tokens: seq![Span { kind: TokenKind::Eof, start: from, end: from, line }],
            errors: Seq::empty(),
        }
    } else {
        let s = step(bytes, from);
        if s.end <= from || s.end > bytes.len() {
            Scan { tokens: Seq::empty(), errors: Seq::empty() }
        } else {
            let rest = scan_from(bytes, s.end, line + s.lines);
            Scan {
                tokens: match step_token(bytes, from, line, s) {
                    Some(span) => seq![span] + rest.tokens,
                    None => rest.tokens,
                },
                errors: match step_error(bytes, from, line, s) {
                    Some(fault) => seq![fault] + rest.errors,
                    None => rest.errors,
                },
            }
        }
    }
}

/// The tokens and errors of a whole source, which starts on line 1.
pub open spec fn scan(bytes: Seq<u8>) -> Scan {
    scan_from(bytes, 0, 1)
}

/// A run ends at or after its start, within the input, at a byte that the
/// run does not take, and takes every byte before that.
pub proof fn run_end_is_the_first_stop(bytes: Seq<u8>, from: int, run: Run)
    requires
        0 <= from <= bytes.len(),
    ensures
        from <= run_end(bytes, from, run) <= bytes.len(),
        run_end(bytes, from, run) < bytes.len() ==> !run.takes(bytes[run_end(bytes, from, run)]),
        forall|i: int| from <= i < run_end(bytes, from, run) ==> run.takes(#[trigger] bytes[i]),
    decreases bytes.len() - from,
{
    if from < bytes.len() && run.takes(bytes[from]) {
        run_end_is_the_first_stop(bytes, from + 1, run);
    }
}

/// Every step ends after its start and within the input.
pub proof fn step_advances(bytes: Seq<u8>, start: int)
    requires
        0 <= start < bytes.len(),
    ensures
        start < step(bytes, start).end <= bytes.len(),
{
    run_end_is_the_first_stop(bytes, start + 1, Run::Quoted);
    run_end_is_the_first_stop(bytes, start + 1, Run::Continuation);
    run_end_is_the_first_stop(bytes, start, Run::Word);
    run_end_is_the_first_stop(bytes, start, Run::Digits);
    let whole = run_end(bytes, start, Run::Digits);
    if whole + 1 <= bytes.len() {
        run_end_is_the_first_stop(bytes, whole + 1, Run::Digits);
    }
    if start + 2 <= bytes.len() {
        run_end_is_the_first_stop(bytes, start + 2, Run::Comment);
    }
}

/// The tokens of a scan start at strictly increasing positions, none before
/// the place where the scan began, and the last of them is the
/// end-of-input token, which starts at the end of the input.
pub proof fn tokens_start_in_order(bytes: Seq<u8>, from: int, line: nat)
    requires
        0 <= from <= bytes.len(),
    ensures
        ({
            let tokens = scan_from(bytes, from, line).tokens;
            &&& tokens.len() > 0
            &&& tokens.last().kind == TokenKind::Eof
            &&& tokens.last().start == bytes.len()
            &&& forall|i: int| 0 <= i < tokens.len() ==> from <= (#[trigger] tokens[i]).start
            &&& forall|i: int, j: int|
                0 <= i < j < tokens.len() ==> (#[trigger] tokens[i]).start < (
                #[trigger] tokens[j]).start
            &&& forall|i: int|
                0 <= i < tokens.len() - 1 ==> (#[trigger] tokens[i]).kind != TokenKind::Eof
        }),
    decreases bytes.len() - from,
{
    if from < bytes.len() {
        let s = step(bytes, from);
        step_advances(bytes, from);
        tokens_start_in_order(bytes, s.end, line + s.lines);
        let rest = scan_from(bytes, s.end, line + s.lines).tokens;
        let tokens = scan_from(bytes, from, line).tokens;
        match step_token(bytes, from, line, s) {
            Some(span) => {
                assert(tokens =~= seq![span] + rest);
                assert(span.kind != TokenKind::Eof) by {
                    keyword_is_never_eof(text_of(bytes, from, s.end));
                }
                assert forall|i: int, j: int| 0 <= i < j < tokens.len() implies (
                #[trigger] tokens[i]).start < (#[trigger] tokens[j]).start by {
                    assert(tokens[j] == rest[j - 1]);
                    if i > 0 {
                        assert(tokens[i] == rest[i - 1]);
                    }
                }
                assert forall|i: int| 0 <= i < tokens.len() - 1 implies (
                #[trigger] tokens[i]).kind != TokenKind::Eof by {
                    if i > 0 {
                        assert(tokens[i] == rest[i - 1]);
                    }
                }
            },
            None => {
                assert(tokens =~= rest);
            },
        }
    }
}

/// No spelling is a keyword for the end of input.
pub proof fn keyword_is_never_eof(text: Seq<char>)
    ensures
        spec_keyword(text) matches Some(token_type) ==> token_type.spec_kind() != TokenKind::Eof,
{
}

/// Whether position `i` is where a character starts, or the end of the input.
pub open spec fn at_boundary(bytes: Seq<u8>, i: int) -> bool {
    0 <= i <= bytes.len() && (i == bytes.len() || !is_continuation_byte(bytes[i]))
}

/// In well-formed UTF-8, a position that is at the end or holds no
/// continuation byte is a character boundary.
pub proof fn boundary_is_char_boundary(bytes: Seq<u8>, i: int)
    requires
        valid_utf8(bytes),
        at_boundary(bytes, i),
    ensures
        is_char_boundary(bytes, i),
{
    if i == bytes.len() {
        is_char_boundary_start_end_of_seq(bytes);
    } else {
        is_char_boundary_iff_not_is_continuation_byte(bytes, i);
    }
}

/// In well-formed UTF-8, the position after a whole character is a
/// character boundary again.
proof fn next_char_boundary(bytes: Seq<u8>, i: int)
    requires
        valid_utf8(bytes),
        0 <= i < bytes.len(),
        is_char_boundary(bytes, i),
    ensures
        valid_first_scalar(bytes.subrange(i, bytes.len() as int)),
        is_char_boundary(
            bytes,
            i + length_of_first_scalar(bytes.subrange(i, bytes.len() as int)),
        ),
    decreases bytes.len(),
{
    reveal_with_fuel(is_char_boundary, 2);
    reveal_with_fuel(valid_utf8, 2);
    if i == 0 {
        assert(bytes.subrange(0, bytes.len() as int) =~= bytes);
    } else {
        let first = length_of_first_scalar(bytes);
        let tail = pop_first_scalar(bytes);
        assert(is_char_boundary(tail, i - first));
        if i - first < 0 || i - first >= tail.len() {
            assert(i - first == 0 || i - first == tail.len());
        }
        next_char_boundary(tail, i - first);
        assert(tail.subrange(i - first, tail.len() as int) =~= bytes.subrange(
            i,
            bytes.len() as int,
        ));
    }
}

/// In well-formed UTF-8, an ASCII byte is a character of its own: the
/// position after it is where a character starts, or the end.
pub proof fn ascii_is_followed_by_boundary(bytes: Seq<u8>, i: int)
    requires
        valid_utf8(bytes),
        0 <= i < bytes.len(),
        bytes[i] < 0x80,
    ensures
        at_boundary(bytes, i + 1),
{
    boundary_is_char_boundary(bytes, i);
    next_char_boundary(bytes, i);
    assert(bytes.subrange(i, bytes.len() as int)[0] == bytes[i]);
    if i + 1 < bytes.len() {
        is_char_boundary_iff_not_is_continuation_byte(bytes, i + 1);
    }
}

/// There are no more newlines in a stretch of bytes than bytes.
pub proof fn newlines_are_bytes(bytes: Seq<u8>, from: int, to: int)
    ensures
        newlines(bytes, from, to) <= if to > from {
            to - from
        } else {
            0
        },
    decreases to - from,
{
    if !(from < 0 || from >= to || to > bytes.len()) {
        newlines_are_bytes(bytes, from, to - 1);
    }
}

fn takes(run: &Run, b: u8) -> (r: bool)
    ensures
        r == run.takes(b),
{
    match run {
        Run::Digits => 0x30 <= b && b <= 0x39,
        Run::Word => (0x61 <= b && b <= 0x7a) || (0x41 <= b && b <= 0x5a) || b == 0x5f || (0x30
            <= b && b <= 0x39),
        Run::Quoted => b != 0x22,
        Run::Comment => b != 0x0a,
        Run::Continuation => 0x80 <= b && b <= 0xbf,
    }
}

/// Runs over the bytes of class `run` from `from` on.
fn run_over(bytes: &[u8], from: usize, run: Run) -> (end: usize)
    requires
        from <= bytes@.len(),
    ensures
        end == run_end(bytes@, from as int, run),
        from <= end <= bytes@.len(),
{
    let mut at = from;
    while at < bytes.len() && takes(&run, bytes[at])
        invariant
            from <= at <= bytes@.len(),
            run_end(bytes@, at as int, run) == run_end(bytes@, from as int, run),
        decreases bytes@.len() - at,
    {
        at += 1;
    }
    at
}

/// Counts the newlines in `bytes[from..to]`.
fn count_newlines(bytes: &[u8], from: usize, to: usize) -> (count: usize)
    requires
        from <= to <= bytes@.len(),
    ensures
        count == newlines(bytes@, from as int, to as int),
        count <= to - from,
{
    let mut count: usize = 0;
    let mut at = from;
    while at < to
        invariant
            from <= at <= to <= bytes@.len(),
            count == newlines(bytes@, from as int, at as int),
            count <= at - from,
        decreases to - at,
    {
        if bytes[at] == 0x0a {
            count += 1;
        }
        at += 1;
    }
    count
}

/// The text of `source` between two character boundaries.
fn slice(source: &str, start: usize, end: usize) -> (text: String)
    requires
        start <= end,
        at_boundary(source.spec_bytes(), start as int),
        at_boundary(source.spec_bytes(), end as int),
    ensures
        text@ == text_of(source.spec_bytes(), start as int, end as int),
        encode_utf8(text@) == source.spec_bytes().subrange(start as int, end as int),
{
    let ghost bytes = source.spec_bytes();
    proof {
        encode_utf8_valid_utf8(source@);
        boundary_is_char_boundary(bytes, end as int);
        valid_utf8_split(bytes, end as int);
        let head = bytes.subrange(0, end as int);
        if start < end {
            assert(head[start as int] == bytes[start as int]);
        }
        boundary_is_char_boundary(head, start as int);
    }
    let (head, _) = source.split_at(end);
    let (_, text) = head.split_at(start);
    proof {
        assert(text.spec_bytes() =~= bytes.subrange(start as int, end as int));
        encode_utf8_decode_utf8(text@);
    }
    String::from_str(text)
}

/// Whether `token` is the token that the grammar gives as `span`, in a
/// source whose first byte has offset `base`: it has the span's kind and
/// line, starts at the span's start, and spells the span's bytes; a string
/// carries the text between its quotes, and a number the value of its
/// digits.
pub open spec fn token_matches(token: Token, span: Span, bytes: Seq<u8>, base: usize) -> bool {
    &&& token.spec_kind() == span.kind
    &&& token.byte == base + span.start
    &&& token.line == span.line
    &&& token.lexeme@ == text_of(bytes, span.start, span.end)
    &&& token.token_type matches TokenType::String(text) ==> text@ == text_of(
        bytes,
        span.start + 1,
        span.end - 1,
    )
    &&& token.token_type matches TokenType::Number(bits) ==> decimal_value(token.lexeme@) == Some(
        bits,
    )
}

/// Whether `tokens` are, one for one, the tokens that the grammar gives as
/// `spans`.
pub open spec fn tokens_match(tokens: Seq<Token>, spans: Seq<Span>, bytes: Seq<u8>, base: usize) -> bool {
    &&& tokens.len() == spans.len()
    &&& forall|i: int|
        0 <= i < tokens.len() ==> token_matches(#[trigger] tokens[i], spans[i], bytes, base)
}

/// The token type of a payload-free kind.
fn plain(kind: TokenKind) -> (r: TokenType)
    requires
        kind != TokenKind::String,
        kind != TokenKind::Number,
    ensures
        r.spec_kind() == kind,
{
    match kind {
        TokenKind::LeftParen => TokenType::LeftParen,
        TokenKind::RightParen => TokenType::RightParen,
        TokenKind::LeftBrace => TokenType::LeftBrace,
        TokenKind::RightBrace => TokenType::RightBrace,
        TokenKind::Comma => TokenType::Comma,
        TokenKind::Dot => TokenType::Dot,
        TokenKind::Minus => TokenType::Minus,
        TokenKind::Plus => TokenType::Plus,
        TokenKind::Semicolon => TokenType::Semicolon,
        TokenKind::Slash => TokenType::Slash,
        TokenKind::Star => TokenType::Star,
        TokenKind::Bang => TokenType::Bang,
        TokenKind::BangEqual => TokenType::BangEqual,
        TokenKind::Equal => TokenType::Equal,
        TokenKind::EqualEqual => TokenType::EqualEqual,
        TokenKind::Greater => TokenType::Greater,
        TokenKind::GreaterEqual => TokenType::GreaterEqual,
        TokenKind::Less => TokenType::Less,
        TokenKind::LessEqual => TokenType::LessEqual,
        TokenKind::Identifier => TokenType::Identifier,
        TokenKind::And => TokenType::And,
        TokenKind::Class => TokenType::Class,
        TokenKind::Else => TokenType::Else,
        TokenKind::False => TokenType::False,
        TokenKind::Fun => TokenType::Fun,
        TokenKind::For => TokenType::For,
        TokenKind::If => TokenType::If,
        TokenKind::Nil => TokenType::Nil,
        TokenKind::Or => TokenType::Or,
        TokenKind::Print => TokenType::Print,
        TokenKind::Return => TokenType::Return,
        TokenKind::Super => TokenType::Super,
        TokenKind::This => TokenType::This,
        TokenKind::True => TokenType::True,
        TokenKind::Var => TokenType::Var,
        TokenKind::While => TokenType::While,
        TokenKind::Eof => TokenType::Eof,
        _ => TokenType::Eof,
    }
}

/// The kind of the token that the single character `b` is, if it is one.
fn single(b: u8) -> (r: Option<TokenKind>)
    ensures
        r == single_kind(b),
{
    if b == 0x28 {
        Some(TokenKind::LeftParen)
    } else if b == 0x29 {
        Some(TokenKind::RightParen)
    } else if b == 0x7b {
        Some(TokenKind::LeftBrace)
    } else if b == 0x7d {
        Some(TokenKind::RightBrace)
    } else if b == 0x2c {
        Some(TokenKind::Comma)
    } else if b == 0x2e {
        Some(TokenKind::Dot)
    } else if b == 0x2d {
        Some(TokenKind::Minus)
    } else if b == 0x2b {
        Some(TokenKind::Plus)
    } else if b == 0x3b {
        Some(TokenKind::Semicolon)
    } else if b == 0x2a {
        Some(TokenKind::Star)
    } else {
        None
    }
}

/// The kind of a one- or two-character operator.
fn operator(first: u8, followed: bool) -> (r: TokenKind)
    ensures
        r == operator_kind(first, followed),
        r != TokenKind::String,
        r != TokenKind::Number,
{
    if first == 0x21 {
        if followed {
            TokenKind::BangEqual
        } else {
            TokenKind::Bang
        }
    } else if first == 0x3d {
        if followed {
            TokenKind::EqualEqual
        } else {
            TokenKind::Equal
        }
    } else if first == 0x3c {
        if followed {
            TokenKind::LessEqual
        } else {
            TokenKind::Less
        }
    } else {
        if followed {
            TokenKind::GreaterEqual
        } else {
            TokenKind::Greater
        }
    }
}

/// What one step of the scanner hands back.
pub struct Scanned {
    /// The token that was found, if one was.
    pub token: Option<Token>,
    /// The error that was found, if one was.
    pub error: Option<LoxError>,
    /// Where the step ended.
    pub end: usize,
    /// The line on which it ended.
    pub line: usize,
}

/// Scans what stands at `start`, a character boundary before the end of
/// `source`, on line `line`.
pub fn scan_token(source: &str, start: usize, line: usize, base: usize) -> (r: Scanned)
    requires
        start < source.spec_bytes().len(),
        at_boundary(source.spec_bytes(), start as int),
        line <= start + 1,
        source.spec_bytes().len() <= MAX_SOURCE_BYTES,
        base + source.spec_bytes().len() < usize::MAX,
    ensures
        ({
            let bytes = source.spec_bytes();
            let s = step(bytes, start as int);
            &&& r.end == s.end
            &&& r.line == line + s.lines
            &&& start < r.end <= bytes.len()
            &&& r.line <= r.end + 1
            &&& at_boundary(bytes, r.end as int)
            &&& match step_token(bytes, start as int, line as nat, s) {
                Some(span) => r.token matches Some(token) && token_matches(token, span, bytes, base),
                None => r.token is None,
            }
            &&& match step_error(bytes, start as int, line as nat, s) {
                Some(fault) => r.error matches Some(e) && e@ == fault,
                None => r.error is None,
            }
        }),
{
    let bytes = source.as_bytes();
    let len = bytes.len();
    let c = bytes[start];
    let ghost all = source.spec_bytes();
    proof {
        encode_utf8_valid_utf8(source@);
        step_advances(all, start as int);
    }
    match single(c) {
        Some(kind) => {
            proof {
                ascii_is_followed_by_boundary(all, start as int);
            }
            let lexeme = slice(source, start, start + 1);
            return Scanned {
                token: Some(Token::new(plain(kind), lexeme, line, base + start)),
                error: None,
                end: start + 1,
                line,
            };
        },
        None => {},
    }
    if c == 0x21 || c == 0x3d || c == 0x3c || c == 0x3e {
        let followed = start + 1 < len && bytes[start + 1] == 0x3d;
        let end = if followed {
            start + 2
        } else {
            start + 1
        };
        proof {
            ascii_is_followed_by_boundary(all, end - 1);
        }
        let lexeme = slice(source, start, end);
        Scanned {
            token: Some(Token::new(plain(operator(c, followed)), lexeme, line, base + start)),
            error: None,
            end,
            line,
        }
    } else if c == 0x2f {
        if start + 1 < len && bytes[start + 1] == 0x2f {
            let end = run_over(bytes, start + 2, Run::Comment);
            proof {
                run_end_is_the_first_stop(all, start + 2, Run::Comment);
            }
            Scanned { token: None, error: None, end, line }
        } else {
            proof {
                ascii_is_followed_by_boundary(all, start as int);
            }
            let lexeme = slice(source, start, start + 1);
            Scanned {
                token: Some(Token::new(TokenType::Slash, lexeme, line, base + start)),
                error: None,
                end: start + 1,
                line,
            }
        }
    } else if c == 0x20 || c == 0x0d || c == 0x09 {
        proof {
            ascii_is_followed_by_boundary(all, start as int);
        }
        Scanned { token: None, error: None, end: start + 1, line }
    } else if c == 0x0a {
        proof {
            ascii_is_followed_by_boundary(all, start as int);
        }
        Scanned { token: None, error: None, end: start + 1, line: line + 1 }
    } else if c == 0x22 {
        let closing = run_over(bytes, start + 1, Run::Quoted);
        let lines = count_newlines(bytes, start + 1, closing);
        proof {
            run_end_is_the_first_stop(all, start + 1, Run::Quoted);
        }
        if closing >= len {
            Scanned {
                token: None,
                error: Some(error(line + lines, "Unterminated string.")),
                end: closing,
                line: line + lines,
            }
        } else {
            proof {
                ascii_is_followed_by_boundary(all, start as int);
                ascii_is_followed_by_boundary(all, closing as int);
            }
            let lexeme = slice(source, start, closing + 1);
            let text = slice(source, start + 1, closing);
            Scanned {
                token: Some(
                    Token::new(TokenType::String(text), lexeme, line + lines, base + start),
                ),
                error: None,
                end: closing + 1,
                line: line + lines,
            }
        }
    } else if 0x30 <= c && c <= 0x39 {
        let whole = run_over(bytes, start, Run::Digits);
        let end = if whole < len && bytes[whole] == 0x2e && whole + 1 < len && 0x30 <= bytes[whole
            + 1] && bytes[whole + 1] <= 0x39 {
            run_over(bytes, whole + 1, Run::Digits)
        } else {
            whole
        };
        proof {
            run_end_is_the_first_stop(all, start as int, Run::Digits);
            if whole + 1 <= len {
                run_end_is_the_first_stop(all, whole + 1, Run::Digits);
            }
            assert(is_digit(all[end - 1]));
            ascii_is_followed_by_boundary(all, end - 1);
        }
        let lexeme = slice(source, start, end);
        proof {
            let digits = all.subrange(start as int, end as int);
            assert forall|i: int| 0 <= i < digits.len() implies (0x30 <= #[trigger] digits[i]
                <= 0x39) || digits[i] == 0x2e by {
                assert(digits[i] == all[start + i]);
                if start + i < whole {
                    assert(Run::Digits.takes(all[start + i]));
                } else if start + i > whole {
                    assert(Run::Digits.takes(all[start + i]));
                }
            }
            assert forall|i: int, j: int| 0 <= i < j < digits.len() implies !(
            #[trigger] digits[i] == 0x2e && #[trigger] digits[j] == 0x2e) by {
                assert(digits[i] == all[start + i]);
                assert(digits[j] == all[start + j]);
                if start + i != whole {
                    assert(Run::Digits.takes(all[start + i]));
                }
                if start + j != whole {
                    assert(Run::Digits.takes(all[start + j]));
                }
            }
            assert(digits[0] == all[start as int]);
            assert(spells_decimal(digits));
        }
        let bits = parse_decimal(lexeme.as_str()).unwrap();
        Scanned {
            token: Some(Token::new(TokenType::Number(bits), lexeme, line, base + start)),
            error: None,
            end,
            line,
        }
    } else if (0x61 <= c && c <= 0x7a) || (0x41 <= c && c <= 0x5a) || c == 0x5f {
        let end = run_over(bytes, start, Run::Word);
        proof {
            run_end_is_the_first_stop(all, start as int, Run::Word);
            assert(is_alpha_or_digit(all[end - 1]));
            ascii_is_followed_by_boundary(all, end - 1);
        }
        let lexeme = slice(source, start, end);
        let token_type = match keyword(lexeme.as_str()) {
            Some(found) => found,
            None => TokenType::Identifier,
        };
        Scanned {
            token: Some(Token::new(token_type, lexeme, line, base + start)),
            error: None,
            end,
            line,
        }
    } else {
        let end = run_over(bytes, start + 1, Run::Continuation);
        proof {
            run_end_is_the_first_stop(all, start + 1, Run::Continuation);
        }
        Scanned { token: None, error: Some(error(line, "Unexpected character.")), end, line }
    }
}

/// What a scan hands back: the tokens, and the errors met on the way.
pub struct ScanResult {
    pub tokens: Vec<Token>,
    pub errors: Vec<LoxError>,
}

impl ScanResult {
    /// Moves the errors to the end of `errors` and hands out the tokens.
    pub fn unwrap(self, errors: &mut Vec<LoxError>) -> (tokens: Vec<Token>)
        ensures
            tokens == self.tokens,
            final(errors)@ == old(errors)@ + self.errors@,
    {
        let mut own = self.errors;
        errors.append(&mut own);
        self.tokens
    }
}

/// Whether `result` is what scanning `bytes` gives, in a source whose first
/// byte has offset `base`: the tokens of the grammar, one for one, and its
/// errors.
pub open spec fn scanned(result: ScanResult, bytes: Seq<u8>, base: usize) -> bool {
    &&& tokens_match(result.tokens@, scan(bytes).tokens, bytes, base)
    &&& faults(result.errors@) == scan(bytes).errors
}

/// Tokens that match the grammar's start at strictly increasing offsets, so
/// no two of them have the same; and the last of them, and only the last,
/// is the end-of-input token.
pub proof fn scanned_tokens_are_distinct(result: ScanResult, bytes: Seq<u8>, base: usize)
    requires
        scanned(result, bytes, base),
    ensures
        result.tokens@.len() > 0,
        result.tokens@.last().spec_kind() == TokenKind::Eof,
        forall|i: int|
            0 <= i < result.tokens@.len() - 1 ==> (#[trigger] result.tokens@[i]).spec_kind()
                != TokenKind::Eof,
        forall|i: int, j: int|
            0 <= i < j < result.tokens@.len() ==> (#[trigger] result.tokens@[i]).byte < (
            #[trigger] result.tokens@[j]).byte,
{
    tokens_start_in_order(bytes, 0, 1);
    let spans = scan(bytes).tokens;
    assert forall|i: int, j: int| 0 <= i < j < result.tokens@.len() implies (
    #[trigger] result.tokens@[i]).byte < (#[trigger] result.tokens@[j]).byte by {
        assert(token_matches(result.tokens@[i], spans[i], bytes, base));
        assert(token_matches(result.tokens@[j], spans[j], bytes, base));
    }
    assert forall|i: int| 0 <= i < result.tokens@.len() - 1 implies (
    #[trigger] result.tokens@[i]).spec_kind() != TokenKind::Eof by {
        assert(token_matches(result.tokens@[i], spans[i], bytes, base));
    }
    assert(token_matches(result.tokens@.last(), spans.last(), bytes, base));
}

/// Scans `source`, whose first byte is given the offset `base`. Errors do
/// not stop the scan: it goes on after each, and always ends with the
/// end-of-input token.
pub fn scan_tokens_from(source: &str, base: usize) -> (result: ScanResult)
    requires
        source.spec_bytes().len() <= MAX_SOURCE_BYTES,
        base + source.spec_bytes().len() < usize::MAX,
    ensures
        scanned(result, source.spec_bytes(), base),
        result.tokens@.len() > 0,
        result.tokens@.last().spec_kind() == TokenKind::Eof,
        forall|i: int|
            0 <= i < result.tokens@.len() - 1 ==> (#[trigger] result.tokens@[i]).spec_kind()
                != TokenKind::Eof,
        forall|i: int, j: int|
            0 <= i < j < result.tokens@.len() ==> (#[trigger] result.tokens@[i]).byte < (
            #[trigger] result.tokens@[j]).byte,
{
    let len = source.as_bytes().len();
    let ghost bytes = source.spec_bytes();
    let mut tokens: Vec<Token> = Vec::new();
    let mut errors: Vec<LoxError> = Vec::new();
    let mut current: usize = 0;
    let mut line: usize = 1;
    let ghost mut spans: Seq<Span> = Seq::empty();
    let ghost mut found: Seq<Fault> = Seq::empty();
    proof {
        assert(spans + scan_from(bytes, 0, 1).tokens =~= scan(bytes).tokens);
        assert(found + scan_from(bytes, 0, 1).errors =~= scan(bytes).errors);
        assert(faults(errors@) =~= found);
        if len > 0 {
            encode_utf8_valid_utf8(source@);
            is_char_boundary_start_end_of_seq(bytes);
            is_char_boundary_iff_not_is_continuation_byte(bytes, 0);
        }
    }
    while current < len
        invariant
            bytes == source.spec_bytes(),
            len == bytes.len(),
            len <= MAX_SOURCE_BYTES,
            base + len < usize::MAX,
            current <= len,
            line <= current + 1,
            at_boundary(bytes, current as int),
            tokens_match(tokens@, spans, bytes, base),
            faults(errors@) == found,
            spans + scan_from(bytes, current as int, line as nat).tokens == scan(bytes).tokens,
            found + scan_from(bytes, current as int, line as nat).errors == scan(bytes).errors,
        decreases len - current,
    {
        let ghost s = step(bytes, current as int);
        let ghost rest = scan_from(bytes, s.end, line as nat + s.lines);
        let ghost here = scan_from(bytes, current as int, line as nat);
        let scanned = scan_token(source, current, line, base);
        match scanned.token {
            Some(token) => {
                proof {
                    let span = step_token(bytes, current as int, line as nat, s)->0;
                    assert(spans.push(span) + rest.tokens =~= spans + here.tokens);
                    spans = spans.push(span);
                }
                tokens.push(token);
            },
            None => {},
        }
        match scanned.error {
            Some(e) => {
                proof {
                    let fault = step_error(bytes, current as int, line as nat, s)->0;
                    assert(found.push(fault) + rest.errors =~= found + here.errors);
                    found = found.push(fault);
                }
                errors.push(e);
                assert(faults(errors@) =~= found);
            },
            None => {},
        }
        current = scanned.end;
        line = scanned.line;
    }
    proof {
        let last = Span { kind: TokenKind::Eof, start: len as int, end: len as int, line: line as nat };
        assert(spans.push(last) =~= spans + scan_from(bytes, current as int, line as nat).tokens);
        assert(found =~= found + scan_from(bytes, current as int, line as nat).errors);
        assert(bytes.subrange(len as int, len as int) =~= Seq::<u8>::empty());
        assert(text_of(bytes, len as int, len as int) =~= Seq::<char>::empty()) by {
            reveal_with_fuel(decode_utf8, 1);
            reveal_with_fuel(valid_utf8, 1);
        }
    }
    tokens.push(Token::new(TokenType::Eof, String::new(), line, base + current));
    let result = ScanResult { tokens, errors };
    proof {
        scanned_tokens_are_distinct(result, bytes, base);
    }
    result
}

/// Scans `source`: its tokens, each with the offset of its first byte, and
/// the errors met on the way. No two of the tokens start at the same
/// offset, whatever the source. A source of 2^31 bytes or more is not
/// scanned: it gives the end-of-input token and one error.
pub fn scan_tokens(source: String) -> (result: ScanResult)
    ensures
        encode_utf8(source@).len() <= MAX_SOURCE_BYTES ==> scanned(
            result,
            encode_utf8(source@),
            0,
        ),
        encode_utf8(source@).len() > MAX_SOURCE_BYTES ==> result.tokens@.len() == 1 && faults(
            result.errors@,
        ) == seq![spec_error(0, "Source too long."@)],
        result.tokens@.len() > 0,
        result.tokens@.last().spec_kind() == TokenKind::Eof,
        forall|i: int|
            0 <= i < result.tokens@.len() - 1 ==> (#[trigger] result.tokens@[i]).spec_kind()
                != TokenKind::Eof,
        forall|i: int, j: int|
            0 <= i < j < result.tokens@.len() ==> (#[trigger] result.tokens@[i]).byte < (
            #[trigger] result.tokens@[j]).byte,
        forall|i: int, j: int|
            0 <= i < result.tokens@.len() && 0 <= j < result.tokens@.len() && i != j
                ==> !#[trigger] result.tokens@[i].eq_spec(&result.tokens@[j]),
{
    if source.as_str().as_bytes().len() > MAX_SOURCE_BYTES {
        let mut tokens = Vec::new();
        tokens.push(Token::new(TokenType::Eof, String::new(), 1, 0));
        ScanResult { tokens, errors: only(error(0, "Source too long.")) }
    } else {
        let result = scan_tokens_from(source.as_str(), 0);
        assert forall|i: int, j: int|
            0 <= i < result.tokens@.len() && 0 <= j < result.tokens@.len() && i
                != j implies !#[trigger] result.tokens@[i].eq_spec(&result.tokens@[j]) by {
            if i < j {
                assert(result.tokens@[i].byte < result.tokens@[j].byte);
            } else {
                assert(result.tokens@[j].byte < result.tokens@[i].byte);
            }
        }
        result
    }
}

} // verus!
