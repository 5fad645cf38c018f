//! Token kinds, token values and their mathematical views.

use vstd::prelude::*;

verus! {

/// Half-open byte range `[start, end)` into the source buffer.
#[derive(Clone, Copy, Debug, PartialEq, Eq, Structural)]
pub struct Span {
    pub start: usize,
    pub end: usize,
}

/// A positioned token value: the 1-based line where the token begins, the
/// byte span of the raw match in the source buffer, and the decoded payload.
#[derive(Debug, PartialEq, Eq)]
pub struct Token<T> {
    pub line: usize,
    pub span: Span,
    pub v: T,
}

impl<T> Token<T> {
    /// Packs a decoded payload with its position data.
    pub fn new(v: T, span: Span, line: usize) -> (t: Self)
        ensures
            t.line == line,
            t.span == span,
            t.v == v,
    {
        Self { line, span, v }
    }
}

/// The closed set of lexical categories.
#[derive(Clone, Copy, Debug, PartialEq, Eq, Structural)]
pub enum TokenKind {
    Line,
    Comment,
    Equal,
    Plus,
    Sub,
    Mul,
    Div,
    DivToInt,
    Semicolon,
    Comma,
    DoubleDot,
    Dot,
    Gt,
    Lt,
    ParenthesesLeft,
    ParenthesesRight,
    Function,
    End,
    Local,
    Break,
    Do,
    While,
    If,
    Else,
    Elseif,
    Then,
    Repeat,
    Until,
    For,
    Goto,
    And,
    Or,
    Name,
    Int,
    Float,
    Bool,
    QuotedString,
}

/// The payload a token carries, at the specification level. The payload's
/// shape is determined solely by the token's kind.
pub enum PayloadV {
    Empty,
    Text(Seq<u8>),
    Uint(u64),
    Truth(bool),
}

/// Mathematical view of one token: its kind, 1-based line, byte span and
/// decoded payload.
pub struct TokV {
    pub kind: TokenKind,
    pub line: int,
    pub start: int,
    pub end: int,
    pub payload: PayloadV,
}

/// A classified token. Every variant carries a [`Token`] with the payload
/// its category decodes to: raw text for comments, names and float
/// literals, the decoded contents for quoted strings, the parsed value for
/// integer and boolean literals, and unit for punctuation and keywords.
///
/// `Line` is part of the closed category set but is informational only:
/// this lexer discards line terminators after counting them, so it never
/// emits a `Line` token.
#[derive(Debug, PartialEq, Eq)]
pub enum TokenEnum {
    Line(Token<Vec<u8>>),
    Comment(Token<Vec<u8>>),
    Equal(Token<()>),
    Plus(Token<()>),
    Sub(Token<()>),
    Mul(Token<()>),
    Div(Token<()>),
    DivToInt(Token<()>),
    Semicolon(Token<()>),
    Comma(Token<()>),
    DoubleDot(Token<()>),
    Dot(Token<()>),
    Gt(Token<()>),
    Lt(Token<()>),
    ParenthesesLeft(Token<()>),
    ParenthesesRight(Token<()>),
    Function(Token<()>),
    End(Token<()>),
    Local(Token<()>),
    Break(Token<()>),
    Do(Token<()>),
    While(Token<()>),
    If(Token<()>),
    Else(Token<()>),
    Elseif(Token<()>),
    Then(Token<()>),
    Repeat(Token<()>),
    Until(Token<()>),
    For(Token<()>),
    Goto(Token<()>),
    And(Token<()>),
    Or(Token<()>),
    Name(Token<Vec<u8>>),
    Int(Token<u64>),
    Float(Token<Vec<u8>>),
    Bool(Token<bool>),
    QuotedString(Token<Vec<u8>>),
}

impl View for TokenEnum {
    type V = TokV;

    open spec fn view(&self) -> TokV {
        match self {
            TokenEnum::Line(t) => TokV {
                kind: TokenKind::Line,
                line: t.line as int,
                start: t.span.start as int,
                end: t.span.end as int,
                payload: PayloadV::Text(t.v@),
            },
            TokenEnum::Comment(t) => TokV {
                kind: TokenKind::Comment,
                line: t.line as int,
                start: t.span.start as int,
                end: t.span.end as int,
                payload: PayloadV::Text(t.v@),
            },
            TokenEnum::Equal(t) => unit_tok_v(TokenKind::Equal, t),
            TokenEnum::Plus(t) => unit_tok_v(TokenKind::Plus, t),
            TokenEnum::Sub(t) => unit_tok_v(TokenKind::Sub, t),
            TokenEnum::Mul(t) => unit_tok_v(TokenKind::Mul, t),
            TokenEnum::Div(t) => unit_tok_v(TokenKind::Div, t),
            TokenEnum::DivToInt(t) => unit_tok_v(TokenKind::DivToInt, t),
            TokenEnum::Semicolon(t) => unit_tok_v(TokenKind::Semicolon, t),
            TokenEnum::Comma(t) => unit_tok_v(TokenKind::Comma, t),
            TokenEnum::DoubleDot(t) => unit_tok_v(TokenKind::DoubleDot, t),
            TokenEnum::Dot(t) => unit_tok_v(TokenKind::Dot, t),
            TokenEnum::Gt(t) => unit_tok_v(TokenKind::Gt, t),
            TokenEnum::Lt(t) => unit_tok_v(TokenKind::Lt, t),
            TokenEnum::ParenthesesLeft(t) => unit_tok_v(TokenKind::ParenthesesLeft, t),
            TokenEnum::ParenthesesRight(t) => unit_tok_v(TokenKind::ParenthesesRight, t),
            TokenEnum::Function(t) => unit_tok_v(TokenKind::Function, t),
            TokenEnum::End(t) => unit_tok_v(TokenKind::End, t),
            TokenEnum::Local(t) => unit_tok_v(TokenKind::Local, t),
            TokenEnum::Break(t) => unit_tok_v(TokenKind::Break, t),
            TokenEnum::Do(t) => unit_tok_v(TokenKind::Do, t),
            TokenEnum::While(t) => unit_tok_v(TokenKind::While, t),
            TokenEnum::If(t) => unit_tok_v(TokenKind::If, t),
            TokenEnum::Else(t) => unit_tok_v(TokenKind::Else, t),
            TokenEnum::Elseif(t) => unit_tok_v(TokenKind::Elseif, t),
            TokenEnum::Then(t) => unit_tok_v(TokenKind::Then, t),
            TokenEnum::Repeat(t) => unit_tok_v(TokenKind::Repeat, t),
            TokenEnum::Until(t) => unit_tok_v(TokenKind::Until, t),
            TokenEnum::For(t) => unit_tok_v(TokenKind::For, t),
            TokenEnum::Goto(t) => unit_tok_v(TokenKind::Goto, t),
            TokenEnum::And(t) => unit_tok_v(TokenKind::And, t),
            TokenEnum::Or(t) => unit_tok_v(TokenKind::Or, t),
            TokenEnum::Name(t) => TokV {
                kind: TokenKind::Name,
                line: t.line as int,
                start: t.span.start as int,
                end: t.span.end as int,
                payload: PayloadV::Text(t.v@),
            },
            TokenEnum::Int(t) => TokV {
                kind: TokenKind::Int,
                line: t.line as int,
                start: t.span.start as int,
                end: t.span.end as int,
                payload: PayloadV::Uint(t.v),
            },
            TokenEnum::Float(t) => TokV {
                kind: TokenKind::Float,
                line: t.line as int,
                start: t.span.start as int,
                end: t.span.end as int,
                payload: PayloadV::Text(t.v@),
            },
            TokenEnum::Bool(t) => TokV {
                kind: TokenKind::Bool,
                line: t.line as int,
                start: t.span.start as int,
                end: t.span.end as int,
                payload: PayloadV::Truth(t.v),
            },
            TokenEnum::QuotedString(t) => TokV {
                kind: TokenKind::QuotedString,
                line: t.line as int,
                start: t.span.start as int,
                end: t.span.end as int,
                payload: PayloadV::Text(t.v@),
            },
        }
    }
}

/// View of a token that carries no payload.
pub open spec fn unit_tok_v(kind: TokenKind, t: &Token<()>) -> TokV {
    TokV {
        kind,
        line: t.line as int,
        start: t.span.start as int,
        end: t.span.end as int,
        payload: PayloadV::Empty,
    }
}

/// Whether a kind carries no payload (punctuation, operators, keywords).
pub open spec fn is_unit_kind(k: TokenKind) -> bool {
    match k {
        TokenKind::Equal
        | TokenKind::Plus
        | TokenKind::Sub
        | TokenKind::Mul
        | TokenKind::Div
        | TokenKind::DivToInt
        | TokenKind::Semicolon
        | TokenKind::Comma
        | TokenKind::DoubleDot
        | TokenKind::Dot
        | TokenKind::Gt
        | TokenKind::Lt
        | TokenKind::ParenthesesLeft
        | TokenKind::ParenthesesRight
        | TokenKind::Function
        | TokenKind::End
        | TokenKind::Local
        | TokenKind::Break
        | TokenKind::Do
        | TokenKind::While
        | TokenKind::If
        | TokenKind::Else
        | TokenKind::Elseif
        | TokenKind::Then
        | TokenKind::Repeat
        | TokenKind::Until
        | TokenKind::For
        | TokenKind::Goto
        | TokenKind::And
        | TokenKind::Or => true,
        _ => false,
    }
}

/// Whether a kind is a separator: a token that may stand immediately next
/// to any other token. Whitespace-consuming categories, punctuation,
/// operators, comments and quoted strings separate; identifiers, numbers,
/// booleans and keywords do not.
pub open spec fn is_separator_kind(k: TokenKind) -> bool {
    match k {
        TokenKind::Line
        | TokenKind::Comment
        | TokenKind::Equal
        | TokenKind::Plus
        | TokenKind::Sub
        | TokenKind::Mul
        | TokenKind::Div
        | TokenKind::DivToInt
        | TokenKind::Semicolon
        | TokenKind::Comma
        | TokenKind::DoubleDot
        | TokenKind::Dot
        | TokenKind::Gt
        | TokenKind::Lt
        | TokenKind::ParenthesesLeft
        | TokenKind::ParenthesesRight
        | TokenKind::QuotedString => true,
        _ => false,
    }
}

impl TokenEnum {
    /// The token's lexical category.
    pub fn kind(&self) -> (k: TokenKind)
        ensures
            k == self@.kind,
    {
        match self {
            TokenEnum::Line(_) => TokenKind::Line,
            TokenEnum::Comment(_) => TokenKind::Comment,
            TokenEnum::Equal(_) => TokenKind::Equal,
            TokenEnum::Plus(_) => TokenKind::Plus,
            TokenEnum::Sub(_) => TokenKind::Sub,
            TokenEnum::Mul(_) => TokenKind::Mul,
            TokenEnum::Div(_) => TokenKind::Div,
            TokenEnum::DivToInt(_) => TokenKind::DivToInt,
            TokenEnum::Semicolon(_) => TokenKind::Semicolon,
            TokenEnum::Comma(_) => TokenKind::Comma,
            TokenEnum::DoubleDot(_) => TokenKind::DoubleDot,
            TokenEnum::Dot(_) => TokenKind::Dot,
            TokenEnum::Gt(_) => TokenKind::Gt,
            TokenEnum::Lt(_) => TokenKind::Lt,
            TokenEnum::ParenthesesLeft(_) => TokenKind::ParenthesesLeft,
            TokenEnum::ParenthesesRight(_) => TokenKind::ParenthesesRight,
            TokenEnum::Function(_) => TokenKind::Function,
            TokenEnum::End(_) => TokenKind::End,
            TokenEnum::Local(_) => TokenKind::Local,
            TokenEnum::Break(_) => TokenKind::Break,
            TokenEnum::Do(_) => TokenKind::Do,
            TokenEnum::While(_) => TokenKind::While,
            TokenEnum::If(_) => TokenKind::If,
            TokenEnum::Else(_) => TokenKind::Else,
            TokenEnum::Elseif(_) => TokenKind::Elseif,
            TokenEnum::Then(_) => TokenKind::Then,
            TokenEnum::Repeat(_) => TokenKind::Repeat,
            TokenEnum::Until(_) => TokenKind::Until,
            TokenEnum::For(_) => TokenKind::For,
            TokenEnum::Goto(_) => TokenKind::Goto,
            TokenEnum::And(_) => TokenKind::And,
            TokenEnum::Or(_) => TokenKind::Or,
            TokenEnum::Name(_) => TokenKind::Name,
            TokenEnum::Int(_) => TokenKind::Int,
            TokenEnum::Float(_) => TokenKind::Float,
            TokenEnum::Bool(_) => TokenKind::Bool,
            TokenEnum::QuotedString(_) => TokenKind::QuotedString,
        }
    }

    /// Whether this token is a separator, safe to stand immediately next
    /// to any neighbour.
    pub fn is_separate(&self) -> (r: bool)
        ensures
            r == is_separator_kind(self@.kind),
    {
        let k = self.kind();
        match k {
            TokenKind::Line
            | TokenKind::Comment
            | TokenKind::Equal
            | TokenKind::Plus
            | TokenKind::Sub
            | TokenKind::Mul
            | TokenKind::Div
            | TokenKind::DivToInt
            | TokenKind::Semicolon
            | TokenKind::Comma
            | TokenKind::DoubleDot
            | TokenKind::Dot
            | TokenKind::Gt
            | TokenKind::Lt
            | TokenKind::ParenthesesLeft
            | TokenKind::ParenthesesRight
            | TokenKind::QuotedString => true,
            _ => false,
        }
    }

    /// The 1-based line on which the token begins.
    pub fn line(&self) -> (r: usize)
        ensures
            r as int == self@.line,
    {
        match self {
            TokenEnum::Line(t) => t.line,
            TokenEnum::Comment(t) => t.line,
            TokenEnum::Equal(t) => t.line,
            TokenEnum::Plus(t) => t.line,
            TokenEnum::Sub(t) => t.line,
            TokenEnum::Mul(t) => t.line,
            TokenEnum::Div(t) => t.line,
            TokenEnum::DivToInt(t) => t.line,
            TokenEnum::Semicolon(t) => t.line,
            TokenEnum::Comma(t) => t.line,
            TokenEnum::DoubleDot(t) => t.line,
            TokenEnum::Dot(t) => t.line,
            TokenEnum::Gt(t) => t.line,
            TokenEnum::Lt(t) => t.line,
            TokenEnum::ParenthesesLeft(t) => t.line,
            TokenEnum::ParenthesesRight(t) => t.line,
            TokenEnum::Function(t) => t.line,
            TokenEnum::End(t) => t.line,
            TokenEnum::Local(t) => t.line,
            TokenEnum::Break(t) => t.line,
            TokenEnum::Do(t) => t.line,
            TokenEnum::While(t) => t.line,
            TokenEnum::If(t) => t.line,
            TokenEnum::Else(t) => t.line,
            TokenEnum::Elseif(t) => t.line,
            TokenEnum::Then(t) => t.line,
            TokenEnum::Repeat(t) => t.line,
            TokenEnum::Until(t) => t.line,
            TokenEnum::For(t) => t.line,
            TokenEnum::Goto(t) => t.line,
            TokenEnum::And(t) => t.line,
            TokenEnum::Or(t) => t.line,
            TokenEnum::Name(t) => t.line,
            TokenEnum::Int(t) => t.line,
            TokenEnum::Float(t) => t.line,
            TokenEnum::Bool(t) => t.line,
            TokenEnum::QuotedString(t) => t.line,
        }
    }

    /// The byte span of the raw match in the source buffer.
    pub fn span(&self) -> (r: Span)
        ensures
            r.start as int == self@.start,
            r.end as int == self@.end,
    {
        match self {
            TokenEnum::Line(t) => t.span,
            TokenEnum::Comment(t) => t.span,
            TokenEnum::Equal(t) => t.span,
            TokenEnum::Plus(t) => t.span,
            TokenEnum::Sub(t) => t.span,
            TokenEnum::Mul(t) => t.span,
            TokenEnum::Div(t) => t.span,
            TokenEnum::DivToInt(t) => t.span,
            TokenEnum::Semicolon(t) => t.span,
            TokenEnum::Comma(t) => t.span,
            TokenEnum::DoubleDot(t) => t.span,
            TokenEnum::Dot(t) => t.span,
            TokenEnum::Gt(t) => t.span,
            TokenEnum::Lt(t) => t.span,
            TokenEnum::ParenthesesLeft(t) => t.span,
            TokenEnum::ParenthesesRight(t) => t.span,
            TokenEnum::Function(t) => t.span,
            TokenEnum::End(t) => t.span,
            TokenEnum::Local(t) => t.span,
            TokenEnum::Break(t) => t.span,
            TokenEnum::Do(t) => t.span,
            TokenEnum::While(t) => t.span,
            TokenEnum::If(t) => t.span,
            TokenEnum::Else(t) => t.span,
            TokenEnum::Elseif(t) => t.span,
            TokenEnum::Then(t) => t.span,
            TokenEnum::Repeat(t) => t.span,
            TokenEnum::Until(t) => t.span,
            TokenEnum::For(t) => t.span,
            TokenEnum::Goto(t) => t.span,
            TokenEnum::And(t) => t.span,
            TokenEnum::Or(t) => t.span,
            TokenEnum::Name(t) => t.span,
            TokenEnum::Int(t) => t.span,
            TokenEnum::Float(t) => t.span,
            TokenEnum::Bool(t) => t.span,
            TokenEnum::QuotedString(t) => t.span,
        }
    }
}

/// Builds the token for a payload-free kind.
pub fn unit_token(k: TokenKind, line: usize, start: usize, end: usize) -> (t: TokenEnum)
    requires
        is_unit_kind(k),
    ensures
        t@ == (TokV {
            kind: k,
            line: line as int,
            start: start as int,
            end: end as int,
            payload: PayloadV::Empty,
        }),
{
    let span = Span { start, end };
    match k {
        TokenKind::Equal => TokenEnum::Equal(Token::new((), span, line)),
        TokenKind::Plus => TokenEnum::Plus(Token::new((), span, line)),
        TokenKind::Sub => TokenEnum::Sub(Token::new((), span, line)),
        TokenKind::Mul => TokenEnum::Mul(Token::new((), span, line)),
        TokenKind::Div => TokenEnum::Div(Token::new((), span, line)),
        TokenKind::DivToInt => TokenEnum::DivToInt(Token::new((), span, line)),
        TokenKind::Semicolon => TokenEnum::Semicolon(Token::new((), span, line)),
        TokenKind::Comma => TokenEnum::Comma(Token::new((), span, line)),
        TokenKind::DoubleDot => TokenEnum::DoubleDot(Token::new((), span, line)),
        TokenKind::Dot => TokenEnum::Dot(Token::new((), span, line)),
        TokenKind::Gt => TokenEnum::Gt(Token::new((), span, line)),
        TokenKind::Lt => TokenEnum::Lt(Token::new((), span, line)),
        TokenKind::ParenthesesLeft => TokenEnum::ParenthesesLeft(Token::new((), span, line)),
        TokenKind::ParenthesesRight => TokenEnum::ParenthesesRight(Token::new((), span, line)),
        TokenKind::Function => TokenEnum::Function(Token::new((), span, line)),
        TokenKind::End => TokenEnum::End(Token::new((), span, line)),
        TokenKind::Local => TokenEnum::Local(Token::new((), span, line)),
        TokenKind::Break => TokenEnum::Break(Token::new((), span, line)),
        TokenKind::Do => TokenEnum::Do(Token::new((), span, line)),
        TokenKind::While => TokenEnum::While(Token::new((), span, line)),
        TokenKind::If => TokenEnum::If(Token::new((), span, line)),
        TokenKind::Else => TokenEnum::Else(Token::new((), span, line)),
        TokenKind::Elseif => TokenEnum::Elseif(Token::new((), span, line)),
        TokenKind::Then => TokenEnum::Then(Token::new((), span, line)),
        TokenKind::Repeat => TokenEnum::Repeat(Token::new((), span, line)),
        TokenKind::Until => TokenEnum::Until(Token::new((), span, line)),
        TokenKind::For => TokenEnum::For(Token::new((), span, line)),
        TokenKind::Goto => TokenEnum::Goto(Token::new((), span, line)),
        TokenKind::And => TokenEnum::And(Token::new((), span, line)),
        _ => TokenEnum::Or(Token::new((), span, line)),
    }
}

} // verus!
