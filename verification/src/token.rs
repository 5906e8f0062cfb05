//! The token model: the closed set of lexical categories, the literal
//! payload variants, and the `Token` record the scanner emits.

use vstd::prelude::*;

verus! {

/// The closed set of lexical categories.
#[derive(Clone, Copy, PartialEq, Eq, Structural, Debug)]
pub enum TokenType {
    // one character
    LeftParen,      // (
    RightParen,     // )
    LeftBracket,    // [
    RightBracket,   // ]
    LeftBrace,      // {
    RightBrace,     // }
    Add,            // +
    Subtract,       // -
    Divide,         // /
    Multiply,       // *
    Modulo,         // %
    GreaterThan,    // >
    LessThan,       // <
    BitAnd,         // &
    BitOr,          // |
    BitXOr,         // ^
    Exclaim,        // !
    Assign,         // =
    Comma,          // ,
    // two characters
    BitLeftShift,   // <<
    BitRightShift,  // >>
    Pow,            // **
    GtOrEqualTo,    // >=
    LtOrEqualTo,    // <=
    Equals,         // ==
    Increment,      // ++
    Decrement,      // --
    InAdd,          // +=
    InSubtract,     // -=
    InDivide,       // /=
    InMultiply,     // *=
    InModulo,       // %=
    InBitAnd,       // &=
    InBitOr,        // |=
    InBitXOr,       // ^=
    InBitNot,       // !=
    // three characters
    NotEquals,      // =/=
    InBitLShift,    // <<=
    InBitRShift,    // >>=
    // other
    Literal,
    Error,
    EoF,
}

/// A literal payload. The 32-bit float payloads are carried as their IEEE 754
/// bit patterns; the scanner does not yet produce the float, identifier or
/// scientific-notation variants.
#[derive(Debug)]
pub enum LiteralType {
    Identifier(String),
    Float(u32),
    Int(i32),
    SciNotFloat(u32),
    SciNotInt(i32),
    Other,
}

/// The mathematical value of a literal payload: identifier text as a
/// character sequence, integer payloads as unbounded integers.
pub ghost enum LitV {
    Identifier(Seq<char>),
    Float(u32),
    Int(int),
    SciNotFloat(u32),
    SciNotInt(int),
    Other,
}

impl View for LiteralType {
    type V = LitV;

    open spec fn view(&self) -> LitV {
        match self {
            LiteralType::Identifier(s) => LitV::Identifier(s@),
            LiteralType::Float(bits) => LitV::Float(*bits),
            LiteralType::Int(v) => LitV::Int(*v as int),
            LiteralType::SciNotFloat(bits) => LitV::SciNotFloat(*bits),
            LiteralType::SciNotInt(v) => LitV::SciNotInt(*v as int),
            LiteralType::Other => LitV::Other,
        }
    }
}

/// A classified lexical unit: its category, an optional literal payload, the
/// 1-based source line it starts on, and the originating lexeme text.
pub struct Token {
    pub token_type: TokenType,
    pub literal: LiteralType,
    pub line: u32,
    pub lexeme: String,
}

/// The mathematical value of a token.
#[verifier::ext_equal]
pub ghost struct TokenV {
    pub token_type: TokenType,
    pub literal: LitV,
    pub line: int,
    pub lexeme: Seq<char>,
}

impl View for Token {
    type V = TokenV;

    open spec fn view(&self) -> TokenV {
        TokenV {
            token_type: self.token_type,
            literal: self.literal@,
            line: self.line as int,
            lexeme: self.lexeme@,
        }
    }
}

impl Token {
    pub fn new(token_type: TokenType, literal: LiteralType, line: u32, lexeme: String) -> (r:
        Token)
        ensures
            r.token_type == token_type,
            r.literal == literal,
            r.line == line,
            r.lexeme == lexeme,
    {
        Token { token_type, literal, line, lexeme }
    }
}

} // verus!
