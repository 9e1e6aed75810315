//! The token vocabulary of the language, and tokens with their provenance.

use vstd::prelude::*;

verus! {

/// The classified unit produced by scanning.
///
/// Every character of the input becomes part of exactly one token: whitespace
/// and comments are first-class tokens rather than being skipped, so the token
/// stream preserves the source text in full.
///
/// A float literal carries its decimal text (for example `"3.14"`) rather than
/// a binary floating-point value; the text is exactly the lexeme, so nothing
/// is lost and callers may convert it as they see fit.
#[derive(Debug, PartialEq)]
pub enum Token {
    // Single-character tokens.
    LeftParen,
    RightParen,
    LeftBrace,
    RightBrace,
    Comma,
    Dot,
    Minus,
    Plus,
    Semicolon,
    Slash,
    ForwardSlash,
    Star,
    // One or two character tokens.
    Bang,
    BangEqual,
    Equal,
    EqualEqual,
    Greater,
    GreaterEqual,
    Less,
    LessEqual,
    Colon,
    ColonColon,
    // Literals.
    Identifier(String),
    StringLit(String),
    Integer(i64),
    Float(String),
    // Comment, carrying its text with the `//` marker stripped.
    Comment(String),
    // Keywords.
    And,
    Class,
    Else,
    False,
    Fun,
    For,
    If,
    Nil,
    Or,
    Print,
    Return,
    Super,
    This,
    True,
    Var,
    While,
    // Whitespace and the terminal token.
    EndOfFile,
    Space,
    Tab,
    NewLine,
    CarriageReturn,
}

/// Mathematical image of a [`Token`]: the same variants, with text payloads
/// as character sequences and the integer payload unbounded.
pub enum TokenModel {
    LeftParen,
    RightParen,
    LeftBrace,
    RightBrace,
    Comma,
    Dot,
    Minus,
    Plus,
    Semicolon,
    Slash,
    ForwardSlash,
    Star,
    Bang,
    BangEqual,
    Equal,
    EqualEqual,
    Greater,
    GreaterEqual,
    Less,
    LessEqual,
    Colon,
    ColonColon,
    Identifier(Seq<char>),
    StringLit(Seq<char>),
    Integer(int),
    Float(Seq<char>),
    Comment(Seq<char>),
    And,
    Class,
    Else,
    False,
    Fun,
    For,
    If,
    Nil,
    Or,
    Print,
    Return,
    Super,
    This,
    True,
    Var,
    While,
    EndOfFile,
    Space,
    Tab,
    NewLine,
    CarriageReturn,
}

impl TokenModel {
    /// Whether this token stands for whitespace (or the end of the input)
    /// rather than program text.
    pub open spec fn is_whitespace(self) -> bool {
        match self {
            TokenModel::EndOfFile
            | TokenModel::Space
            | TokenModel::Tab
            | TokenModel::NewLine
            | TokenModel::CarriageReturn => true,
            _ => false,
        }
    }
}

impl View for Token {
    type V = TokenModel;

    open spec fn view(&self) -> TokenModel {
        match self {
            Token::LeftParen => TokenModel::LeftParen,
            Token::RightParen => TokenModel::RightParen,
            Token::LeftBrace => TokenModel::LeftBrace,
            Token::RightBrace => TokenModel::RightBrace,
            Token::Comma => TokenModel::Comma,
            Token::Dot => TokenModel::Dot,
            Token::Minus => TokenModel::Minus,
            Token::Plus => TokenModel::Plus,
            Token::Semicolon => TokenModel::Semicolon,
            Token::Slash => TokenModel::Slash,
            Token::ForwardSlash => TokenModel::ForwardSlash,
            Token::Star => TokenModel::Star,
            Token::Bang => TokenModel::Bang,
            Token::BangEqual => TokenModel::BangEqual,
            Token::Equal => TokenModel::Equal,
            Token::EqualEqual => TokenModel::EqualEqual,
            Token::Greater => TokenModel::Greater,
            Token::GreaterEqual => TokenModel::GreaterEqual,
            Token::Less => TokenModel::Less,
            Token::LessEqual => TokenModel::LessEqual,
            Token::Colon => TokenModel::Colon,
            Token::ColonColon => TokenModel::ColonColon,
            Token::Identifier(s) => TokenModel::Identifier(s@),
            Token::StringLit(s) => TokenModel::StringLit(s@),
            Token::Integer(i) => TokenModel::Integer(*i as int),
            Token::Float(s) => TokenModel::Float(s@),
            Token::Comment(s) => TokenModel::Comment(s@),
            Token::And => TokenModel::And,
            Token::Class => TokenModel::Class,
            Token::Else => TokenModel::Else,
            Token::False => TokenModel::False,
            Token::Fun => TokenModel::Fun,
            Token::For => TokenModel::For,
            Token::If => TokenModel::If,
            Token::Nil => TokenModel::Nil,
            Token::Or => TokenModel::Or,
            Token::Print => TokenModel::Print,
            Token::Return => TokenModel::Return,
            Token::Super => TokenModel::Super,
            Token::This => TokenModel::This,
            Token::True => TokenModel::True,
            Token::Var => TokenModel::Var,
            Token::While => TokenModel::While,
            Token::EndOfFile => TokenModel::EndOfFile,
            Token::Space => TokenModel::Space,
            Token::Tab => TokenModel::Tab,
            Token::NewLine => TokenModel::NewLine,
            Token::CarriageReturn => TokenModel::CarriageReturn,
        }
    }
}

impl Token {
    /// Whether this token stands for whitespace (or the end of the input).
    pub fn is_whitespace(&self) -> (r: bool)
        ensures
            r == self@.is_whitespace(),
    {
        matches!(
            self,
            Token::EndOfFile | Token::Space | Token::Tab | Token::NewLine | Token::CarriageReturn
        )
    }
}

/// A token together with its provenance: the exact source substring it came
/// from, the 0-based line it starts on, and its start and end character
/// offsets in the input.
#[derive(Debug)]
pub struct TokenContext {
    pub token: Token,
    pub lexeme: String,
    pub line: usize,
    pub start: usize,
    pub end: usize,
}

/// Mathematical image of a [`TokenContext`].
pub struct TokenContextModel {
    pub token: TokenModel,
    pub lexeme: Seq<char>,
    pub line: int,
    pub start: int,
    pub end: int,
}

impl View for TokenContext {
    type V = TokenContextModel;

    open spec fn view(&self) -> TokenContextModel {
        TokenContextModel {
            token: self.token@,
            lexeme: self.lexeme@,
            line: self.line as int,
            start: self.start as int,
            end: self.end as int,
        }
    }
}

/// The mathematical image of a vector of positioned tokens.
pub open spec fn tokens_view(toks: Seq<TokenContext>) -> Seq<TokenContextModel> {
    toks.map_values(|tc: TokenContext| tc@)
}

impl TokenContext {
    /// Wrap a token in the source context it was found in.
    pub fn new(token: Token, lexeme: String, line: usize, start: usize, end: usize) -> (r: Self)
        ensures
            r@ == (TokenContextModel {
                token: token@,
                lexeme: lexeme@,
                line: line as int,
                start: start as int,
                end: end as int,
            }),
    {
        Self { token, lexeme, line, start, end }
    }
}

} // verus!
