use vstd::prelude::*;

verus! {

/// The kinds of token the lexer produces.
#[derive(Debug, Eq, PartialEq, Copy, Clone, Structural)]
pub enum TokenType {
    Lambda,
    Var,
    Space,
    Dot,
    LParen,
    RParen,
    EOF,
    MetaVar,
    LeftArrow,
    Semicolon,
    Equal,
}

/// Mathematical image of a token: its kind, its text, and where it stood in
/// the input.
pub struct TokenView {
    pub ttype: TokenType,
    pub lexeme: Seq<char>,
    pub line: int,
    pub col: int,
}

/// One lexical token, carrying the text it was read from and its source
/// position for error reporting.
#[derive(Debug)]
pub struct Token {
    pub ttype: TokenType,
    pub lexeme: String,
    pub line: i32,
    pub col: i32,
}

impl View for Token {
    type V = TokenView;

    open spec fn view(&self) -> TokenView {
        TokenView {
            ttype: self.ttype,
            lexeme: self.lexeme@,
            line: self.line as int,
            col: self.col as int,
        }
    }
}

impl DeepView for Token {
    type V = TokenView;

    open spec fn deep_view(&self) -> TokenView {
        self.view()
    }
}

impl Token {
    pub fn new(ttype: TokenType, lexeme: String, line: i32, col: i32) -> (t: Token)
        ensures
            t@ == (TokenView { ttype, lexeme: lexeme@, line: line as int, col: col as int }),
    {
        Token { ttype, lexeme, line, col }
    }
}

impl Clone for Token {
    fn clone(&self) -> (t: Token)
        ensures
            t@ == self@,
    {
        Token {
            ttype: self.ttype,
            lexeme: self.lexeme.clone(),
            line: self.line,
            col: self.col,
        }
    }
}

} // verus!
