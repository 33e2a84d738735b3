use vstd::prelude::*;
use crate::token::TokenType;

verus! {

/// Why an evaluation failed.
#[derive(Debug)]
pub enum EvalError {
    /// A metavariable reference named something the environment does not
    /// bind. Recoverable: the offending input is rejected and the session
    /// goes on; the environment is left as it was.
    UnboundMetaVariable { name: String, line: i32, col: i32 },
    /// The fresh-name alphabet was exhausted while alpha-renaming. This
    /// signals a pipeline bug rather than a user error, and is fatal for the
    /// current evaluation.
    InternalInvariantViolation,
    /// The reduction budget ran out before a normal form was reached. The
    /// explicit budget is a deliberate robustness addition: a term with no
    /// normal form would otherwise reduce forever, so every reduction takes
    /// the number of beta steps it is willing to spend.
    BudgetExhausted,
}

/// What the lexer objected to.
#[derive(Debug, Clone, Copy, PartialEq, Eq, Structural)]
pub enum LexErrorKind {
    /// A character no rule accepts.
    UnexpectedChar(char),
    /// A `<` followed by something other than `-`.
    UnexpectedAfterLess(char),
}

/// Mathematical image of a lexer error.
pub struct LexErrorView {
    pub line: int,
    pub col: int,
    pub kind: LexErrorKind,
}

/// One lexer error with the position it was raised at.
#[derive(Debug, Clone, Copy)]
pub struct LexError {
    pub line: i32,
    pub col: i32,
    pub kind: LexErrorKind,
}

impl View for LexError {
    type V = LexErrorView;

    open spec fn view(&self) -> LexErrorView {
        LexErrorView { line: self.line as int, col: self.col as int, kind: self.kind }
    }
}

impl DeepView for LexError {
    type V = LexErrorView;

    open spec fn deep_view(&self) -> LexErrorView {
        self.view()
    }
}

/// What the parser objected to.
#[derive(Debug, Clone, Copy, PartialEq, Eq, Structural)]
pub enum ParseErrorKind {
    /// A specific token kind was required and something else stood there.
    Expected { expected: TokenType, found: TokenType },
    /// No primary expression starts with this token.
    UnexpectedPrimary { found: TokenType },
}

/// Mathematical image of a parser error.
pub struct ParseErrorView {
    pub line: int,
    pub col: int,
    pub kind: ParseErrorKind,
}

/// One parser error with the position of the token it was raised at.
#[derive(Debug, Clone, Copy)]
pub struct ParseError {
    pub line: i32,
    pub col: i32,
    pub kind: ParseErrorKind,
}

impl View for ParseError {
    type V = ParseErrorView;

    open spec fn view(&self) -> ParseErrorView {
        ParseErrorView { line: self.line as int, col: self.col as int, kind: self.kind }
    }
}

} // verus!
