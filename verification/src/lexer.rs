use vstd::prelude::*;
use crate::token::{Token, TokenType, TokenView};
use crate::errors::{LexError, LexErrorKind, LexErrorView};

verus! {

/// May a character start an identifier? Letters only.
pub open spec fn id_start(c: char) -> bool {
    (65 <= c as u32 && c as u32 <= 90) || (97 <= c as u32 && c as u32 <= 122)
}

/// May a character continue an identifier? Letters and digits.
pub open spec fn id_char(c: char) -> bool {
    id_start(c) || (48 <= c as u32 && c as u32 <= 57)
}

/// May a character open a metavariable name? An upper-case letter or `$`.
pub open spec fn meta_start(c: char) -> bool {
    c == '$' || (65 <= c as u32 && c as u32 <= 90)
}

/// Is the character a lower-case letter, the only shape of a lambda
/// variable?
pub open spec fn var_char(c: char) -> bool {
    97 <= c as u32 && c as u32 <= 122
}

/// The end of the identifier-character run that starts at `j`.
pub open spec fn meta_run_end(s: Seq<char>, j: int) -> int
    decreases s.len() - j when j >= 0
{
    if j >= s.len() || !id_char(s[j]) {
        j
    } else {
        meta_run_end(s, j + 1)
    }
}

/// The run end lies between `j` and the end of the input.
pub proof fn lemma_meta_run_end_bounds(s: Seq<char>, j: int)
    requires
        0 <= j <= s.len(),
    ensures
        j <= meta_run_end(s, j) <= s.len(),
    decreases s.len() - j,
{
    if !(j >= s.len() || !id_char(s[j])) {
        lemma_meta_run_end_bounds(s, j + 1);
    }
}

/// Everything one run of the lexer yields: the tokens, the errors, and the
/// position counters it leaves behind.
pub struct LexOutcome {
    pub tokens: Seq<TokenView>,
    pub errors: Seq<LexErrorView>,
    pub line: int,
    pub col: int,
}

/// What scanning the input from position `i` with the given counters
/// yields; the executable lexer returns exactly this. The position
/// bookkeeping is deliberately plain: the column advances once per
/// dispatched character (so the character after a newline stands at column
/// one), a metavariable advances it only by the characters after its first,
/// and a `<` swallows the character after it whatever that is.
pub open spec fn spec_lex(s: Seq<char>, i: int, line: int, col: int) -> LexOutcome
    decreases s.len() - i when i >= 0
{
    if i >= s.len() {
        LexOutcome {
            tokens: seq![
                TokenView { ttype: TokenType::EOF, lexeme: Seq::empty(), line, col },
            ],
            errors: Seq::empty(),
            line,
            col,
        }
    } else {
        let c = s[i];
        if c == '(' {
            let rest = spec_lex(s, i + 1, line, col + 1);
            LexOutcome {
                tokens: seq![
                    TokenView { ttype: TokenType::LParen, lexeme: "("@, line, col },
                ] + rest.tokens,
                ..rest
            }
        } else if c == ')' {
            let rest = spec_lex(s, i + 1, line, col + 1);
            LexOutcome {
                tokens: seq![
                    TokenView { ttype: TokenType::RParen, lexeme: ")"@, line, col },
                ] + rest.tokens,
                ..rest
            }
        } else if c == '.' {
            let rest = spec_lex(s, i + 1, line, col + 1);
            LexOutcome {
                tokens: seq![
                    TokenView { ttype: TokenType::Dot, lexeme: "."@, line, col },
                ] + rest.tokens,
                ..rest
            }
        } else if c == '\\' {
            let rest = spec_lex(s, i + 1, line, col + 1);
            LexOutcome {
                tokens: seq![
                    TokenView { ttype: TokenType::Lambda, lexeme: "\\"@, line, col },
                ] + rest.tokens,
                ..rest
            }
        } else if c == ' ' {
            let rest = spec_lex(s, i + 1, line, col + 1);
            LexOutcome {
                tokens: seq![
                    TokenView { ttype: TokenType::Space, lexeme: " "@, line, col },
                ] + rest.tokens,
                ..rest
            }
        } else if c == ';' {
            let rest = spec_lex(s, i + 1, line, col + 1);
            LexOutcome {
                tokens: seq![
                    TokenView { ttype: TokenType::Semicolon, lexeme: ";"@, line, col },
                ] + rest.tokens,
                ..rest
            }
        } else if c == '=' {
            let rest = spec_lex(s, i + 1, line, col + 1);
            LexOutcome {
                tokens: seq![
                    TokenView { ttype: TokenType::Equal, lexeme: "="@, line, col },
                ] + rest.tokens,
                ..rest
            }
        } else if c == '<' {
            if i + 1 >= s.len() {
                // The arrow head swallowed the end of the input: the scan is
                // over, only the closing end-of-input token remains.
                spec_lex(s, s.len() as int, line, col + 1)
            } else if s[i + 1] == '-' {
                let rest = spec_lex(s, i + 2, line, col + 1);
                LexOutcome {
                    tokens: seq![
                        TokenView { ttype: TokenType::LeftArrow, lexeme: "<-"@, line, col },
                    ] + rest.tokens,
                    ..rest
                }
            } else {
                let rest = spec_lex(s, i + 2, line, col + 1);
                LexOutcome {
                    errors: seq![
                        LexErrorView {
                            line,
                            col,
                            kind: LexErrorKind::UnexpectedAfterLess(s[i + 1]),
                        },
                    ] + rest.errors,
                    ..rest
                }
            }
        } else if var_char(c) {
            let rest = spec_lex(s, i + 1, line, col + 1);
            LexOutcome {
                tokens: seq![
                    TokenView {
                        ttype: TokenType::Var,
                        lexeme: s.subrange(i, i + 1),
                        line,
                        col,
                    },
                ] + rest.tokens,
                ..rest
            }
        } else if meta_start(c) {
            let end = meta_run_end(s, i + 1);
            proof {
                lemma_meta_run_end_bounds(s, i + 1);
            }
            let rest = spec_lex(s, end, line, col + (end - (i + 1)));
            LexOutcome {
                tokens: seq![
                    TokenView {
                        ttype: TokenType::MetaVar,
                        lexeme: s.subrange(i, end),
                        line,
                        col,
                    },
                ] + rest.tokens,
                ..rest
            }
        } else if c == '\n' {
            spec_lex(s, i + 1, line + 1, 1)
        } else if c == '\r' {
            spec_lex(s, i + 1, line, 1)
        } else {
            let rest = spec_lex(s, i + 1, line, col + 1);
            LexOutcome {
                errors: seq![
                    LexErrorView { line, col, kind: LexErrorKind::UnexpectedChar(c) },
                ] + rest.errors,
                ..rest
            }
        }
    }
}

/// The lexer: turns one input line into tokens, tracking line and column
/// counters across calls for error reporting.
pub struct Lexer {
    pub line: i32,
    pub col: i32,
}

impl Lexer {
    /// A lexer starting at the origin.
    pub fn new() -> (lx: Lexer)
        ensures
            lx.line == 0,
            lx.col == 0,
    {
        Lexer { line: 0, col: 0 }
    }

    /// Is `c` a character that may start an identifier?
    pub fn is_id_start(c: char) -> (r: bool)
        ensures
            r == id_start(c),
    {
        let u = c as u32;
        (65 <= u && u <= 90) || (97 <= u && u <= 122)
    }

    /// Is `c` a character that may continue an identifier?
    pub fn is_id_char(c: char) -> (r: bool)
        ensures
            r == id_char(c),
    {
        let u = c as u32;
        Lexer::is_id_start(c) || (48 <= u && u <= 57)
    }

    /// A token of the given kind and text at the current position.
    pub fn create_token(&self, ttype: TokenType, lexeme: String) -> (t: Token)
        ensures
            t@ == (TokenView {
                ttype,
                lexeme: lexeme@,
                line: self.line as int,
                col: self.col as int,
            }),
    {
        Token::new(ttype, lexeme, self.line, self.col)
    }

    /// An error of the given kind at the current position.
    pub fn format_error(&self, kind: LexErrorKind) -> (e: LexError)
        ensures
            e@ == (LexErrorView { line: self.line as int, col: self.col as int, kind }),
    {
        LexError { line: self.line, col: self.col, kind }
    }

    /// Read a whole metavariable name: the character at `start` plus the
    /// run of identifier characters after it. Returns the token and the
    /// position just past the name; the column counter advances by one for
    /// each character after the first.
    pub fn parse_metavariable(&mut self, xs: &str, start: usize) -> (r: (Token, usize))
        requires
            start < xs@.len(),
            0 <= old(self).col,
            old(self).col + (xs@.len() - start) < i32::MAX,
        ensures
            final(self).line == old(self).line,
            r.1 == meta_run_end(xs@, start + 1),
            final(self).col == old(self).col + (r.1 - (start + 1)),
            r.0@ == (TokenView {
                ttype: TokenType::MetaVar,
                lexeme: xs@.subrange(start as int, r.1 as int),
                line: old(self).line as int,
                col: old(self).col as int,
            }),
    {
        let ghost s = xs@;
        let col0 = self.col;
        let len = xs.unicode_len();
        let mut j: usize = start + 1;
        proof {
            lemma_meta_run_end_bounds(s, start + 1);
        }
        while j < len && Lexer::is_id_char(xs.get_char(j))
            invariant
                start + 1 <= j <= len,
                len == s.len(),
                s == xs@,
                meta_run_end(s, start + 1) == meta_run_end(s, j as int),
                j <= meta_run_end(s, start + 1) <= len,
                self.line == old(self).line,
                0 <= old(self).col,
                old(self).col + (s.len() - start) < i32::MAX,
                self.col == old(self).col + (j - (start + 1)),
            decreases len - j,
        {
            j = j + 1;
            self.col = self.col + 1;
            proof {
                lemma_meta_run_end_bounds(s, j as int);
            }
        }
        let lexeme = xs.substring_char(start, j);
        (Token::new(TokenType::MetaVar, String::from_str(lexeme), self.line, col0), j)
    }

    /// Scan one input line into tokens, always ending with an end-of-input
    /// token. All tokens are returned when no character was objected to,
    /// else all the objections.
    pub fn lex(&mut self, xs: &str) -> (r: Result<Vec<Token>, Vec<LexError>>)
        requires
            0 <= old(self).line,
            0 <= old(self).col,
            old(self).line + xs@.len() < i32::MAX,
            old(self).col + xs@.len() < i32::MAX,
        ensures
            ({
                let out = spec_lex(xs@, 0, old(self).line as int, old(self).col as int);
                final(self).line == out.line && final(self).col == out.col && (match r {
                    Ok(ts) => out.errors.len() == 0 && ts.deep_view() == out.tokens,
                    Err(es) => out.errors.len() > 0 && es.deep_view() == out.errors,
                })
            }),
    {
        let ghost s = xs@;
        let ghost line0 = old(self).line as int;
        let ghost col0 = old(self).col as int;
        let len = xs.unicode_len();
        let mut tokens: Vec<Token> = Vec::new();
        let mut errors: Vec<LexError> = Vec::new();
        let mut i: usize = 0;

        while i < len
            invariant
                0 <= i <= len,
                len == s.len(),
                s == xs@,
                0 <= self.line,
                0 <= self.col,
                self.line as int <= line0 + i,
                self.col as int <= col0 + i,
                line0 + s.len() < i32::MAX,
                col0 + s.len() < i32::MAX,
                line0 >= 0,
                col0 >= 0,
                ({
                    let out = spec_lex(s, 0, line0, col0);
                    let rest = spec_lex(s, i as int, self.line as int, self.col as int);
                    out.tokens == tokens.deep_view() + rest.tokens && out.errors
                        == errors.deep_view() + rest.errors && out.line == rest.line && out.col
                        == rest.col
                }),
            decreases len - i,
        {
            let ghost i_in = i as int;
            let ghost line_in = self.line as int;
            let ghost col_in = self.col as int;
            let ghost toks_in = tokens.deep_view();
            let ghost errs_in = errors.deep_view();
            let c = xs.get_char(i);
            let u = c as u32;
            if c == '(' {
                tokens.push(self.create_token(TokenType::LParen, String::from_str("(")));
                i = i + 1;
                self.col = self.col + 1;
            } else if c == ')' {
                tokens.push(self.create_token(TokenType::RParen, String::from_str(")")));
                i = i + 1;
                self.col = self.col + 1;
            } else if c == '.' {
                tokens.push(self.create_token(TokenType::Dot, String::from_str(".")));
                i = i + 1;
                self.col = self.col + 1;
            } else if c == '\\' {
                tokens.push(self.create_token(TokenType::Lambda, String::from_str("\\")));
                i = i + 1;
                self.col = self.col + 1;
            } else if c == ' ' {
                tokens.push(self.create_token(TokenType::Space, String::from_str(" ")));
                i = i + 1;
                self.col = self.col + 1;
            } else if c == ';' {
                tokens.push(self.create_token(TokenType::Semicolon, String::from_str(";")));
                i = i + 1;
                self.col = self.col + 1;
            } else if c == '=' {
                tokens.push(self.create_token(TokenType::Equal, String::from_str("=")));
                i = i + 1;
                self.col = self.col + 1;
            } else if c == '<' {
                if i + 1 < len {
                    let curr = xs.get_char(i + 1);
                    if curr == '-' {
                        tokens.push(
                            self.create_token(TokenType::LeftArrow, String::from_str("<-")),
                        );
                    } else {
                        errors.push(self.format_error(LexErrorKind::UnexpectedAfterLess(curr)));
                    }
                    i = i + 2;
                } else {
                    i = len;
                }
                self.col = self.col + 1;
            } else if 97 <= u && u <= 122 {
                let lexeme = xs.substring_char(i, i + 1);
                tokens.push(self.create_token(TokenType::Var, String::from_str(lexeme)));
                i = i + 1;
                self.col = self.col + 1;
            } else if c == '$' || (65 <= u && u <= 90) {
                let (token, next) = self.parse_metavariable(xs, i);
                tokens.push(token);
                proof {
                    lemma_meta_run_end_bounds(s, i_in + 1);
                }
                i = next;
            } else if c == '\n' {
                self.line = self.line + 1;
                self.col = 1;
                i = i + 1;
            } else if c == '\r' {
                self.col = 1;
                i = i + 1;
            } else {
                errors.push(self.format_error(LexErrorKind::UnexpectedChar(c)));
                i = i + 1;
                self.col = self.col + 1;
            }
            proof {
                let out = spec_lex(s, 0, line0, col0);
                let prev = spec_lex(s, i_in, line_in, col_in);
                let rest = spec_lex(s, i as int, self.line as int, self.col as int);
                if tokens@.len() > toks_in.len() {
                    assert(tokens.deep_view() =~= toks_in.push(tokens@[tokens@.len() - 1]@));
                } else {
                    assert(tokens.deep_view() =~= toks_in);
                }
                if errors@.len() > errs_in.len() {
                    assert(errors.deep_view() =~= errs_in.push(errors@[errors@.len() - 1]@));
                } else {
                    assert(errors.deep_view() =~= errs_in);
                }
                assert(out.tokens =~= tokens.deep_view() + rest.tokens);
                assert(out.errors =~= errors.deep_view() + rest.errors);
            }
        }
        tokens.push(self.create_token(TokenType::EOF, String::new()));
        proof {
            let out = spec_lex(s, 0, line0, col0);
            assert(out.tokens =~= tokens.deep_view());
        }
        if errors.len() == 0 {
            Ok(tokens)
        } else {
            Err(errors)
        }
    }
}

} // verus!
