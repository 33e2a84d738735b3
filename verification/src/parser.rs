use vstd::prelude::*;
use crate::token::{Token, TokenType, TokenView};
use crate::expr::{Expr, ExprView, app_v};
use crate::errors::{ParseError, ParseErrorKind, ParseErrorView};

verus! {

/// The outcome of a parsing step: the parsed expression or the error, each
/// with the token position the parser stands at afterwards.
pub enum ParseOut {
    Parsed(ExprView, int),
    Failed(ParseErrorView, int),
}

/// The position a parsing step left behind.
pub open spec fn pout_index(p: ParseOut) -> int {
    match p {
        ParseOut::Parsed(_, j) => j,
        ParseOut::Failed(_, j) => j,
    }
}

/// A left side waiting for further application arguments, or an error held
/// until the application run ends.
pub enum PendApp {
    Good(ExprView),
    Bad(ParseErrorView),
}

/// `j`, but never below `lo`. The parser only ever moves forward, so in
/// every reachable state this is `j` itself; the floor makes the
/// well-foundedness of the mutual recursion below plain.
pub open spec fn at_least(j: int, lo: int) -> int {
    if j < lo {
        lo
    } else {
        j
    }
}

/// Token streams the parser accepts: at least the closing end-of-input
/// token, which the lexer always appends.
pub open spec fn wf_tokens(t: Seq<TokenView>) -> bool {
    t.len() >= 1 && t.last().ttype == TokenType::EOF
}

/// The first position at or after `j` that does not hold a space token.
pub open spec fn skip_spaces(t: Seq<TokenView>, j: int) -> int
    decreases t.len() - j when 0 <= j
{
    if j >= t.len() || t[j].ttype != TokenType::Space {
        j
    } else {
        skip_spaces(t, j + 1)
    }
}

/// Skipping spaces never moves backwards nor past the end.
pub proof fn lemma_skip_spaces_bounds(t: Seq<TokenView>, j: int)
    requires
        0 <= j <= t.len(),
    ensures
        j <= skip_spaces(t, j) <= t.len(),
    decreases t.len() - j,
{
    if !(j >= t.len() || t[j].ttype != TokenType::Space) {
        lemma_skip_spaces_bounds(t, j + 1);
    }
}

/// The expected-token error raised at position `j`.
pub open spec fn expected_err(t: Seq<TokenView>, j: int, want: TokenType) -> ParseErrorView {
    ParseErrorView {
        line: t[j].line,
        col: t[j].col,
        kind: ParseErrorKind::Expected { expected: want, found: t[j].ttype },
    }
}

/// `<expression> ::= <binding>`
pub open spec fn spec_parse_expression(t: Seq<TokenView>, i: int) -> ParseOut
    decreases t.len() - i, 5int when 0 <= i
{
    spec_parse_binding(t, i)
}

/// `<binding> ::= <metavar> = <binding> | <abstraction>`
pub open spec fn spec_parse_binding(t: Seq<TokenView>, i: int) -> ParseOut
    decreases t.len() - i, 4int when 0 <= i
{
    if i < t.len() && t[i].ttype == TokenType::MetaVar {
        let name = t[i].lexeme;
        let j = skip_spaces(t, i + 1);
        if j < t.len() && t[j].ttype == TokenType::Equal {
            proof {
                lemma_skip_spaces_bounds(t, i + 1);
                lemma_skip_spaces_bounds(t, j + 1);
            }
            let k = skip_spaces(t, j + 1);
            match spec_parse_binding(t, k) {
                ParseOut::Parsed(v, m) => ParseOut::Parsed(
                    ExprView::Bind { name, value: Box::new(v) },
                    m,
                ),
                f => f,
            }
        } else {
            spec_parse_abstraction(t, i)
        }
    } else {
        spec_parse_abstraction(t, i)
    }
}

/// `<abstraction> ::= \<var>.<abstraction> | <application>`
pub open spec fn spec_parse_abstraction(t: Seq<TokenView>, i: int) -> ParseOut
    decreases t.len() - i, 3int when 0 <= i
{
    if i < t.len() && t[i].ttype == TokenType::Lambda {
        if i + 1 < t.len() && t[i + 1].ttype == TokenType::Var {
            if i + 2 < t.len() && t[i + 2].ttype == TokenType::Dot {
                match spec_parse_abstraction(t, i + 3) {
                    ParseOut::Parsed(b, j) => ParseOut::Parsed(
                        ExprView::Abs { param: t[i + 1].lexeme, body: Box::new(b) },
                        j,
                    ),
                    f => f,
                }
            } else {
                ParseOut::Failed(expected_err(t, i + 2, TokenType::Dot), i + 2)
            }
        } else {
            ParseOut::Failed(expected_err(t, i + 1, TokenType::Var), i + 1)
        }
    } else {
        spec_parse_application(t, i)
    }
}

/// The outcome an ended application run stands for at position `i`.
pub open spec fn finish_app(acc: PendApp, i: int) -> ParseOut {
    match acc {
        PendApp::Good(e) => ParseOut::Parsed(e, i),
        PendApp::Bad(er) => ParseOut::Failed(er, i),
    }
}

/// `<application> ::= <primary> { <space> <primary> }`
pub open spec fn spec_parse_application(t: Seq<TokenView>, i: int) -> ParseOut
    decreases t.len() - i, 2int when 0 <= i
{
    let first = spec_parse_primary(t, i);
    let acc = match first {
        ParseOut::Parsed(v, _) => PendApp::Good(v),
        ParseOut::Failed(er, _) => PendApp::Bad(er),
    };
    let al = at_least(pout_index(first), i);
    if al <= t.len() {
        spec_app_loop(t, al, acc)
    } else {
        finish_app(acc, al)
    }
}

/// The application run: as long as a space follows, parse one more primary
/// and apply the pending left side to it. An error parsed earlier in the
/// run surfaces as soon as a further argument has been read.
pub open spec fn spec_app_loop(t: Seq<TokenView>, i: int, acc: PendApp) -> ParseOut
    decreases t.len() - i, 1int when 0 <= i
{
    if i < t.len() && t[i].ttype == TokenType::Space {
        match spec_parse_primary(t, i + 1) {
            ParseOut::Failed(e2, j) => ParseOut::Failed(e2, j),
            ParseOut::Parsed(right, j) => match acc {
                PendApp::Good(le) => {
                    let jj = at_least(j, i + 2);
                    if jj <= t.len() {
                        spec_app_loop(t, jj, PendApp::Good(app_v(le, right)))
                    } else {
                        finish_app(PendApp::Good(app_v(le, right)), jj)
                    }
                },
                PendApp::Bad(e0) => ParseOut::Failed(e0, j),
            },
        }
    } else {
        finish_app(acc, i)
    }
}

/// `<primary> ::= <variable> | <metavariable> | ( <expression> ) | <abstraction>`
pub open spec fn spec_parse_primary(t: Seq<TokenView>, i: int) -> ParseOut
    decreases t.len() - i, 0int when 0 <= i
{
    if i < t.len() && t[i].ttype == TokenType::LParen {
        match spec_parse_expression(t, i + 1) {
            ParseOut::Parsed(e, j) => if 0 <= j < t.len() && t[j].ttype == TokenType::RParen {
                ParseOut::Parsed(ExprView::Group { inner: Box::new(e) }, j + 1)
            } else {
                ParseOut::Failed(expected_err(t, j, TokenType::RParen), j)
            },
            f => f,
        }
    } else if i < t.len() && t[i].ttype == TokenType::Var {
        ParseOut::Parsed(ExprView::Var { name: t[i].lexeme }, i + 1)
    } else if i < t.len() && t[i].ttype == TokenType::MetaVar {
        ParseOut::Parsed(
            ExprView::Meta { name: t[i].lexeme, line: t[i].line, col: t[i].col },
            i + 1,
        )
    } else if i < t.len() && t[i].ttype == TokenType::Lambda {
        // An abstraction may stand as an application argument without
        // parentheses.
        if i + 1 < t.len() && t[i + 1].ttype == TokenType::Var {
            if i + 2 < t.len() && t[i + 2].ttype == TokenType::Dot {
                match spec_parse_abstraction(t, i + 3) {
                    ParseOut::Parsed(b, j) => ParseOut::Parsed(
                        ExprView::Abs { param: t[i + 1].lexeme, body: Box::new(b) },
                        j,
                    ),
                    f => f,
                }
            } else {
                ParseOut::Failed(expected_err(t, i + 2, TokenType::Dot), i + 2)
            }
        } else {
            ParseOut::Failed(expected_err(t, i + 1, TokenType::Var), i + 1)
        }
    } else {
        ParseOut::Failed(
            ParseErrorView {
                line: t[i].line,
                col: t[i].col,
                kind: ParseErrorKind::UnexpectedPrimary { found: t[i].ttype },
            },
            i,
        )
    }
}

/// The position-less filler tokens the sugar expansion inserts.
pub open spec fn dot_filler() -> TokenView {
    TokenView { ttype: TokenType::Dot, lexeme: "."@, line: -1, col: -1 }
}

pub open spec fn lambda_filler() -> TokenView {
    TokenView { ttype: TokenType::Lambda, lexeme: "\\"@, line: -1, col: -1 }
}

/// The sugar expansion `\xy.E -> \x.\y.E` over the token stream, mirrored
/// exactly: scanning from `i`, after a lambda (`after_lambda`) every
/// further variable directly following the current one has a dot and a
/// fresh lambda spliced in before it.
pub open spec fn spec_desugar(t: Seq<TokenView>, i: int, after_lambda: bool) -> Seq<TokenView>
    decreases t.len() - i, (if after_lambda { 1int } else { 0int }) when 0 <= i
{
    if after_lambda {
        if i + 1 < t.len() && t[i + 1].ttype == TokenType::Var {
            let t2 = t.insert(i + 1, dot_filler()).insert(i + 2, lambda_filler());
            spec_desugar(t2, i + 3, true)
        } else {
            spec_desugar(t, i, false)
        }
    } else {
        if i >= t.len() {
            t
        } else if t[i].ttype == TokenType::Lambda {
            spec_desugar(t, i + 1, true)
        } else {
            spec_desugar(t, i + 1, false)
        }
    }
}

/// The sugar expansion only ever adds tokens.
pub proof fn lemma_desugar_len(t: Seq<TokenView>, i: int, after_lambda: bool)
    requires
        0 <= i,
    ensures
        spec_desugar(t, i, after_lambda).len() >= t.len(),
    decreases t.len() - i, (if after_lambda { 1int } else { 0int }),
{
    if after_lambda {
        if i + 1 < t.len() && t[i + 1].ttype == TokenType::Var {
            let t2 = t.insert(i + 1, dot_filler()).insert(i + 2, lambda_filler());
            lemma_desugar_len(t2, i + 3, true);
        } else {
            lemma_desugar_len(t, i, false);
        }
    } else {
        if i >= t.len() {
        } else if t[i].ttype == TokenType::Lambda {
            lemma_desugar_len(t, i + 1, true);
        } else {
            lemma_desugar_len(t, i + 1, false);
        }
    }
}

/// The sugar expansion keeps the closing end-of-input token last.
pub proof fn lemma_desugar_wf(t: Seq<TokenView>, i: int, after_lambda: bool)
    requires
        0 <= i,
        wf_tokens(t),
    ensures
        wf_tokens(spec_desugar(t, i, after_lambda)),
    decreases t.len() - i, (if after_lambda { 1int } else { 0int }),
{
    if after_lambda {
        if i + 1 < t.len() && t[i + 1].ttype == TokenType::Var {
            let t2 = t.insert(i + 1, dot_filler()).insert(i + 2, lambda_filler());
            assert(t2.last() == t.last());
            lemma_desugar_wf(t2, i + 3, true);
        } else {
            lemma_desugar_wf(t, i, false);
        }
    } else {
        if i >= t.len() {
        } else if t[i].ttype == TokenType::Lambda {
            lemma_desugar_wf(t, i + 1, true);
        } else {
            lemma_desugar_wf(t, i + 1, false);
        }
    }
}

/// The recursive-descent parser over one token stream.
pub struct Parser {
    pub i: usize,
    pub tokens: Vec<Token>,
}

impl Parser {
    /// The parser's invariant: a well-formed token stream, the cursor never
    /// past the closing end-of-input token.
    pub open spec fn wf(&self) -> bool {
        wf_tokens(self.tokens.deep_view()) && self.i < self.tokens@.len()
    }

    /// A parser at the start of the given tokens.
    pub fn new(tokens: Vec<Token>) -> (p: Parser)
        ensures
            p.tokens@ == tokens@,
            p.i == 0,
    {
        Parser { tokens, i: 0 }
    }

    /// The token under the cursor.
    pub fn current(&self) -> (t: &Token)
        requires
            self.wf(),
        ensures
            t@ == self.tokens.deep_view()[self.i as int],
    {
        &self.tokens[self.i]
    }

    /// The token just consumed.
    pub fn previous(&self) -> (t: &Token)
        requires
            self.wf(),
            self.i >= 1,
        ensures
            t@ == self.tokens.deep_view()[self.i - 1],
    {
        &self.tokens[self.i - 1]
    }

    /// Consume the current token if it is of the given kind.
    pub fn match_token(&mut self, ttype: TokenType) -> (r: bool)
        requires
            old(self).wf(),
            ttype != TokenType::EOF,
        ensures
            final(self).wf(),
            final(self).tokens@ == old(self).tokens@,
            ({
                let t = old(self).tokens.deep_view();
                if t[old(self).i as int].ttype == ttype {
                    r && final(self).i == old(self).i + 1
                } else {
                    !r && final(self).i == old(self).i
                }
            }),
    {
        if self.i < self.tokens.len() && self.tokens[self.i].ttype == ttype {
            proof {
                assert(self.tokens.deep_view().last().ttype == TokenType::EOF);
            }
            self.i = self.i + 1;
            true
        } else {
            false
        }
    }

    /// Consume the current token if it is of the given kind, or fail naming
    /// what was expected and what stood there.
    pub fn expect(&mut self, ttype: TokenType) -> (r: Result<Token, ParseError>)
        requires
            old(self).wf(),
            ttype != TokenType::EOF,
        ensures
            final(self).wf(),
            final(self).tokens@ == old(self).tokens@,
            ({
                let t = old(self).tokens.deep_view();
                if t[old(self).i as int].ttype == ttype {
                    (r matches Ok(tk) && tk@ == t[old(self).i as int]) && final(self).i == old(
                        self,
                    ).i + 1
                } else {
                    (r matches Err(pe) && pe@ == expected_err(t, old(self).i as int, ttype))
                        && final(self).i == old(self).i
                }
            }),
    {
        if self.match_token(ttype) {
            Ok(self.previous().clone())
        } else {
            Err(self.format_error(ParseErrorKind::Expected {
                expected: ttype,
                found: self.tokens[self.i].ttype,
            }))
        }
    }

    /// If the next non-space token is of the given kind, move the cursor to
    /// it; otherwise stay put.
    pub fn match_next_non_space(&mut self, ttype: TokenType) -> (r: bool)
        requires
            old(self).wf(),
            ttype != TokenType::EOF,
        ensures
            final(self).wf(),
            final(self).tokens@ == old(self).tokens@,
            ({
                let t = old(self).tokens.deep_view();
                let j = skip_spaces(t, old(self).i as int);
                if j < t.len() && t[j].ttype == ttype {
                    r && final(self).i as int == j
                } else {
                    !r && final(self).i == old(self).i
                }
            }),
    {
        let ghost t = self.tokens.deep_view();
        let mut j: usize = self.i;
        while j < self.tokens.len() && self.tokens[j].ttype == TokenType::Space
            invariant
                self.i <= j <= t.len(),
                t == self.tokens.deep_view(),
                self == old(self),
                skip_spaces(t, old(self).i as int) == skip_spaces(t, j as int),
            decreases t.len() - j,
        {
            j = j + 1;
        }
        if j < self.tokens.len() && self.tokens[j].ttype == ttype {
            self.i = j;
            true
        } else {
            false
        }
    }

    /// Move the cursor past any spaces.
    pub fn ignore_space(&mut self)
        requires
            old(self).wf(),
        ensures
            final(self).wf(),
            final(self).tokens@ == old(self).tokens@,
            final(self).i as int == skip_spaces(old(self).tokens.deep_view(), old(self).i as int),
    {
        let ghost t = self.tokens.deep_view();
        while self.i < self.tokens.len() && self.tokens[self.i].ttype == TokenType::Space
            invariant
                self.wf(),
                t == self.tokens.deep_view(),
                self.tokens@ == old(self).tokens@,
                skip_spaces(t, old(self).i as int) == skip_spaces(t, self.i as int),
            decreases t.len() - self.i,
        {
            proof {
                assert(t.last().ttype == TokenType::EOF);
            }
            self.i = self.i + 1;
        }
    }

    /// A parser error of the given kind at the current token.
    pub fn format_error(&self, kind: ParseErrorKind) -> (e: ParseError)
        requires
            self.wf(),
        ensures
            e@ == (ParseErrorView {
                line: self.tokens.deep_view()[self.i as int].line,
                col: self.tokens.deep_view()[self.i as int].col,
                kind,
            }),
    {
        let tok = &self.tokens[self.i];
        ParseError { line: tok.line, col: tok.col, kind }
    }

    /// Rewrite multi-variable sugar in place: `\xy.E` becomes `\x.\y.E`.
    pub fn desugar_abstraction(&mut self)
        requires
            spec_desugar(old(self).tokens.deep_view(), 0, false).len() + 2 < usize::MAX,
        ensures
            final(self).i == old(self).i,
            final(self).tokens.deep_view() == spec_desugar(
                old(self).tokens.deep_view(),
                0,
                false,
            ),
    {
        let ghost goal = spec_desugar(old(self).tokens.deep_view(), 0, false);
        let mut i: usize = 0;
        proof {
            lemma_desugar_len(self.tokens.deep_view(), 0, false);
        }
        while i < self.tokens.len()
            invariant
                self.i == old(self).i,
                i <= self.tokens@.len(),
                goal.len() + 2 < usize::MAX,
                self.tokens.deep_view().len() <= goal.len(),
                spec_desugar(self.tokens.deep_view(), i as int, false) == goal,
            decreases self.tokens@.len() - i,
        {
            let is_lambda = self.tokens[i].ttype == TokenType::Lambda;
            i = i + 1;
            if is_lambda {
                let ghost d0 = self.tokens@.len() - i;
                while i + 1 < self.tokens.len() && self.tokens[i + 1].ttype == TokenType::Var
                    invariant
                        self.i == old(self).i,
                        i <= self.tokens@.len(),
                        goal.len() + 2 < usize::MAX,
                        self.tokens.deep_view().len() <= goal.len(),
                        self.tokens@.len() - i <= d0,
                        spec_desugar(self.tokens.deep_view(), i as int, true) == goal,
                    decreases self.tokens@.len() - i,
                {
                    let ghost before = self.tokens.deep_view();
                    let ghost ii = i as int;
                    let dot = Token::new(TokenType::Dot, String::from_str("."), -1, -1);
                    let lambda = Token::new(TokenType::Lambda, String::from_str("\\"), -1, -1);
                    self.tokens.insert(i + 1, dot);
                    self.tokens.insert(i + 2, lambda);
                    i = i + 3;
                    proof {
                        assert(self.tokens.deep_view() =~= before.insert(
                            ii + 1,
                            dot_filler(),
                        ).insert(ii + 2, lambda_filler()));
                        lemma_desugar_len(self.tokens.deep_view(), i as int, true);
                    }
                }
            }
        }
    }

    /// Expand the sugar, then parse the whole input as one expression.
    pub fn parse(&mut self) -> (r: Result<Expr, ParseError>)
        requires
            old(self).wf(),
            spec_desugar(old(self).tokens.deep_view(), 0, false).len() + 2 < usize::MAX,
        ensures
            final(self).tokens.deep_view() == spec_desugar(
                old(self).tokens.deep_view(),
                0,
                false,
            ),
            (match spec_parse_expression(
                spec_desugar(old(self).tokens.deep_view(), 0, false),
                old(self).i as int,
            ) {
                ParseOut::Parsed(v, j) => (r matches Ok(e) && e@ == v) && final(self).i as int == j,
                ParseOut::Failed(err, j) => (r matches Err(pe) && pe@ == err) && final(self).i as int == j,
            }),
    {
        proof {
            lemma_desugar_wf(old(self).tokens.deep_view(), 0, false);
            lemma_desugar_len(old(self).tokens.deep_view(), 0, false);
        }
        self.desugar_abstraction();
        self.parse_expression()
    }

    /// `<expression> ::= <binding>`
    pub fn parse_expression(&mut self) -> (r: Result<Expr, ParseError>)
        requires
            old(self).wf(),
        ensures
            final(self).wf(),
            final(self).tokens@ == old(self).tokens@,
            old(self).i <= final(self).i,
            (match spec_parse_expression(old(self).tokens.deep_view(), old(self).i as int) {
                ParseOut::Parsed(v, j) => (r matches Ok(e) && e@ == v) && final(self).i as int == j,
                ParseOut::Failed(err, j) => (r matches Err(pe) && pe@ == err) && final(self).i as int == j,
            }),
        decreases old(self).tokens@.len() - old(self).i, 5int,
    {
        self.parse_binding()
    }

    /// `<binding> ::= <metavar> = <binding> | <abstraction>`
    pub fn parse_binding(&mut self) -> (r: Result<Expr, ParseError>)
        requires
            old(self).wf(),
        ensures
            final(self).wf(),
            final(self).tokens@ == old(self).tokens@,
            old(self).i <= final(self).i,
            (match spec_parse_binding(old(self).tokens.deep_view(), old(self).i as int) {
                ParseOut::Parsed(v, j) => (r matches Ok(e) && e@ == v) && final(self).i as int == j,
                ParseOut::Failed(err, j) => (r matches Err(pe) && pe@ == err) && final(self).i as int == j,
            }),
        decreases old(self).tokens@.len() - old(self).i, 4int,
    {
        if self.match_token(TokenType::MetaVar) {
            let name = self.previous().lexeme.clone();
            if !self.match_next_non_space(TokenType::Equal) {
                // Undo the metavariable consumption and read the reference
                // as an ordinary expression instead.
                self.i = self.i - 1;
                return self.parse_abstraction();
            }
            self.ignore_space();
            match self.expect(TokenType::Equal) {
                Ok(_) => (),
                Err(err) => {
                    return Err(err);
                },
            };
            self.ignore_space();
            proof {
                let t = old(self).tokens.deep_view();
                lemma_skip_spaces_bounds(t, old(self).i + 1);
                lemma_skip_spaces_bounds(t, skip_spaces(t, old(self).i + 1) + 1);
            }
            let right = match self.parse_binding() {
                Ok(e) => e,
                Err(err) => {
                    return Err(err);
                },
            };
            Ok(Expr::Binding(name, Box::new(right)))
        } else {
            self.parse_abstraction()
        }
    }

    /// `<abstraction> ::= \<var>.<abstraction> | <application>`
    pub fn parse_abstraction(&mut self) -> (r: Result<Expr, ParseError>)
        requires
            old(self).wf(),
        ensures
            final(self).wf(),
            final(self).tokens@ == old(self).tokens@,
            old(self).i <= final(self).i,
            (match spec_parse_abstraction(old(self).tokens.deep_view(), old(self).i as int) {
                ParseOut::Parsed(v, j) => (r matches Ok(e) && e@ == v) && final(self).i as int == j,
                ParseOut::Failed(err, j) => (r matches Err(pe) && pe@ == err) && final(self).i as int == j,
            }),
        decreases old(self).tokens@.len() - old(self).i, 3int,
    {
        if self.match_token(TokenType::Lambda) {
            let name = match self.expect(TokenType::Var) {
                Ok(tk) => tk.lexeme,
                Err(err) => {
                    return Err(err);
                },
            };
            match self.expect(TokenType::Dot) {
                Ok(_) => (),
                Err(err) => {
                    return Err(err);
                },
            };
            let right = match self.parse_abstraction() {
                Ok(e) => e,
                Err(err) => {
                    return Err(err);
                },
            };
            Ok(Expr::Abstraction(name, Box::new(right)))
        } else {
            self.parse_application()
        }
    }

    /// `<application> ::= <primary> { <space> <primary> }`
    pub fn parse_application(&mut self) -> (r: Result<Expr, ParseError>)
        requires
            old(self).wf(),
        ensures
            final(self).wf(),
            final(self).tokens@ == old(self).tokens@,
            old(self).i <= final(self).i,
            (match spec_parse_application(old(self).tokens.deep_view(), old(self).i as int) {
                ParseOut::Parsed(v, j) => (r matches Ok(e) && e@ == v) && final(self).i as int == j,
                ParseOut::Failed(err, j) => (r matches Err(pe) && pe@ == err) && final(self).i as int == j,
            }),
        decreases old(self).tokens@.len() - old(self).i, 2int,
    {
        let ghost t = old(self).tokens.deep_view();
        let ghost i0 = old(self).i as int;
        let ghost target = spec_parse_application(t, i0);
        let mut expr: Result<Expr, ParseError> = self.parse_primary();
        proof {
            match spec_parse_primary(t, i0) {
                ParseOut::Parsed(v, j) => {
                    assert(at_least(j, i0) == j);
                },
                ParseOut::Failed(er, j) => {
                    assert(at_least(j, i0) == j);
                },
            }
        }
        while self.i < self.tokens.len() && self.tokens[self.i].ttype == TokenType::Space
            invariant
                self.wf(),
                self.tokens@ == old(self).tokens@,
                t == self.tokens.deep_view(),
                i0 == old(self).i as int,
                0 <= i0 <= self.i as int,
                target == spec_parse_application(t, i0),
                (match expr {
                    Ok(e) => spec_app_loop(t, self.i as int, PendApp::Good(e@)) == target,
                    Err(pe) => spec_app_loop(t, self.i as int, PendApp::Bad(pe@)) == target,
                }),
            decreases t.len() - self.i,
        {
            let ghost i_b = self.i as int;
            proof {
                assert(t.last().ttype == TokenType::EOF);
                assert(t[i_b].ttype == TokenType::Space);
            }
            self.i = self.i + 1;
            let right = match self.parse_primary() {
                Ok(e) => e,
                Err(err) => {
                    proof {
                        assert(spec_parse_primary(t, i_b + 1) matches ParseOut::Failed(e2, j)
                            && err@ == e2 && self.i as int == j);
                    }
                    return Err(err);
                },
            };
            proof {
                assert(spec_parse_primary(t, i_b + 1) matches ParseOut::Parsed(v, j) && right@
                    == v && self.i as int == j && i_b + 2 <= j);
                assert(at_least(self.i as int, i_b + 2) == self.i as int);
            }
            let prev = expr;
            expr = match prev {
                Ok(le) => Ok(Expr::Application(Box::new(le), Box::new(right))),
                Err(e0) => {
                    return Err(e0);
                },
            };
        }
        expr
    }

    /// `<primary> ::= <variable> | <metavariable> | ( <expression> ) |
    /// <abstraction>`
    pub fn parse_primary(&mut self) -> (r: Result<Expr, ParseError>)
        requires
            old(self).wf(),
        ensures
            final(self).wf(),
            final(self).tokens@ == old(self).tokens@,
            old(self).i <= final(self).i,
            r is Ok ==> old(self).i < final(self).i,
            (match spec_parse_primary(old(self).tokens.deep_view(), old(self).i as int) {
                ParseOut::Parsed(v, j) => (r matches Ok(e) && e@ == v) && final(self).i as int == j,
                ParseOut::Failed(err, j) => (r matches Err(pe) && pe@ == err) && final(self).i as int == j,
            }),
        decreases old(self).tokens@.len() - old(self).i, 0int,
    {
        if self.match_token(TokenType::LParen) {
            let inner = match self.parse_expression() {
                Ok(e) => e,
                Err(err) => {
                    return Err(err);
                },
            };
            match self.expect(TokenType::RParen) {
                Ok(_) => (),
                Err(err) => {
                    return Err(err);
                },
            };
            Ok(Expr::Grouping(Box::new(inner)))
        } else if self.match_token(TokenType::Var) {
            let name = self.previous().lexeme.clone();
            Ok(Expr::Variable(name))
        } else if self.match_token(TokenType::MetaVar) {
            let token = self.previous().clone();
            Ok(Expr::MetaVariable(token))
        } else if self.match_token(TokenType::Lambda) {
            // An abstraction standing directly as an application argument.
            let name = match self.expect(TokenType::Var) {
                Ok(tk) => tk.lexeme,
                Err(err) => {
                    return Err(err);
                },
            };
            match self.expect(TokenType::Dot) {
                Ok(_) => (),
                Err(err) => {
                    return Err(err);
                },
            };
            let right = match self.parse_abstraction() {
                Ok(e) => e,
                Err(err) => {
                    return Err(err);
                },
            };
            Ok(Expr::Abstraction(name, Box::new(right)))
        } else {
            let current = self.current();
            Err(ParseError {
                line: current.line,
                col: current.col,
                kind: ParseErrorKind::UnexpectedPrimary { found: current.ttype },
            })
        }
    }
}

} // verus!
