use lambda_eval::lexer::Lexer;
use lambda_eval::token::TokenType;
use lambda_eval::errors::LexErrorKind;

#[test]
fn lexes_identity_abstraction() {
    let mut lx = Lexer::new();
    let tokens = lx.lex("\\x.x").unwrap();
    let kinds: Vec<TokenType> = tokens.iter().map(|t| t.ttype).collect();
    assert_eq!(
        kinds,
        vec![
            TokenType::Lambda,
            TokenType::Var,
            TokenType::Dot,
            TokenType::Var,
            TokenType::EOF,
        ]
    );
    assert_eq!(tokens[1].lexeme, "x");
    assert_eq!(tokens[0].col, 0);
    assert_eq!(tokens[3].col, 3);
    assert_eq!(tokens[4].col, 4);
}

#[test]
fn lexes_binding_line() {
    let mut lx = Lexer::new();
    let tokens = lx.lex("K = \\xy.x").unwrap();
    let kinds: Vec<TokenType> = tokens.iter().map(|t| t.ttype).collect();
    assert_eq!(
        kinds,
        vec![
            TokenType::MetaVar,
            TokenType::Space,
            TokenType::Equal,
            TokenType::Space,
            TokenType::Lambda,
            TokenType::Var,
            TokenType::Var,
            TokenType::Dot,
            TokenType::Var,
            TokenType::EOF,
        ]
    );
    assert_eq!(tokens[0].lexeme, "K");
}

#[test]
fn lexes_dollar_metavariable_as_one_token() {
    let mut lx = Lexer::new();
    let tokens = lx.lex("$false2").unwrap();
    assert_eq!(tokens.len(), 2);
    assert_eq!(tokens[0].ttype, TokenType::MetaVar);
    assert_eq!(tokens[0].lexeme, "$false2");
    assert_eq!(tokens[1].ttype, TokenType::EOF);
}

#[test]
fn lexes_left_arrow() {
    let mut lx = Lexer::new();
    let tokens = lx.lex("F <- x").unwrap();
    let kinds: Vec<TokenType> = tokens.iter().map(|t| t.ttype).collect();
    assert_eq!(
        kinds,
        vec![
            TokenType::MetaVar,
            TokenType::Space,
            TokenType::LeftArrow,
            TokenType::Space,
            TokenType::Var,
            TokenType::EOF,
        ]
    );
    assert_eq!(tokens[2].lexeme, "<-");
}

#[test]
fn rejects_less_than_followed_by_other() {
    let mut lx = Lexer::new();
    let errors = lx.lex("<x").unwrap_err();
    assert_eq!(errors.len(), 1);
    assert!(matches!(errors[0].kind, LexErrorKind::UnexpectedAfterLess('x')));
    assert_eq!(errors[0].line, 0);
    assert_eq!(errors[0].col, 0);
}

#[test]
fn rejects_unknown_character() {
    let mut lx = Lexer::new();
    let errors = lx.lex("x ? y").unwrap_err();
    assert_eq!(errors.len(), 1);
    assert!(matches!(errors[0].kind, LexErrorKind::UnexpectedChar('?')));
    assert_eq!(errors[0].col, 2);
}

#[test]
fn lone_less_than_at_end_is_swallowed() {
    let mut lx = Lexer::new();
    let tokens = lx.lex("<").unwrap();
    assert_eq!(tokens.len(), 1);
    assert_eq!(tokens[0].ttype, TokenType::EOF);
    assert_eq!(tokens[0].col, 1);
}

#[test]
fn newline_advances_line_and_restarts_column() {
    let mut lx = Lexer::new();
    let tokens = lx.lex("x\ny").unwrap();
    assert_eq!(tokens[0].ttype, TokenType::Var);
    assert_eq!((tokens[0].line, tokens[0].col), (0, 0));
    assert_eq!(tokens[1].ttype, TokenType::Var);
    // The column counter restarts at one after a newline, not zero.
    assert_eq!((tokens[1].line, tokens[1].col), (1, 1));
}

#[test]
fn parentheses_spaces_and_semicolons_tokenize() {
    let mut lx = Lexer::new();
    let tokens = lx.lex("(x y);").unwrap();
    let kinds: Vec<TokenType> = tokens.iter().map(|t| t.ttype).collect();
    assert_eq!(
        kinds,
        vec![
            TokenType::LParen,
            TokenType::Var,
            TokenType::Space,
            TokenType::Var,
            TokenType::RParen,
            TokenType::Semicolon,
            TokenType::EOF,
        ]
    );
}
