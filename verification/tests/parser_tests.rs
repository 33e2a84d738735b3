use lambda_eval::lexer::Lexer;
use lambda_eval::parser::Parser;
use lambda_eval::expr::Expr;
use lambda_eval::errors::ParseErrorKind;
use lambda_eval::token::TokenType;

fn parse_str(input: &str) -> Result<Expr, lambda_eval::errors::ParseError> {
    let tokens = Lexer::new().lex(input).expect("lexing failed");
    Parser::new(tokens).parse()
}

fn expr_text(e: &Expr) -> String {
    match e {
        Expr::Variable(name) => name.clone(),
        Expr::Abstraction(p, b) => format!("(lam {} {})", p, expr_text(b)),
        Expr::Application(f, a) => format!("(app {} {})", expr_text(f), expr_text(a)),
        Expr::Grouping(i) => format!("(group {})", expr_text(i)),
        Expr::Binding(n, v) => format!("(bind {} {})", n, expr_text(v)),
        Expr::MetaVariable(t) => format!("(meta {})", t.lexeme),
    }
}

#[test]
fn parses_identity_abstraction() {
    let e = parse_str("\\x.x").unwrap();
    assert_eq!(expr_text(&e), "(lam x x)");
}

#[test]
fn desugars_multi_variable_abstraction() {
    let e = parse_str("\\xyz.x").unwrap();
    assert_eq!(expr_text(&e), "(lam x (lam y (lam z x)))");
}

#[test]
fn application_associates_left() {
    let e = parse_str("x y z").unwrap();
    assert_eq!(expr_text(&e), "(app (app x y) z)");
}

#[test]
fn grouping_wraps_inner_expression() {
    let e = parse_str("(x y)").unwrap();
    assert_eq!(expr_text(&e), "(group (app x y))");
}

#[test]
fn parses_binding_with_equals() {
    let e = parse_str("F = \\x.x").unwrap();
    assert_eq!(expr_text(&e), "(bind F (lam x x))");
}

#[test]
fn chained_bindings_nest_to_the_right() {
    let e = parse_str("F = G = x").unwrap();
    assert_eq!(expr_text(&e), "(bind F (bind G x))");
}

#[test]
fn lone_metavariable_is_a_reference() {
    let e = parse_str("K").unwrap();
    assert_eq!(expr_text(&e), "(meta K)");
}

#[test]
fn metavariable_applied_to_arguments() {
    let e = parse_str("K a b").unwrap();
    assert_eq!(expr_text(&e), "(app (app (meta K) a) b)");
}

#[test]
fn abstraction_as_application_argument_extends_right() {
    // \x.x \y.y parses as \x.(x \y.y).
    let e = parse_str("\\x.x \\y.y").unwrap();
    assert_eq!(expr_text(&e), "(lam x (app x (lam y y)))");
}

#[test]
fn close_paren_alone_is_unexpected_primary() {
    let err = parse_str(")").unwrap_err();
    assert!(matches!(
        err.kind,
        ParseErrorKind::UnexpectedPrimary { found: TokenType::RParen }
    ));
}

#[test]
fn missing_dot_is_reported() {
    let err = parse_str("\\x x").unwrap_err();
    assert!(matches!(
        err.kind,
        ParseErrorKind::Expected { expected: TokenType::Dot, found: TokenType::Space }
    ));
}

#[test]
fn unclosed_group_expects_closing_paren() {
    let err = parse_str("(x").unwrap_err();
    assert!(matches!(
        err.kind,
        ParseErrorKind::Expected { expected: TokenType::RParen, found: TokenType::EOF }
    ));
}

#[test]
fn group_then_argument_applies() {
    let e = parse_str("(\\x.x) y").unwrap();
    assert_eq!(expr_text(&e), "(app (group (lam x x)) y)");
}
