use lambda_eval::evaluator::Evaluator;
use lambda_eval::expr::Expr;
use lambda_eval::errors::EvalError;

const FUEL: u64 = 10_000;

fn expr_eq(a: &Expr, b: &Expr) -> bool {
    match (a, b) {
        (Expr::Variable(x), Expr::Variable(y)) => x == y,
        (Expr::Abstraction(p, b1), Expr::Abstraction(q, b2)) => p == q && expr_eq(b1, b2),
        (Expr::Application(f1, a1), Expr::Application(f2, a2)) => {
            expr_eq(f1, f2) && expr_eq(a1, a2)
        }
        (Expr::Grouping(i1), Expr::Grouping(i2)) => expr_eq(i1, i2),
        (Expr::Binding(n1, v1), Expr::Binding(n2, v2)) => n1 == n2 && expr_eq(v1, v2),
        (Expr::MetaVariable(t1), Expr::MetaVariable(t2)) => t1.lexeme == t2.lexeme,
        _ => false,
    }
}

#[test]
fn identity_application_reduces_to_argument() {
    let mut ev = Evaluator::new();
    let e = Expr::app(Expr::abs("x", Expr::var("x")), Expr::var("y"));
    let r = ev.evaluate(e, FUEL).unwrap();
    assert!(expr_eq(&r, &Expr::var("y")));
}

#[test]
fn two_argument_projection_reduces_to_first() {
    // (\x.\y.x) a b -> a
    let mut ev = Evaluator::new();
    let k = Expr::abs("x", Expr::abs("y", Expr::var("x")));
    let e = Expr::app(Expr::app(k, Expr::var("a")), Expr::var("b"));
    let r = ev.evaluate(e, FUEL).unwrap();
    assert!(expr_eq(&r, &Expr::var("a")));
}

#[test]
fn self_application_of_identity_reduces_to_identity() {
    // (\f.f f) (\x.x) -> \x.x
    let mut ev = Evaluator::new();
    let m = Expr::abs("f", Expr::app(Expr::var("f"), Expr::var("f")));
    let e = Expr::app(m, Expr::abs("x", Expr::var("x")));
    let r = ev.evaluate(e, FUEL).unwrap();
    assert!(expr_eq(&r, &Expr::abs("x", Expr::var("x"))));
}

#[test]
fn reduction_is_idempotent_on_its_result() {
    let mut ev = Evaluator::new();
    let m = Expr::abs("f", Expr::app(Expr::var("f"), Expr::var("f")));
    let e = Expr::app(m, Expr::abs("x", Expr::var("x")));
    let once = ev.evaluate(e, FUEL).unwrap();
    let twice = ev.evaluate(once.clone(), FUEL).unwrap();
    assert!(expr_eq(&once, &twice));
}

#[test]
fn substitution_renames_capturing_binder() {
    // (\y.x)[x := y] must become \a.y, never the capturing \y.y.
    let mut ev = Evaluator::new();
    let target = Expr::abs("y", Expr::var("x"));
    let r = ev
        .substitute(&target, &String::from("x"), &Expr::var("y"))
        .unwrap();
    match r {
        Expr::Abstraction(param, body) => {
            assert_ne!(param, "y");
            assert_eq!(param, "a");
            assert!(expr_eq(&body, &Expr::var("y")));
        }
        _ => panic!("substitution did not return an abstraction"),
    }
}

#[test]
fn shadowing_inner_binder_wins() {
    // (\x.\x.x) a b -> b
    let mut ev = Evaluator::new();
    let e = Expr::app(
        Expr::app(
            Expr::abs("x", Expr::abs("x", Expr::var("x"))),
            Expr::var("a"),
        ),
        Expr::var("b"),
    );
    let r = ev.evaluate(e, FUEL).unwrap();
    assert!(expr_eq(&r, &Expr::var("b")));
}

#[test]
fn binding_persists_within_session() {
    // F <- \x.x, then F z -> z in the same session.
    let mut ev = Evaluator::new();
    let bind = Expr::bind("F", Expr::abs("x", Expr::var("x")));
    let bound = ev.evaluate(bind, FUEL).unwrap();
    assert!(expr_eq(&bound, &Expr::abs("x", Expr::var("x"))));
    let use_it = Expr::app(Expr::meta("F", 0, 0), Expr::var("z"));
    let r = ev.evaluate(use_it, FUEL).unwrap();
    assert!(expr_eq(&r, &Expr::var("z")));
}

#[test]
fn rebinding_overwrites_earlier_binding() {
    let mut ev = Evaluator::new();
    ev.evaluate(Expr::bind("F", Expr::abs("x", Expr::var("x"))), FUEL)
        .unwrap();
    ev.evaluate(
        Expr::bind("F", Expr::abs("x", Expr::abs("y", Expr::var("y")))),
        FUEL,
    )
    .unwrap();
    let r = ev
        .evaluate(
            Expr::app(Expr::app(Expr::meta("F", 0, 0), Expr::var("a")), Expr::var("b")),
            FUEL,
        )
        .unwrap();
    assert!(expr_eq(&r, &Expr::var("b")));
}

#[test]
fn unbound_metavariable_is_reported_with_position() {
    let mut ev = Evaluator::new();
    let r = ev.evaluate(Expr::meta("UNDEFINED", 3, 7), FUEL);
    match r {
        Err(EvalError::UnboundMetaVariable { name, line, col }) => {
            assert_eq!(name, "UNDEFINED");
            assert_eq!(line, 3);
            assert_eq!(col, 7);
        }
        _ => panic!("expected an unbound-metavariable error"),
    }
    // The session survives the failure.
    let r2 = ev.evaluate(Expr::var("x"), FUEL).unwrap();
    assert!(expr_eq(&r2, &Expr::var("x")));
}

#[test]
fn default_kestrel_projects_first_argument() {
    // K a b -> a, via the seeded environment.
    let mut ev = Evaluator::new();
    let e = Expr::app(Expr::app(Expr::meta("K", 0, 0), Expr::var("a")), Expr::var("b"));
    let r = ev.evaluate(e, FUEL).unwrap();
    assert!(expr_eq(&r, &Expr::var("a")));
}

#[test]
fn default_kite_projects_second_argument() {
    let mut ev = Evaluator::new();
    let e = Expr::app(
        Expr::app(Expr::meta("KI", 0, 0), Expr::var("a")),
        Expr::var("b"),
    );
    let r = ev.evaluate(e, FUEL).unwrap();
    assert!(expr_eq(&r, &Expr::var("b")));
}

#[test]
fn default_identity_and_mockingbird_behave() {
    let mut ev = Evaluator::new();
    let r = ev
        .evaluate(Expr::app(Expr::meta("I", 0, 0), Expr::var("q")), FUEL)
        .unwrap();
    assert!(expr_eq(&r, &Expr::var("q")));
    let r2 = ev
        .evaluate(
            Expr::app(Expr::meta("M", 0, 0), Expr::abs("x", Expr::var("x"))),
            FUEL,
        )
        .unwrap();
    assert!(expr_eq(&r2, &Expr::abs("x", Expr::var("x"))));
}

#[test]
fn default_negation_of_first_projection_is_second_projection() {
    // NOT K reduces to something that projects its second argument.
    let mut ev = Evaluator::new();
    let r = ev
        .evaluate(
            Expr::app(Expr::meta("NOT", 0, 0), Expr::meta("K", 0, 0)),
            FUEL,
        )
        .unwrap();
    match r {
        Expr::Abstraction(p, body) => match *body {
            Expr::Abstraction(q, inner) => match *inner {
                Expr::Variable(v) => {
                    assert_eq!(v, q);
                    assert_ne!(p, q);
                }
                _ => panic!("expected a variable under the two binders"),
            },
            _ => panic!("expected a second binder"),
        },
        _ => panic!("expected an abstraction"),
    }
}

#[test]
fn environment_lists_default_combinators() {
    let ev = Evaluator::new();
    for name in ["I", "M", "C", "K", "KI", "B", "T", "NOT"] {
        assert!(ev.env.get(&String::from(name)).is_some(), "{name} missing");
    }
    assert!(ev.env.get(&String::from("ZZZ")).is_none());
}

#[test]
fn divergent_term_exhausts_budget() {
    // (\f.f f) (\f.f f) has no normal form; the budget must run out.
    let mut ev = Evaluator::new();
    let m = Expr::abs("f", Expr::app(Expr::var("f"), Expr::var("f")));
    let m2 = Expr::abs("f", Expr::app(Expr::var("f"), Expr::var("f")));
    let r = ev.evaluate(Expr::app(m, m2), 50);
    assert!(matches!(r, Err(EvalError::BudgetExhausted)));
}

#[test]
fn exhausted_alphabet_is_an_internal_violation() {
    // Mention all twenty-six letters so no fresh name is left, then force a
    // rename.
    let mut ev = Evaluator::new();
    let mut arg = Expr::var("a");
    for c in 'b'..='z' {
        arg = Expr::app(arg, Expr::var(&c.to_string()));
    }
    // (\q.\w.q) applied to the 26-letter argument: substituting under \w
    // requires a fresh name and none is left.
    let e = Expr::app(Expr::abs("q", Expr::abs("w", Expr::var("q"))), arg);
    let r = ev.evaluate(e, FUEL);
    assert!(matches!(r, Err(EvalError::InternalInvariantViolation)));
}

#[test]
fn grouping_is_transparent() {
    let mut ev = Evaluator::new();
    let e = Expr::group(Expr::app(
        Expr::group(Expr::abs("x", Expr::var("x"))),
        Expr::var("v"),
    ));
    let r = ev.evaluate(e, FUEL).unwrap();
    assert!(expr_eq(&r, &Expr::var("v")));
}

#[test]
fn alpha_rename_renames_binders_and_variables() {
    let e = Expr::abs("x", Expr::app(Expr::var("x"), Expr::var("y")));
    let r = Evaluator::alpha_rename(&e, &String::from("x"), &String::from("t"));
    assert!(expr_eq(
        &r,
        &Expr::abs("t", Expr::app(Expr::var("t"), Expr::var("y")))
    ));
}

#[test]
fn is_free_reports_any_variable_not_under_matching_binder() {
    // The coarse check counts any variable occurrence as free.
    let x = String::from("x");
    assert!(Evaluator::is_free(&Expr::var("y"), &x));
    assert!(!Evaluator::is_free(&Expr::abs("x", Expr::var("q")), &x));
    assert!(Evaluator::is_free(&Expr::abs("z", Expr::var("q")), &x));
}

#[test]
fn metavariables_expand_transitively() {
    let mut ev = Evaluator::new();
    ev.evaluate(Expr::bind("A", Expr::abs("x", Expr::var("x"))), FUEL)
        .unwrap();
    ev.evaluate(Expr::bind("B", Expr::meta("A", 0, 0)), FUEL).unwrap();
    let r = ev
        .evaluate(Expr::app(Expr::meta("B", 0, 0), Expr::var("w")), FUEL)
        .unwrap();
    assert!(expr_eq(&r, &Expr::var("w")));
}
