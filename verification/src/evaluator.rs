use vstd::prelude::*;
use crate::expr::{
    Expr, ExprView, size, meta_count, meta_free, subst_ready, free_check, rename, normal_form,
    var_v, abs_v, app_v, group_v,
};
use crate::env::{Env, NameSet};
use crate::errors::EvalError;
use crate::semantics::{
    alphabet, fresh_scan, fresh_name, subst, eval_state, Reduction, reduce, reduce_app, env_wf,
    Expansion, expand, lemma_rename_shape, lemma_subst_ready_meta_free,
    lemma_core_form_subst_ready, lemma_subst_shape, lemma_subst_names_monotone,
    lemma_reduce_props, lemma_expand_meta_free, lemma_size_pos,
};
use crate::token::Token;

verus! {

/// The identity combinator, `\x.x`.
pub open spec fn identity_view() -> ExprView {
    abs_v("x"@, var_v("x"@))
}

/// The self-application combinator, `\f.f f`.
pub open spec fn mockingbird_view() -> ExprView {
    abs_v("f"@, app_v(var_v("f"@), var_v("f"@)))
}

/// The argument-flipping combinator, `\fab.f b a`.
pub open spec fn cardinal_view() -> ExprView {
    abs_v(
        "f"@,
        abs_v(
            "a"@,
            abs_v("b"@, app_v(app_v(var_v("f"@), var_v("b"@)), var_v("a"@))),
        ),
    )
}

/// The first-projection combinator, `\xy.x`.
pub open spec fn kestrel_view() -> ExprView {
    abs_v("x"@, abs_v("y"@, var_v("x"@)))
}

/// The second-projection combinator, `\xy.y`.
pub open spec fn kite_view() -> ExprView {
    abs_v("x"@, abs_v("y"@, var_v("y"@)))
}

/// The composition combinator, `\fgh.f (g h)`.
pub open spec fn bluebird_view() -> ExprView {
    abs_v(
        "f"@,
        abs_v(
            "g"@,
            abs_v("h"@, app_v(var_v("f"@), group_v(app_v(var_v("g"@), var_v("h"@))))),
        ),
    )
}

/// The argument-holding combinator, `\fg.g f`.
pub open spec fn thrush_view() -> ExprView {
    abs_v("f"@, abs_v("g"@, app_v(var_v("g"@), var_v("f"@))))
}

/// Boolean negation over Church booleans, `\b.b (\xy.y) (\xy.x)`.
pub open spec fn negation_view() -> ExprView {
    abs_v(
        "b"@,
        app_v(
            app_v(var_v("b"@), group_v(kite_view())),
            group_v(kestrel_view()),
        ),
    )
}

/// The environment every session starts from: the standard combinators,
/// bound under their conventional names.
pub open spec fn default_env() -> Map<Seq<char>, ExprView> {
    Map::empty()
        .insert("I"@, identity_view())
        .insert("M"@, mockingbird_view())
        .insert("C"@, cardinal_view())
        .insert("K"@, kestrel_view())
        .insert("KI"@, kite_view())
        .insert("B"@, bluebird_view())
        .insert("T"@, thrush_view())
        .insert("NOT"@, negation_view())
}

/// The seeded environment satisfies the environment invariant: none of the
/// combinators holds a metavariable reference.
pub proof fn lemma_default_env_wf()
    ensures
        env_wf(default_env()),
{
    assert forall|k: Seq<char>| default_env().contains_key(k) implies meta_free(
        #[trigger] default_env()[k],
    ) by {
        reveal_with_fuel(meta_count, 10);
        assert(meta_free(identity_view()));
        assert(meta_free(mockingbird_view()));
        assert(meta_free(cardinal_view()));
        assert(meta_free(kestrel_view()));
        assert(meta_free(kite_view()));
        assert(meta_free(bluebird_view()));
        assert(meta_free(thrush_view()));
        assert(meta_free(negation_view()));
    }
}

/// One evaluation session: the persistent binding environment and the
/// transient used-name set. Each session owns its state exclusively;
/// independent sessions take independent evaluators.
pub struct Evaluator {
    pub env: Env,
    pub names: NameSet,
}

impl Evaluator {
    /// The session invariant: every value the environment stores is free of
    /// metavariable references. Construction establishes it; every
    /// evaluation preserves it.
    pub open spec fn wf(&self) -> bool {
        env_wf(self.env@)
    }

    /// A fresh session over the default combinator environment.
    pub fn new() -> (ev: Evaluator)
        ensures
            ev.wf(),
            ev.env@ == default_env(),
            ev.names@ == Set::<Seq<char>>::empty(),
    {
        proof {
            lemma_default_env_wf();
        }
        Evaluator { env: Evaluator::generate_default_env(), names: NameSet::new() }
    }

    /// Build the default environment: the standard combinators under their
    /// conventional names, as the trees their written-out sources parse to.
    pub fn generate_default_env() -> (env: Env)
        ensures
            env@ == default_env(),
    {
        let identity = Expr::abs("x", Expr::var("x"));
        let mockingbird = Expr::abs("f", Expr::app(Expr::var("f"), Expr::var("f")));
        let cardinal = Expr::abs(
            "f",
            Expr::abs(
                "a",
                Expr::abs(
                    "b",
                    Expr::app(Expr::app(Expr::var("f"), Expr::var("b")), Expr::var("a")),
                ),
            ),
        );
        let kestrel = Expr::abs("x", Expr::abs("y", Expr::var("x")));
        let kite = Expr::abs("x", Expr::abs("y", Expr::var("y")));
        let bluebird = Expr::abs(
            "f",
            Expr::abs(
                "g",
                Expr::abs(
                    "h",
                    Expr::app(
                        Expr::var("f"),
                        Expr::group(Expr::app(Expr::var("g"), Expr::var("h"))),
                    ),
                ),
            ),
        );
        let thrush = Expr::abs("f", Expr::abs("g", Expr::app(Expr::var("g"), Expr::var("f"))));
        let negation = Expr::abs(
            "b",
            Expr::app(
                Expr::app(
                    Expr::var("b"),
                    Expr::group(Expr::abs("x", Expr::abs("y", Expr::var("y")))),
                ),
                Expr::group(Expr::abs("x", Expr::abs("y", Expr::var("x")))),
            ),
        );

        let mut env = Env::new();
        env.insert(String::from_str("I"), identity);
        env.insert(String::from_str("M"), mockingbird);
        env.insert(String::from_str("C"), cardinal);
        env.insert(String::from_str("K"), kestrel);
        env.insert(String::from_str("KI"), kite);
        env.insert(String::from_str("B"), bluebird);
        env.insert(String::from_str("T"), thrush);
        env.insert(String::from_str("NOT"), negation);
        env
    }

    /// The sole entry point: reset the used-name set, expand every
    /// metavariable reference, then beta-reduce to full normal form.
    /// `fuel` bounds the number of beta steps spent before the reduction is
    /// abandoned with [`EvalError::BudgetExhausted`]; the engine itself
    /// imposes no bound, so a term with no normal form consumes whatever
    /// budget it is given.
    ///
    /// Bindings committed by parts of the expression evaluated before a
    /// later failure are deliberately not rolled back.
    pub fn evaluate(&mut self, expression: Expr, fuel: u64) -> (r: Result<Expr, EvalError>)
        requires
            old(self).wf(),
        ensures
            final(self).wf(),
            r matches Ok(e) ==> normal_form(e@),
            (match expand(old(self).env@, Set::<Seq<char>>::empty(), expression@) {
                Expansion::Unbound(n, l, c) => final(self).env@ == old(self).env@ && (r matches
                    Err(EvalError::UnboundMetaVariable { name, line, col }) && name@ == n
                    && line as int == l && col as int == c),
                Expansion::Expanded(v, ns) => (match reduce(
                    eval_state(old(self).env@, ns),
                    v,
                    fuel as nat,
                ) {
                    Reduction::Done(res, st2) => (r matches Ok(e) && e@ == res)
                        && final(self).env@ == st2.env && final(self).names@ == st2.names,
                    Reduction::OutOfNames(st2) => r matches Err(EvalError::InternalInvariantViolation) && final(self).env@ == st2.env,
                    Reduction::OutOfFuel(st2) => r matches Err(EvalError::BudgetExhausted)
                        && final(self).env@ == st2.env && final(self).names@ == st2.names,
                }),
            }),
    {
        self.names.clear();
        let expanded = match self.expand_bindings(&expression) {
            Ok(e) => e,
            Err(err) => {
                return Err(err);
            },
        };
        proof {
            lemma_expand_meta_free(old(self).env@, Set::<Seq<char>>::empty(), expression@);
        }
        self.beta_reduce(expanded, fuel)
    }

    /// The expansion phase: record every variable name and abstraction
    /// parameter into the used-name set, rebuild the tree structurally, and
    /// splice a copy of the bound value in for every metavariable
    /// reference, re-expanding it so references may chain. Runs to
    /// completion before any reduction begins. The environment is never
    /// changed here; on failure the used-name set holds whatever was
    /// recorded up to the point of failure.
    pub fn expand_bindings(&mut self, expr: &Expr) -> (r: Result<Expr, EvalError>)
        requires
            old(self).wf(),
        ensures
            final(self).wf(),
            final(self).env@ == old(self).env@,
            (match expand(old(self).env@, old(self).names@, expr@) {
                Expansion::Expanded(v, ns) => (r matches Ok(e) && e@ == v) && final(self).names@ == ns,
                Expansion::Unbound(n, l, c) => (r matches Err(
                    EvalError::UnboundMetaVariable { name, line, col },
                ) && name@ == n && line as int == l && col as int == c),
            }),
        decreases meta_count(expr@), size(expr@),
    {
        match expr {
            Expr::Variable(name) => {
                self.names.insert(name.clone());
                Ok(expr.clone())
            },
            Expr::Abstraction(name, body) => {
                self.names.insert(name.clone());
                let b2 = match self.expand_bindings(body) {
                    Ok(e) => e,
                    Err(err) => {
                        return Err(err);
                    },
                };
                Ok(Expr::Abstraction(name.clone(), Box::new(b2)))
            },
            Expr::Application(func, arg) => {
                let f2 = match self.expand_bindings(func) {
                    Ok(e) => e,
                    Err(err) => {
                        return Err(err);
                    },
                };
                let a2 = match self.expand_bindings(arg) {
                    Ok(e) => e,
                    Err(err) => {
                        return Err(err);
                    },
                };
                Ok(Expr::Application(Box::new(f2), Box::new(a2)))
            },
            Expr::Grouping(inner) => {
                let i2 = match self.expand_bindings(inner) {
                    Ok(e) => e,
                    Err(err) => {
                        return Err(err);
                    },
                };
                Ok(Expr::Grouping(Box::new(i2)))
            },
            Expr::Binding(name, value) => {
                let v2 = match self.expand_bindings(value) {
                    Ok(e) => e,
                    Err(err) => {
                        return Err(err);
                    },
                };
                Ok(Expr::Binding(name.clone(), Box::new(v2)))
            },
            Expr::MetaVariable(token) => {
                let resolved = match self.evaluate_meta_variable(token) {
                    Ok(e) => e,
                    Err(err) => {
                        return Err(err);
                    },
                };
                proof {
                    assert(meta_free(old(self).env@[token.lexeme@]));
                }
                let wrapped = Expr::Grouping(Box::new(resolved));
                self.expand_bindings(&wrapped)
            },
        }
    }

    /// Look a metavariable's name up in the environment, yielding a copy of
    /// the bound value, or the unbound-metavariable error carrying the
    /// reference's name and source position.
    pub fn evaluate_meta_variable(&mut self, token: &Token) -> (r: Result<Expr, EvalError>)
        ensures
            final(self).env@ == old(self).env@,
            final(self).names@ == old(self).names@,
            (match r {
                Ok(e) => old(self).env@.contains_key(token.lexeme@) && e@ == old(self).env@[token.lexeme@],
                Err(err) => !old(self).env@.contains_key(token.lexeme@) && (err matches
                    EvalError::UnboundMetaVariable { name, line, col } && name@ == token.lexeme@
                    && line == token.line && col == token.col),
            }),
    {
        match self.env.get(&token.lexeme) {
            Some(expr) => Ok(expr.clone()),
            None => Err(EvalError::UnboundMetaVariable {
                name: token.lexeme.clone(),
                line: token.line,
                col: token.col,
            }),
        }
    }

    /// The normalizer: reduce to full beta-normal form, reducing under
    /// binders too. A binding node stores its reduced value in the
    /// environment and stands for that value. `fuel` bounds the number of
    /// beta steps; structural descent costs nothing, so a tree already in
    /// normal form reduces to itself under any budget.
    pub fn beta_reduce(&mut self, expression: Expr, fuel: u64) -> (r: Result<Expr, EvalError>)
        requires
            old(self).wf(),
            meta_free(expression@),
        ensures
            final(self).wf(),
            r matches Ok(e) ==> normal_form(e@),
            (match reduce(eval_state(old(self).env@, old(self).names@), expression@, fuel as nat) {
                Reduction::Done(v, st2) => (r matches Ok(e) && e@ == v) && final(self).env@ == st2.env && final(self).names@ == st2.names,
                Reduction::OutOfNames(st2) => r matches Err(EvalError::InternalInvariantViolation)
                    && final(self).env@ == st2.env && st2.names.subset_of(final(self).names@),
                Reduction::OutOfFuel(st2) => r matches Err(EvalError::BudgetExhausted) && final(self).env@ == st2.env && final(self).names@ == st2.names,
            }),
        decreases fuel, size(expression@), 0int,
    {
        proof {
            lemma_reduce_props(
                eval_state(old(self).env@, old(self).names@),
                expression@,
                fuel as nat,
            );
        }
        match expression {
            Expr::Variable(_) => Ok(expression),
            Expr::Abstraction(name, body) => {
                let b2 = match self.beta_reduce(*body, fuel) {
                    Ok(e) => e,
                    Err(err) => {
                        return Err(err);
                    },
                };
                Ok(Expr::Abstraction(name, Box::new(b2)))
            },
            Expr::Application(func, arg) => self.reduce_application(&func, &arg, fuel),
            Expr::Grouping(inner) => self.beta_reduce(*inner, fuel),
            Expr::Binding(name, value) => {
                let v = match self.beta_reduce(*value, fuel) {
                    Ok(e) => e,
                    Err(err) => {
                        return Err(err);
                    },
                };
                self.env.insert(name, v.clone());
                Ok(v)
            },
            Expr::MetaVariable(_) => {
                proof {
                    assert(false);
                }
                Err(EvalError::InternalInvariantViolation)
            },
        }
    }

    /// One application node. Reduce the function side; a redex spends a
    /// unit of fuel, substitutes the argument into the abstraction's body
    /// and reduces on; anything else has its argument reduced and the
    /// application rebuilt, both sides then being irreducible at head
    /// position.
    pub fn reduce_application(&mut self, left: &Expr, right: &Expr, fuel: u64) -> (r: Result<
        Expr,
        EvalError,
    >)
        requires
            old(self).wf(),
            meta_free(left@),
            meta_free(right@),
        ensures
            final(self).wf(),
            r matches Ok(e) ==> normal_form(e@),
            (match reduce_app(
                eval_state(old(self).env@, old(self).names@),
                left@,
                right@,
                fuel as nat,
            ) {
                Reduction::Done(v, st2) => (r matches Ok(e) && e@ == v) && final(self).env@ == st2.env && final(self).names@ == st2.names,
                Reduction::OutOfNames(st2) => r matches Err(EvalError::InternalInvariantViolation)
                    && final(self).env@ == st2.env && st2.names.subset_of(final(self).names@),
                Reduction::OutOfFuel(st2) => r matches Err(EvalError::BudgetExhausted) && final(self).env@ == st2.env && final(self).names@ == st2.names,
            }),
        decreases fuel, size(left@) + size(right@), 1int,
    {
        proof {
            lemma_size_pos(left@);
            lemma_size_pos(right@);
            lemma_reduce_props(eval_state(old(self).env@, old(self).names@), left@, fuel as nat);
        }
        let lred = match self.beta_reduce(left.clone(), fuel) {
            Ok(e) => e,
            Err(err) => {
                return Err(err);
            },
        };
        match lred {
            Expr::Abstraction(name, body) => {
                if fuel == 0 {
                    return Err(EvalError::BudgetExhausted);
                }
                proof {
                    lemma_core_form_subst_ready(lred@);
                    lemma_subst_shape(body@, name@, right@, self.names@);
                }
                let sub = match self.substitute(&body, &name, right) {
                    Ok(e) => e,
                    Err(err) => {
                        return Err(err);
                    },
                };
                self.beta_reduce(sub, fuel - 1)
            },
            other => {
                let a2 = match self.beta_reduce(right.clone(), fuel) {
                    Ok(e) => e,
                    Err(err) => {
                        return Err(err);
                    },
                };
                Ok(Expr::Application(Box::new(other), Box::new(a2)))
            },
        }
    }

    /// Capture-avoiding substitution `expression[var := with]`. A binder
    /// equal to `var` shadows it and stops the walk; a binder that could
    /// capture is first alpha-renamed to a fresh name. Fails only when the
    /// fresh-name alphabet is exhausted. The environment is never touched;
    /// the used-name set records every fresh name drawn.
    pub fn substitute(&mut self, expression: &Expr, var: &String, with: &Expr) -> (r: Result<
        Expr,
        EvalError,
    >)
        requires
            subst_ready(expression@),
        ensures
            final(self).env@ == old(self).env@,
            (match subst(expression@, var@, with@, old(self).names@) {
                Some((v, ns)) => (r matches Ok(e) && e@ == v) && final(self).names@ == ns,
                None => r matches Err(EvalError::InternalInvariantViolation) && old(self).names@.subset_of(final(self).names@),
            }),
        decreases size(expression@),
    {
        match expression {
            Expr::Variable(name) => {
                if *name == *var {
                    Ok(with.clone())
                } else {
                    Ok(expression.clone())
                }
            },
            Expr::Application(func, arg) => {
                let f2 = match self.substitute(func, var, with) {
                    Ok(e) => e,
                    Err(err) => {
                        return Err(err);
                    },
                };
                proof {
                    lemma_subst_names_monotone(func@, var@, with@, old(self).names@);
                }
                let a2 = match self.substitute(arg, var, with) {
                    Ok(e) => e,
                    Err(err) => {
                        return Err(err);
                    },
                };
                Ok(Expr::Application(Box::new(f2), Box::new(a2)))
            },
            Expr::Grouping(inner) => self.substitute(inner, var, with),
            Expr::Abstraction(name, body) => {
                if *name == *var {
                    // The binder shadows `var`: nothing below may change.
                    Ok(expression.clone())
                } else if !Evaluator::is_free(body, var) {
                    let b2 = match self.substitute(body, var, with) {
                        Ok(e) => e,
                        Err(err) => {
                            return Err(err);
                        },
                    };
                    Ok(Expr::Abstraction(name.clone(), Box::new(b2)))
                } else {
                    // The binder could capture a free occurrence introduced
                    // by `with`: rename it to a fresh name first.
                    let fresh = match self.generate_name() {
                        Ok(n) => n,
                        Err(err) => {
                            return Err(err);
                        },
                    };
                    proof {
                        lemma_subst_ready_meta_free(body@);
                        lemma_rename_shape(body@, name@, fresh@);
                    }
                    let renamed = Evaluator::alpha_rename(body, name, &fresh);
                    let b2 = match self.substitute(&renamed, var, with) {
                        Ok(e) => e,
                        Err(err) => {
                            return Err(err);
                        },
                    };
                    Ok(Expr::Abstraction(fresh, Box::new(b2)))
                }
            },
            _ => {
                proof {
                    assert(false);
                }
                Err(EvalError::InternalInvariantViolation)
            },
        }
    }

    /// The letter at position `i` of the fresh-name alphabet.
    fn letter_str(i: usize) -> (s: &'static str)
        requires
            i < 26,
        ensures
            s@ == alphabet()[i as int],
    {
        match i {
            0 => "a",
            1 => "b",
            2 => "c",
            3 => "d",
            4 => "e",
            5 => "f",
            6 => "g",
            7 => "h",
            8 => "i",
            9 => "j",
            10 => "k",
            11 => "l",
            12 => "m",
            13 => "n",
            14 => "o",
            15 => "p",
            16 => "q",
            17 => "r",
            18 => "s",
            19 => "t",
            20 => "u",
            21 => "v",
            22 => "w",
            23 => "x",
            24 => "y",
            25 => "z",
            _ => {
                proof {
                    assert(false);
                }
                "a"
            },
        }
    }

    /// Draw the first letter of the alphabet that is not yet used, mark it
    /// used, and return it. Exhausting all twenty-six letters within one
    /// evaluation is the fatal invariant-violation condition.
    pub fn generate_name(&mut self) -> (r: Result<String, EvalError>)
        ensures
            final(self).env@ == old(self).env@,
            (match fresh_name(old(self).names@) {
                Some(z) => (r matches Ok(s) && s@ == z) && final(self).names@ == old(self).names@.insert(z),
                None => r matches Err(EvalError::InternalInvariantViolation) && final(self).names@ == old(self).names@,
            }),
    {
        let mut i: usize = 0;
        while i < 26
            invariant
                i <= 26,
                self.env@ == old(self).env@,
                self.names@ == old(self).names@,
                fresh_name(old(self).names@) == fresh_scan(old(self).names@, i as int),
            decreases 26 - i,
        {
            let letter = Evaluator::letter_str(i);
            let candidate = String::from_str(letter);
            if !self.names.contains(&candidate) {
                let result = candidate.clone();
                self.names.insert(candidate);
                return Ok(result);
            }
            i = i + 1;
        }
        Err(EvalError::InternalInvariantViolation)
    }

    /// Alpha conversion: rewrite every occurrence of `from` — variables and
    /// binders alike — to `to`. Never invoked on a tree still containing
    /// unexpanded metavariables.
    pub fn alpha_rename(expression: &Expr, from: &String, to: &String) -> (r: Expr)
        requires
            meta_free(expression@),
        ensures
            r@ == rename(expression@, from@, to@),
        decreases size(expression@),
    {
        match expression {
            Expr::Variable(name) => {
                if *name == *from {
                    Expr::Variable(to.clone())
                } else {
                    expression.clone()
                }
            },
            Expr::Application(func, arg) => Expr::Application(
                Box::new(Evaluator::alpha_rename(func, from, to)),
                Box::new(Evaluator::alpha_rename(arg, from, to)),
            ),
            Expr::Grouping(inner) => Expr::Grouping(
                Box::new(Evaluator::alpha_rename(inner, from, to)),
            ),
            Expr::Abstraction(name, body) => {
                let param = if *name == *from {
                    to.clone()
                } else {
                    name.clone()
                };
                Expr::Abstraction(param, Box::new(Evaluator::alpha_rename(body, from, to)))
            },
            Expr::Binding(name, value) => Expr::Binding(
                name.clone(),
                Box::new(Evaluator::alpha_rename(value, from, to)),
            ),
            Expr::MetaVariable(_) => {
                proof {
                    assert(false);
                }
                expression.clone()
            },
        }
    }

    /// The deliberately coarse free-occurrence check: does some variable node stand
    /// in `expression` outside every binder named `var`? Any variable
    /// counts, whatever its name (see [`crate::expr::free_check`]); it
    /// thereby never misses a genuinely free occurrence of `var`.
    pub fn is_free(expression: &Expr, var: &String) -> (r: bool)
        requires
            subst_ready(expression@),
        ensures
            r == free_check(expression@, var@),
        decreases size(expression@),
    {
        match expression {
            Expr::Variable(_) => true,
            Expr::Abstraction(name, body) => {
                if *name == *var {
                    false
                } else {
                    Evaluator::is_free(body, var)
                }
            },
            Expr::Application(func, arg) => Evaluator::is_free(func, var) || Evaluator::is_free(
                arg,
                var,
            ),
            Expr::Grouping(inner) => Evaluator::is_free(inner, var),
            _ => {
                proof {
                    assert(false);
                }
                false
            },
        }
    }
}

} // verus!
