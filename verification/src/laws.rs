use vstd::prelude::*;
use crate::expr::{
    ExprView, meta_free, subst_ready, all_names, free_vars, free_check, rename, normal_form,
    var_v, abs_v, app_v,
};
use crate::evaluator::kestrel_view;
use crate::semantics::{
    subst, fresh_name, lemma_fresh_scan_unused, lemma_rename_shape, EvalState, Reduction, reduce,
    reduce_app, eval_state, env_wf, lemma_reduce_props, lemma_reduce_normal_identity,
    lemma_core_form_subst_ready, lemma_subst_shape,
};

verus! {

/// A free variable is always among the recorded names.
proof fn lemma_free_vars_subset_all_names(e: ExprView)
    ensures
        free_vars(e).subset_of(all_names(e)),
    decreases e,
{
    match e {
        ExprView::Abs { param, body } => lemma_free_vars_subset_all_names(*body),
        ExprView::App { func, arg } => {
            lemma_free_vars_subset_all_names(*func);
            lemma_free_vars_subset_all_names(*arg);
        },
        ExprView::Group { inner } => lemma_free_vars_subset_all_names(*inner),
        ExprView::Bind { name, value } => lemma_free_vars_subset_all_names(*value),
        _ => {},
    }
}

/// Renaming introduces no name beyond the target.
proof fn lemma_rename_all_names(e: ExprView, from: Seq<char>, to: Seq<char>)
    ensures
        all_names(rename(e, from, to)).subset_of(all_names(e).insert(to)),
    decreases e,
{
    match e {
        ExprView::Abs { param, body } => lemma_rename_all_names(*body, from, to),
        ExprView::App { func, arg } => {
            lemma_rename_all_names(*func, from, to);
            lemma_rename_all_names(*arg, from, to);
        },
        ExprView::Group { inner } => lemma_rename_all_names(*inner, from, to),
        ExprView::Bind { name, value } => lemma_rename_all_names(*value, from, to),
        _ => {},
    }
}

/// Renaming to a name the tree nowhere mentions moves exactly the free
/// occurrences of `from` over to `to` and leaves every other free variable
/// alone.
proof fn lemma_rename_free_vars(e: ExprView, from: Seq<char>, to: Seq<char>)
    requires
        !all_names(e).contains(to),
    ensures
        free_vars(rename(e, from, to)) == (if free_vars(e).contains(from) {
            free_vars(e).remove(from).insert(to)
        } else {
            free_vars(e)
        }),
    decreases e,
{
    lemma_free_vars_subset_all_names(e);
    match e {
        ExprView::Var { name } => {
            if name == from {
                assert(free_vars(rename(e, from, to)) =~= free_vars(e).remove(from).insert(to));
            }
        },
        ExprView::Abs { param, body } => {
            lemma_free_vars_subset_all_names(*body);
            lemma_rename_free_vars(*body, from, to);
            let fb = free_vars(*body);
            let fr = free_vars(rename(*body, from, to));
            if param == from {
                if fb.contains(from) {
                    assert(fr.remove(to) =~= fb.remove(from));
                    assert(free_vars(rename(e, from, to)) =~= free_vars(e));
                } else {
                    assert(fr.remove(to) =~= fb.remove(from));
                    assert(free_vars(rename(e, from, to)) =~= free_vars(e));
                }
                assert(!free_vars(e).contains(from));
            } else {
                if fb.contains(from) {
                    assert(fr.remove(param) =~= fb.remove(param).remove(from).insert(to));
                    assert(free_vars(e).contains(from));
                    assert(free_vars(rename(e, from, to)) =~= free_vars(e).remove(from).insert(
                        to,
                    ));
                } else {
                    assert(fr.remove(param) =~= fb.remove(param));
                    assert(!free_vars(e).contains(from));
                }
            }
        },
        ExprView::App { func, arg } => {
            lemma_free_vars_subset_all_names(*func);
            lemma_free_vars_subset_all_names(*arg);
            lemma_rename_free_vars(*func, from, to);
            lemma_rename_free_vars(*arg, from, to);
            if free_vars(e).contains(from) {
                assert(free_vars(rename(e, from, to)) =~= free_vars(e).remove(from).insert(to));
            } else {
                assert(free_vars(rename(e, from, to)) =~= free_vars(e));
            }
        },
        ExprView::Group { inner } => lemma_rename_free_vars(*inner, from, to),
        ExprView::Bind { name, value } => lemma_rename_free_vars(*value, from, to),
        ExprView::Meta { .. } => {},
    }
}

/// The coarse free-variable check never misses: when it reports `x` not
/// free, `x` truly is not free. (It may report free where `x` is not — it
/// overapproximates — which only triggers a harmless extra rename.)
pub proof fn lemma_free_check_complete(e: ExprView, x: Seq<char>)
    requires
        subst_ready(e),
        !free_check(e, x),
    ensures
        !free_vars(e).contains(x),
    decreases e,
{
    match e {
        ExprView::Abs { param, body } => {
            if param != x {
                lemma_free_check_complete(*body, x);
            }
        },
        ExprView::App { func, arg } => {
            lemma_free_check_complete(*func, x);
            lemma_free_check_complete(*arg, x);
        },
        ExprView::Group { inner } => lemma_free_check_complete(*inner, x),
        _ => {},
    }
}

/// Capture avoidance. Substituting `w` for `x` never captures a free
/// variable of `w` under a binder and never loses one: when the used-name
/// set covers every name of `e` and of `w` (as the expansion phase
/// arranges), the free variables of `e[x := w]` are exactly those of `e`
/// less `x`, joined with those of `w` wherever `x` was in fact free. In
/// particular the naive capturing result, in which a free variable of `w`
/// silently becomes bound, can never occur.
pub proof fn lemma_substitute_capture_avoiding(
    e: ExprView,
    x: Seq<char>,
    w: ExprView,
    names: Set<Seq<char>>,
)
    requires
        subst_ready(e),
        all_names(e).subset_of(names),
        all_names(w).subset_of(names),
        names.contains(x),
    ensures
        (match subst(e, x, w, names) {
            Some((r, ns)) => free_vars(r) == (if free_vars(e).contains(x) {
                free_vars(e).remove(x).union(free_vars(w))
            } else {
                free_vars(e)
            }) && all_names(r).subset_of(ns) && names.subset_of(ns),
            None => true,
        }),
    decreases crate::expr::size(e),
{
    lemma_free_vars_subset_all_names(e);
    lemma_free_vars_subset_all_names(w);
    match e {
        ExprView::Var { name } => {},
        ExprView::App { func, arg } => {
            lemma_free_vars_subset_all_names(*func);
            lemma_free_vars_subset_all_names(*arg);
            lemma_substitute_capture_avoiding(*func, x, w, names);
            match subst(*func, x, w, names) {
                Some((f2, ns1)) => {
                    lemma_substitute_capture_avoiding(*arg, x, w, ns1);
                    match subst(*arg, x, w, ns1) {
                        Some((a2, ns2)) => {
                            let r = ExprView::App { func: Box::new(f2), arg: Box::new(a2) };
                            if free_vars(e).contains(x) {
                                assert(free_vars(r) =~= free_vars(e).remove(x).union(
                                    free_vars(w),
                                ));
                            } else {
                                assert(free_vars(r) =~= free_vars(e));
                            }
                        },
                        None => {},
                    }
                },
                None => {},
            }
        },
        ExprView::Group { inner } => {
            lemma_substitute_capture_avoiding(*inner, x, w, names);
        },
        ExprView::Abs { param, body } => {
            lemma_free_vars_subset_all_names(*body);
            if param == x {
                assert(!free_vars(e).contains(x));
            } else if !free_check(*body, x) {
                lemma_free_check_complete(*body, x);
                lemma_substitute_capture_avoiding(*body, x, w, names);
                match subst(*body, x, w, names) {
                    Some((b2, ns)) => {
                        assert(!free_vars(e).contains(x));
                        assert(free_vars(ExprView::Abs { param, body: Box::new(b2) }) =~=
                            free_vars(e));
                    },
                    None => {},
                }
            } else {
                match fresh_name(names) {
                    Some(z) => {
                        lemma_fresh_scan_unused(names, 0);
                        let renamed = rename(*body, param, z);
                        lemma_rename_shape(*body, param, z);
                        lemma_rename_all_names(*body, param, z);
                        lemma_rename_free_vars(*body, param, z);
                        lemma_substitute_capture_avoiding(renamed, x, w, names.insert(z));
                        match subst(renamed, x, w, names.insert(z)) {
                            Some((b2, ns)) => {
                                let r = ExprView::Abs { param: z, body: Box::new(b2) };
                                let fb = free_vars(*body);
                                assert(!fb.contains(z));
                                assert(!free_vars(w).contains(z));
                                assert(x != z);
                                assert(free_vars(e) =~= fb.remove(param));
                                if fb.contains(x) {
                                    assert(free_vars(e).contains(x));
                                    assert(free_vars(r) =~= free_vars(e).remove(x).union(
                                        free_vars(w),
                                    ));
                                } else {
                                    assert(!free_vars(e).contains(x));
                                    assert(free_vars(r) =~= free_vars(e));
                                }
                            },
                            None => {},
                        }
                    },
                    None => {},
                }
            }
        },
        _ => {},
    }
}

/// Reduction keeps the used-name set covering: starting from a state whose
/// name set holds every name of the tree — as it does after expansion —
/// every intermediate substitution meets the hypotheses of
/// [`lemma_substitute_capture_avoiding`], and what comes out is covered by
/// the final name set in turn. Together with that law, this is why no
/// substitution the evaluator ever performs can capture.
pub proof fn lemma_reduce_preserves_names(st: EvalState, e: ExprView, fuel: nat)
    requires
        env_wf(st.env),
        meta_free(e),
        all_names(e).subset_of(st.names),
    ensures
        (match reduce(st, e, fuel) {
            Reduction::Done(v, st2) => all_names(v).subset_of(st2.names),
            _ => true,
        }),
    decreases fuel, crate::expr::size(e), 0int,
{
    lemma_reduce_props(st, e, fuel);
    match e {
        ExprView::Var { .. } => {},
        ExprView::Abs { param, body } => {
            lemma_reduce_preserves_names(st, *body, fuel);
        },
        ExprView::Group { inner } => {
            lemma_reduce_preserves_names(st, *inner, fuel);
        },
        ExprView::App { func, arg } => {
            crate::semantics::lemma_size_pos(*func);
            crate::semantics::lemma_size_pos(*arg);
            lemma_reduce_app_preserves_names(st, *func, *arg, fuel);
        },
        ExprView::Bind { name, value } => {
            lemma_reduce_preserves_names(st, *value, fuel);
        },
        ExprView::Meta { .. } => {},
    }
}

/// Companion of [`lemma_reduce_preserves_names`] for application nodes.
proof fn lemma_reduce_app_preserves_names(st: EvalState, func: ExprView, arg: ExprView, fuel: nat)
    requires
        env_wf(st.env),
        meta_free(func),
        meta_free(arg),
        all_names(func).subset_of(st.names),
        all_names(arg).subset_of(st.names),
    ensures
        (match reduce_app(st, func, arg, fuel) {
            Reduction::Done(v, st2) => all_names(v).subset_of(st2.names),
            _ => true,
        }),
    decreases fuel, crate::expr::size(func) + crate::expr::size(arg), 1int,
{
    crate::semantics::lemma_size_pos(func);
    crate::semantics::lemma_size_pos(arg);
    lemma_reduce_props(st, func, fuel);
    lemma_reduce_preserves_names(st, func, fuel);
    match reduce(st, func, fuel) {
        Reduction::Done(f2, st2) => match f2 {
            ExprView::Abs { param, body } => {
                if fuel == 0 {
                } else {
                    lemma_core_form_subst_ready(f2);
                    crate::semantics::lemma_subst_ready_meta_free(*body);
                    lemma_substitute_capture_avoiding(*body, param, arg, st2.names);
                    lemma_subst_shape(*body, param, arg, st2.names);
                    match subst(*body, param, arg, st2.names) {
                        Some((s, ns)) => {
                            lemma_reduce_preserves_names(
                                eval_state(st2.env, ns),
                                s,
                                (fuel - 1) as nat,
                            );
                        },
                        None => {},
                    }
                }
            },
            _ => {
                lemma_reduce_props(st2, arg, fuel);
                lemma_reduce_preserves_names(st2, arg, fuel);
            },
        },
        _ => {},
    }
}

/// Idempotence of reduction. Whatever a successful reduction returns is in
/// normal form, so reducing it again — in any state, under any budget —
/// returns it unchanged and leaves that state untouched.
pub proof fn lemma_reduce_idempotent(
    st: EvalState,
    e: ExprView,
    fuel: nat,
    st_again: EvalState,
    fuel_again: nat,
)
    requires
        env_wf(st.env),
        meta_free(e),
    ensures
        (match reduce(st, e, fuel) {
            Reduction::Done(v, st2) => reduce(st_again, v, fuel_again) == Reduction::Done(
                v,
                st_again,
            ),
            _ => true,
        }),
{
    lemma_reduce_props(st, e, fuel);
    match reduce(st, e, fuel) {
        Reduction::Done(v, st2) => {
            lemma_reduce_normal_identity(st_again, v, fuel_again);
        },
        _ => {},
    }
}

/// Default-combinator sanity: the seeded first-projection combinator
/// `K = \\x.\\y.x` applied to any two variables yields the first of them,
/// exactly. The session must still have a fresh name left (the reduction
/// alpha-renames the inner binder once) and must already have recorded the
/// first variable's name, as expansion records every visible identifier.
pub proof fn lemma_kestrel_first_projection(st: EvalState, u: Seq<char>, v: Seq<char>, fuel: nat)
    requires
        fuel >= 1,
        st.names.contains(u),
    ensures
        (match fresh_name(st.names) {
            Some(z) => reduce(
                st,
                app_v(app_v(kestrel_view(), var_v(u)), var_v(v)),
                fuel,
            ) == Reduction::Done(var_v(u), eval_state(st.env, st.names.insert(z))),
            None => true,
        }),
{
    match fresh_name(st.names) {
        Some(z) => {
            lemma_fresh_scan_unused(st.names, 0);
            reveal_strlit("x");
            reveal_strlit("y");
            reveal_with_fuel(normal_form, 5);
            reveal_with_fuel(subst, 4);
            reveal_with_fuel(reduce, 4);
            reveal_with_fuel(reduce_app, 4);
            assert("x"@.len() == 1 && "x"@[0] == 'x');
            assert("y"@.len() == 1 && "y"@[0] == 'y');
            assert("x"@ != "y"@);
            let k = kestrel_view();
            let body = abs_v("y"@, var_v("x"@));
            assert(normal_form(k));
            lemma_reduce_normal_identity(st, k, fuel);
            assert(u != z);
            assert(free_check(var_v("x"@), "x"@));
            assert(rename(var_v("x"@), "y"@, z) == var_v("x"@));
            assert(subst(var_v("x"@), "x"@, var_v(u), st.names.insert(z)) == Some(
                (var_v(u), st.names.insert(z)),
            ));
            assert(subst(body, "x"@, var_v(u), st.names) == Some(
                (abs_v(z, var_v(u)), st.names.insert(z)),
            ));
            let st1 = eval_state(st.env, st.names.insert(z));
            assert(reduce(st1, abs_v(z, var_v(u)), (fuel - 1) as nat) == Reduction::Done(
                abs_v(z, var_v(u)),
                st1,
            )) by {
                lemma_reduce_normal_identity(st1, abs_v(z, var_v(u)), (fuel - 1) as nat);
            }
            assert(reduce_app(st, k, var_v(u), fuel) == Reduction::Done(abs_v(z, var_v(u)), st1));
            assert(reduce(st, app_v(k, var_v(u)), fuel) == Reduction::Done(
                abs_v(z, var_v(u)),
                st1,
            ));
            assert(subst(var_v(u), z, var_v(v), st1.names) == Some((var_v(u), st1.names)));
            assert(reduce(st1, var_v(u), (fuel - 1) as nat) == Reduction::Done(var_v(u), st1));
            assert(reduce_app(st, app_v(k, var_v(u)), var_v(v), fuel) == Reduction::Done(
                var_v(u),
                st1,
            ));
        },
        None => {},
    }
}

} // verus!
