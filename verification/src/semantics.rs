use vstd::prelude::*;
use crate::expr::{
    ExprView, size, meta_count, meta_free, core_form, subst_ready, all_names, free_check, rename,
    normal_form,
};

verus! {

/// The candidate names the fresh-name policy scans, in order.
pub open spec fn alphabet() -> Seq<Seq<char>> {
    seq![
        "a"@, "b"@, "c"@, "d"@, "e"@, "f"@, "g"@, "h"@, "i"@, "j"@, "k"@, "l"@, "m"@,
        "n"@, "o"@, "p"@, "q"@, "r"@, "s"@, "t"@, "u"@, "v"@, "w"@, "x"@, "y"@, "z"@,
    ]
}

/// The first candidate from position `i` on that is not yet used, if any.
pub open spec fn fresh_scan(names: Set<Seq<char>>, i: int) -> Option<Seq<char>>
    decreases 26 - i when i <= 26
{
    if i >= 26 {
        None
    } else if !names.contains(alphabet()[i]) {
        Some(alphabet()[i])
    } else {
        fresh_scan(names, i + 1)
    }
}

/// What the fresh-name policy yields against a used-name set: the first
/// unused letter of the alphabet, or nothing when all are taken.
pub open spec fn fresh_name(names: Set<Seq<char>>) -> Option<Seq<char>> {
    fresh_scan(names, 0)
}

/// A generated fresh name is never one that was already used.
pub proof fn lemma_fresh_scan_unused(names: Set<Seq<char>>, i: int)
    requires
        0 <= i <= 26,
    ensures
        (match fresh_scan(names, i) {
            Some(z) => !names.contains(z),
            None => true,
        }),
    decreases 26 - i,
{
    if i < 26 && names.contains(alphabet()[i]) {
        lemma_fresh_scan_unused(names, i + 1);
    }
}

/// Uniform renaming changes no node, only names: the size, the number of
/// metavariable nodes, and fitness for substitution are unchanged.
pub proof fn lemma_rename_shape(e: ExprView, from: Seq<char>, to: Seq<char>)
    ensures
        size(rename(e, from, to)) == size(e),
        meta_count(rename(e, from, to)) == meta_count(e),
        subst_ready(rename(e, from, to)) == subst_ready(e),
    decreases e,
{
    match e {
        ExprView::Abs { param, body } => lemma_rename_shape(*body, from, to),
        ExprView::App { func, arg } => {
            lemma_rename_shape(*func, from, to);
            lemma_rename_shape(*arg, from, to);
        },
        ExprView::Group { inner } => lemma_rename_shape(*inner, from, to),
        ExprView::Bind { name, value } => lemma_rename_shape(*value, from, to),
        _ => {},
    }
}

/// A tree fit for substitution holds no metavariable node.
pub proof fn lemma_subst_ready_meta_free(e: ExprView)
    requires
        subst_ready(e),
    ensures
        meta_free(e),
    decreases e,
{
    match e {
        ExprView::Abs { param, body } => lemma_subst_ready_meta_free(*body),
        ExprView::App { func, arg } => {
            lemma_subst_ready_meta_free(*func);
            lemma_subst_ready_meta_free(*arg);
        },
        ExprView::Group { inner } => lemma_subst_ready_meta_free(*inner),
        _ => {},
    }
}

/// A fully reduced tree is fit for substitution.
pub proof fn lemma_core_form_subst_ready(e: ExprView)
    requires
        core_form(e),
    ensures
        subst_ready(e),
    decreases e,
{
    match e {
        ExprView::Abs { param, body } => lemma_core_form_subst_ready(*body),
        ExprView::App { func, arg } => {
            lemma_core_form_subst_ready(*func);
            lemma_core_form_subst_ready(*arg);
        },
        _ => {},
    }
}

/// Capture-avoiding substitution `e[x := w]` against a used-name set,
/// mirroring the substitution rule the evaluator executes. The result is
/// the substituted tree together with the grown used-name set, or nothing
/// when the fresh-name alphabet was exhausted by a required alpha-rename.
pub open spec fn subst(
    e: ExprView,
    x: Seq<char>,
    w: ExprView,
    names: Set<Seq<char>>,
) -> Option<(ExprView, Set<Seq<char>>)>
    decreases size(e),
{
    match e {
        ExprView::Var { name } => Some((if name == x { w } else { e }, names)),
        ExprView::App { func, arg } => match subst(*func, x, w, names) {
            Some((f2, ns1)) => match subst(*arg, x, w, ns1) {
                Some((a2, ns2)) => Some(
                    (ExprView::App { func: Box::new(f2), arg: Box::new(a2) }, ns2),
                ),
                None => None,
            },
            None => None,
        },
        ExprView::Group { inner } => subst(*inner, x, w, names),
        ExprView::Abs { param, body } => {
            if param == x {
                Some((e, names))
            } else if !free_check(*body, x) {
                match subst(*body, x, w, names) {
                    Some((b2, ns)) => Some(
                        (ExprView::Abs { param, body: Box::new(b2) }, ns),
                    ),
                    None => None,
                }
            } else {
                match fresh_name(names) {
                    Some(z) => {
                        proof {
                            lemma_rename_shape(*body, param, z);
                        }
                        match subst(rename(*body, param, z), x, w, names.insert(z)) {
                            Some((b2, ns)) => Some(
                                (ExprView::Abs { param: z, body: Box::new(b2) }, ns),
                            ),
                            None => None,
                        }
                    },
                    None => None,
                }
            }
        },
        _ => None,
    }
}

/// Substitution of a metavariable-free value into a fit tree yields a
/// metavariable-free tree, and only ever grows the used-name set.
pub proof fn lemma_subst_shape(e: ExprView, x: Seq<char>, w: ExprView, names: Set<Seq<char>>)
    requires
        subst_ready(e),
        meta_free(w),
    ensures
        (match subst(e, x, w, names) {
            Some((r, ns)) => meta_free(r) && names.subset_of(ns),
            None => true,
        }),
    decreases size(e),
{
    lemma_subst_ready_meta_free(e);
    match e {
        ExprView::App { func, arg } => {
            lemma_subst_shape(*func, x, w, names);
            if let Some((f2, ns1)) = subst(*func, x, w, names) {
                lemma_subst_shape(*arg, x, w, ns1);
            }
        },
        ExprView::Group { inner } => lemma_subst_shape(*inner, x, w, names),
        ExprView::Abs { param, body } => {
            if param == x {
            } else if !free_check(*body, x) {
                lemma_subst_shape(*body, x, w, names);
            } else {
                match fresh_name(names) {
                    Some(z) => {
                        lemma_rename_shape(*body, param, z);
                        lemma_subst_ready_meta_free(rename(*body, param, z));
                        lemma_subst_shape(rename(*body, param, z), x, w, names.insert(z));
                    },
                    None => {},
                }
            }
        },
        _ => {},
    }
}

/// Substitution only ever grows the used-name set, whatever the tree.
pub proof fn lemma_subst_names_monotone(e: ExprView, x: Seq<char>, w: ExprView, names: Set<Seq<char>>)
    ensures
        (match subst(e, x, w, names) {
            Some((r, ns)) => names.subset_of(ns),
            None => true,
        }),
    decreases size(e),
{
    match e {
        ExprView::App { func, arg } => {
            lemma_subst_names_monotone(*func, x, w, names);
            if let Some((f2, ns1)) = subst(*func, x, w, names) {
                lemma_subst_names_monotone(*arg, x, w, ns1);
            }
        },
        ExprView::Group { inner } => lemma_subst_names_monotone(*inner, x, w, names),
        ExprView::Abs { param, body } => {
            if param == x {
            } else if !free_check(*body, x) {
                lemma_subst_names_monotone(*body, x, w, names);
            } else {
                match fresh_name(names) {
                    Some(z) => {
                        lemma_rename_shape(*body, param, z);
                        lemma_subst_names_monotone(rename(*body, param, z), x, w, names.insert(z));
                    },
                    None => {},
                }
            }
        },
        _ => {},
    }
}

/// The state one evaluation session threads through reduction: the binding
/// environment and the used-name set.
pub struct EvalState {
    pub env: Map<Seq<char>, ExprView>,
    pub names: Set<Seq<char>>,
}

/// Helper for writing states in contracts.
pub open spec fn eval_state(env: Map<Seq<char>, ExprView>, names: Set<Seq<char>>) -> EvalState {
    EvalState { env, names }
}

/// The outcome of reducing a tree: a normal form with the state after the
/// run, or the state at the moment the fresh-name alphabet or the step
/// budget ran out.
pub enum Reduction {
    Done(ExprView, EvalState),
    OutOfNames(EvalState),
    OutOfFuel(EvalState),
}

/// Every expression holds at least one node.
pub proof fn lemma_size_pos(e: ExprView)
    ensures
        size(e) >= 1,
{
    match e {
        ExprView::Var { .. } => {},
        ExprView::Abs { .. } => {},
        ExprView::App { .. } => {},
        ExprView::Group { .. } => {},
        ExprView::Bind { .. } => {},
        ExprView::Meta { .. } => {},
    }
}

/// Full beta-normalization of a metavariable-free tree, mirroring the
/// normalizer the evaluator executes: abstraction bodies are reduced too,
/// groupings dissolve, and a binding node stores its reduced value in the
/// environment and stands for that value. `fuel` bounds the number of beta
/// steps; structural descent costs nothing.
pub open spec fn reduce(st: EvalState, e: ExprView, fuel: nat) -> Reduction
    decreases fuel, size(e), 0int,
{
    match e {
        ExprView::Var { .. } => Reduction::Done(e, st),
        ExprView::Abs { param, body } => match reduce(st, *body, fuel) {
            Reduction::Done(b2, st2) => Reduction::Done(
                ExprView::Abs { param, body: Box::new(b2) },
                st2,
            ),
            out => out,
        },
        ExprView::Group { inner } => reduce(st, *inner, fuel),
        ExprView::App { func, arg } => {
            proof {
                lemma_size_pos(*func);
                lemma_size_pos(*arg);
            }
            reduce_app(st, *func, *arg, fuel)
        },
        ExprView::Bind { name, value } => match reduce(st, *value, fuel) {
            Reduction::Done(v2, st2) => Reduction::Done(
                v2,
                eval_state(st2.env.insert(name, v2), st2.names),
            ),
            out => out,
        },
        // Unreachable in the pipeline: reduction requires a tree the
        // expansion phase has already freed of metavariables.
        ExprView::Meta { .. } => Reduction::Done(e, st),
    }
}

/// One application node: reduce the function side once; if it is an
/// abstraction, spend a unit of fuel, substitute the (unreduced) argument
/// into its body and reduce the result; otherwise reduce the argument and
/// rebuild the application.
pub open spec fn reduce_app(st: EvalState, func: ExprView, arg: ExprView, fuel: nat) -> Reduction
    decreases fuel, size(func) + size(arg), 1int,
{
    proof {
        lemma_size_pos(func);
        lemma_size_pos(arg);
    }
    match reduce(st, func, fuel) {
        Reduction::Done(f2, st2) => match f2 {
            ExprView::Abs { param, body } => {
                if fuel == 0 {
                    Reduction::OutOfFuel(st2)
                } else {
                    match subst(*body, param, arg, st2.names) {
                        Some((s, ns)) => reduce(
                            eval_state(st2.env, ns),
                            s,
                            (fuel - 1) as nat,
                        ),
                        None => Reduction::OutOfNames(st2),
                    }
                }
            },
            _ => match reduce(st2, arg, fuel) {
                Reduction::Done(a2, st3) => Reduction::Done(
                    ExprView::App { func: Box::new(f2), arg: Box::new(a2) },
                    st3,
                ),
                out => out,
            },
        },
        out => out,
    }
}

/// Every value the environment stores is free of metavariables. Expansion
/// relies on it to terminate, and reduction maintains it because only fully
/// reduced values are ever stored.
pub open spec fn env_wf(env: Map<Seq<char>, ExprView>) -> bool {
    forall|k: Seq<char>| env.contains_key(k) ==> meta_free(#[trigger] env[k])
}

/// What a successful reduction returns is fully reduced — variables,
/// abstractions and applications only, with no redex anywhere — and the
/// environment invariant survives every outcome.
pub proof fn lemma_reduce_props(st: EvalState, e: ExprView, fuel: nat)
    requires
        env_wf(st.env),
        meta_free(e),
    ensures
        (match reduce(st, e, fuel) {
            Reduction::Done(v, st2) => core_form(v) && normal_form(v) && env_wf(st2.env)
                && st.names.subset_of(st2.names),
            Reduction::OutOfNames(st2) => env_wf(st2.env) && st.names.subset_of(st2.names),
            Reduction::OutOfFuel(st2) => env_wf(st2.env) && st.names.subset_of(st2.names),
        }),
    decreases fuel, size(e), 0int,
{
    match e {
        ExprView::Var { .. } => {},
        ExprView::Abs { param, body } => {
            lemma_reduce_props(st, *body, fuel);
        },
        ExprView::Group { inner } => {
            lemma_reduce_props(st, *inner, fuel);
        },
        ExprView::App { func, arg } => {
            lemma_size_pos(*func);
            lemma_size_pos(*arg);
            lemma_reduce_app_props(st, *func, *arg, fuel);
        },
        ExprView::Bind { name, value } => {
            lemma_reduce_props(st, *value, fuel);
            match reduce(st, *value, fuel) {
                Reduction::Done(v2, st2) => {
                    lemma_core_form_subst_ready(v2);
                    lemma_subst_ready_meta_free(v2);
                    let env2 = st2.env.insert(name, v2);
                    assert forall|k: Seq<char>| env2.contains_key(k) implies meta_free(
                        #[trigger] env2[k],
                    ) by {
                        if k != name {
                            assert(st2.env.contains_key(k));
                        }
                    }
                },
                _ => {},
            }
        },
        ExprView::Meta { .. } => {},
    }
}

/// Companion of [`lemma_reduce_props`] for application nodes.
pub proof fn lemma_reduce_app_props(st: EvalState, func: ExprView, arg: ExprView, fuel: nat)
    requires
        env_wf(st.env),
        meta_free(func),
        meta_free(arg),
    ensures
        (match reduce_app(st, func, arg, fuel) {
            Reduction::Done(v, st2) => core_form(v) && normal_form(v) && env_wf(st2.env)
                && st.names.subset_of(st2.names),
            Reduction::OutOfNames(st2) => env_wf(st2.env) && st.names.subset_of(st2.names),
            Reduction::OutOfFuel(st2) => env_wf(st2.env) && st.names.subset_of(st2.names),
        }),
    decreases fuel, size(func) + size(arg), 1int,
{
    lemma_size_pos(func);
    lemma_size_pos(arg);
    lemma_reduce_props(st, func, fuel);
    match reduce(st, func, fuel) {
        Reduction::Done(f2, st2) => match f2 {
            ExprView::Abs { param, body } => {
                if fuel == 0 {
                } else {
                    lemma_core_form_subst_ready(f2);
                    lemma_subst_shape(*body, param, arg, st2.names);
                    match subst(*body, param, arg, st2.names) {
                        Some((s, ns)) => {
                            lemma_reduce_props(eval_state(st2.env, ns), s, (fuel - 1) as nat);
                        },
                        None => {},
                    }
                }
            },
            _ => {
                lemma_reduce_props(st2, arg, fuel);
            },
        },
        _ => {},
    }
}

/// Reducing a tree already in normal form returns it unchanged, from any
/// state and under any budget, and touches nothing.
pub proof fn lemma_reduce_normal_identity(st: EvalState, e: ExprView, fuel: nat)
    requires
        normal_form(e),
    ensures
        reduce(st, e, fuel) == Reduction::Done(e, st),
    decreases size(e),
{
    match e {
        ExprView::Var { .. } => {},
        ExprView::Abs { param, body } => {
            lemma_reduce_normal_identity(st, *body, fuel);
            assert(ExprView::Abs { param, body: Box::new(*body) } == e);
        },
        ExprView::App { func, arg } => {
            lemma_size_pos(*func);
            lemma_size_pos(*arg);
            lemma_reduce_normal_identity(st, *func, fuel);
            lemma_reduce_normal_identity(st, *arg, fuel);
            assert(!(*func is Abs));
            assert(reduce(st, *func, fuel) == Reduction::Done(*func, st));
            assert(ExprView::App { func: Box::new(*func), arg: Box::new(*arg) } == e);
            assert(reduce_app(st, *func, *arg, fuel) == Reduction::Done(e, st));
        },
        _ => {},
    }
}

/// The outcome of the expansion phase: the rebuilt tree and the used-name
/// set it populated, or the name and source position of the first
/// metavariable reference the environment does not bind.
pub enum Expansion {
    Expanded(ExprView, Set<Seq<char>>),
    Unbound(Seq<char>, int, int),
}

/// Metavariable and binding expansion, mirroring the pass the evaluator
/// executes: it records every variable name and abstraction parameter into
/// the used-name set, rebuilds the tree structurally, and splices in a copy
/// of the bound value — wrapped in a grouping and re-expanded — for every
/// metavariable reference.
pub open spec fn expand(env: Map<Seq<char>, ExprView>, names: Set<Seq<char>>, e: ExprView) -> Expansion
    decreases meta_count(e), size(e) when env_wf(env)
{
    match e {
        ExprView::Var { name } => Expansion::Expanded(e, names.insert(name)),
        ExprView::Abs { param, body } => match expand(env, names.insert(param), *body) {
            Expansion::Expanded(b2, ns) => Expansion::Expanded(
                ExprView::Abs { param, body: Box::new(b2) },
                ns,
            ),
            u => u,
        },
        ExprView::App { func, arg } => match expand(env, names, *func) {
            Expansion::Expanded(f2, ns1) => match expand(env, ns1, *arg) {
                Expansion::Expanded(a2, ns2) => Expansion::Expanded(
                    ExprView::App { func: Box::new(f2), arg: Box::new(a2) },
                    ns2,
                ),
                u => u,
            },
            u => u,
        },
        ExprView::Group { inner } => match expand(env, names, *inner) {
            Expansion::Expanded(i2, ns) => Expansion::Expanded(
                ExprView::Group { inner: Box::new(i2) },
                ns,
            ),
            u => u,
        },
        ExprView::Bind { name, value } => match expand(env, names, *value) {
            Expansion::Expanded(v2, ns) => Expansion::Expanded(
                ExprView::Bind { name, value: Box::new(v2) },
                ns,
            ),
            u => u,
        },
        ExprView::Meta { name, line, col } => if env.contains_key(name) {
            expand(env, names, ExprView::Group { inner: Box::new(env[name]) })
        } else {
            Expansion::Unbound(name, line, col)
        },
    }
}

/// A successful expansion leaves no metavariable node behind, and the
/// used-name set it returns covers every name of the expanded tree: the
/// freshness baseline that keeps later renames capture-avoiding.
pub proof fn lemma_expand_meta_free(env: Map<Seq<char>, ExprView>, names: Set<Seq<char>>, e: ExprView)
    requires
        env_wf(env),
    ensures
        (match expand(env, names, e) {
            Expansion::Expanded(v, ns) => meta_free(v) && names.subset_of(ns)
                && all_names(v).subset_of(ns),
            Expansion::Unbound(n, l, c) => true,
        }),
    decreases meta_count(e), size(e),
{
    match e {
        ExprView::Var { .. } => {},
        ExprView::Abs { param, body } => {
            lemma_expand_meta_free(env, names.insert(param), *body);
        },
        ExprView::App { func, arg } => {
            lemma_expand_meta_free(env, names, *func);
            if let Expansion::Expanded(f2, ns1) = expand(env, names, *func) {
                lemma_expand_meta_free(env, ns1, *arg);
            }
        },
        ExprView::Group { inner } => {
            lemma_expand_meta_free(env, names, *inner);
        },
        ExprView::Bind { name, value } => {
            lemma_expand_meta_free(env, names, *value);
        },
        ExprView::Meta { name, line, col } => {
            if env.contains_key(name) {
                lemma_expand_meta_free(env, names, ExprView::Group { inner: Box::new(env[name]) });
            }
        },
    }
}

} // verus!
