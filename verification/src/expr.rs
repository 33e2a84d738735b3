use vstd::prelude::*;
use crate::token::Token;

verus! {

/// Mathematical image of an expression tree. Contracts and lemmas speak of
/// this type; the executable tree [`Expr`] views to it.
pub enum ExprView {
    Var { name: Seq<char> },
    Abs { param: Seq<char>, body: Box<ExprView> },
    App { func: Box<ExprView>, arg: Box<ExprView> },
    Group { inner: Box<ExprView> },
    Bind { name: Seq<char>, value: Box<ExprView> },
    Meta { name: Seq<char>, line: int, col: int },
}

/// An expression of the untyped lambda calculus, extended with a
/// parenthesization marker, top-level bindings, and metavariable references
/// that the expansion phase resolves against the session environment.
///
/// The tree is finite and acyclic; every node is exclusively owned by its
/// parent, and substitution copies nodes rather than aliasing them.
#[derive(Debug)]
pub enum Expr {
    Variable(String),
    Abstraction(String, Box<Expr>),
    Application(Box<Expr>, Box<Expr>),
    Grouping(Box<Expr>),
    Binding(String, Box<Expr>),
    MetaVariable(Token),
}

impl View for Expr {
    type V = ExprView;

    open spec fn view(&self) -> ExprView
        decreases self,
    {
        match self {
            Expr::Variable(name) => ExprView::Var { name: name@ },
            Expr::Abstraction(param, body) => ExprView::Abs {
                param: param@,
                body: Box::new((**body)@),
            },
            Expr::Application(func, arg) => ExprView::App {
                func: Box::new((**func)@),
                arg: Box::new((**arg)@),
            },
            Expr::Grouping(inner) => ExprView::Group { inner: Box::new((**inner)@) },
            Expr::Binding(name, value) => ExprView::Bind {
                name: name@,
                value: Box::new((**value)@),
            },
            Expr::MetaVariable(token) => ExprView::Meta {
                name: token.lexeme@,
                line: token.line as int,
                col: token.col as int,
            },
        }
    }
}

impl Clone for Expr {
    /// Structural copy: the copy has the same view, and shares no node.
    fn clone(&self) -> (e: Expr)
        ensures
            e@ == self@,
        decreases self,
    {
        match self {
            Expr::Variable(name) => Expr::Variable(name.clone()),
            Expr::Abstraction(param, body) => Expr::Abstraction(
                param.clone(),
                Box::new((**body).clone()),
            ),
            Expr::Application(func, arg) => Expr::Application(
                Box::new((**func).clone()),
                Box::new((**arg).clone()),
            ),
            Expr::Grouping(inner) => Expr::Grouping(Box::new((**inner).clone())),
            Expr::Binding(name, value) => Expr::Binding(
                name.clone(),
                Box::new((**value).clone()),
            ),
            Expr::MetaVariable(token) => Expr::MetaVariable(token.clone()),
        }
    }
}

/// Shorthand spec constructors, so that contracts and concrete expression
/// values stay readable.
pub open spec fn var_v(name: Seq<char>) -> ExprView {
    ExprView::Var { name }
}

pub open spec fn abs_v(param: Seq<char>, body: ExprView) -> ExprView {
    ExprView::Abs { param, body: Box::new(body) }
}

pub open spec fn app_v(func: ExprView, arg: ExprView) -> ExprView {
    ExprView::App { func: Box::new(func), arg: Box::new(arg) }
}

pub open spec fn group_v(inner: ExprView) -> ExprView {
    ExprView::Group { inner: Box::new(inner) }
}

impl Expr {
    /// A variable node.
    pub fn var(name: &str) -> (e: Expr)
        ensures
            e@ == var_v(name@),
    {
        Expr::Variable(String::from_str(name))
    }

    /// A single-parameter abstraction node.
    pub fn abs(param: &str, body: Expr) -> (e: Expr)
        ensures
            e@ == abs_v(param@, body@),
    {
        Expr::Abstraction(String::from_str(param), Box::new(body))
    }

    /// An application node.
    pub fn app(func: Expr, arg: Expr) -> (e: Expr)
        ensures
            e@ == app_v(func@, arg@),
    {
        Expr::Application(Box::new(func), Box::new(arg))
    }

    /// A parenthesization marker node.
    pub fn group(inner: Expr) -> (e: Expr)
        ensures
            e@ == group_v(inner@),
    {
        Expr::Grouping(Box::new(inner))
    }

    /// A top-level binding node.
    pub fn bind(name: &str, value: Expr) -> (e: Expr)
        ensures
            e@ == (ExprView::Bind { name: name@, value: Box::new(value@) }),
    {
        Expr::Binding(String::from_str(name), Box::new(value))
    }

    /// A metavariable reference node with its source position.
    pub fn meta(name: &str, line: i32, col: i32) -> (e: Expr)
        ensures
            e@ == (ExprView::Meta { name: name@, line: line as int, col: col as int }),
    {
        Expr::MetaVariable(Token::new(
            crate::token::TokenType::MetaVar,
            String::from_str(name),
            line,
            col,
        ))
    }
}

/// Number of nodes in the tree; the measure most recursions over
/// expressions decrease.
pub open spec fn size(e: ExprView) -> nat
    decreases e,
{
    match e {
        ExprView::Var { .. } => 1,
        ExprView::Abs { param, body } => 1 + size(*body),
        ExprView::App { func, arg } => 1 + size(*func) + size(*arg),
        ExprView::Group { inner } => 1 + size(*inner),
        ExprView::Bind { name, value } => 1 + size(*value),
        ExprView::Meta { .. } => 1,
    }
}

/// Number of metavariable reference nodes in the tree.
pub open spec fn meta_count(e: ExprView) -> nat
    decreases e,
{
    match e {
        ExprView::Var { .. } => 0,
        ExprView::Abs { param, body } => meta_count(*body),
        ExprView::App { func, arg } => meta_count(*func) + meta_count(*arg),
        ExprView::Group { inner } => meta_count(*inner),
        ExprView::Bind { name, value } => meta_count(*value),
        ExprView::Meta { .. } => 1,
    }
}

/// The tree holds no metavariable reference. Expansion establishes this;
/// beta reduction requires it.
pub open spec fn meta_free(e: ExprView) -> bool {
    meta_count(e) == 0
}

/// The tree is built from variables, abstractions and applications alone:
/// the shape of every fully reduced result.
pub open spec fn core_form(e: ExprView) -> bool
    decreases e,
{
    match e {
        ExprView::Var { .. } => true,
        ExprView::Abs { param, body } => core_form(*body),
        ExprView::App { func, arg } => core_form(*func) && core_form(*arg),
        _ => false,
    }
}

/// The tree holds no binding and no metavariable reference: the only shapes
/// substitution may be asked to walk.
pub open spec fn subst_ready(e: ExprView) -> bool
    decreases e,
{
    match e {
        ExprView::Var { .. } => true,
        ExprView::Abs { param, body } => subst_ready(*body),
        ExprView::App { func, arg } => subst_ready(*func) && subst_ready(*arg),
        ExprView::Group { inner } => subst_ready(*inner),
        ExprView::Bind { .. } => false,
        ExprView::Meta { .. } => false,
    }
}

/// Every identifier the expansion phase records from the tree: each variable
/// name and each abstraction parameter. Binding names are metavariable
/// names, not lambda variables, and are not recorded.
pub open spec fn all_names(e: ExprView) -> Set<Seq<char>>
    decreases e,
{
    match e {
        ExprView::Var { name } => Set::empty().insert(name),
        ExprView::Abs { param, body } => all_names(*body).insert(param),
        ExprView::App { func, arg } => all_names(*func).union(all_names(*arg)),
        ExprView::Group { inner } => all_names(*inner),
        ExprView::Bind { name, value } => all_names(*value),
        ExprView::Meta { .. } => Set::empty(),
    }
}

/// The free variables of the tree, in the textbook sense: variable
/// occurrences not enclosed by a binder of the same name.
pub open spec fn free_vars(e: ExprView) -> Set<Seq<char>>
    decreases e,
{
    match e {
        ExprView::Var { name } => Set::empty().insert(name),
        ExprView::Abs { param, body } => free_vars(*body).remove(param),
        ExprView::App { func, arg } => free_vars(*func).union(free_vars(*arg)),
        ExprView::Group { inner } => free_vars(*inner),
        ExprView::Bind { name, value } => free_vars(*value),
        ExprView::Meta { .. } => Set::empty(),
    }
}

/// The free-variable check that decides whether substitution must rename a
/// binder. The rule is deliberately coarse: any variable occurrence counts
/// as a free occurrence, whatever its name, so the check asks only whether
/// some variable node is reachable without passing a binder named `x`. It
/// overapproximates the textbook predicate — renaming then triggers more
/// often than strictly required — which keeps results correct up to the
/// extra renames; [`crate::laws::lemma_free_check_complete`] shows it never
/// errs in the dangerous direction.
pub open spec fn free_check(e: ExprView, x: Seq<char>) -> bool
    decreases e,
{
    match e {
        ExprView::Var { .. } => true,
        ExprView::Abs { param, body } => param != x && free_check(*body, x),
        ExprView::App { func, arg } => free_check(*func, x) || free_check(*arg, x),
        ExprView::Group { inner } => free_check(*inner, x),
        _ => false,
    }
}

/// Uniform renaming of `from` to `to`: every variable named `from` and every
/// binder named `from` becomes `to`. Metavariable references are never
/// renamed; the evaluator only renames metavariable-free trees.
pub open spec fn rename(e: ExprView, from: Seq<char>, to: Seq<char>) -> ExprView
    decreases e,
{
    match e {
        ExprView::Var { name } => if name == from {
            ExprView::Var { name: to }
        } else {
            e
        },
        ExprView::Abs { param, body } => ExprView::Abs {
            param: if param == from { to } else { param },
            body: Box::new(rename(*body, from, to)),
        },
        ExprView::App { func, arg } => ExprView::App {
            func: Box::new(rename(*func, from, to)),
            arg: Box::new(rename(*arg, from, to)),
        },
        ExprView::Group { inner } => ExprView::Group { inner: Box::new(rename(*inner, from, to)) },
        ExprView::Bind { name, value } => ExprView::Bind {
            name,
            value: Box::new(rename(*value, from, to)),
        },
        ExprView::Meta { .. } => e,
    }
}

/// Beta-normal form: no redex anywhere, and no grouping, binding or
/// metavariable node survives.
pub open spec fn normal_form(e: ExprView) -> bool
    decreases e,
{
    match e {
        ExprView::Var { .. } => true,
        ExprView::Abs { param, body } => normal_form(*body),
        ExprView::App { func, arg } => normal_form(*func) && normal_form(*arg) && !(*func
            is Abs),
        _ => false,
    }
}

} // verus!
