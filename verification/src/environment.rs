//! The runtime environment: a chain of scopes.
//!
//! A scope maps names to values and, apart from them, names to functions.
//! A name is looked up in the innermost scope first and then outwards. It is
//! always defined in the innermost scope: an assignment to a name of an
//! outer scope makes a new variable that shadows the outer one, and the outer
//! one is never changed.
//!
//! The body of a function runs in a new scope inside the scope of its
//! caller: what it reads of names that it has not defined is what the caller
//! holds under them at the time of the call, not what held where the function
//! was declared.
use crate::common::ast::{Name, NameView, Stmt};
use crate::common::py_error::{PyError, PyErrorView};
use crate::common::text::{joined, lemma_views_push, views};
use crate::value::{Value, ValueView};
use vstd::hash_map::StringHashMap;
use vstd::prelude::*;
use vstd::string::StringExecFns;

verus! {

/// A function as a `def` statement declares it. It borrows its parts from
/// the statement.
#[derive(Debug, Clone, Copy)]
pub struct Function<'a> {
    pub name: &'a Name,
    pub parameters: &'a Vec<Name>,
    pub body: &'a Vec<Stmt>,
}

/// The view of a function: its name, its parameters and its body.
pub ghost struct FunctionView {
    pub name: NameView,
    pub parameters: Seq<NameView>,
    pub body: Seq<Stmt>,
}

impl<'a> View for Function<'a> {
    type V = FunctionView;

    open spec fn view(&self) -> FunctionView {
        FunctionView { name: self.name@, parameters: views(self.parameters@), body: self.body@ }
    }
}

impl<'a> Function<'a> {
    /// The number of arguments that a call must give.
    pub fn arity(&self) -> (n: usize)
        ensures
            n == self.parameters@.len(),
    {
        self.parameters.len()
    }
}

/// One scope: its variables and its functions.
pub struct Scope<'a> {
    vars: StringHashMap<Value>,
    funcs: StringHashMap<Function<'a>>,
}

/// The view of a scope: its variables and its functions, by name.
pub ghost struct ScopeView {
    pub vars: Map<Seq<char>, ValueView>,
    pub funcs: Map<Seq<char>, FunctionView>,
}

impl<'a> View for Scope<'a> {
    type V = ScopeView;

    closed spec fn view(&self) -> ScopeView {
        ScopeView {
            vars: self.vars@.map_values(|v: Value| v@),
            funcs: self.funcs@.map_values(|f: Function<'a>| f@),
        }
    }
}

/// The scope that defines nothing.
pub open spec fn empty_scope() -> ScopeView {
    ScopeView { vars: Map::empty(), funcs: Map::empty() }
}

/// The value of `name`: that of the innermost scope that defines it.
pub open spec fn lookup_var(env: Seq<ScopeView>, name: Seq<char>) -> Option<ValueView>
    decreases env.len(),
{
    if env.len() == 0 {
        None
    } else if env.last().vars.contains_key(name) {
        Some(env.last().vars[name])
    } else {
        lookup_var(env.drop_last(), name)
    }
}

/// The function `name`: that of the innermost scope that defines it.
pub open spec fn lookup_fun(env: Seq<ScopeView>, name: Seq<char>) -> Option<FunctionView>
    decreases env.len(),
{
    if env.len() == 0 {
        None
    } else if env.last().funcs.contains_key(name) {
        Some(env.last().funcs[name])
    } else {
        lookup_fun(env.drop_last(), name)
    }
}

/// The environment with `name` defined as `v` in its innermost scope.
pub open spec fn with_var(env: Seq<ScopeView>, name: Seq<char>, v: ValueView) -> Seq<ScopeView> {
    if env.len() == 0 {
        env
    } else {
        env.update(
            env.len() - 1,
            ScopeView { vars: env.last().vars.insert(name, v), ..env.last() },
        )
    }
}

/// The environment with the function `name` defined in its innermost scope.
pub open spec fn with_fun(env: Seq<ScopeView>, name: Seq<char>, f: FunctionView) -> Seq<
    ScopeView,
> {
    if env.len() == 0 {
        env
    } else {
        env.update(
            env.len() - 1,
            ScopeView { funcs: env.last().funcs.insert(name, f), ..env.last() },
        )
    }
}

/// The environment without its innermost scope; the outermost scope stays.
pub open spec fn without_scope(env: Seq<ScopeView>) -> Seq<ScopeView> {
    if env.len() > 1 {
        env.drop_last()
    } else {
        env
    }
}

/// The error of a name that no scope defines, at the place of the reference.
pub open spec fn name_error(name: NameView) -> PyErrorView {
    PyErrorView {
        msg: "NameError: name "@ + name.name + " is not defined"@,
        line: name.line,
        column: name.column,
    }
}

/// The scopes of a running program, as a stack: each scope is enclosed by the
/// one below it, and the lowest, that of the program, by none. There is
/// always at least one.
pub struct Environment<'a> {
    current: Scope<'a>,
    outer: Vec<Scope<'a>>,
}

impl<'a> View for Environment<'a> {
    type V = Seq<ScopeView>;

    closed spec fn view(&self) -> Seq<ScopeView> {
        views(self.outer@).push(self.current@)
    }
}

fn undefined(name: &Name) -> (e: PyError)
    ensures
        e@ == name_error(name@),
{
    let mut msg = joined("NameError: name ", name.name.as_str());
    msg.append(" is not defined");
    PyError { msg, line: name.line, column: name.column }
}

impl<'a> Scope<'a> {
    fn new() -> (s: Scope<'a>)
        ensures
            s@ == empty_scope(),
    {
        let s = Scope { vars: StringHashMap::new(), funcs: StringHashMap::new() };
        assert(s@.vars =~= Map::empty());
        assert(s@.funcs =~= Map::empty());
        s
    }
}

impl<'a> Environment<'a> {
    /// The environment of one scope that defines nothing.
    pub fn new() -> (env: Environment<'a>)
        ensures
            env@ == seq![empty_scope()],
    {
        let env = Environment { current: Scope::new(), outer: Vec::new() };
        assert(env@ =~= seq![empty_scope()]);
        env
    }

    /// Defines the variable `name` as `val` in the innermost scope.
    pub fn assign_var(&mut self, name: String, val: Value)
        ensures
            final(self)@ == with_var(old(self)@, name@, val@),
    {
        let ghost before = self.current.vars@;
        self.current.vars.insert(name, val);
        proof {
            assert(self.current.vars@.map_values(|v: Value| v@) =~= before.map_values(
                |v: Value| v@,
            ).insert(name@, val@));
            assert(self@ =~= with_var(old(self)@, name@, val@));
        }
    }

    /// The value of the variable `var`, or the error that it is not defined.
    pub fn get_var(&self, var: &Name) -> (r: Result<Value, PyError>)
        ensures
            match lookup_var(self@, var@.name) {
                Some(v) => r matches Ok(x) && x@ == v,
                None => r matches Err(e) && e@ == name_error(var@),
            },
    {
        let ghost name = var@.name;
        assert(self@.drop_last() =~= views(self.outer@));
        match self.current.vars.get(var.name.as_str()) {
            Some(v) => {
                return Ok(v.clone());
            },
            None => {},
        }
        let mut i: usize = self.outer.len();
        assert(views(self.outer@).take(i as int) =~= views(self.outer@));
        while i > 0
            invariant
                i <= self.outer.len(),
                name == var@.name,
                lookup_var(self@, name) == lookup_var(views(self.outer@).take(i as int), name),
            decreases i,
        {
            let ghost prefix = views(self.outer@).take(i as int);
            assert(prefix.drop_last() =~= views(self.outer@).take(i - 1));
            assert(prefix.last() == self.outer@[i - 1]@);
            i -= 1;
            match self.outer[i].vars.get(var.name.as_str()) {
                Some(v) => {
                    return Ok(v.clone());
                },
                None => {},
            }
        }
        Err(undefined(var))
    }

    /// Defines the function `name` in the innermost scope.
    pub fn assign_fun(&mut self, name: &'a Name, parameters: &'a Vec<Name>, body: &'a Vec<Stmt>)
        ensures
            final(self)@ == with_fun(
                old(self)@,
                name@.name,
                (Function { name, parameters, body })@,
            ),
    {
        let ghost before = self.current.funcs@;
        let f = Function { name, parameters, body };
        self.current.funcs.insert(name.name.clone(), f);
        proof {
            assert(self.current.funcs@.map_values(|f: Function<'a>| f@) =~= before.map_values(
                |f: Function<'a>| f@,
            ).insert(name@.name, f@));
            assert(self@ =~= with_fun(old(self)@, name@.name, f@));
        }
    }

    /// The function `fun`, or the error that it is not defined.
    pub fn get_fun(&self, fun: &Name) -> (r: Result<Function<'a>, PyError>)
        ensures
            match lookup_fun(self@, fun@.name) {
                Some(f) => r matches Ok(x) && x@ == f,
                None => r matches Err(e) && e@ == name_error(fun@),
            },
    {
        let ghost name = fun@.name;
        assert(self@.drop_last() =~= views(self.outer@));
        match self.current.funcs.get(fun.name.as_str()) {
            Some(f) => {
                return Ok(*f);
            },
            None => {},
        }
        let mut i: usize = self.outer.len();
        assert(views(self.outer@).take(i as int) =~= views(self.outer@));
        while i > 0
            invariant
                i <= self.outer.len(),
                name == fun@.name,
                lookup_fun(self@, name) == lookup_fun(views(self.outer@).take(i as int), name),
            decreases i,
        {
            let ghost prefix = views(self.outer@).take(i as int);
            assert(prefix.drop_last() =~= views(self.outer@).take(i - 1));
            assert(prefix.last() == self.outer@[i - 1]@);
            i -= 1;
            match self.outer[i].funcs.get(fun.name.as_str()) {
                Some(f) => {
                    return Ok(*f);
                },
                None => {},
            }
        }
        Err(undefined(fun))
    }

    /// The number of scopes around the innermost one.
    pub fn enclosing(&self) -> (n: usize)
        ensures
            n == self@.len() - 1,
    {
        self.outer.len()
    }

    /// Opens a new innermost scope that defines nothing.
    pub fn enter(&mut self)
        ensures
            final(self)@ == old(self)@.push(empty_scope()),
    {
        let mut scope = Scope::new();
        std::mem::swap(&mut self.current, &mut scope);
        proof {
            lemma_views_push(self.outer@, scope);
        }
        self.outer.push(scope);
    }

    /// Closes the innermost scope, unless it is the only one.
    pub fn leave(&mut self)
        ensures
            final(self)@ == without_scope(old(self)@),
    {
        match self.outer.pop() {
            Some(scope) => {
                self.current = scope;
                assert(self@ =~= old(self)@.drop_last());
            },
            None => {
                assert(self@ =~= old(self)@);
            },
        }
    }
}

/// A variable that is defined in an inner scope shadows the variables of that
/// name in the outer scopes, and leaves them as they are. Let `scope` be a
/// scope that is opened inside `env`, as the scope of a call is, and let
/// `name` be defined there as `v`. Then in the scope `name` is read as `v`,
/// and every other name as before; and once the scope is closed, the
/// environment is `env` again.
pub proof fn lemma_shadowing(
    env: Seq<ScopeView>,
    scope: ScopeView,
    name: Seq<char>,
    v: ValueView,
    other: Seq<char>,
)
    requires
        env.len() >= 1,
        other != name,
    ensures
        lookup_var(with_var(env.push(scope), name, v), name) == Some(v),
        lookup_var(with_var(env.push(scope), name, v), other) == lookup_var(
            env.push(scope),
            other,
        ),
        without_scope(with_var(env.push(scope), name, v)) == env,
{
    let inner = with_var(env.push(scope), name, v);
    assert(inner.drop_last() =~= env);
    assert(env.push(scope).drop_last() =~= env);
    assert(inner.last().vars.contains_key(name));
}

/// Defining a variable changes the innermost scope only: every outer scope
/// stays as it is, the variable is read as it was defined, and every other
/// name is read as before.
pub proof fn lemma_define_is_local(env: Seq<ScopeView>, name: Seq<char>, v: ValueView, other: Seq<char>)
    requires
        env.len() >= 1,
        other != name,
    ensures
        with_var(env, name, v).drop_last() == env.drop_last(),
        lookup_var(with_var(env, name, v), name) == Some(v),
        lookup_var(with_var(env, name, v), other) == lookup_var(env, other),
{
    let changed = with_var(env, name, v);
    assert(changed.drop_last() =~= env.drop_last());
    assert(changed.last().vars.contains_key(name));
}

} // verus!
