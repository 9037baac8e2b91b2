//! Scopes. A scope binds names to values and may have an outer scope, in
//! which the names are looked up that it does not bind itself. All scopes of
//! a running program live in one `Environment` and are known by their index
//! in it, so that a function value can hold on to the scope it was made in
//! and see what is bound there later.

use crate::evaluator::value::{value_model, SpecValue, Value};
use vstd::prelude::*;
use vstd::string::*;

verus! {

/// One scope: its bindings, each name once, and the index of its outer scope.
#[derive(Debug)]
pub struct Scope {
    pub bindings: Vec<(String, Value)>,
    pub outer: Option<usize>,
}

/// The scopes of a running program, and the lines that it has printed.
/// Scope 0 is the scope of the program itself.
#[derive(Debug)]
pub struct Environment {
    pub scopes: Vec<Scope>,
    pub output: Vec<String>,
}

/// The model of a scope.
pub struct SpecScope {
    pub bindings: Seq<(Seq<char>, SpecValue)>,
    pub outer: Option<nat>,
}

/// The model of an environment.
pub struct SpecEnvironment {
    pub scopes: Seq<SpecScope>,
    pub output: Seq<Seq<char>>,
}

/// The models of the bindings of a scope.
pub open spec fn bindings_model(v: Seq<(String, Value)>) -> Seq<(Seq<char>, SpecValue)> {
    Seq::new(v.len(), |i: int| (v[i].0@, value_model(v[i].1)))
}

/// The models of the lines.
pub open spec fn lines_model(v: Seq<String>) -> Seq<Seq<char>> {
    Seq::new(v.len(), |i: int| v[i]@)
}

impl View for Scope {
    type V = SpecScope;

    open spec fn view(&self) -> SpecScope {
        SpecScope {
            bindings: bindings_model(self.bindings@),
            outer: match self.outer {
                Some(o) => Some(o as nat),
                None => None,
            },
        }
    }
}

/// The models of the scopes.
pub open spec fn scopes_model(v: Seq<Scope>) -> Seq<SpecScope> {
    Seq::new(v.len(), |i: int| v[i]@)
}

impl View for Environment {
    type V = SpecEnvironment;

    open spec fn view(&self) -> SpecEnvironment {
        SpecEnvironment { scopes: scopes_model(self.scopes@), output: lines_model(self.output@) }
    }
}

/// The value of the first binding of `name` at or after position `i`.
pub open spec fn spec_find_from(
    bindings: Seq<(Seq<char>, SpecValue)>,
    i: int,
    name: Seq<char>,
) -> Option<SpecValue>
    decreases bindings.len() - i,
{
    if i < 0 || i >= bindings.len() {
        None
    } else if bindings[i].0 == name {
        Some(bindings[i].1)
    } else {
        spec_find_from(bindings, i + 1, name)
    }
}

/// The bindings with `name` bound to `value`, looking from position `i` on:
/// the binding of that name takes the value; where there is none, a new
/// binding goes to the end.
pub open spec fn spec_rebind_from(
    bindings: Seq<(Seq<char>, SpecValue)>,
    i: int,
    name: Seq<char>,
    value: SpecValue,
) -> Seq<(Seq<char>, SpecValue)>
    decreases bindings.len() - i,
{
    if i < 0 || i >= bindings.len() {
        bindings.push((name, value))
    } else if bindings[i].0 == name {
        bindings.update(i, (name, value))
    } else {
        spec_rebind_from(bindings, i + 1, name, value)
    }
}

impl SpecEnvironment {
    /// A new environment: the scope of the program, with nothing bound and
    /// nothing printed.
    pub open spec fn fresh() -> SpecEnvironment {
        SpecEnvironment {
            scopes: seq![SpecScope { bindings: Seq::empty(), outer: None }],
            output: Seq::empty(),
        }
    }

    /// The value of `name` as seen from `scope`: what the scope binds it to
    /// or, where it does not bind it, what its outer scope sees. An outer
    /// scope is an older scope.
    pub open spec fn lookup(self, scope: nat, name: Seq<char>) -> Option<SpecValue>
        decreases scope,
    {
        if scope >= self.scopes.len() {
            None
        } else {
            match spec_find_from(self.scopes[scope as int].bindings, 0, name) {
                Some(v) => Some(v),
                None => match self.scopes[scope as int].outer {
                    Some(outer) => if outer < scope {
                        self.lookup(outer, name)
                    } else {
                        None
                    },
                    None => None,
                },
            }
        }
    }

    /// The environment with `name` bound to `value` in `scope`. An earlier
    /// binding of the name in that scope is gone. There is nothing to do for
    /// a scope that does not exist.
    pub open spec fn bind(self, scope: nat, name: Seq<char>, value: SpecValue) -> SpecEnvironment {
        if scope >= self.scopes.len() {
            self
        } else {
            SpecEnvironment {
                scopes: self.scopes.update(
                    scope as int,
                    SpecScope {
                        bindings: spec_rebind_from(
                            self.scopes[scope as int].bindings,
                            0,
                            name,
                            value,
                        ),
                        outer: self.scopes[scope as int].outer,
                    },
                ),
                output: self.output,
            }
        }
    }

    /// The environment with one more scope, empty, inside `outer`. Its index
    /// is the number of scopes before.
    pub open spec fn enter(self, outer: nat) -> SpecEnvironment {
        SpecEnvironment {
            scopes: self.scopes.push(SpecScope { bindings: Seq::empty(), outer: Some(outer) }),
            output: self.output,
        }
    }

    /// The environment with one more line printed.
    pub open spec fn print(self, line: Seq<char>) -> SpecEnvironment {
        SpecEnvironment { scopes: self.scopes, output: self.output.push(line) }
    }
}

fn find(bindings: &Vec<(String, Value)>, name: &str) -> (r: Option<Value>)
    ensures
        match r {
            Some(v) => Some(v@),
            None => None,
        } == spec_find_from(bindings_model(bindings@), 0, name@),
{
    let wanted = String::from_str(name);
    let mut i: usize = 0;
    while i < bindings.len()
        invariant
            i <= bindings.len(),
            wanted@ == name@,
            spec_find_from(bindings_model(bindings@), 0, name@) == spec_find_from(
                bindings_model(bindings@),
                i as int,
                name@,
            ),
        decreases bindings.len() - i,
    {
        if bindings[i].0 == wanted {
            return Some(bindings[i].1.clone());
        }
        i += 1;
    }
    None
}

fn rebind(bindings: &mut Vec<(String, Value)>, name: String, value: Value)
    ensures
        bindings_model(final(bindings)@) == spec_rebind_from(
            bindings_model(old(bindings)@),
            0,
            name@,
            value@,
        ),
{
    let ghost before = bindings_model(bindings@);
    let mut i: usize = 0;
    while i < bindings.len()
        invariant
            i <= bindings.len(),
            bindings@ == old(bindings)@,
            before == bindings_model(bindings@),
            spec_rebind_from(before, 0, name@, value@) == spec_rebind_from(
                before,
                i as int,
                name@,
                value@,
            ),
        decreases bindings.len() - i,
    {
        if bindings[i].0 == name {
            bindings[i] = (name, value);
            assert(bindings_model(bindings@) =~= before.update(i as int, (name@, value@)));
            return ;
        }
        i += 1;
    }
    bindings.push((name, value));
    assert(bindings_model(bindings@) =~= before.push((name@, value@)));
}

impl Environment {
    /// A new environment: the scope of the program, with nothing bound and
    /// nothing printed.
    pub fn new() -> (env: Environment)
        ensures
            env@ == SpecEnvironment::fresh(),
    {
        let mut scopes: Vec<Scope> = Vec::new();
        scopes.push(Scope { bindings: Vec::new(), outer: None });
        let env = Environment { scopes, output: Vec::new() };
        assert(env@.scopes =~= SpecEnvironment::fresh().scopes) by {
            assert(env@.scopes[0].bindings =~= Seq::empty());
        }
        assert(env@.output =~= SpecEnvironment::fresh().output);
        env
    }

    /// A copy of the value of `name` as seen from `scope`, if the name is
    /// bound there or further out.
    pub fn lookup(&self, scope: usize, name: &str) -> (r: Option<Value>)
        ensures
            match r {
                Some(v) => Some(v@),
                None => None,
            } == self@.lookup(scope as nat, name@),
    {
        let mut current: usize = scope;
        loop
            invariant
                self@.lookup(scope as nat, name@) == self@.lookup(current as nat, name@),
            decreases current,
        {
            if current >= self.scopes.len() {
                return None;
            }
            match find(&self.scopes[current].bindings, name) {
                Some(v) => {
                    return Some(v);
                },
                None => {},
            }
            match self.scopes[current].outer {
                Some(outer) => {
                    if outer < current {
                        current = outer;
                    } else {
                        return None;
                    }
                },
                None => {
                    return None;
                },
            }
        }
    }

    /// Binds `name` to `value` in `scope`. An earlier binding of the name in
    /// that scope is gone.
    pub fn bind(&mut self, scope: usize, name: String, value: Value)
        ensures
            final(self)@ == old(self)@.bind(scope as nat, name@, value@),
    {
        if scope < self.scopes.len() {
            let target = &mut self.scopes[scope];
            rebind(&mut target.bindings, name, value);
            assert(self@.scopes =~= old(self)@.bind(scope as nat, name@, value@).scopes);
        }
    }

    /// Opens a new scope inside `outer` and returns its index.
    pub fn enter(&mut self, outer: usize) -> (index: usize)
        ensures
            index == old(self)@.scopes.len(),
            final(self)@ == old(self)@.enter(outer as nat),
    {
        let index: usize = self.scopes.len();
        self.scopes.push(Scope { bindings: Vec::new(), outer: Some(outer) });
        proof {
            assert(self.scopes@[index as int]@.bindings =~= Seq::empty());
            assert(self@.scopes =~= old(self)@.enter(outer as nat).scopes);
        }
        index
    }

    /// Prints one line: keeps it for whoever shows the output.
    pub fn print(&mut self, line: String)
        ensures
            final(self)@ == old(self)@.print(line@),
    {
        self.output.push(line);
        assert(self@.output =~= old(self)@.print(line@).output);
    }
}

/// A name that was bound in a scope is seen there with the value it was
/// bound to.
pub proof fn lemma_bind_then_lookup(
    env: SpecEnvironment,
    scope: nat,
    name: Seq<char>,
    value: SpecValue,
)
    requires
        scope < env.scopes.len(),
    ensures
        env.bind(scope, name, value).lookup(scope, name) == Some(value),
{
    lemma_rebind_then_find(env.scopes[scope as int].bindings, 0, name, value);
}

proof fn lemma_rebind_then_find(
    bindings: Seq<(Seq<char>, SpecValue)>,
    i: int,
    name: Seq<char>,
    value: SpecValue,
)
    requires
        0 <= i <= bindings.len(),
    ensures
        spec_find_from(spec_rebind_from(bindings, i, name, value), i, name) == Some(value),
        spec_rebind_from(bindings, i, name, value).len() >= bindings.len(),
        forall|j: int|
            0 <= j < i ==> (#[trigger] spec_rebind_from(bindings, i, name, value)[j]) == bindings[j],
    decreases bindings.len() - i,
{
    if i < bindings.len() && bindings[i].0 != name {
        lemma_rebind_then_find(bindings, i + 1, name, value);
    }
}

} // verus!
