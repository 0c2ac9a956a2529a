//! Runtime values and the lexical environment: a store of scopes, each a list
//! of name-value bindings with an optional parent scope. A scope is named by
//! its index in the store, and a scope's parent always comes before it.

use vstd::prelude::*;
use crate::ast::names_view;
use crate::number::float_eq;
use crate::text::owned;

verus! {

/// A runtime value. A number is the bit pattern of an IEEE-754 double; a
/// function is the index of its record in the interpreter's function table.
#[derive(Debug)]
pub enum Value {
    Number(u64),
    Bool(bool),
    Str(String),
    Nil,
    Function(usize),
}

/// The abstract value.
pub enum ValueV {
    Number(u64),
    Bool(bool),
    Str(Seq<char>),
    Nil,
    Function(nat),
}

impl View for Value {
    type V = ValueV;

    open spec fn view(&self) -> ValueV {
        match self {
            Value::Number(n) => ValueV::Number(*n),
            Value::Bool(b) => ValueV::Bool(*b),
            Value::Str(s) => ValueV::Str(s@),
            Value::Nil => ValueV::Nil,
            Value::Function(f) => ValueV::Function(*f as nat),
        }
    }
}

/// Value equality: numbers compare as floats (so `NaN` differs from itself
/// and the two zeros are equal), functions by identity, others by content;
/// values of different types are never equal.
pub open spec fn values_equal(a: ValueV, b: ValueV) -> bool {
    match (a, b) {
        (ValueV::Number(x), ValueV::Number(y)) => float_eq(x, y),
        (ValueV::Bool(x), ValueV::Bool(y)) => x == y,
        (ValueV::Str(x), ValueV::Str(y)) => x == y,
        (ValueV::Nil, ValueV::Nil) => true,
        (ValueV::Function(x), ValueV::Function(y)) => x == y,
        _ => false,
    }
}

impl Value {
    /// A copy of this value.
    pub fn duplicate(&self) -> (r: Value)
        ensures
            r@ == self@,
    {
        match self {
            Value::Number(n) => Value::Number(*n),
            Value::Bool(b) => Value::Bool(*b),
            Value::Str(s) => Value::Str(s.clone()),
            Value::Nil => Value::Nil,
            Value::Function(f) => Value::Function(*f),
        }
    }

    /// Whether two values are equal (see `values_equal`).
    pub fn equals(&self, other: &Value) -> (r: bool)
        ensures
            r == values_equal(self@, other@),
    {
        match (self, other) {
            (Value::Number(a), Value::Number(b)) => crate::number::float_equals(*a, *b),
            (Value::Bool(a), Value::Bool(b)) => *a == *b,
            (Value::Str(a), Value::Str(b)) => *a == *b,
            (Value::Nil, Value::Nil) => true,
            (Value::Function(a), Value::Function(b)) => *a == *b,
            _ => false,
        }
    }
}

impl PartialEq for Value {
    fn eq(&self, other: &Self) -> (r: bool) {
        self.equals(other)
    }
}

impl vstd::std_specs::cmp::PartialEqSpecImpl for Value {
    open spec fn obeys_eq_spec() -> bool {
        true
    }

    open spec fn eq_spec(&self, other: &Value) -> bool {
        values_equal(self@, other@)
    }
}

/// One scope: its parent and its bindings, the `i`-th name bound to the
/// `i`-th value.
pub struct Scope {
    parent: Option<usize>,
    names: Vec<String>,
    values: Vec<Value>,
}

/// The abstract scope.
pub struct ScopeV {
    pub parent: Option<nat>,
    pub names: Seq<Seq<char>>,
    pub values: Seq<ValueV>,
}

pub open spec fn values_view(s: Seq<Value>) -> Seq<ValueV> {
    s.map_values(|v: Value| v@)
}

pub open spec fn parent_view(p: Option<usize>) -> Option<nat> {
    match p {
        Some(i) => Some(i as nat),
        None => None,
    }
}

impl View for Scope {
    type V = ScopeV;

    closed spec fn view(&self) -> ScopeV {
        ScopeV {
            parent: parent_view(self.parent),
            names: names_view(self.names@),
            values: values_view(self.values@),
        }
    }
}

/// A store of scopes, each named by its index.
pub struct Environment {
    scopes: Vec<Scope>,
}

impl View for Environment {
    type V = Seq<ScopeV>;

    closed spec fn view(&self) -> Seq<ScopeV> {
        self.scopes@.map_values(|s: Scope| s@)
    }
}

/// A scope with no bindings under `parent`.
pub open spec fn empty_scope(parent: Option<nat>) -> ScopeV {
    ScopeV { parent, names: Seq::empty(), values: Seq::empty() }
}

/// The first index at or after `i` where `names` holds `name`.
pub open spec fn find_from(names: Seq<Seq<char>>, name: Seq<char>, i: int) -> Option<int>
    decreases names.len() - i,
{
    if i < 0 || i >= names.len() {
        None
    } else if names[i] == name {
        Some(i)
    } else {
        find_from(names, name, i + 1)
    }
}

/// The first index where `names` holds `name`.
pub open spec fn find(names: Seq<Seq<char>>, name: Seq<char>) -> Option<int> {
    find_from(names, name, 0)
}

/// Whether scope `s` exists, its bindings pair up, it binds no name twice,
/// and its parent comes before it.
pub open spec fn scope_ok(e: Seq<ScopeV>, s: int) -> bool {
    &&& 0 <= s < e.len()
    &&& e[s].names.len() == e[s].values.len()
    &&& forall|i: int, j: int| 0 <= i < j < e[s].names.len() ==> e[s].names[i] != e[s].names[j]
    &&& e[s].parent matches Some(p) ==> p < s
}

/// Every scope of the store is well formed.
pub open spec fn env_wf(e: Seq<ScopeV>) -> bool {
    forall|s: int| 0 <= s < e.len() ==> #[trigger] scope_ok(e, s)
}

/// The value `name` has as seen from scope `s`: its binding in `s`, or else
/// in the nearest enclosing scope that binds it.
pub open spec fn lookup(e: Seq<ScopeV>, s: int, name: Seq<char>) -> Option<ValueV>
    decreases s,
{
    if s < 0 || s >= e.len() {
        None
    } else {
        match find(e[s].names, name) {
            Some(i) => Some(e[s].values[i]),
            None => match e[s].parent {
                Some(p) => if p < s { lookup(e, p as int, name) } else { None },
                None => None,
            },
        }
    }
}

/// Scope `sc` with `name` bound to `v`: the binding replaced if present, else added.
pub open spec fn scope_define(sc: ScopeV, name: Seq<char>, v: ValueV) -> ScopeV {
    match find(sc.names, name) {
        Some(i) => ScopeV { values: sc.values.update(i, v), ..sc },
        None => ScopeV { names: sc.names.push(name), values: sc.values.push(v), ..sc },
    }
}

/// The store with `name` bound to `v` in scope `s`.
pub open spec fn define(e: Seq<ScopeV>, s: int, name: Seq<char>, v: ValueV) -> Seq<ScopeV> {
    e.update(s, scope_define(e[s], name, v))
}

/// The store with the binding of `name` seen from `s` set to `v`, or `None`
/// when no scope of the chain binds `name`.
pub open spec fn assign(e: Seq<ScopeV>, s: int, name: Seq<char>, v: ValueV) -> Option<Seq<ScopeV>>
    decreases s,
{
    if s < 0 || s >= e.len() {
        None
    } else {
        match find(e[s].names, name) {
            Some(i) => Some(e.update(s, ScopeV { values: e[s].values.update(i, v), ..e[s] })),
            None => match e[s].parent {
                Some(p) => if p < s { assign(e, p as int, name, v) } else { None },
                None => None,
            },
        }
    }
}

pub proof fn lemma_find_from(names: Seq<Seq<char>>, name: Seq<char>, i: int)
    requires
        0 <= i,
    ensures
        find_from(names, name, i) matches Some(j) ==> i <= j < names.len() && names[j] == name
            && forall|l: int| i <= l < j ==> names[l] != name,
        find_from(names, name, i) is None ==> forall|j: int| i <= j < names.len() ==> names[j] != name,
    decreases names.len() - i,
{
    if i < names.len() && names[i] != name {
        lemma_find_from(names, name, i + 1);
    }
}

/// Assignment keeps the number of scopes.
pub proof fn lemma_assign_len(e: Seq<ScopeV>, s: int, name: Seq<char>, v: ValueV)
    ensures
        assign(e, s, name, v) matches Some(e2) ==> e2.len() == e.len(),
    decreases s,
{
    if 0 <= s < e.len() && find(e[s].names, name) is None {
        if let Some(p) = e[s].parent {
            if p < s {
                lemma_assign_len(e, p as int, name, v);
            }
        }
    }
}

fn find_name(names: &Vec<String>, name: &String) -> (r: Option<usize>)
    ensures
        match r {
            Some(i) => find(names_view(names@), name@) == Some(i as int),
            None => find(names_view(names@), name@) is None,
        },
{
    let mut i: usize = 0;
    while i < names.len()
        invariant
            i <= names@.len(),
            find(names_view(names@), name@) == find_from(names_view(names@), name@, i as int),
        decreases names@.len() - i,
    {
        if names[i] == *name {
            return Some(i);
        }
        i += 1;
    }
    None
}

impl Scope {
    fn empty(parent: Option<usize>) -> (s: Scope)
        ensures
            s@ == empty_scope(parent_view(parent)),
    {
        let s = Scope { parent, names: Vec::new(), values: Vec::new() };
        assert(s@.names =~= Seq::<Seq<char>>::empty());
        assert(s@.values =~= Seq::<ValueV>::empty());
        s
    }
}

impl Default for Environment {
    fn default() -> (e: Self)
        ensures
            e.wf(),
            e@ == seq![empty_scope(None)],
    {
        Environment::new()
    }
}

impl Environment {
    /// Every scope is well formed.
    pub open spec fn wf(&self) -> bool {
        env_wf(self@)
    }

    /// A store holding one empty scope, the root, named `0`.
    pub fn new() -> (e: Environment)
        ensures
            e.wf(),
            e@ == seq![empty_scope(None)],
    {
        let mut scopes: Vec<Scope> = Vec::new();
        scopes.push(Scope::empty(None));
        let e = Environment { scopes };
        assert(e@ =~= seq![empty_scope(None)]);
        e
    }

    /// The number of scopes.
    pub fn len(&self) -> (n: usize)
        ensures
            n == self@.len(),
    {
        self.scopes.len()
    }

    /// A new empty scope nested inside `parent`; returns its name.
    pub fn with_parent(&mut self, parent: usize) -> (s: usize)
        requires
            old(self).wf(),
            parent < old(self)@.len(),
        ensures
            final(self).wf(),
            s == old(self)@.len(),
            final(self)@ == old(self)@.push(empty_scope(Some(parent as nat))),
    {
        let s = self.scopes.len();
        self.scopes.push(Scope::empty(Some(parent)));
        assert(self@ =~= old(self)@.push(empty_scope(Some(parent as nat))));
        assert forall|k: int| 0 <= k < self@.len() implies #[trigger] scope_ok(self@, k) by {
            if k < s {
                assert(scope_ok(old(self)@, k));
            }
        }
        s
    }

    /// Drops the scopes from `n` on, keeping the first `n`.
    pub fn truncate(&mut self, n: usize)
        requires
            old(self).wf(),
            n <= old(self)@.len(),
        ensures
            final(self).wf(),
            final(self)@ == old(self)@.subrange(0, n as int),
    {
        let ghost e0 = self@;
        self.scopes.truncate(n);
        assert(self@ =~= e0.subrange(0, n as int));
        assert forall|k: int| 0 <= k < self@.len() implies #[trigger] scope_ok(self@, k) by {
            assert(scope_ok(e0, k));
        }
    }

    /// Binds `name` to `value` in scope `scope`.
    pub fn define(&mut self, scope: usize, name: String, value: Value)
        requires
            old(self).wf(),
            scope < old(self)@.len(),
        ensures
            final(self).wf(),
            final(self)@ == define(old(self)@, scope as int, name@, value@),
    {
        let ghost e0 = self@;
        let ghost vv = value@;
        proof {
            assert(scope_ok(e0, scope as int));
        }
        let found = find_name(&self.scopes[scope].names, &name);
        let mut sc = Scope::empty(None);
        self.scopes.set_and_swap(scope, &mut sc);
        proof {
            lemma_find_from(e0[scope as int].names, name@, 0);
        }
        match found {
            Some(i) => {
                sc.values.set(i, value);
            },
            None => {
                sc.names.push(name);
                sc.values.push(value);
            },
        }
        let ghost sv = sc@;
        assert(sv == scope_define(e0[scope as int], name@, vv)) by {
            assert(sv.names =~= scope_define(e0[scope as int], name@, vv).names);
            assert(sv.values =~= scope_define(e0[scope as int], name@, vv).values);
        }
        self.scopes.set(scope, sc);
        assert(self@ =~= define(e0, scope as int, name@, vv));
        assert forall|k: int| 0 <= k < self@.len() implies #[trigger] scope_ok(self@, k) by {
            assert(scope_ok(e0, k));
        }
    }

    /// The value `name` has as seen from scope `scope`, walking up the parent chain.
    pub fn get_in(&self, scope: usize, name: &String) -> (r: Option<Value>)
        requires
            self.wf(),
            scope < self@.len(),
        ensures
            match r {
                Some(v) => lookup(self@, scope as int, name@) == Some(v@),
                None => lookup(self@, scope as int, name@) is None,
            },
    {
        let mut s = scope;
        loop
            invariant
                self.wf(),
                s < self@.len(),
                lookup(self@, scope as int, name@) == lookup(self@, s as int, name@),
            decreases s,
        {
            proof {
                assert(scope_ok(self@, s as int));
            }
            let sc = &self.scopes[s];
            match find_name(&sc.names, name) {
                Some(i) => {
                    proof { lemma_find_from(self@[s as int].names, name@, 0); }
                    return Some(sc.values[i].duplicate());
                },
                None => match sc.parent {
                    Some(p) => {
                        s = p;
                    },
                    None => {
                        return None;
                    },
                },
            }
        }
    }

    /// The value `name` has as seen from scope `scope`.
    pub fn get(&self, scope: usize, name: &str) -> (r: Option<Value>)
        requires
            self.wf(),
            scope < self@.len(),
        ensures
            match r {
                Some(v) => lookup(self@, scope as int, name@) == Some(v@),
                None => lookup(self@, scope as int, name@) is None,
            },
    {
        self.get_in(scope, &owned(name))
    }

    /// Sets the binding of `name` seen from `scope` to `value`, walking up
    /// the chain. Returns whether a binding was found and updated.
    pub fn assign_in(&mut self, scope: usize, name: &String, value: Value) -> (found: bool)
        requires
            old(self).wf(),
            scope < old(self)@.len(),
        ensures
            final(self).wf(),
            match assign(old(self)@, scope as int, name@, value@) {
                Some(e) => found && final(self)@ == e,
                None => !found && final(self)@ == old(self)@,
            },
    {
        let ghost e0 = self@;
        let mut s = scope;
        loop
            invariant
                self.wf(),
                self@ == e0,
                e0 == old(self)@,
                s < self@.len(),
                assign(e0, scope as int, name@, value@) == assign(e0, s as int, name@, value@),
            decreases s,
        {
            proof {
                assert(scope_ok(self@, s as int));
            }
            match find_name(&self.scopes[s].names, name) {
                Some(i) => {
                    proof { lemma_find_from(self@[s as int].names, name@, 0); }
                    let ghost vv = value@;
                    let mut sc = Scope::empty(None);
                    self.scopes.set_and_swap(s, &mut sc);
                    sc.values.set(i, value);
                    let ghost sv = sc@;
                    assert(sv == ScopeV { values: e0[s as int].values.update(i as int, vv), ..e0[s as int] }) by {
                        assert(sv.values =~= e0[s as int].values.update(i as int, vv));
                    }
                    self.scopes.set(s, sc);
                    assert(self@ =~= e0.update(s as int, ScopeV { values: e0[s as int].values.update(i as int, vv), ..e0[s as int] }));
                    assert forall|k: int| 0 <= k < self@.len() implies #[trigger] scope_ok(self@, k) by {
                        assert(scope_ok(e0, k));
                    }
                    return true;
                },
                None => match self.scopes[s].parent {
                    Some(p) => {
                        s = p;
                    },
                    None => {
                        return false;
                    },
                },
            }
        }
    }

    /// Sets the binding of `name` seen from `scope` to `value`. Returns whether
    /// a binding was found and updated.
    pub fn assign(&mut self, scope: usize, name: &str, value: Value) -> (found: bool)
        requires
            old(self).wf(),
            scope < old(self)@.len(),
        ensures
            final(self).wf(),
            match assign(old(self)@, scope as int, name@, value@) {
                Some(e) => found && final(self)@ == e,
                None => !found && final(self)@ == old(self)@,
            },
    {
        self.assign_in(scope, &owned(name), value)
    }
}

} // verus!
