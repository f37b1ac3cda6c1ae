//! Scopes and bindings.
//!
//! The scopes of a program form a forest: each scope but a root has a parent,
//! made before it. They live in one arena and are addressed by their index in
//! it, so that a scope can be shared by closures and frames without shared
//! ownership, and so that the parent links cannot form a cycle.

use vstd::prelude::*;
use std::collections::HashMap;
use crate::intern::Symbol;
use crate::value::{Env, Value, ValueView};

verus! {

broadcast use vstd::std_specs::hash::group_hash_axioms;

/// One scope: its bindings, and the scope around it.
#[derive(Debug)]
pub struct Scope {
    pub parent: Option<Env>,
    pub bindings: HashMap<u32, Value>,
}

pub struct ScopeView {
    pub parent: Option<Env>,
    pub bindings: Map<u32, ValueView>,
}

impl View for Scope {
    type V = ScopeView;

    open spec fn view(&self) -> ScopeView {
        ScopeView { parent: self.parent, bindings: self.bindings@.map_values(|v: Value| v@) }
    }
}

/// The arena of all scopes. Scope 0 is the global one.
#[derive(Debug)]
pub struct Environment {
    pub scopes: Vec<Scope>,
}

impl View for Environment {
    type V = Seq<ScopeView>;

    open spec fn view(&self) -> Seq<ScopeView> {
        self.scopes@.map_values(|s: Scope| s@)
    }
}

/// Every parent was made before its child.
pub open spec fn parents_precede(scopes: Seq<ScopeView>) -> bool {
    forall|i: int|
        0 <= i < scopes.len() ==> match (#[trigger] scopes[i]).parent {
            Some(p) => p < i,
            None => true,
        }
}

/// The nearest scope, from `env` outwards, that binds `name`.
pub open spec fn defining_scope(scopes: Seq<ScopeView>, env: int, name: Symbol) -> Option<int>
    decreases env,
{
    if !(0 <= env < scopes.len()) {
        None
    } else if scopes[env].bindings.contains_key(name.0) {
        Some(env)
    } else {
        match scopes[env].parent {
            Some(p) => if p < env {
                defining_scope(scopes, p as int, name)
            } else {
                None
            },
            None => None,
        }
    }
}

/// The value of `name` as seen from `env`: that of its nearest binding.
pub open spec fn lookup(scopes: Seq<ScopeView>, env: int, name: Symbol) -> Option<ValueView> {
    match defining_scope(scopes, env, name) {
        Some(e) => Some(scopes[e].bindings[name.0]),
        None => None,
    }
}

/// The scopes after `name` is bound to `value` in the scope `env`.
pub open spec fn bound_here(scopes: Seq<ScopeView>, env: int, name: Symbol, value: ValueView)
    -> Seq<ScopeView> {
    scopes.update(
        env,
        ScopeView { parent: scopes[env].parent, bindings: scopes[env].bindings.insert(name.0, value) },
    )
}

/// The scopes after `name`, as seen from `env`, is given the new value
/// `value`: its nearest binding changes, and nothing changes if there is
/// none.
pub open spec fn assigned(scopes: Seq<ScopeView>, env: int, name: Symbol, value: ValueView) -> Seq<
    ScopeView,
> {
    match defining_scope(scopes, env, name) {
        Some(e) => bound_here(scopes, e, name, value),
        None => scopes,
    }
}

/// The bindings made by binding each name of `pairs` to its value, in order.
pub open spec fn bind_all(pairs: Seq<(Symbol, ValueView)>) -> Map<u32, ValueView>
    decreases pairs.len(),
{
    if pairs.len() == 0 {
        Map::empty()
    } else {
        bind_all(pairs.drop_last()).insert(pairs.last().0.0, pairs.last().1)
    }
}

/// The views of the values of some pairs.
pub open spec fn pair_views(pairs: Seq<(Symbol, Value)>) -> Seq<(Symbol, ValueView)> {
    pairs.map_values(|p: (Symbol, Value)| (p.0, p.1@))
}

/// The symbols with an id below `count` that have a value as seen from
/// `env`, each with that value, in the order of their ids.
pub open spec fn defined_below(scopes: Seq<ScopeView>, env: int, count: int) -> Seq<
    (Symbol, ValueView),
>
    decreases count,
{
    if count <= 0 {
        Seq::empty()
    } else {
        let before = defined_below(scopes, env, count - 1);
        match lookup(scopes, env, Symbol((count - 1) as u32)) {
            Some(v) => before.push((Symbol((count - 1) as u32), v)),
            None => before,
        }
    }
}

impl Environment {
    /// There is a global scope, and every parent was made before its child.
    pub open spec fn wf(&self) -> bool {
        self@.len() >= 1 && parents_precede(self@)
    }

    /// An arena that holds the global scope, which is empty.
    pub fn new() -> (r: Environment)
        ensures
            r.wf(),
            r@ == seq![ScopeView { parent: None, bindings: Map::empty() }],
    {
        let mut scopes: Vec<Scope> = Vec::new();
        let bindings: HashMap<u32, Value> = HashMap::new();
        scopes.push(Scope { parent: None, bindings: bindings });
        let r = Environment { scopes: scopes };
        proof {
            assert(r@[0].bindings =~= Map::empty());
            assert(r@ =~= seq![ScopeView { parent: None, bindings: Map::empty() }]);
        }
        r
    }

    /// Makes a scope inside `env` with the given bindings, a later one
    /// replacing an earlier one of the same name; gives its handle.
    pub fn new_with_data(&mut self, env: Env, bindings: Vec<(Symbol, Value)>) -> (r: Env)
        requires
            old(self).wf(),
            env < old(self)@.len(),
        ensures
            final(self).wf(),
            r == old(self)@.len(),
            final(self)@ == old(self)@.push(
                ScopeView { parent: Some(env), bindings: bind_all(pair_views(bindings@)) },
            ),
    {
        let mut map: HashMap<u32, Value> = HashMap::new();
        let mut i: usize = 0;
        assert(map@.map_values(|v: Value| v@) =~= bind_all(pair_views(bindings@.take(0))));
        while i < bindings.len()
            invariant
                i <= bindings.len(),
                map@.map_values(|v: Value| v@) == bind_all(pair_views(bindings@.take(i as int))),
            decreases bindings.len() - i,
        {
            let name = bindings[i].0;
            let value = bindings[i].1.clone();
            let ghost before = map@;
            map.insert(name.0, value);
            proof {
                let now = pair_views(bindings@.take(i + 1));
                assert(now.drop_last() =~= pair_views(bindings@.take(i as int)));
                assert(now.last() == (name, value@));
                assert(map@.map_values(|v: Value| v@) =~= before.map_values(|v: Value| v@).insert(
                    name.0,
                    value@,
                ));
            }
            i += 1;
        }
        assert(bindings@.take(bindings.len() as int) =~= bindings@);
        let handle = self.scopes.len();
        self.scopes.push(Scope { parent: Some(env), bindings: map });
        proof {
            assert(self@ =~= old(self)@.push(
                ScopeView { parent: Some(env), bindings: bind_all(pair_views(bindings@)) },
            ));
        }
        handle
    }

    /// Whether the scope `env` itself binds `name`.
    pub fn is_defined_at_this_level(&self, env: Env, name: Symbol) -> (r: bool)
        requires
            env < self@.len(),
        ensures
            r == self@[env as int].bindings.contains_key(name.0),
    {
        self.scopes[env].bindings.contains_key(&name.0)
    }

    /// The handle of the nearest scope, from `env` outwards, that binds
    /// `name`.
    pub fn find(&self, env: Env, name: Symbol) -> (r: Option<Env>)
        ensures
            match r {
                Some(e) => defining_scope(self@, env as int, name) == Some(e as int) && e
                    < self@.len() && self@[e as int].bindings.contains_key(name.0),
                None => defining_scope(self@, env as int, name).is_none(),
            },
    {
        let mut cur = env;
        loop
            invariant
                defining_scope(self@, env as int, name) == defining_scope(self@, cur as int, name),
            decreases cur,
        {
            if cur >= self.scopes.len() {
                return None;
            }
            if self.scopes[cur].bindings.contains_key(&name.0) {
                return Some(cur);
            }
            match self.scopes[cur].parent {
                Some(p) => {
                    if p < cur {
                        cur = p;
                    } else {
                        return None;
                    }
                },
                None => {
                    return None;
                },
            }
        }
    }

    /// Whether `name` has a binding that is seen from `env`.
    pub fn is_defined(&self, env: Env, name: Symbol) -> (r: bool)
        ensures
            r == defining_scope(self@, env as int, name).is_some(),
    {
        self.find(env, name).is_some()
    }

    /// The binding of `name` that is seen from `env`.
    pub fn with_value(&self, env: Env, name: Symbol) -> (r: Option<&Value>)
        ensures
            match r {
                Some(v) => lookup(self@, env as int, name) == Some(v@),
                None => lookup(self@, env as int, name).is_none(),
            },
    {
        match self.find(env, name) {
            Some(e) => self.scopes[e].bindings.get(&name.0),
            None => None,
        }
    }

    /// The value of `name` as seen from `env`.
    pub fn get(&self, env: Env, name: Symbol) -> (r: Option<Value>)
        ensures
            match r {
                Some(v) => lookup(self@, env as int, name) == Some(v@),
                None => lookup(self@, env as int, name).is_none(),
            },
    {
        match self.with_value(env, name) {
            Some(v) => Some(v.clone()),
            None => None,
        }
    }

    /// Tests whether the arena is well formed.
    pub fn is_wf(&self) -> (r: bool)
        ensures
            r == self.wf(),
    {
        if self.scopes.len() == 0 {
            return false;
        }
        let mut i: usize = 0;
        while i < self.scopes.len()
            invariant
                i <= self.scopes.len(),
                self@.len() == self.scopes.len(),
                forall|k: int|
                    0 <= k < i ==> match (#[trigger] self@[k]).parent {
                        Some(p) => p < k,
                        None => true,
                    },
            decreases self.scopes.len() - i,
        {
            assert(self@[i as int].parent == self.scopes@[i as int].parent);
            match self.scopes[i].parent {
                Some(p) => {
                    if p >= i {
                        return false;
                    }
                },
                None => {},
            }
            i += 1;
        }
        true
    }

    /// Every binding that is seen from `env`, for the symbols with an id
    /// below `count`: each symbol once, with the value of its nearest
    /// binding, in the order of the ids.
    pub fn all_defined(&self, env: Env, count: u32) -> (r: Vec<(Symbol, Value)>)
        ensures
            pair_views(r@) == defined_below(self@, env as int, count as int),
    {
        let mut out: Vec<(Symbol, Value)> = Vec::new();
        let mut id: u32 = 0;
        assert(pair_views(out@) =~= defined_below(self@, env as int, 0));
        while id < count
            invariant
                id <= count,
                pair_views(out@) == defined_below(self@, env as int, id as int),
            decreases count - id,
        {
            let ghost before = out@;
            match self.get(env, Symbol(id)) {
                Some(v) => {
                    out.push((Symbol(id), v));
                    assert(pair_views(out@) =~= pair_views(before).push((Symbol(id), v@)));
                },
                None => {},
            }
            id += 1;
        }
        out
    }

    /// Binds `name` to `value` in the scope `env` itself; gives the value it
    /// was bound to there before.
    pub fn insert_here(&mut self, env: Env, name: Symbol, value: Value) -> (r: Option<Value>)
        requires
            old(self).wf(),
            env < old(self)@.len(),
        ensures
            final(self).wf(),
            final(self)@ == bound_here(old(self)@, env as int, name, value@),
            final(self)@.len() == old(self)@.len(),
            match r {
                Some(v) => old(self)@[env as int].bindings.contains_key(name.0) && old(
                    self,
                )@[env as int].bindings[name.0] == v@,
                None => !old(self)@[env as int].bindings.contains_key(name.0),
            },
    {
        let ghost before = self.scopes@[env as int].bindings@;
        let r = self.scopes[env].bindings.insert(name.0, value);
        proof {
            assert(self.scopes@[env as int].bindings@.map_values(|v: Value| v@) =~= before.map_values(
                |v: Value| v@,
            ).insert(name.0, value@));
            assert(self@ =~= bound_here(old(self)@, env as int, name, value@));
        }
        r
    }

    /// Gives `name`, as seen from `env`, the new value `value`: its nearest
    /// binding changes. Gives the value it had, or nothing if it has no
    /// binding; then nothing changes.
    pub fn with_value_mut(&mut self, env: Env, name: Symbol, value: Value) -> (r: Option<Value>)
        requires
            old(self).wf(),
        ensures
            final(self).wf(),
            final(self)@ == assigned(old(self)@, env as int, name, value@),
            final(self)@.len() == old(self)@.len(),
            match r {
                Some(v) => lookup(old(self)@, env as int, name) == Some(v@),
                None => lookup(old(self)@, env as int, name).is_none(),
            },
    {
        match self.find(env, name) {
            Some(e) => self.insert_here(e, name, value),
            None => None,
        }
    }
}

/// A scope that binds a name is a scope of the arena, and does bind it.
pub proof fn lemma_defining_scope_in_range(scopes: Seq<ScopeView>, env: int, name: Symbol)
    ensures
        match defining_scope(scopes, env, name) {
            Some(e) => 0 <= e <= env && e < scopes.len() && scopes[e].bindings.contains_key(name.0),
            None => true,
        },
    decreases env,
{
    if 0 <= env < scopes.len() && !scopes[env].bindings.contains_key(name.0) {
        match scopes[env].parent {
            Some(p) => {
                if p < env {
                    lemma_defining_scope_in_range(scopes, p as int, name);
                }
            },
            None => {},
        }
    }
}

/// After `define`, the name has the new value in that scope, whatever
/// surrounds it.
pub proof fn lemma_lookup_after_bind(scopes: Seq<ScopeView>, env: int, name: Symbol, value: ValueView)
    requires
        0 <= env < scopes.len(),
    ensures
        lookup(bound_here(scopes, env, name, value), env, name) == Some(value),
{
}

/// After `set`, a name that had a binding has the new value, seen from the
/// same scope.
pub proof fn lemma_lookup_after_assign(
    scopes: Seq<ScopeView>,
    env: int,
    name: Symbol,
    value: ValueView,
)
    requires
        parents_precede(scopes),
        defining_scope(scopes, env, name).is_some(),
    ensures
        lookup(assigned(scopes, env, name, value), env, name) == Some(value),
        defining_scope(assigned(scopes, env, name, value), env, name) == defining_scope(
            scopes,
            env,
            name,
        ),
    decreases env,
{
    let after = assigned(scopes, env, name, value);
    lemma_defining_scope_in_range(scopes, env, name);
    let e = defining_scope(scopes, env, name).unwrap();
    if scopes[env].bindings.contains_key(name.0) {
        assert(after[env].bindings.contains_key(name.0));
    } else {
        let p = scopes[env].parent.unwrap();
        lemma_lookup_after_assign(scopes, p as int, name, value);
        assert(after == assigned(scopes, p as int, name, value));
        assert(after[env] == scopes[env]);
    }
}

/// A binding of one name changes no other name: what another symbol means,
/// seen from any scope, is what it meant.
pub proof fn lemma_lookup_of_another(
    scopes: Seq<ScopeView>,
    env: int,
    name: Symbol,
    value: ValueView,
    from: int,
    other: Symbol,
)
    requires
        0 <= env < scopes.len(),
        other != name,
    ensures
        defining_scope(bound_here(scopes, env, name, value), from, other) == defining_scope(
            scopes,
            from,
            other,
        ),
        lookup(bound_here(scopes, env, name, value), from, other) == lookup(scopes, from, other),
    decreases from,
{
    let after = bound_here(scopes, env, name, value);
    if 0 <= from < scopes.len() {
        assert(after[from].parent == scopes[from].parent);
        assert(after[from].bindings.contains_key(other.0) == scopes[from].bindings.contains_key(
            other.0,
        ));
        if !scopes[from].bindings.contains_key(other.0) {
            match scopes[from].parent {
                Some(p) => {
                    if p < from {
                        lemma_lookup_of_another(scopes, env, name, value, p as int, other);
                    }
                },
                None => {},
            }
        } else {
            assert(after[from].bindings[other.0] == scopes[from].bindings[other.0]);
        }
    }
    lemma_defining_scope_in_range(scopes, from, other);
}

} // verus!
