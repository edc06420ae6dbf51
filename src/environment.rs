//! Lexical scopes: a stack of scopes, the global one at the bottom.
use crate::error::{runtime_error_at, LoxError, Problem};
use crate::token::Token;
use crate::value::{Val, Value};
use vstd::prelude::*;

verus! {

pub type Scopes = Seq<Map<Seq<char>, Val>>;

/// The index of the innermost of the first `n` scopes that binds `name`, or
/// -1.
pub open spec fn innermost(scopes: Scopes, name: Seq<char>, n: int) -> int
    decreases n,
{
    if n <= 0 {
        -1
    } else if scopes[n - 1].contains_key(name) {
        n - 1
    } else {
        innermost(scopes, name, n - 1)
    }
}

pub proof fn lemma_innermost_range(scopes: Scopes, name: Seq<char>, n: int)
    requires
        0 <= n <= scopes.len(),
    ensures
        -1 <= innermost(scopes, name, n) < n,
        innermost(scopes, name, n) >= 0 ==> scopes[innermost(scopes, name, n)].contains_key(name),
    decreases n,
{
    if n > 0 {
        lemma_innermost_range(scopes, name, n - 1);
    }
}

/// The value that `name` resolves to, searching outward from the innermost
/// scope.
pub open spec fn lookup(scopes: Scopes, name: Seq<char>) -> Option<Val> {
    let k = innermost(scopes, name, scopes.len() as int);
    if k >= 0 {
        Some(scopes[k][name])
    } else {
        None
    }
}

/// The scopes after assigning `v` to the innermost binding of `name`; `None`
/// where no scope binds it.
pub open spec fn assigned(scopes: Scopes, name: Seq<char>, v: Val) -> Option<Scopes> {
    let k = innermost(scopes, name, scopes.len() as int);
    if k >= 0 {
        Some(scopes.update(k, scopes[k].insert(name, v)))
    } else {
        None
    }
}

/// The scopes after binding `name` to `v` in the innermost scope.
pub open spec fn defined(scopes: Scopes, name: Seq<char>, v: Val) -> Scopes {
    scopes.update(scopes.len() - 1, scopes.last().insert(name, v))
}

/// A declaration inside a block is gone once the block's scope is left:
/// every name resolves afterwards as it did before the block.
pub proof fn lemma_block_declaration_invisible(
    scopes: Scopes,
    inner: Map<Seq<char>, Val>,
    name: Seq<char>,
    v: Val,
    other: Seq<char>,
)
    requires
        scopes.len() >= 1,
    ensures
        lookup(defined(scopes.push(inner), name, v).drop_last(), other) == lookup(scopes, other),
{
    assert(defined(scopes.push(inner), name, v).drop_last() =~= scopes);
}

/// An assignment inside a block to a name that the block's scope does not
/// bind changes the enclosing binding, and the change outlives the block.
pub proof fn lemma_block_assignment_outlives(
    scopes: Scopes,
    inner: Map<Seq<char>, Val>,
    name: Seq<char>,
    v: Val,
)
    requires
        lookup(scopes, name) is Some,
        !inner.contains_key(name),
    ensures
        assigned(scopes.push(inner), name, v) is Some,
        assigned(scopes.push(inner), name, v)->0.drop_last() == assigned(scopes, name, v)->0,
        lookup(assigned(scopes.push(inner), name, v)->0.drop_last(), name) == Some(v),
{
    let outer = scopes.push(inner);
    let n = outer.len() as int;
    assert(outer[n - 1] == inner);
    assert(innermost(outer, name, n) == innermost(outer, name, n - 1));
    lemma_innermost_prefix(scopes, inner, name, scopes.len() as int);
    let k = innermost(scopes, name, scopes.len() as int);
    lemma_innermost_range(scopes, name, scopes.len() as int);
    let after = scopes.update(k, scopes[k].insert(name, v));
    assert(outer.update(k, outer[k].insert(name, v)).drop_last() =~= after);
    lemma_innermost_of_update(scopes, name, v, k);
}

proof fn lemma_innermost_prefix(scopes: Scopes, inner: Map<Seq<char>, Val>, name: Seq<char>, n: int)
    requires
        0 <= n <= scopes.len(),
    ensures
        innermost(scopes.push(inner), name, n) == innermost(scopes, name, n),
    decreases n,
{
    if n > 0 {
        assert(scopes.push(inner)[n - 1] == scopes[n - 1]);
        lemma_innermost_prefix(scopes, inner, name, n - 1);
    }
}

proof fn lemma_innermost_of_update(scopes: Scopes, name: Seq<char>, v: Val, k: int)
    requires
        k == innermost(scopes, name, scopes.len() as int),
        0 <= k < scopes.len(),
    ensures
        lookup(scopes.update(k, scopes[k].insert(name, v)), name) == Some(v),
{
    let after = scopes.update(k, scopes[k].insert(name, v));
    lemma_innermost_same(scopes, after, name, scopes.len() as int, k);
}

/// Above the innermost binding of `name`, nothing binds it; below, the two
/// stacks agree on whether it is bound.
proof fn lemma_innermost_same(scopes: Scopes, after: Scopes, name: Seq<char>, n: int, k: int)
    requires
        0 <= k < n <= scopes.len(),
        after.len() == scopes.len(),
        innermost(scopes, name, n) == k,
        after[k].contains_key(name),
        forall|j: int| 0 <= j < scopes.len() && j != k ==> after[j] == scopes[j],
    ensures
        innermost(after, name, n) == k,
    decreases n,
{
    if n - 1 != k {
        assert(!scopes[n - 1].contains_key(name));
        lemma_innermost_same(scopes, after, name, n - 1, k);
    }
}

/// One binding of a scope.
pub struct Binding {
    pub name: String,
    pub value: Value,
}

/// The map a scope's bindings stand for.
pub open spec fn scope_map(bindings: Seq<Binding>) -> Map<Seq<char>, Val>
    decreases bindings.len(),
{
    if bindings.len() == 0 {
        Map::empty()
    } else {
        scope_map(bindings.drop_last()).insert(bindings.last().name@, bindings.last().value@)
    }
}

pub open spec fn unique_names(bindings: Seq<Binding>) -> bool {
    forall|i: int, j: int|
        0 <= i < bindings.len() && 0 <= j < bindings.len() && i != j ==> #[trigger] bindings[i].name@
            != #[trigger] bindings[j].name@
}

proof fn lemma_scope_map_index(bindings: Seq<Binding>, i: int)
    requires
        unique_names(bindings),
        0 <= i < bindings.len(),
    ensures
        scope_map(bindings).contains_key(bindings[i].name@),
        scope_map(bindings)[bindings[i].name@] == bindings[i].value@,
    decreases bindings.len(),
{
    if i < bindings.len() - 1 {
        let init = bindings.drop_last();
        assert(init[i] == bindings[i]);
        assert(unique_names(init));
        lemma_scope_map_index(init, i);
        assert(bindings.last().name@ != bindings[i].name@);
    }
}

proof fn lemma_scope_map_absent(bindings: Seq<Binding>, name: Seq<char>)
    requires
        forall|i: int| 0 <= i < bindings.len() ==> (#[trigger] bindings[i]).name@ != name,
    ensures
        !scope_map(bindings).contains_key(name),
    decreases bindings.len(),
{
    if bindings.len() > 0 {
        let init = bindings.drop_last();
        assert forall|i: int| 0 <= i < init.len() implies (#[trigger] init[i]).name@ != name by {
            assert(init[i] == bindings[i]);
        }
        lemma_scope_map_absent(init, name);
        assert(bindings.last() == bindings[bindings.len() - 1]);
    }
}

proof fn lemma_scope_map_update(bindings: Seq<Binding>, i: int, b: Binding)
    requires
        unique_names(bindings),
        0 <= i < bindings.len(),
        b.name@ == bindings[i].name@,
    ensures
        unique_names(bindings.update(i, b)),
        scope_map(bindings.update(i, b)) == scope_map(bindings).insert(b.name@, b.value@),
    decreases bindings.len(),
{
    let updated = bindings.update(i, b);
    assert(unique_names(updated)) by {
        assert forall|x: int, y: int|
            0 <= x < updated.len() && 0 <= y < updated.len() && x != y implies #[trigger] updated[x].name@
            != #[trigger] updated[y].name@ by {
            assert(bindings[x].name@ != bindings[y].name@);
        }
    }
    if i == bindings.len() - 1 {
        assert(updated.drop_last() =~= bindings.drop_last());
        let init = bindings.drop_last();
        assert forall|j: int| 0 <= j < init.len() implies (#[trigger] init[j]).name@ != b.name@ by {
            assert(init[j] == bindings[j]);
        }
        lemma_scope_map_absent(init, b.name@);
        assert(scope_map(updated) =~= scope_map(bindings).insert(b.name@, b.value@));
    } else {
        let init = bindings.drop_last();
        assert(updated.drop_last() =~= init.update(i, b));
        assert(unique_names(init));
        lemma_scope_map_update(init, i, b);
        assert(bindings.last().name@ != b.name@) by {
            assert(bindings.last() == bindings[bindings.len() - 1]);
        }
        assert(updated.last() == bindings.last());
        assert(scope_map(updated) =~= scope_map(bindings).insert(b.name@, b.value@));
    }
}

/// A stack of scopes: `scopes[0]` is the global scope, the last the
/// innermost. Names are unique within a scope.
pub struct Environment {
    scopes: Vec<Vec<Binding>>,
}

impl View for Environment {
    type V = Scopes;

    closed spec fn view(&self) -> Scopes {
        self.scopes@.map_values(|s: Vec<Binding>| scope_map(s@))
    }
}

impl Environment {
    /// At least one scope, and unique names in each.
    pub closed spec fn wf(&self) -> bool {
        &&& self.scopes@.len() >= 1
        &&& forall|k: int| 0 <= k < self.scopes@.len() ==> unique_names(#[trigger] self.scopes@[k]@)
    }

    pub proof fn lemma_nonempty(&self)
        requires
            self.wf(),
        ensures
            self@.len() >= 1,
    {
    }

    /// A fresh global scope, or a new innermost scope in front of
    /// `enclosing`.
    pub fn new(enclosing: Option<Environment>) -> (r: Environment)
        requires
            enclosing matches Some(e) ==> e.wf(),
        ensures
            r.wf(),
            r@ == match enclosing {
                Some(e) => e@.push(Map::empty()),
                None => seq![Map::empty()],
            },
    {
        match enclosing {
            Some(e) => {
                let mut e = e;
                e.push_scope();
                e
            },
            None => {
                let mut scopes: Vec<Vec<Binding>> = Vec::new();
                scopes.push(Vec::new());
                let r = Environment { scopes };
                assert(r@ =~= seq![Map::empty()]);
                r
            },
        }
    }

    /// Enters a new innermost scope.
    pub fn push_scope(&mut self)
        requires
            old(self).wf(),
        ensures
            final(self).wf(),
            final(self)@ == old(self)@.push(Map::empty()),
    {
        self.scopes.push(Vec::new());
        assert(self@ =~= old(self)@.push(Map::empty()));
    }

    /// Leaves the innermost scope; the global scope is never left.
    pub fn pop_scope(&mut self)
        requires
            old(self).wf(),
        ensures
            final(self).wf(),
            final(self)@ == if old(self)@.len() > 1 {
                old(self)@.drop_last()
            } else {
                old(self)@
            },
    {
        if self.scopes.len() > 1 {
            self.scopes.pop();
            assert(self@ =~= old(self)@.drop_last());
        }
    }

    /// The index of `name` among the bindings of scope `k`.
    fn find(&self, k: usize, name: &String) -> (r: Option<usize>)
        requires
            self.wf(),
            k < self.scopes@.len(),
        ensures
            match r {
                Some(i) => i < self.scopes@[k as int]@.len() && self.scopes@[k as int]@[i as int].name@
                    == name@,
                None => !self@[k as int].contains_key(name@),
            },
    {
        let scope = &self.scopes[k];
        let mut i: usize = 0;
        while i < scope.len()
            invariant
                scope@ == self.scopes@[k as int]@,
                k < self.scopes@.len(),
                i <= scope@.len(),
                forall|j: int| 0 <= j < i ==> (#[trigger] scope@[j]).name@ != name@,
            decreases scope@.len() - i,
        {
            if scope[i].name == *name {
                return Some(i);
            }
            i = i + 1;
        }
        proof {
            lemma_scope_map_absent(scope@, name@);
        }
        None
    }

    /// Binds `name` to `value` in the innermost scope, replacing a binding of
    /// the same name there.
    pub fn update_values(&mut self, name: String, value: Value) -> (r: Result<Value, LoxError>)
        requires
            old(self).wf(),
        ensures
            final(self).wf(),
            final(self)@.len() == old(self)@.len(),
            final(self)@ == defined(old(self)@, name@, value@),
            r == Ok::<Value, LoxError>(value),
    {
        let k = self.scopes.len() - 1;
        let found = self.find(k, &name);
        let ghost n = name@;
        let ghost v = value@;
        let copy = value.duplicate();
        let mut scope = Vec::new();
        std::mem::swap(&mut scope, &mut self.scopes[k]);
        let ghost before = scope@;
        match found {
            Some(i) => {
                let b = Binding { name, value: copy };
                proof {
                    lemma_scope_map_update(before, i as int, b);
                }
                scope.set(i, b);
            },
            None => {
                let b = Binding { name, value: copy };
                proof {
                    assert forall|x: int, y: int|
                        0 <= x < before.len() + 1 && 0 <= y < before.len() + 1 && x != y implies #[trigger] before.push(b)[x].name@
                        != #[trigger] before.push(b)[y].name@ by {
                        if x < before.len() && y < before.len() {
                        } else if x < before.len() {
                            assert(before[x].name@ != n) by {
                                if before[x].name@ == n {
                                    lemma_scope_map_index(before, x);
                                }
                            }
                        } else {
                            assert(before[y].name@ != n) by {
                                if before[y].name@ == n {
                                    lemma_scope_map_index(before, y);
                                }
                            }
                        }
                    }
                    assert(before.push(b).drop_last() =~= before);
                }
                scope.push(b);
            },
        }
        std::mem::swap(&mut scope, &mut self.scopes[k]);
        assert(self@ =~= defined(old(self)@, n, v));
        Ok(value)
    }

    /// Declares `name` in the innermost scope; a second declaration of the
    /// same name there overwrites the first.
    pub fn define(&mut self, name: String, value: Value) -> (r: Result<Value, LoxError>)
        requires
            old(self).wf(),
        ensures
            final(self).wf(),
            final(self)@.len() == old(self)@.len(),
            final(self)@ == defined(old(self)@, name@, value@),
            r == Ok::<Value, LoxError>(value),
    {
        self.update_values(name, value)
    }

    /// The scope and binding index of the innermost binding of `name`.
    fn resolve(&self, name: &String) -> (r: Option<(usize, usize)>)
        requires
            self.wf(),
        ensures
            match r {
                Some((k, i)) => {
                    &&& k as int == innermost(self@, name@, self@.len() as int)
                    &&& k < self.scopes@.len()
                    &&& i < self.scopes@[k as int]@.len()
                    &&& self.scopes@[k as int]@[i as int].name@ == name@
                },
                None => innermost(self@, name@, self@.len() as int) == -1,
            },
    {
        let mut k = self.scopes.len();
        while k > 0
            invariant
                self.wf(),
                k <= self.scopes@.len(),
                innermost(self@, name@, self@.len() as int) == innermost(self@, name@, k as int),
            decreases k,
        {
            match self.find(k - 1, name) {
                Some(i) => {
                    proof {
                        lemma_scope_map_index(self.scopes@[k - 1]@, i as int);
                    }
                    return Some((k - 1, i));
                },
                None => {},
            }
            k = k - 1;
        }
        None
    }

    /// The value of the innermost binding of `name`, or an undefined-variable
    /// error at the token.
    pub fn get(&self, name: &Token) -> (r: Result<Value, LoxError>)
        requires
            self.wf(),
        ensures
            match lookup(self@, name.lexeme@) {
                Some(v) => r matches Ok(x) && x@ == v,
                None => r == Err::<Value, LoxError>(
                    runtime_error_at(*name, Problem::UndefinedVariable),
                ),
            },
    {
        match self.resolve(&name.lexeme) {
            Some((k, i)) => {
                proof {
                    lemma_scope_map_index(self.scopes@[k as int]@, i as int);
                }
                Ok(self.scopes[k][i].value.duplicate())
            },
            None => Err(LoxError::lox_runtime_error(name, Problem::UndefinedVariable)),
        }
    }

    /// Assigns to the innermost binding of `name`; never creates a binding.
    pub fn assign(&mut self, name: &Token, value: Value) -> (r: Result<Value, LoxError>)
        requires
            old(self).wf(),
        ensures
            final(self).wf(),
            final(self)@.len() == old(self)@.len(),
            match assigned(old(self)@, name.lexeme@, value@) {
                Some(s) => final(self)@ == s && r == Ok::<Value, LoxError>(value),
                None => final(self)@ == old(self)@ && r == Err::<Value, LoxError>(
                    runtime_error_at(*name, Problem::UndefinedVariable),
                ),
            },
    {
        proof {
            lemma_innermost_range(self@, name.lexeme@, self@.len() as int);
        }
        match self.resolve(&name.lexeme) {
            Some((k, i)) => {
                let ghost v = value@;
                let copy = value.duplicate();
                let mut scope = Vec::new();
                std::mem::swap(&mut scope, &mut self.scopes[k]);
                let b = Binding { name: name.lexeme.clone(), value: copy };
                proof {
                    lemma_scope_map_update(scope@, i as int, b);
                }
                scope.set(i, b);
                std::mem::swap(&mut scope, &mut self.scopes[k]);
                assert(self@ =~= assigned(old(self)@, name.lexeme@, v)->0);
                Ok(value)
            },
            None => Err(LoxError::lox_runtime_error(name, Problem::UndefinedVariable)),
        }
    }
}

} // verus!
