//! Nested scopes of local variables.

use vstd::prelude::*;
use crate::ast::BindPoint;
use crate::bindings::{FunID, VarID};
use crate::string_pool::PoolS;

verus! {

/// The latest entry for `name` among `entries`.
pub open spec fn latest<T>(entries: Seq<(PoolS, T)>, name: PoolS) -> Option<T>
    decreases entries.len(),
{
    if entries.len() == 0 {
        None
    } else if entries.last().0 == name {
        Some(entries.last().1)
    } else {
        latest(entries.drop_last(), name)
    }
}

/// The names declared in one block.
pub struct Scope {
    var_bindings: Vec<(PoolS, VarID)>,
    #[allow(unused)]
    fun_bindings: Vec<(PoolS, FunID)>,
}

/// Finds the latest entry for `name`.
fn find_latest<T: Copy>(entries: &Vec<(PoolS, T)>, name: PoolS) -> (r: Option<T>)
    ensures
        r == latest(entries@, name),
{
    let mut i: usize = entries.len();
    assert(entries@.take(i as int) =~= entries@);
    while i > 0
        invariant
            i <= entries@.len(),
            latest(entries@.take(i as int), name) == latest(entries@, name),
        decreases i,
    {
        assert(entries@.take(i as int).drop_last() =~= entries@.take(i - 1));
        if entries[i - 1].0 == name {
            return Some(entries[i - 1].1);
        }
        i -= 1;
    }
    None
}

impl Scope {
    pub closed spec fn vars(&self) -> Seq<(PoolS, VarID)> {
        self.var_bindings@
    }

    pub closed spec fn funs(&self) -> Seq<(PoolS, FunID)> {
        self.fun_bindings@
    }

    fn new() -> (r: Self)
        ensures
            r.vars().len() == 0,
            r.funs().len() == 0,
    {
        Scope { var_bindings: Vec::new(), fun_bindings: Vec::new() }
    }

    fn find_var(&self, name: PoolS) -> (r: Option<VarID>)
        ensures
            r == latest(self.vars(), name),
    {
        find_latest(&self.var_bindings, name)
    }

    fn add_var(&mut self, name: PoolS, id: VarID)
        ensures
            final(self).vars() == old(self).vars().push((name, id)),
            final(self).funs() == old(self).funs(),
    {
        self.var_bindings.push((name, id));
    }

    #[allow(unused)]
    fn find_fun(&self, name: PoolS) -> (r: Option<FunID>)
        ensures
            r == latest(self.funs(), name),
    {
        find_latest(&self.fun_bindings, name)
    }

    #[allow(unused)]
    fn add_fun(&mut self, name: PoolS, id: FunID)
        ensures
            final(self).funs() == old(self).funs().push((name, id)),
            final(self).vars() == old(self).vars(),
    {
        self.fun_bindings.push((name, id));
    }
}

/// The variable that `name` denotes in nested scopes `scopes`: the first scope, from the
/// outermost, that declares it decides.
pub open spec fn scopes_lookup(scopes: Seq<Seq<(PoolS, VarID)>>, name: PoolS) -> Option<VarID>
    decreases scopes.len(),
{
    if scopes.len() == 0 {
        None
    } else {
        match latest(scopes[0], name) {
            Some(id) => Some(id),
            None => scopes_lookup(scopes.drop_first(), name),
        }
    }
}

/// The stack of scopes of the function being parsed.
pub struct Scopes {
    scopes: Vec<Scope>,
}

impl Scopes {
    /// The variables declared in each scope, outermost first.
    pub closed spec fn view(&self) -> Seq<Seq<(PoolS, VarID)>> {
        self.scopes@.map_values(|s: Scope| s.vars())
    }

    pub fn new() -> (r: Self)
        ensures
            r@.len() == 0,
    {
        let r = Scopes { scopes: Vec::new() };
        assert(r@ =~= Seq::<Seq<(PoolS, VarID)>>::empty());
        r
    }

    /// Opens a new innermost scope.
    pub fn push(&mut self)
        ensures
            final(self)@ == old(self)@.push(Seq::empty()),
    {
        let fresh = Scope::new();
        assert(fresh.vars() =~= Seq::<(PoolS, VarID)>::empty());
        self.scopes.push(fresh);
        assert(self@ =~= old(self)@.push(Seq::empty()));
    }

    /// Closes the innermost scope, if any.
    pub fn pop(&mut self)
        ensures
            final(self)@ == if old(self)@.len() == 0 { old(self)@ } else { old(self)@.drop_last() },
    {
        self.scopes.pop();
        assert(self@ =~= if old(self)@.len() == 0 { old(self)@ } else { old(self)@.drop_last() });
    }

    /// Whether no scope is open: declarations then belong to the enclosing type.
    pub fn is_top_level(&self) -> (r: bool)
        ensures
            r == (self@.len() == 0),
    {
        self.scopes.len() == 0
    }

    /// Declares `name` as `id` in the innermost scope; without an open scope nothing changes.
    pub fn add_var(&mut self, name: PoolS, id: VarID)
        ensures
            final(self)@ == if old(self)@.len() == 0 {
                old(self)@
            } else {
                old(self)@.update(old(self)@.len() - 1, old(self)@.last().push((name, id)))
            },
    {
        let n = self.scopes.len();
        if n > 0 {
            let mut last = self.scopes.pop().unwrap();
            last.add_var(name, id);
            self.scopes.push(last);
            assert(self@ =~= old(self)@.update(old(self)@.len() - 1, old(self)@.last().push((name, id))));
        }
    }

    /// Resolves `name` against the open scopes, or leaves it unresolved.
    pub fn find_var(&self, name: PoolS) -> (r: BindPoint<PoolS, VarID>)
        ensures
            r == match scopes_lookup(self@, name) {
                Some(id) => BindPoint::<PoolS, VarID>::BoundTo(id),
                None => BindPoint::<PoolS, VarID>::Unbound(name),
            },
    {
        let mut i: usize = 0;
        assert(self@.subrange(0, self@.len() as int) =~= self@);
        while i < self.scopes.len()
            invariant
                i <= self@.len(),
                self@.len() == self.scopes@.len(),
                scopes_lookup(self@.subrange(i as int, self@.len() as int), name) == scopes_lookup(self@, name),
            decreases self@.len() - i,
        {
            let ghost rest = self@.subrange(i as int, self@.len() as int);
            assert(rest.drop_first() =~= self@.subrange(i + 1, self@.len() as int));
            if let Some(id) = self.scopes[i].find_var(name) {
                return BindPoint::BoundTo(id);
            }
            i += 1;
        }
        BindPoint::Unbound(name)
    }
}

} // verus!
