//! Overload resolution stated over the binding table's view, and what it guarantees.

use vstd::prelude::*;
use crate::ast::types::{TypeName, may_coerce};
use crate::bindings::{BindingsView, FunID, Namespace, VarID};
use crate::string_pool::PoolS;

verus! {

/// The current types of the variables `args`.
pub open spec fn param_types(b: BindingsView, args: Seq<VarID>) -> Seq<TypeName> {
    args.map_values(|a: VarID| b.var(a).typ)
}

/// Whether the `k`-th registered function has namespace `ns` and name `name` and takes
/// arguments of types `types`: exactly those types, or (when `exact` is false) types that each
/// may coerce to its parameter's type.
pub open spec fn overload_fits(b: BindingsView, k: int, ns: Namespace, name: PoolS, types: Seq<TypeName>, exact: bool) -> bool {
    let (ons, oname, f) = b.overloads[k];
    let args = b.fun(f).args@;
    &&& ons == ns
    &&& oname == name
    &&& args.len() == types.len()
    &&& if exact {
        param_types(b, args) == types
    } else {
        forall|i: int| 0 <= i < types.len() ==> may_coerce(#[trigger] b.var(args[i]).typ, types[i])
    }
}

/// The first of the first `n` registered functions that fits, in registration order.
pub open spec fn first_fit(b: BindingsView, ns: Namespace, name: PoolS, types: Seq<TypeName>, exact: bool, n: nat) -> Option<FunID>
    decreases n,
{
    if n == 0 {
        None
    } else {
        match first_fit(b, ns, name, types, exact, (n - 1) as nat) {
            Some(f) => Some(f),
            None => if overload_fits(b, n - 1, ns, name, types, exact) {
                Some(b.overloads[n - 1].2)
            } else {
                None
            },
        }
    }
}

/// Once some function fits, looking further does not change the answer.
pub proof fn lemma_first_fit_stable(b: BindingsView, ns: Namespace, name: PoolS, types: Seq<TypeName>, exact: bool, m: nat, n: nat)
    requires
        m <= n,
        first_fit(b, ns, name, types, exact, m) is Some,
    ensures
        first_fit(b, ns, name, types, exact, n) == first_fit(b, ns, name, types, exact, m),
    decreases n - m,
{
    if m < n {
        lemma_first_fit_stable(b, ns, name, types, exact, m, (n - 1) as nat);
    }
}

/// The function registered under `ns` and `name` with exactly the parameter types `types`.
pub open spec fn resolve_exact(b: BindingsView, ns: Namespace, name: PoolS, types: Seq<TypeName>) -> Option<FunID> {
    first_fit(b, ns, name, types, true, b.overloads.len())
}

/// The first function registered under `ns` and `name` that accepts arguments of types `types`.
pub open spec fn resolve_compat(b: BindingsView, ns: Namespace, name: PoolS, types: Seq<TypeName>) -> Option<FunID> {
    first_fit(b, ns, name, types, false, b.overloads.len())
}

/// Method resolution from inside a type: its own dynamic namespace first, with an implicit
/// receiver, then the global namespace without one. The namespaces of base classes are not
/// searched.
pub open spec fn resolve_in_self(b: BindingsView, ns: Namespace, name: PoolS, types: Seq<TypeName>) -> Option<(FunID, bool)> {
    match resolve_compat(b, ns, name, types) {
        Some(f) => Some((f, true)),
        None => match resolve_compat(b, Namespace::Global, name, types) {
            Some(g) => Some((g, false)),
            None => None,
        },
    }
}

/// One allocation: the identity returned is the table's next identity, and the next identity
/// moves past it. `new_var_binding`, a successful `new_fun_binding` and the creation of a new
/// type all allocate so.
pub open spec fn allocates(before: BindingsView, after: BindingsView, id: nat) -> bool {
    id == before.next_id() && after.next_id() == before.next_id() + 1
}

/// Identities are never handed out twice: along any sequence of table states in which the next identity never
/// decreases (which every operation of `Bindings` ensures), an identity allocated at an earlier
/// step is smaller than one allocated at a later step; so all allocated identities are pairwise
/// distinct and strictly increasing.
pub proof fn lemma_identity_uniqueness(states: Seq<BindingsView>, i: int, id_i: nat, j: int, id_j: nat)
    requires
        0 <= i < j,
        j + 1 < states.len(),
        forall|k: int| 0 <= k < states.len() - 1 ==> (#[trigger] states[k]).next_id() <= states[k + 1].next_id(),
        allocates(states[i], states[i + 1], id_i),
        allocates(states[j], states[j + 1], id_j),
    ensures
        id_i < id_j,
    decreases j - i,
{
    lemma_next_id_monotone(states, i + 1, j);
}

proof fn lemma_next_id_monotone(states: Seq<BindingsView>, a: int, b: int)
    requires
        0 <= a <= b < states.len(),
        forall|k: int| 0 <= k < states.len() - 1 ==> (#[trigger] states[k]).next_id() <= states[k + 1].next_id(),
    ensures
        states[a].next_id() <= states[b].next_id(),
    decreases b - a,
{
    if a < b {
        lemma_next_id_monotone(states, a + 1, b);
        assert(states[a].next_id() <= states[a + 1].next_id());
    }
}

/// What a successful `new_fun_binding(ns, name, _, args)` on `before` leaves in `after`.
pub open spec fn registers(before: BindingsView, after: BindingsView, ns: Namespace, name: PoolS, args: Seq<VarID>) -> bool {
    let f = FunID(before.next_id() as u64);
    &&& after.entries.len() == before.entries.len() + 1
    &&& after.entries.take(before.entries.len() as int) == before.entries
    &&& after.entries.last() is Fun
    &&& after.fun(f).args@ == args
    &&& after.overloads == before.overloads.push((ns, name, f))
    &&& before.next_id() <= u64::MAX
}

/// A signature is registered at most once: once a function is registered under a namespace and a name, a second
/// declaration under them whose parameters have the same types finds it, so `new_fun_binding`
/// refuses the second one with `DuplicateSignature`.
pub proof fn lemma_overload_rejection(before: BindingsView, after: BindingsView, ns: Namespace, name: PoolS, args: Seq<VarID>, second: Seq<VarID>)
    requires
        forall|k: int| 0 <= k < args.len() ==> before.is_var(#[trigger] args[k]),
        registers(before, after, ns, name, args),
        param_types(after, second) == param_types(before, args),
    ensures
        resolve_exact(after, ns, name, param_types(after, second)) is Some,
{
    let n = before.overloads.len();
    let f = FunID(before.next_id() as u64);
    assert forall|k: int| 0 <= k < args.len() implies after.var(args[k]) == before.var(args[k]) by {
        assert(before.is_var(args[k]));
        assert(after.entries.take(before.entries.len() as int)[args[k].0 as int] == after.entries[args[k].0 as int]);
    }
    assert(param_types(after, args) =~= param_types(before, args));
    assert(after.overloads[n as int] == (ns, name, f));
    assert(overload_fits(after, n as int, ns, name, param_types(after, second), true));
    if first_fit(after, ns, name, param_types(after, second), true, n) is None {
        assert(first_fit(after, ns, name, param_types(after, second), true, n + 1) is Some);
    } else {
        lemma_first_fit_stable(after, ns, name, param_types(after, second), true, n, n + 1);
    }
}

/// Two tables with the same registered functions, whose parameters have the same types.
pub open spec fn same_overloads(a: BindingsView, b: BindingsView) -> bool {
    &&& a.overloads == b.overloads
    &&& forall|k: int| 0 <= k < a.overloads.len() ==> {
        let f = (#[trigger] a.overloads[k]).2;
        &&& a.fun(f).args@ == b.fun(f).args@
        &&& param_types(a, a.fun(f).args@) == param_types(b, b.fun(f).args@)
    }
}

/// Call-site resolution depends only on the registered functions and the argument types: two
/// tables with the same overloads resolve a call with the same argument types to the same
/// function, and that function is the first compatible one in registration order.
pub proof fn lemma_resolution_deterministic(a: BindingsView, b: BindingsView, ns: Namespace, name: PoolS, types: Seq<TypeName>)
    requires
        same_overloads(a, b),
    ensures
        resolve_compat(a, ns, name, types) == resolve_compat(b, ns, name, types),
        resolve_compat(a, ns, name, types) matches Some(f) ==> exists|k: int| {
            &&& 0 <= k < a.overloads.len()
            &&& a.overloads[k].2 == f
            &&& overload_fits(a, k, ns, name, types, false)
            &&& forall|j: int| 0 <= j < k ==> !overload_fits(a, j, ns, name, types, false)
        },
{
    lemma_first_fit_same(a, b, ns, name, types, a.overloads.len());
    lemma_first_fit_first(a, ns, name, types, false, a.overloads.len());
}

proof fn lemma_first_fit_same(a: BindingsView, b: BindingsView, ns: Namespace, name: PoolS, types: Seq<TypeName>, n: nat)
    requires
        same_overloads(a, b),
        n <= a.overloads.len(),
    ensures
        first_fit(a, ns, name, types, false, n) == first_fit(b, ns, name, types, false, n),
    decreases n,
{
    if n > 0 {
        lemma_first_fit_same(a, b, ns, name, types, (n - 1) as nat);
        let k = n - 1;
        let f = a.overloads[k].2;
        assert(a.fun(f).args@ == b.fun(f).args@);
        assert(param_types(a, a.fun(f).args@) == param_types(b, b.fun(f).args@));
        let args = a.fun(f).args@;
        assert forall|i: int| 0 <= i < args.len() implies a.var(args[i]).typ == b.var(args[i]).typ by {
            assert(param_types(a, args)[i] == param_types(b, args)[i]);
        }
        assert(overload_fits(a, k, ns, name, types, false) == overload_fits(b, k, ns, name, types, false));
    }
}

pub proof fn lemma_first_fit_first(a: BindingsView, ns: Namespace, name: PoolS, types: Seq<TypeName>, exact: bool, n: nat)
    requires
        n <= a.overloads.len(),
    ensures
        first_fit(a, ns, name, types, exact, n) matches Some(f) ==> exists|k: int| {
            &&& 0 <= k < n
            &&& a.overloads[k].2 == f
            &&& overload_fits(a, k, ns, name, types, exact)
            &&& forall|j: int| 0 <= j < k ==> !overload_fits(a, j, ns, name, types, exact)
        },
        first_fit(a, ns, name, types, exact, n) is None ==> forall|j: int| 0 <= j < n ==> !overload_fits(a, j, ns, name, types, exact),
    decreases n,
{
    if n > 0 {
        lemma_first_fit_first(a, ns, name, types, exact, (n - 1) as nat);
        if first_fit(a, ns, name, types, exact, (n - 1) as nat) is None {
            if overload_fits(a, n - 1, ns, name, types, exact) {
                assert(forall|j: int| 0 <= j < n - 1 ==> !overload_fits(a, j, ns, name, types, exact));
            } else {
                assert forall|j: int| 0 <= j < n implies !overload_fits(a, j, ns, name, types, exact) by {}
            }
        }
    }
}

/// No two registered functions share a namespace, a name and parameter types.
pub open spec fn signatures_distinct(b: BindingsView) -> bool {
    forall|j: int, k: int| 0 <= j < k < b.overloads.len() ==> !overload_fits(
        b,
        j,
        b.overloads[k].0,
        b.overloads[k].1,
        param_types(b, b.fun(b.overloads[k].2).args@),
        true,
    )
}

/// Tables with the same overloads agree on whether their signatures are distinct.
pub proof fn lemma_same_overloads_keeps_distinct(a: BindingsView, b: BindingsView)
    requires
        same_overloads(a, b),
        signatures_distinct(a),
    ensures
        signatures_distinct(b),
{
    assert forall|j: int, k: int| 0 <= j < k < b.overloads.len() implies !overload_fits(
        b, j, b.overloads[k].0, b.overloads[k].1, param_types(b, b.fun(b.overloads[k].2).args@), true) by {
        let fk = a.overloads[k].2;
        let fj = a.overloads[j].2;
        assert(param_types(a, a.fun(fk).args@) == param_types(b, b.fun(fk).args@));
        assert(param_types(a, a.fun(fj).args@) == param_types(b, b.fun(fj).args@));
        assert(!overload_fits(a, j, a.overloads[k].0, a.overloads[k].1, param_types(a, a.fun(fk).args@), true));
    }
}

/// When no registered function has the new function's signature, registering it keeps the
/// signatures distinct.
pub proof fn lemma_register_keeps_distinct(a: BindingsView, b: BindingsView, ns: Namespace, name: PoolS, f: FunID)
    requires
        signatures_distinct(a),
        b.overloads == a.overloads.push((ns, name, f)),
        same_overloads(a, BindingsView { overloads: a.overloads, ..b }),
        resolve_exact(a, ns, name, param_types(b, b.fun(f).args@)) is None,
    ensures
        signatures_distinct(b),
{
    let n = a.overloads.len();
    let mid = BindingsView { overloads: a.overloads, ..b };
    let types = param_types(b, b.fun(f).args@);
    lemma_first_fit_first(a, ns, name, types, true, n);
    assert forall|j: int, k: int| 0 <= j < k < b.overloads.len() implies !overload_fits(
        b, j, b.overloads[k].0, b.overloads[k].1, param_types(b, b.fun(b.overloads[k].2).args@), true) by {
        let fj = a.overloads[j].2;
        assert(b.overloads[j] == a.overloads[j]);
        assert(param_types(a, a.fun(fj).args@) == param_types(mid, mid.fun(fj).args@));
        assert(param_types(b, b.fun(fj).args@) =~= param_types(mid, mid.fun(fj).args@));
        assert(b.fun(fj).args@ == a.fun(fj).args@);
        if k < n {
            let fk = a.overloads[k].2;
            assert(b.overloads[k] == a.overloads[k]);
            assert(param_types(a, a.fun(fk).args@) == param_types(mid, mid.fun(fk).args@));
            assert(param_types(b, b.fun(fk).args@) =~= param_types(mid, mid.fun(fk).args@));
            assert(!overload_fits(a, j, a.overloads[k].0, a.overloads[k].1, param_types(a, a.fun(fk).args@), true));
        } else {
            assert(b.overloads[k] == (ns, name, f));
            assert(!overload_fits(a, j, ns, name, types, true));
        }
    }
}

} // verus!
