//! The binding table as the parser sees it: which identity is a variable of which type, a
//! function or a type, and the signatures of the registered functions.

use vstd::prelude::*;
use crate::ast::types::TypeName;
use crate::bindings::{Binding, BindingsView, FunID, Namespace, VarID, param_types, same_overloads, resolve_exact, overload_fits, first_fit, find_type};
use crate::bindings::resolution::lemma_first_fit_first;
use crate::string_pool::PoolS;

verus! {

/// What one identity stands for, without output names.
pub ghost enum RecordKind {
    Variable(TypeName),
    Function,
    TypeRecord(TypeName),
}

/// A table as kinds of records in identity order, and the signatures of its functions in
/// registration order.
pub ghost struct TableModel {
    pub kinds: Seq<RecordKind>,
    pub sigs: Seq<(Namespace, PoolS, Seq<TypeName>)>,
}

pub open spec fn kind_of(e: Binding) -> RecordKind {
    match e {
        Binding::Var(v) => RecordKind::Variable(v.typ),
        Binding::Fun(_) => RecordKind::Function,
        Binding::Type(t) => RecordKind::TypeRecord(t.associated_typename),
    }
}

/// The model of a table.
pub open spec fn model_of(b: BindingsView) -> TableModel {
    TableModel {
        kinds: b.entries.map_values(|e: Binding| kind_of(e)),
        sigs: b.overloads.map_values(|o: (Namespace, PoolS, FunID)| (o.0, o.1, param_types(b, b.fun(o.2).args@))),
    }
}

impl TableModel {
    pub open spec fn next_id(self) -> nat {
        self.kinds.len()
    }

    /// The types of the variables `args`.
    pub open spec fn types_of(self, args: Seq<VarID>) -> Seq<TypeName> {
        args.map_values(|a: VarID| self.kinds[a.0 as int]->Variable_0)
    }

    /// A new variable of type `t`.
    pub open spec fn add_var(self, t: TypeName) -> TableModel {
        TableModel { kinds: self.kinds.push(RecordKind::Variable(t)), ..self }
    }

    pub open spec fn has_type(self, t: TypeName) -> bool {
        exists|k: int| 0 <= k < self.kinds.len() && self.kinds[k] == RecordKind::TypeRecord(t)
    }

    /// The type named `t`, made if there is none.
    pub open spec fn make_type(self, t: TypeName) -> TableModel {
        if self.has_type(t) {
            self
        } else {
            TableModel { kinds: self.kinds.push(RecordKind::TypeRecord(t)), ..self }
        }
    }

    /// Registering a function: refused when its signature is taken, else the next identity.
    pub open spec fn declare_fun(self, ns: Namespace, name: PoolS, args: Seq<VarID>) -> (TableModel, Option<FunID>) {
        let sig = (ns, name, self.types_of(args));
        if exists|k: int| 0 <= k < self.sigs.len() && self.sigs[k] == sig {
            (self, None)
        } else {
            (
                TableModel { kinds: self.kinds.push(RecordKind::Function), sigs: self.sigs.push(sig) },
                Some(FunID(self.kinds.len() as u64)),
            )
        }
    }
}

/// Tables with the same overloads have the same signatures.
pub proof fn lemma_same_sigs(a: BindingsView, b: BindingsView)
    requires
        same_overloads(a, b),
    ensures
        model_of(a).sigs == model_of(b).sigs,
{
    assert forall|k: int| 0 <= k < a.overloads.len() implies model_of(a).sigs[k] == model_of(b).sigs[k] by {
        let f = a.overloads[k].2;
        assert(param_types(a, a.fun(f).args@) == param_types(b, b.fun(f).args@));
    }
    assert(model_of(a).sigs =~= model_of(b).sigs);
}

/// The model's types of variables are the table's.
pub proof fn lemma_model_types(b: BindingsView, args: Seq<VarID>)
    requires
        forall|k: int| 0 <= k < args.len() ==> b.is_var(#[trigger] args[k]),
    ensures
        model_of(b).types_of(args) == param_types(b, args),
{
    assert forall|k: int| 0 <= k < args.len() implies model_of(b).types_of(args)[k] == param_types(b, args)[k] by {
        assert(b.is_var(args[k]));
        assert(model_of(b).kinds[args[k].0 as int] == kind_of(b.entries[args[k].0 as int]));
    }
    assert(model_of(b).types_of(args) =~= param_types(b, args));
}

/// A signature is taken exactly when resolution finds a function with exactly those types.
pub proof fn lemma_sig_taken(b: BindingsView, ns: Namespace, name: PoolS, types: Seq<TypeName>)
    ensures
        resolve_exact(b, ns, name, types) is Some <==> exists|k: int|
            0 <= k < model_of(b).sigs.len() && model_of(b).sigs[k] == (ns, name, types),
{
    lemma_first_fit_first(b, ns, name, types, true, b.overloads.len());
    if resolve_exact(b, ns, name, types) is Some {
        let k = choose|k: int| {
            &&& 0 <= k < b.overloads.len()
            &&& b.overloads[k].2 == resolve_exact(b, ns, name, types).unwrap()
            &&& overload_fits(b, k, ns, name, types, true)
            &&& forall|j: int| 0 <= j < k ==> !overload_fits(b, j, ns, name, types, true)
        };
        assert(model_of(b).sigs[k] == (ns, name, types));
    } else {
        assert forall|k: int| 0 <= k < model_of(b).sigs.len() implies model_of(b).sigs[k] != (ns, name, types) by {
            assert(!overload_fits(b, k, ns, name, types, true));
            let f = b.overloads[k].2;
            if model_of(b).sigs[k] == (ns, name, types) {
                assert(param_types(b, b.fun(f).args@).len() == b.fun(f).args@.len());
            }
        }
    }
}

/// A type is found exactly when some record is a type of that name.
pub proof fn lemma_has_type(b: BindingsView, t: TypeName, n: nat)
    requires
        n <= b.entries.len(),
    ensures
        find_type(b.entries, t, n) is Some <==> exists|k: int| 0 <= k < n && kind_of(b.entries[k]) == RecordKind::TypeRecord(t),
    decreases n,
{
    if n > 0 {
        lemma_has_type(b, t, (n - 1) as nat);
        if find_type(b.entries, t, n) is None {
            assert forall|k: int| 0 <= k < n implies kind_of(b.entries[k]) != RecordKind::TypeRecord(t) by {
                if k < n - 1 {
                }
            }
        } else if find_type(b.entries, t, (n - 1) as nat) is None {
            assert(kind_of(b.entries[n - 1]) == RecordKind::TypeRecord(t));
        } else {
            let k = choose|k: int| 0 <= k < n - 1 && kind_of(b.entries[k]) == RecordKind::TypeRecord(t);
            assert(0 <= k < n && kind_of(b.entries[k]) == RecordKind::TypeRecord(t));
        }
    }
}

pub proof fn lemma_model_has_type(b: BindingsView, t: TypeName)
    ensures
        b.type_named(t) is Some <==> model_of(b).has_type(t),
{
    lemma_has_type(b, t, b.entries.len());
    if model_of(b).has_type(t) {
        let k = choose|k: int| 0 <= k < model_of(b).kinds.len() && model_of(b).kinds[k] == RecordKind::TypeRecord(t);
        assert(kind_of(b.entries[k]) == RecordKind::TypeRecord(t));
    }
    if b.type_named(t) is Some {
        let k = choose|k: int| 0 <= k < b.entries.len() && kind_of(b.entries[k]) == RecordKind::TypeRecord(t);
        assert(model_of(b).kinds[k] == RecordKind::TypeRecord(t));
    }
}

} // verus!
