//! The binding table: the one authority over identities of variables, functions and types,
//! their metadata, and overload resolution.

use vstd::prelude::*;
use crate::ast::types::{TypeName, type_text, may_coerce};
use crate::ast::typecheck::{match_spec, type_match_var};
use crate::error::CompileError;
use crate::string_pool::{separator, lemma_numbered_name_split, bytes_equal, PoolS, StringPool, pooled_text, push_bytes, push_str, push_decimal, decimal};
use vstd::string::StringSliceAdditionalSpecFns;

pub mod model;
pub mod resolution;

pub use model::{RecordKind, TableModel, model_of};
use model::{kind_of, lemma_has_type, lemma_model_has_type, lemma_model_types, lemma_same_sigs, lemma_sig_taken};
pub use resolution::{
    lemma_register_keeps_distinct,
    lemma_same_overloads_keeps_distinct, same_overloads, signatures_distinct,
    allocates, first_fit, lemma_first_fit_stable, overload_fits, param_types, resolve_compat, resolve_exact,
    resolve_in_self,
};

verus! {

#[derive(Debug, Clone, Copy, PartialEq, Eq, Hash, Structural)]
pub struct VarID(pub u64);

#[derive(Debug, Clone, Copy, PartialEq, Eq, Hash, Structural)]
pub struct FunID(pub u64);

#[derive(Debug, Clone, Copy, PartialEq, Eq, Hash, Structural)]
pub struct TypeID(pub u64);

/// Where a function lives: globally, or on a type for static or for dynamic (instance) calls.
#[derive(Debug, Clone, Copy, PartialEq, Eq, Hash, Structural)]
pub enum Namespace {
    Global,
    StaticCall(PoolS),
    DynamicCall(PoolS),
}

/// The prefix that a namespace gives the mangled names of its functions.
pub open spec fn namespace_text(pool: Seq<Seq<u8>>, ns: Namespace) -> Seq<u8> {
    match ns {
        Namespace::Global => "g_".spec_bytes(),
        Namespace::StaticCall(t) => "s".spec_bytes() + pooled_text(pool, t) + "_".spec_bytes(),
        Namespace::DynamicCall(t) => "d".spec_bytes() + pooled_text(pool, t) + "_".spec_bytes(),
    }
}

impl Namespace {
    /// Appends the namespace's mangling prefix to `out`.
    pub fn write_text(&self, pool: &StringPool, out: &mut Vec<u8>)
        ensures
            final(out)@ == old(out)@ + namespace_text(pool.view(), *self),
    {
        match self {
            Namespace::Global => push_str(out, "g_"),
            Namespace::StaticCall(t) => {
                push_str(out, "s");
                pool.write_pooled(*t, out);
                push_str(out, "_");
            },
            Namespace::DynamicCall(t) => {
                push_str(out, "d");
                pool.write_pooled(*t, out);
                push_str(out, "_");
            },
        }
    }
}

pub struct VarBinding {
    pub output_name: Vec<u8>,
    pub typ: TypeName,
    /// Whether the variable is a field of a type rather than a local.
    pub is_member: bool,
}

impl VarBinding {
    pub fn new(output_name: Vec<u8>, typ: TypeName) -> (r: Self)
        ensures
            r.output_name == output_name,
            r.typ == typ,
            !r.is_member,
    {
        VarBinding { output_name, typ, is_member: false }
    }
}

pub struct FunBinding {
    pub output_name: Vec<u8>,
    pub return_type: TypeName,
    pub args: Vec<VarID>,
    pub called_on: Option<TypeName>,
    pub namespace: Namespace,
}

impl FunBinding {
    pub fn new(namespace: Namespace, output_name: Vec<u8>, return_type: TypeName, args: Vec<VarID>) -> (r: Self)
        ensures
            r.namespace == namespace,
            r.output_name == output_name,
            r.return_type == return_type,
            r.args == args,
            r.called_on is None,
    {
        FunBinding { output_name, return_type, args, called_on: None, namespace }
    }
}

/// A declared type: its fields in declaration order and its base class, if any. The parser does
/// not record the base class named after `extends`, so no field list inherits another's.
pub struct Type {
    pub members: Vec<VarID>,
    pub base_class: Option<TypeName>,
    pub output_name: Vec<u8>,
    pub associated_typename: TypeName,
}

impl Type {
    pub fn new(typename: &TypeName, pool: &StringPool) -> (r: Type)
        ensures
            r.members@.len() == 0,
            r.base_class is None,
            r.output_name@ == type_text(pool.view(), *typename),
            r.associated_typename == *typename,
    {
        let mut output_name: Vec<u8> = Vec::new();
        typename.write_text(pool, &mut output_name);
        Type {
            members: Vec::new(),
            base_class: None,
            output_name,
            associated_typename: typename.clone(),
        }
    }
}

/// What one identity stands for.
pub enum Binding {
    Var(VarBinding),
    Fun(FunBinding),
    Type(Type),
}

/// The authority over identities: every variable, function and type gets its identity here, from
/// one counter, and the identity is the position of its record.
pub struct Bindings {
    entries: Vec<Binding>,
    /// Functions in order of registration, by namespace and source name.
    overloads: Vec<(Namespace, PoolS, FunID)>,
    /// For each record of a variable, in step with `entries`, the text of its raw name and its
    /// sequence number for that name; nothing for the other records.
    names: Vec<Option<(Vec<u8>, u64)>>,
}

/// The mathematical content of a binding table: its records by identity, and its functions in
/// registration order.
pub ghost struct BindingsView {
    pub entries: Seq<Binding>,
    pub overloads: Seq<(Namespace, PoolS, FunID)>,
}

impl BindingsView {
    /// The identity that the next allocation returns.
    pub open spec fn next_id(self) -> nat {
        self.entries.len()
    }

    pub open spec fn is_var(self, id: VarID) -> bool {
        id.0 < self.entries.len() && self.entries[id.0 as int] is Var
    }

    pub open spec fn is_fun(self, id: FunID) -> bool {
        id.0 < self.entries.len() && self.entries[id.0 as int] is Fun
    }

    pub open spec fn is_type(self, id: TypeID) -> bool {
        id.0 < self.entries.len() && self.entries[id.0 as int] is Type
    }

    pub open spec fn var(self, id: VarID) -> VarBinding {
        self.entries[id.0 as int]->Var_0
    }

    pub open spec fn fun(self, id: FunID) -> FunBinding {
        self.entries[id.0 as int]->Fun_0
    }

    pub open spec fn type_at(self, id: TypeID) -> Type {
        self.entries[id.0 as int]->Type_0
    }

    pub open spec fn type_named(self, t: TypeName) -> Option<TypeID> {
        find_type(self.entries, t, self.entries.len())
    }

    /// The table with the type of variable `id` replaced by `t`.
    pub open spec fn with_var_type(self, id: VarID, t: TypeName) -> BindingsView {
        BindingsView {
            entries: self.entries.update(id.0 as int, Binding::Var(VarBinding { typ: t, ..self.var(id) })),
            ..self
        }
    }
}

/// Every variable of `a` is still a variable in `b`.
pub open spec fn keeps_vars(a: BindingsView, b: BindingsView) -> bool {
    forall|v: VarID| #[trigger] a.is_var(v) ==> b.is_var(v)
}

/// Every type found in `a` is found at the same identity in `b`.
pub open spec fn keeps_types(a: BindingsView, b: BindingsView) -> bool {
    forall|t: TypeName| (#[trigger] a.type_named(t)) is Some ==> b.type_named(t) == a.type_named(t)
}

/// How many variables were declared under the raw name `text` before: one more than the
/// sequence number of the latest of them, or none.
pub open spec fn name_uses(names: Seq<Option<(Vec<u8>, u64)>>, text: Seq<u8>) -> nat
    decreases names.len(),
{
    if names.len() == 0 {
        0
    } else if names.last() matches Some((t, c)) && t@ == text {
        names.last()->Some_0.1 as nat + 1
    } else {
        name_uses(names.drop_last(), text)
    }
}

impl Bindings {
    pub closed spec fn entries(&self) -> Seq<Binding> {
        self.entries@
    }

    pub closed spec fn overloads(&self) -> Seq<(Namespace, PoolS, FunID)> {
        self.overloads@
    }

    pub closed spec fn names_log(&self) -> Seq<Option<(Vec<u8>, u64)>> {
        self.names@
    }

    /// How many variables were declared under the raw name `text`.
    pub closed spec fn uses(&self, text: Seq<u8>) -> nat {
        name_uses(self.names@, text)
    }

    pub open spec fn view(&self) -> BindingsView {
        BindingsView { entries: self.entries(), overloads: self.overloads() }
    }

    /// The identity that the next allocation returns.
    pub open spec fn next_id(&self) -> nat {
        self@.next_id()
    }

    pub open spec fn is_var(&self, id: VarID) -> bool {
        self@.is_var(id)
    }

    pub open spec fn is_fun(&self, id: FunID) -> bool {
        self@.is_fun(id)
    }

    pub open spec fn is_type(&self, id: TypeID) -> bool {
        self@.is_type(id)
    }

    pub open spec fn var(&self, id: VarID) -> VarBinding {
        self@.var(id)
    }

    pub open spec fn fun(&self, id: FunID) -> FunBinding {
        self@.fun(id)
    }

    pub open spec fn type_at(&self, id: TypeID) -> Type {
        self@.type_at(id)
    }

    pub closed spec fn wf(&self) -> bool {
        &&& self.names@.len() == self.entries@.len()
        &&& forall|i: int| 0 <= i < self.entries@.len() ==> ((#[trigger] self.entries@[i]) is Var <==> self.names@[i] is Some)
        &&& forall|i: int| 0 <= i < self.names@.len() && (#[trigger] self.names@[i]) is Some ==> {
            let t = self.names@[i]->Some_0.0@;
            let c = self.names@[i]->Some_0.1;
            &&& self.entries@[i] is Var
            &&& self.entries@[i]->Var_0.output_name@ == t + separator() + decimal(c as nat)
            &&& c < name_uses(self.names@, t)
            &&& c < self.entries@.len()
        }
        &&& forall|k: int| 0 <= k < self.overloads@.len() ==> {
            let (ns, _, f) = #[trigger] self.overloads@[k];
            self.is_fun(f) && self.fun(f).namespace == ns
        }
        &&& forall|i: int, k: int| 0 <= i < self.entries@.len() && self.entries@[i] is Fun
            && 0 <= k < self.entries@[i]->Fun_0.args@.len()
            ==> self.is_var(#[trigger] self.entries@[i]->Fun_0.args@[k])
        &&& forall|i: int, k: int| 0 <= i < self.entries@.len() && self.entries@[i] is Type
            && 0 <= k < self.entries@[i]->Type_0.members@.len()
            ==> self.is_var(#[trigger] self.entries@[i]->Type_0.members@[k])
    }

    pub fn new() -> (r: Self)
        ensures
            r.wf(),
            r.next_id() == 0,
            r.overloads().len() == 0,
            forall|n: Seq<u8>| r.uses(n) == 0,
    {
        Bindings { entries: Vec::new(), overloads: Vec::new(), names: Vec::new() }
    }

    /// The sequence number that the next variable declared under the raw name `text` receives.
    fn name_number(&self, text: &Vec<u8>) -> (r: u64)
        requires
            self.wf(),
        ensures
            r == self.uses(text@),
            r <= self.entries@.len(),
    {
        let mut i: usize = self.names.len();
        let len = self.entries.len();
        assert(self.names@.take(i as int) =~= self.names@);
        while i > 0
            invariant
                self.wf(),
                len == self.entries@.len(),
                i <= self.names@.len(),
                name_uses(self.names@.take(i as int), text@) == name_uses(self.names@, text@),
            decreases i,
        {
            let ghost prefix = self.names@.take(i as int);
            assert(prefix.drop_last() =~= self.names@.take(i - 1));
            if let Some((t, c)) = &self.names[i - 1] {
                if bytes_equal(t, text) {
                    assert(self.names@[i - 1] is Some);
                    return *c + 1;
                }
            }
            i -= 1;
        }
        0
    }

    /// Records a new variable of type `typ` under the raw name `name`. Its output name is the raw
    /// name followed by a sequence number for that name, so no two variables share an output name,
    /// shadowing included.
    pub fn new_var_binding(&mut self, pool: &StringPool, name: PoolS, typ: TypeName) -> (r: VarID)
        requires
            old(self).wf(),
        ensures
            model_of(final(self)@) == model_of(old(self)@).add_var(typ),
            signatures_distinct(old(self)@) ==> signatures_distinct(final(self)@),
            same_overloads(old(self)@, final(self)@),
            keeps_types(old(self)@, final(self)@),
            keeps_vars(old(self)@, final(self)@),
            final(self).wf(),
            r.0 == old(self).next_id(),
            final(self).entries() == old(self).entries().push(Binding::Var(final(self).var(r))),
            final(self).var(r).output_name@ == pooled_text(pool.view(), name) + separator()
                + decimal(old(self).uses(pooled_text(pool.view(), name))),
            forall|v: VarID| #[trigger] old(self).is_var(v) ==> old(self).var(v).output_name@ != final(self).var(r).output_name@,
            final(self).var(r).typ == typ,
            !final(self).var(r).is_member,
            final(self).overloads() == old(self).overloads(),
            forall|n: Seq<u8>| #[trigger] final(self).uses(n) == if n == pooled_text(pool.view(), name) {
                old(self).uses(n) + 1
            } else {
                old(self).uses(n)
            },
    {
        let mut text: Vec<u8> = Vec::new();
        pool.write_pooled(name, &mut text);
        let num = self.name_number(&text);
        let mut output_name: Vec<u8> = Vec::new();
        pool.write_pooled(name, &mut output_name);
        output_name.push(95u8);
        push_decimal(&mut output_name, num);
        let id = VarID(self.entries.len() as u64);
        let ghost t = text@;
        let ghost old_names = self.names@;
        self.names.push(Some((text, num)));
        self.entries.push(Binding::Var(VarBinding::new(output_name, typ)));
        proof {
            assert(self.entries@.take(old(self).entries@.len() as int) =~= old(self).entries@);
            assert(self.names@.drop_last() =~= old_names);
            assert(output_name@ =~= t + separator() + decimal(num as nat));
            self.lemma_push_keeps_wf(old(self));
            lemma_push_keeps_types(old(self)@, self@);
            old(self).lemma_frame_same_overloads(self@);
            lemma_same_sigs(old(self)@, self@);
            assert(model_of(self@).kinds =~= model_of(old(self)@).kinds.push(kind_of(self.entries@.last())));
            if signatures_distinct(old(self)@) {
                lemma_same_overloads_keeps_distinct(old(self)@, self@);
            }
            assert forall|v: VarID| #[trigger] old(self).is_var(v)
                implies old(self).var(v).output_name@ != self.var(id).output_name@ by {
                let k = v.0 as int;
                assert(old(self).entries@[k] is Var);
                let tk = old_names[k]->Some_0.0@;
                let ck = old_names[k]->Some_0.1;
                if old(self).var(v).output_name@ == self.var(id).output_name@ {
                    lemma_numbered_name_split(tk, ck as nat, t, num as nat);
                }
            }
        }
        id
    }

    proof fn lemma_push_keeps_wf(&self, before: &Bindings)
        requires
            before.wf(),
            self.entries@.len() == before.entries@.len() + 1,
            self.entries@.take(before.entries@.len() as int) == before.entries@,
            self.overloads@ == before.overloads@ || (self.overloads@.drop_last() == before.overloads@
                && self.overloads@.last().2.0 == before.entries@.len() && self.entries@.last() is Fun
                && self.entries@.last()->Fun_0.namespace == self.overloads@.last().0),
            self.names@.len() == before.names@.len() + 1,
            self.names@.drop_last() == before.names@,
            (self.entries@.last() is Var) == (self.names@.last() is Some),
            self.names@.last() is Some ==> {
                let t = self.names@.last()->Some_0.0@;
                let c = self.names@.last()->Some_0.1;
                &&& self.entries@.last()->Var_0.output_name@ == t + separator() + decimal(c as nat)
                &&& c as nat == name_uses(before.names@, t)
                &&& c <= before.entries@.len()
            },
            self.entries@.last() is Fun ==> forall|k: int| 0 <= k < self.entries@.last()->Fun_0.args@.len()
                ==> before.is_var(#[trigger] self.entries@.last()->Fun_0.args@[k]),
            self.entries@.last() is Type ==> self.entries@.last()->Type_0.members@.len() == 0,
        ensures
            self.wf(),
    {
        let n = before.entries@.len() as int;
        assert forall|i: int| 0 <= i < n implies self.entries@[i] == before.entries@[i] by {
            assert(self.entries@.take(n)[i] == self.entries@[i]);
        }
        assert forall|k: int| 0 <= k < self.overloads@.len() implies {
            let (ns, _, f) = #[trigger] self.overloads@[k];
            self.is_fun(f) && self.fun(f).namespace == ns
        } by {
            if k < before.overloads@.len() {
                if self.overloads@ != before.overloads@ {
                    assert(self.overloads@.drop_last()[k] == self.overloads@[k]);
                }
                assert(self.overloads@[k] == before.overloads@[k]);
                let f = self.overloads@[k].2;
                assert(before.is_fun(f));
                assert(self.entries@[f.0 as int] == before.entries@[f.0 as int]);
            }
        }
        assert forall|i: int, k: int| 0 <= i < self.entries@.len() && self.entries@[i] is Fun
            && 0 <= k < self.entries@[i]->Fun_0.args@.len()
            implies self.is_var(#[trigger] self.entries@[i]->Fun_0.args@[k]) by {
            let a = self.entries@[i]->Fun_0.args@[k];
            if i < n {
                assert(before.is_var(before.entries@[i]->Fun_0.args@[k]));
            }
            assert(before.is_var(a));
            assert(self.entries@[a.0 as int] == before.entries@[a.0 as int]);
        }
        assert forall|i: int, k: int| 0 <= i < self.entries@.len() && self.entries@[i] is Type
            && 0 <= k < self.entries@[i]->Type_0.members@.len()
            implies self.is_var(#[trigger] self.entries@[i]->Type_0.members@[k]) by {
            let a = self.entries@[i]->Type_0.members@[k];
            assert(i < n);
            assert(before.is_var(before.entries@[i]->Type_0.members@[k]));
            assert(self.entries@[a.0 as int] == before.entries@[a.0 as int]);
        }
        assert forall|i: int| 0 <= i < self.entries@.len() implies ((#[trigger] self.entries@[i]) is Var <==> self.names@[i] is Some) by {
            assert(self.names@.len() == n + 1);
            if i < n {
                assert(self.names@.drop_last()[i] == self.names@[i]);
                assert(self.names@[i] == before.names@[i]);
                assert(before.entries@[i] is Var <==> before.names@[i] is Some);
            } else {
                assert(self.names@.last() == self.names@[i]);
                assert(self.entries@.last() == self.entries@[i]);
            }
        }
        assert forall|i: int| 0 <= i < self.names@.len() && (#[trigger] self.names@[i]) is Some implies {
            let t = self.names@[i]->Some_0.0@;
            let c = self.names@[i]->Some_0.1;
            &&& self.entries@[i] is Var
            &&& self.entries@[i]->Var_0.output_name@ == t + separator() + decimal(c as nat)
            &&& c < name_uses(self.names@, t)
            &&& c < self.entries@.len()
        } by {
            let t = self.names@[i]->Some_0.0@;
            assert(self.names@.len() == n + 1);
            if i < n {
                assert(self.names@.drop_last()[i] == self.names@[i]);
                assert(self.names@[i] == before.names@[i]);
                assert(before.names@[i] is Some);
                assert(before.entries@[i] is Var);
                assert(name_uses(self.names@, t) >= name_uses(before.names@, t));
            } else {
                assert(self.names@.last() == self.names@[i]);
                assert(self.entries@.last() == self.entries@[i]);
            }
        }
    }

    /// The position of the record of identity `id`.
    fn slot(&self, id: u64) -> (r: usize)
        requires
            id < self.entries@.len(),
        ensures
            r == id,
    {
        let n = self.entries.len();
        id as usize
    }

    pub fn get_var(&self, id: VarID) -> (r: &VarBinding)
        requires
            self.is_var(id),
        ensures
            *r == self.var(id),
    {
        match &self.entries[self.slot(id.0)] {
            Binding::Var(v) => v,
            _ => vstd::pervasive::unreached(),
        }
    }

    pub fn get_fun(&self, id: FunID) -> (r: &FunBinding)
        requires
            self.is_fun(id),
        ensures
            *r == self.fun(id),
    {
        match &self.entries[self.slot(id.0)] {
            Binding::Fun(f) => f,
            _ => vstd::pervasive::unreached(),
        }
    }
}

/// The mangling of parameter types: each type's text after an underscore.
pub open spec fn params_text(pool: Seq<Seq<u8>>, types: Seq<TypeName>) -> Seq<u8>
    decreases types.len(),
{
    if types.len() == 0 {
        Seq::empty()
    } else {
        params_text(pool, types.drop_last()) + "_".spec_bytes() + type_text(pool, types.last())
    }
}

/// The output name of a function: namespace prefix, name, and its parameter types.
pub open spec fn fun_output_name(pool: Seq<Seq<u8>>, ns: Namespace, name: PoolS, types: Seq<TypeName>) -> Seq<u8> {
    namespace_text(pool, ns) + pooled_text(pool, name) + "_args".spec_bytes() + params_text(pool, types)
}

/// The identities of the types among the first `n` records, in order.
pub open spec fn type_ids(entries: Seq<Binding>, n: nat) -> Seq<TypeID>
    decreases n,
{
    if n == 0 {
        Seq::empty()
    } else if entries[n - 1] is Type {
        type_ids(entries, (n - 1) as nat).push(TypeID((n - 1) as u64))
    } else {
        type_ids(entries, (n - 1) as nat)
    }
}

/// The first of the first `n` records that is the type named `t`.
pub open spec fn find_type(entries: Seq<Binding>, t: TypeName, n: nat) -> Option<TypeID>
    decreases n,
{
    if n == 0 {
        None
    } else {
        match find_type(entries, t, (n - 1) as nat) {
            Some(id) => Some(id),
            None => if entries[n - 1] is Type && entries[n - 1]->Type_0.associated_typename == t {
                Some(TypeID((n - 1) as u64))
            } else {
                None
            },
        }
    }
}

impl Bindings {
    pub open spec fn type_named(&self, t: TypeName) -> Option<TypeID> {
        self@.type_named(t)
    }

    /// Gives mutable access to the record of variable `id`.
    pub fn get_var_mut(&mut self, id: VarID) -> (r: &mut VarBinding)
        requires
            old(self).is_var(id),
        ensures
            *r == old(self).var(id),
            final(self).entries() == old(self).entries().update(id.0 as int, Binding::Var(*final(r))),
            final(self).overloads() == old(self).overloads(),
            final(self).names_log() == old(self).names_log(),
    {
        let i = self.slot(id.0);
        match &mut self.entries[i] {
            Binding::Var(v) => v,
            _ => vstd::pervasive::unreached(),
        }
    }

    /// Marks variable `id` as a field of a type.
    pub fn to_member_var(&mut self, id: VarID)
        requires
            old(self).wf(),
            old(self).is_var(id),
        ensures
            model_of(final(self)@) == model_of(old(self)@),
            signatures_distinct(old(self)@) ==> signatures_distinct(final(self)@),
            same_overloads(old(self)@, final(self)@),
            keeps_types(old(self)@, final(self)@),
            keeps_vars(old(self)@, final(self)@),
            final(self).wf(),
            final(self).entries() == old(self).entries().update(
                id.0 as int,
                Binding::Var(VarBinding { is_member: true, ..old(self).var(id) }),
            ),
            final(self).overloads() == old(self).overloads(),
            forall|n: Seq<u8>| final(self).uses(n) == old(self).uses(n),
    {
        let v = self.get_var_mut(id);
        v.is_member = true;
        proof {
            self.lemma_var_update_keeps_wf(old(self), id);
            old(self).lemma_frame_same_overloads(self@);
            lemma_same_sigs(old(self)@, self@);
            assert(model_of(self@).kinds =~= model_of(old(self)@).kinds);
            if signatures_distinct(old(self)@) {
                lemma_same_overloads_keeps_distinct(old(self)@, self@);
            }
            lemma_same_shape_keeps_types(old(self)@, self@);
        }
    }

    proof fn lemma_var_update_keeps_wf(&self, before: &Bindings, id: VarID)
        requires
            before.wf(),
            before.is_var(id),
            self.entries@.len() == before.entries@.len(),
            forall|i: int| 0 <= i < self.entries@.len() && i != id.0 ==> self.entries@[i] == before.entries@[i],
            self.entries@[id.0 as int] is Var,
            self.entries@[id.0 as int]->Var_0.output_name == before.entries@[id.0 as int]->Var_0.output_name,
            self.overloads@ == before.overloads@,
            self.names@ == before.names@,
        ensures
            self.wf(),
    {
        self.lemma_update_keeps_wf(before, id.0 as int);
    }

    /// Changing one record in place keeps the table well formed, as long as a variable stays a
    /// variable with its output name, a function stays as it was, and a type stays a type whose
    /// fields are all variables.
    proof fn lemma_update_keeps_wf(&self, before: &Bindings, j: int)
        requires
            before.wf(),
            0 <= j < before.entries@.len(),
            self.entries@.len() == before.entries@.len(),
            forall|i: int| 0 <= i < self.entries@.len() && i != j ==> self.entries@[i] == before.entries@[i],
            before.entries@[j] is Var ==> self.entries@[j] is Var
                && self.entries@[j]->Var_0.output_name == before.entries@[j]->Var_0.output_name,
            before.entries@[j] is Fun ==> self.entries@[j] == before.entries@[j],
            before.entries@[j] is Type ==> self.entries@[j] is Type && forall|k: int|
                0 <= k < self.entries@[j]->Type_0.members@.len() ==> before.is_var(#[trigger] self.entries@[j]->Type_0.members@[k]),
            self.overloads@ == before.overloads@,
            self.names@ == before.names@,
        ensures
            self.wf(),
    {
        assert forall|i: int| 0 <= i < self.entries@.len() implies ((#[trigger] self.entries@[i]) is Var <==> self.names@[i] is Some) by {
            assert(before.entries@[i] is Var <==> before.names@[i] is Some);
        }
        assert forall|i: int| 0 <= i < self.names@.len() && (#[trigger] self.names@[i]) is Some implies {
            let t = self.names@[i]->Some_0.0@;
            let c = self.names@[i]->Some_0.1;
            &&& self.entries@[i] is Var
            &&& self.entries@[i]->Var_0.output_name@ == t + separator() + decimal(c as nat)
            &&& c < name_uses(self.names@, t)
            &&& c < self.entries@.len()
        } by {
            assert(before.names@[i] is Some);
            assert(before.entries@[i] is Var);
        }
        assert forall|v: VarID| #[trigger] before.is_var(v) implies self.is_var(v) by {
            assert(before.entries@[v.0 as int] is Var);
        }
        assert forall|k: int| 0 <= k < self.overloads@.len() implies {
            let (ns, _, f) = #[trigger] self.overloads@[k];
            self.is_fun(f) && self.fun(f).namespace == ns
        } by {
            let f = self.overloads@[k].2;
            assert(before.is_fun(f));
        }
        assert forall|i: int, k: int| 0 <= i < self.entries@.len() && self.entries@[i] is Fun
            && 0 <= k < self.entries@[i]->Fun_0.args@.len()
            implies self.is_var(#[trigger] self.entries@[i]->Fun_0.args@[k]) by {
            assert(before.is_var(before.entries@[i]->Fun_0.args@[k]));
        }
        assert forall|i: int, k: int| 0 <= i < self.entries@.len() && self.entries@[i] is Type
            && 0 <= k < self.entries@[i]->Type_0.members@.len()
            implies self.is_var(#[trigger] self.entries@[i]->Type_0.members@[k]) by {
            if i != j {
                assert(before.is_var(before.entries@[i]->Type_0.members@[k]));
            }
        }
    }

    #[allow(unused)]
    pub fn get_fun_mut(&mut self, id: FunID) -> (r: &mut FunBinding)
        requires
            old(self).is_fun(id),
        ensures
            *r == old(self).fun(id),
            final(self).entries() == old(self).entries().update(id.0 as int, Binding::Fun(*final(r))),
            final(self).overloads() == old(self).overloads(),
            final(self).names_log() == old(self).names_log(),
    {
        let i = self.slot(id.0);
        match &mut self.entries[i] {
            Binding::Fun(f) => f,
            _ => vstd::pervasive::unreached(),
        }
    }
}

impl Bindings {
    /// The current types of the variables `args`.
    pub fn types_of(&self, args: &Vec<VarID>) -> (r: Vec<TypeName>)
        requires
            forall|k: int| 0 <= k < args@.len() ==> self.is_var(#[trigger] args@[k]),
        ensures
            r@ == param_types(self@, args@),
    {
        let mut r: Vec<TypeName> = Vec::new();
        let mut i: usize = 0;
        while i < args.len()
            invariant
                i <= args@.len(),
                forall|k: int| 0 <= k < args@.len() ==> self.is_var(#[trigger] args@[k]),
                r@ == param_types(self@, args@.take(i as int)),
            decreases args@.len() - i,
        {
            r.push(self.get_var(args[i]).typ.clone());
            i += 1;
            assert(param_types(self@, args@.take(i as int)) =~= param_types(self@, args@.take(i - 1)).push(self.var(args@[i - 1]).typ));
        }
        assert(args@.take(args@.len() as int) =~= args@);
        r
    }

    /// Whether the parameters `args` accept arguments of types `types`, exactly or by coercion.
    fn params_fit(&self, args: &Vec<VarID>, types: &Vec<TypeName>, exact: bool) -> (r: bool)
        requires
            forall|k: int| 0 <= k < args@.len() ==> self.is_var(#[trigger] args@[k]),
            args@.len() == types@.len(),
        ensures
            r == if exact {
                param_types(self@, args@) == types@
            } else {
                forall|i: int| 0 <= i < types@.len() ==> may_coerce(#[trigger] self@.var(args@[i]).typ, types@[i])
            },
    {
        let mut i: usize = 0;
        while i < args.len()
            invariant
                i <= args@.len(),
                args@.len() == types@.len(),
                forall|k: int| 0 <= k < args@.len() ==> self.is_var(#[trigger] args@[k]),
                forall|k: int| 0 <= k < i ==> if exact {
                    self@.var(args@[k]).typ == types@[k]
                } else {
                    may_coerce(self@.var(args@[k]).typ, types@[k])
                },
            decreases args@.len() - i,
        {
            let t = &self.get_var(args[i]).typ;
            let ok = if exact { t.same(&types[i]) } else { t.eq_or_may_coerce(&types[i]) };
            if !ok {
                if exact {
                    assert(param_types(self@, args@)[i as int] != types@[i as int]);
                }
                return false;
            }
            i += 1;
        }
        if exact {
            assert(param_types(self@, args@) =~= types@);
        }
        true
    }

    /// The first registered function under `ns` and `name` whose parameters fit `types`.
    fn find_overload(&self, ns: Namespace, name: PoolS, types: &Vec<TypeName>, exact: bool) -> (r: Option<FunID>)
        requires
            self.wf(),
        ensures
            r == first_fit(self@, ns, name, types@, exact, self.overloads().len()),
            r matches Some(f) ==> self.is_fun(f),
    {
        let mut k: usize = 0;
        while k < self.overloads.len()
            invariant
                self.wf(),
                k <= self.overloads@.len(),
                first_fit(self@, ns, name, types@, exact, k as nat) is None,
            decreases self.overloads@.len() - k,
        {
            let (ons, oname, f) = self.overloads[k];
            proof {
                assert(self.is_fun(self.overloads@[k as int].2));
            }
            if ons == ns && oname == name {
                let fb = self.get_fun(f);
                if fb.args.len() == types.len() {
                    proof {
                        assert forall|j: int| 0 <= j < fb.args@.len() implies self.is_var(#[trigger] fb.args@[j]) by {
                            assert(self.entries@[f.0 as int]->Fun_0.args@[j] == fb.args@[j]);
                        }
                    }
                    if self.params_fit(&fb.args, types, exact) {
                        proof {
                            assert(self.overloads@[k as int] == (ons, oname, f));
                            assert(self@.fun(f) == *fb);
                            assert(overload_fits(self@, k as int, ns, name, types@, exact));
                            lemma_first_fit_stable(self@, ns, name, types@, exact, (k + 1) as nat, self.overloads@.len());
                        }
                        return Some(f);
                    }
                }
            }
            k += 1;
        }
        None
    }

    /// The function registered under `namespace` and `name` whose parameter types are those of
    /// the variables `args`; used to detect a repeated declaration.
    pub fn find_fun_from_vars(&self, namespace: Namespace, name: PoolS, args: &Vec<VarID>) -> (r: Option<FunID>)
        requires
            self.wf(),
            forall|k: int| 0 <= k < args@.len() ==> self.is_var(#[trigger] args@[k]),
        ensures
            r == resolve_exact(self@, namespace, name, param_types(self@, args@)),
    {
        let types = self.types_of(args);
        self.find_overload(namespace, name, &types, true)
    }

    /// Call-site resolution: the first function, in registration order, registered under
    /// `namespace` and `name` whose parameters accept arguments of types `types`.
    pub fn find_fun_from_compat_types(&self, namespace: Namespace, name: PoolS, types: &Vec<TypeName>) -> (r: Option<FunID>)
        requires
            self.wf(),
        ensures
            r == resolve_compat(self@, namespace, name, types@),
            r matches Some(f) ==> self.is_fun(f),
    {
        self.find_overload(namespace, name, types, false)
    }

    /// Resolution of an unqualified call made inside a type's body: the caller's own namespace
    /// first, which needs an implicit receiver, then the global namespace. The namespaces of
    /// base classes are not searched.
    pub fn find_fun_from_types_in_self_namespace(&self, namespace: Namespace, name: PoolS, types: &Vec<TypeName>) -> (r: Option<(FunID, bool)>)
        requires
            self.wf(),
        ensures
            r == resolve_in_self(self@, namespace, name, types@),
            r matches Some((f, _)) ==> self.is_fun(f),
    {
        let own = self.find_fun_from_compat_types(namespace, name, types);
        if let Some(own) = own {
            return Some((own, true));
        }
        match self.find_fun_from_compat_types(Namespace::Global, name, types) {
            Some(g) => Some((g, false)),
            None => None,
        }
    }

    /// Appends the mangling of parameter types `types` to `out`.
    fn write_params(pool: &StringPool, types: &Vec<TypeName>, out: &mut Vec<u8>)
        ensures
            final(out)@ == old(out)@ + params_text(pool.view(), types@),
    {
        let mut i: usize = 0;
        while i < types.len()
            invariant
                i <= types@.len(),
                out@ == old(out)@ + params_text(pool.view(), types@.take(i as int)),
            decreases types@.len() - i,
        {
            push_str(out, "_");
            types[i].write_text(pool, out);
            i += 1;
            assert(types@.take(i as int).drop_last() =~= types@.take(i - 1));
        }
        assert(types@.take(types@.len() as int) =~= types@);
    }

    /// Registers a function. Fails when a function with the same namespace, name and parameter
    /// types exists; otherwise the function gets the next identity and a mangled output name
    /// made of its namespace, name and parameter types.
    pub fn new_fun_binding(&mut self, pool: &StringPool, namespace: Namespace, name: PoolS, return_type: TypeName, args: Vec<VarID>) -> (r: Result<FunID, CompileError>)
        requires
            old(self).wf(),
            forall|k: int| 0 <= k < args@.len() ==> old(self).is_var(#[trigger] args@[k]),
        ensures
            model_of(old(self)@).declare_fun(namespace, name, args@) == (model_of(final(self)@), match r { Ok(f) => Some(f), Err(_) => None::<FunID> }),
            signatures_distinct(old(self)@) ==> signatures_distinct(final(self)@),
            r matches Ok(f) ==> f.0 == old(self).next_id(),
            r is Err ==> final(self).next_id() == old(self).next_id(),
            keeps_types(old(self)@, final(self)@),
            keeps_vars(old(self)@, final(self)@),
            final(self).wf(),
            forall|n: Seq<u8>| #[trigger] final(self).uses(n) == old(self).uses(n),
            resolve_exact(old(self)@, namespace, name, param_types(old(self)@, args@)) is Some ==> {
                &&& r matches Err(CompileError::DuplicateSignature(n)) && n == name
                &&& final(self).entries() == old(self).entries()
                &&& final(self).overloads() == old(self).overloads()
            },
            resolve_exact(old(self)@, namespace, name, param_types(old(self)@, args@)) is None ==> {
                &&& r == Ok::<FunID, CompileError>(FunID(old(self).next_id() as u64))
                &&& final(self).entries() == old(self).entries().push(Binding::Fun(final(self).fun(FunID(old(self).next_id() as u64))))
                &&& final(self).overloads() == old(self).overloads().push((namespace, name, FunID(old(self).next_id() as u64)))
                &&& final(self).fun(FunID(old(self).next_id() as u64)).args == args
                &&& final(self).fun(FunID(old(self).next_id() as u64)).return_type == return_type
                &&& final(self).fun(FunID(old(self).next_id() as u64)).namespace == namespace
                &&& final(self).fun(FunID(old(self).next_id() as u64)).called_on is None
                &&& final(self).fun(FunID(old(self).next_id() as u64)).output_name@
                    == fun_output_name(pool.view(), namespace, name, param_types(old(self)@, args@))
            },
    {
        let types = self.types_of(&args);
        proof {
            lemma_model_types(self@, args@);
            lemma_sig_taken(self@, namespace, name, types@);
        }
        if self.find_overload(namespace, name, &types, true).is_some() {
            return Err(CompileError::DuplicateSignature(name));
        }
        let mut output_name: Vec<u8> = Vec::new();
        namespace.write_text(pool, &mut output_name);
        pool.write_pooled(name, &mut output_name);
        push_str(&mut output_name, "_args");
        Self::write_params(pool, &types, &mut output_name);
        let id = FunID(self.entries.len() as u64);
        self.overloads.push((namespace, name, id));
        let ghost old_names = self.names@;
        self.names.push(None);
        self.entries.push(Binding::Fun(FunBinding::new(namespace, output_name, return_type, args)));
        proof {
            assert(self.names@.drop_last() =~= old_names);
            assert(self.entries@.take(old(self).entries@.len() as int) =~= old(self).entries@);
            assert(self.overloads@.drop_last() =~= old(self).overloads@);
            self.lemma_push_keeps_wf(old(self));
            lemma_push_keeps_types(old(self)@, self@);
            let mid = BindingsView { overloads: old(self).overloads@, ..self@ };
            old(self).lemma_frame_same_overloads(mid);
            assert forall|k: int| 0 <= k < args@.len() implies self@.var(args@[k]).typ == old(self)@.var(args@[k]).typ by {
                assert(old(self).is_var(args@[k]));
                assert(self.entries@[args@[k].0 as int] == old(self).entries@[args@[k].0 as int]);
            }
            assert(param_types(self@, self@.fun(id).args@) =~= param_types(old(self)@, args@));
            if signatures_distinct(old(self)@) {
                lemma_register_keeps_distinct(old(self)@, self@, namespace, name, id);
            }
            lemma_same_sigs(old(self)@, mid);
            assert forall|k: int| 0 <= k < old(self).overloads@.len() implies model_of(self@).sigs[k] == model_of(mid).sigs[k] by {
                assert(self.overloads@[k] == mid.overloads[k]);
            }
            assert(model_of(self@).sigs[old(self).overloads@.len() as int] == (namespace, name, param_types(self@, self@.fun(id).args@)));
            assert(model_of(self@).sigs =~= model_of(old(self)@).sigs.push((namespace, name, model_of(old(self)@).types_of(args@))));
            assert(model_of(self@).kinds =~= model_of(old(self)@).kinds.push(RecordKind::Function));
        }
        Ok(id)
    }

    /// The identities of all registered functions, in registration order.
    pub fn fun_bindings(&self) -> (r: Vec<FunID>)
        requires
            self.wf(),
        ensures
            r@ == self.overloads().map_values(|o: (Namespace, PoolS, FunID)| o.2),
            forall|k: int| 0 <= k < r@.len() ==> self.is_fun(#[trigger] r@[k]),
    {
        let mut r: Vec<FunID> = Vec::new();
        let mut k: usize = 0;
        while k < self.overloads.len()
            invariant
                self.wf(),
                k <= self.overloads@.len(),
                r@ == self.overloads@.take(k as int).map_values(|o: (Namespace, PoolS, FunID)| o.2),
            decreases self.overloads@.len() - k,
        {
            r.push(self.overloads[k].2);
            k += 1;
            assert(self.overloads@.take(k as int).map_values(|o: (Namespace, PoolS, FunID)| o.2)
                =~= self.overloads@.take(k - 1).map_values(|o: (Namespace, PoolS, FunID)| o.2).push(self.overloads@[k - 1].2));
        }
        assert(self.overloads@.take(self.overloads@.len() as int) =~= self.overloads@);
        proof {
            assert forall|k: int| 0 <= k < r@.len() implies self.is_fun(#[trigger] r@[k]) by {
                assert(r@[k] == self.overloads@[k].2);
            }
        }
        r
    }
}

impl Bindings {
    /// The position of the first type record named `typename`.
    fn type_slot(&self, typename: &TypeName) -> (r: Option<usize>)
        ensures
            match r {
                Some(i) => self.type_named(*typename) == Some(TypeID(i as u64)) && i < self.entries@.len(),
                None => self.type_named(*typename) is None,
            },
    {
        let mut i: usize = 0;
        while i < self.entries.len()
            invariant
                i <= self.entries@.len(),
                find_type(self.entries@, *typename, i as nat) is None,
            decreases self.entries@.len() - i,
        {
            if let Binding::Type(t) = &self.entries[i] {
                if t.associated_typename.same(typename) {
                    proof { lemma_find_type_stable(self.entries@, *typename, (i + 1) as nat, self.entries@.len()); }
                    return Some(i);
                }
            }
            i += 1;
        }
        None
    }

    /// The type record named `typename`, if one was made.
    pub fn get_type(&self, typename: &TypeName) -> (r: Option<&Type>)
        ensures
            match self.type_named(*typename) {
                Some(id) => r == Some(&self.type_at(id)),
                None => r is None,
            },
    {
        let count = self.entries.len();
        let found = self.type_slot(typename);
        proof {
            if found is Some {
                lemma_find_type_sound(self.entries@, *typename, self.entries@.len());
            }
        }
        match found {
            Some(i) => match &self.entries[i] {
                Binding::Type(t) => Some(t),
                _ => None,
            },
            None => None,
        }
    }

    /// The type named `typename`: the one made before, or a new empty one with the next identity.
    pub fn get_or_make_type(&mut self, pool: &StringPool, typename: &TypeName) -> (r: TypeID)
        requires
            old(self).wf(),
        ensures
            model_of(final(self)@) == model_of(old(self)@).make_type(*typename),
            signatures_distinct(old(self)@) ==> signatures_distinct(final(self)@),
            same_overloads(old(self)@, final(self)@),
            keeps_types(old(self)@, final(self)@),
            keeps_vars(old(self)@, final(self)@),
            final(self).wf(),
            final(self).is_type(r),
            final(self).type_named(*typename) == Some(r),
            final(self).overloads() == old(self).overloads(),
            forall|n: Seq<u8>| #[trigger] final(self).uses(n) == old(self).uses(n),
            old(self).type_named(*typename) is Some ==> final(self).entries() == old(self).entries()
                && Some(r) == old(self).type_named(*typename),
            old(self).type_named(*typename) is None ==> {
                &&& r.0 == old(self).next_id()
                &&& final(self).entries() == old(self).entries().push(Binding::Type(final(self).type_at(r)))
                &&& final(self).type_at(r).members@.len() == 0
                &&& final(self).type_at(r).base_class is None
                &&& final(self).type_at(r).associated_typename == *typename
                &&& final(self).type_at(r).output_name@ == type_text(pool.view(), *typename)
            },
    {
        let count = self.entries.len();
        let found = self.type_slot(typename);
        proof {
            if found is Some {
                lemma_find_type_sound(self.entries@, *typename, self.entries@.len());
            }
        }
        match found {
            Some(i) => {
                proof { old(self).lemma_frame_same_overloads(self@);
                lemma_model_has_type(old(self)@, *typename);
            if signatures_distinct(old(self)@) {
                lemma_same_overloads_keeps_distinct(old(self)@, self@);
            } }
                TypeID(i as u64)
            },
            None => {
                let id = TypeID(self.entries.len() as u64);
                let ghost old_names = self.names@;
                self.names.push(None);
                self.entries.push(Binding::Type(Type::new(typename, pool)));
                proof {
                    assert(self.names@.drop_last() =~= old_names);
                    assert(self.entries@.take(old(self).entries@.len() as int) =~= old(self).entries@);
                    self.lemma_push_keeps_wf(old(self));
                    lemma_find_type_prefix(self.entries@, *typename, old(self).entries@.len());
                    assert(find_type(self.entries@, *typename, old(self).entries@.len()) is None);
                    assert(self.entries@.last() is Type);
                    lemma_push_keeps_types(old(self)@, self@);
                    old(self).lemma_frame_same_overloads(self@);
                    lemma_model_has_type(old(self)@, *typename);
                    lemma_same_sigs(old(self)@, self@);
                    assert(model_of(self@).kinds =~= model_of(old(self)@).kinds.push(kind_of(self.entries@.last())));
            if signatures_distinct(old(self)@) {
                lemma_same_overloads_keeps_distinct(old(self)@, self@);
            }
                }
                id
            },
        }
    }

    /// Appends the field `member` to the type named `typename`, making the type if needed.
    pub fn type_push_member(&mut self, pool: &StringPool, typename: &TypeName, member: VarID)
        requires
            old(self).wf(),
            old(self).is_var(member),
        ensures
            model_of(final(self)@) == model_of(old(self)@).make_type(*typename),
            signatures_distinct(old(self)@) ==> signatures_distinct(final(self)@),
            same_overloads(old(self)@, final(self)@),
            final(self).type_named(*typename) matches Some(tid) && {
                &&& forall|i: int| 0 <= i < old(self).entries().len() && i != tid.0
                    ==> final(self).entries()[i] == old(self).entries()[i]
                &&& final(self).entries().len() <= old(self).entries().len() + 1
                &&& final(self).type_at(tid).associated_typename == *typename
                &&& old(self).type_named(*typename) matches Some(t0) ==> t0 == tid
                    && final(self).entries().len() == old(self).entries().len()
                    && final(self).type_at(tid).base_class == old(self).type_at(tid).base_class
                    && final(self).type_at(tid).output_name == old(self).type_at(tid).output_name
                &&& old(self).type_named(*typename) is None ==> tid.0 == old(self).next_id()
                    && final(self).type_at(tid).base_class is None
                    && final(self).type_at(tid).output_name@ == type_text(pool.view(), *typename)
            },
            final(self).next_id() >= old(self).next_id(),
            keeps_types(old(self)@, final(self)@),
            keeps_vars(old(self)@, final(self)@),
            final(self).wf(),
            final(self).type_named(*typename) is Some,
            final(self).type_at(final(self).type_named(*typename).unwrap()).members@
                == members_of(old(self)@, *typename).push(member),
            final(self).overloads() == old(self).overloads(),
            forall|n: Seq<u8>| #[trigger] final(self).uses(n) == old(self).uses(n),
    {
        let id = self.get_or_make_type(pool, typename);
        let ghost mid = *self;
        let i = self.slot(id.0);
        let count = self.entries.len();
        match &mut self.entries[i] {
            Binding::Type(t) => t.members.push(member),
            _ => {},
        }
        proof {
            assert(self.names@ == mid.names@);
            assert forall|n: Seq<u8>| #[trigger] self.uses(n) == old(self).uses(n) by {
                assert(mid.uses(n) == old(self).uses(n));
            }
            assert(mid.is_var(member));
            assert forall|j: int| 0 <= j < self.entries@.len() && j != i implies self.entries@[j] == mid.entries@[j] by {}
            lemma_find_type_same_shape(mid.entries@, self.entries@, *typename, self.entries@.len());
            self.lemma_member_push_keeps_wf(&mid, id, member);
            lemma_same_shape_keeps_types(mid@, self@);
            assert forall|t: TypeName| (#[trigger] old(self)@.type_named(t)) is Some implies self@.type_named(t) == old(self)@.type_named(t) by {
                assert(mid@.type_named(t) == old(self)@.type_named(t));
            }
            assert(self@.type_named(*typename) == Some(id));
            lemma_find_type_sound(self.entries@, *typename, self.entries@.len());
            assert forall|j: int| 0 <= j < old(self).entries().len() && j != id.0
                implies self.entries()[j] == old(self).entries()[j] by {
                assert(self.entries@[j] == mid.entries@[j]);
                assert(mid.entries@[j] == old(self).entries@[j]);
            }
            assert(self.type_at(id).base_class == mid.type_at(id).base_class);
            assert(self.type_at(id).output_name == mid.type_at(id).output_name);
            assert(self.type_at(id).associated_typename == mid.type_at(id).associated_typename);
            if old(self)@.type_named(*typename) is Some {
                assert(mid.entries@ == old(self).entries@);
            }
            assert forall|j: int| 0 <= j < old(self).entries@.len() && old(self).entries@[j] is Fun
                implies self.entries@[j] == old(self).entries@[j] by {
                if j == id.0 {
                    assert(mid.entries@[j] == old(self).entries@[j]);
                }
            }
            old(self).lemma_frame_same_overloads(self@);
            lemma_same_sigs(old(self)@, self@);
            lemma_model_has_type(old(self)@, *typename);
            lemma_same_sigs(old(self)@, mid@);
            assert(model_of(self@).kinds =~= model_of(mid@).kinds) by {
                assert forall|j: int| 0 <= j < self.entries@.len() implies model_of(self@).kinds[j] == model_of(mid@).kinds[j] by {
                    if j == i as int {
                        assert(self.entries@[j]->Type_0.associated_typename == mid.entries@[j]->Type_0.associated_typename);
                    }
                }
            };
            if signatures_distinct(old(self)@) {
                lemma_same_overloads_keeps_distinct(old(self)@, self@);
            }
        }
    }

    proof fn lemma_member_push_keeps_wf(&self, before: &Bindings, id: TypeID, member: VarID)
        requires
            before.wf(),
            before.is_type(id),
            before.is_var(member),
            self.entries@.len() == before.entries@.len(),
            forall|i: int| 0 <= i < self.entries@.len() && i != id.0 ==> self.entries@[i] == before.entries@[i],
            self.entries@[id.0 as int] is Type,
            self.entries@[id.0 as int]->Type_0.members@ == before.entries@[id.0 as int]->Type_0.members@.push(member),
            self.overloads@ == before.overloads@,
            self.names@ == before.names@,
        ensures
            self.wf(),
    {
        assert forall|k: int| 0 <= k < self.entries@[id.0 as int]->Type_0.members@.len()
            implies before.is_var(#[trigger] self.entries@[id.0 as int]->Type_0.members@[k]) by {
            if k < before.entries@[id.0 as int]->Type_0.members@.len() {
                assert(before.is_var(before.entries@[id.0 as int]->Type_0.members@[k]));
            }
        }
        self.lemma_update_keeps_wf(before, id.0 as int);
    }

    /// The identities of all types, in order of creation.
    pub fn type_bindings(&self) -> (r: Vec<TypeID>)
        ensures
            r@ == type_ids(self.entries(), self.entries().len()),
            forall|k: int| 0 <= k < r@.len() ==> self.is_type(#[trigger] r@[k]),
    {
        let mut r: Vec<TypeID> = Vec::new();
        let mut i: usize = 0;
        while i < self.entries.len()
            invariant
                i <= self.entries@.len(),
                r@ == type_ids(self.entries@, i as nat),
            decreases self.entries@.len() - i,
        {
            if let Binding::Type(_) = &self.entries[i] {
                r.push(TypeID(i as u64));
            }
            i += 1;
        }
        proof { lemma_type_ids_are_types(self.entries@, self.entries@.len()); }
        r
    }
}

/// The fields that the type named `t` has in `b`: none if there is no such type yet.
pub open spec fn members_of(b: BindingsView, t: TypeName) -> Seq<VarID> {
    match b.type_named(t) {
        Some(id) => b.type_at(id).members@,
        None => Seq::empty(),
    }
}

/// A type that is found is a type record with that name.
pub proof fn lemma_find_type_sound(entries: Seq<Binding>, t: TypeName, n: nat)
    requires
        n <= entries.len(),
        n <= u64::MAX,
        find_type(entries, t, n) is Some,
    ensures
        ({
            let id = find_type(entries, t, n).unwrap();
            id.0 < n && entries[id.0 as int] is Type && entries[id.0 as int]->Type_0.associated_typename == t
        }),
    decreases n,
{
    if find_type(entries, t, (n - 1) as nat) is Some {
        lemma_find_type_sound(entries, t, (n - 1) as nat);
    }
}

pub proof fn lemma_find_type_stable(entries: Seq<Binding>, t: TypeName, m: nat, n: nat)
    requires
        m <= n,
        find_type(entries, t, m) is Some,
    ensures
        find_type(entries, t, n) == find_type(entries, t, m),
    decreases n - m,
{
    if m < n {
        lemma_find_type_stable(entries, t, m, (n - 1) as nat);
    }
}

/// Records past the first `n` do not change what the first `n` hold.
pub proof fn lemma_find_type_prefix(entries: Seq<Binding>, t: TypeName, n: nat)
    requires
        n <= entries.len(),
    ensures
        forall|m: nat| m <= n ==> find_type(entries, t, m) == find_type(entries.take(n as int), t, m),
    decreases n,
{
    assert forall|m: nat| m <= n implies find_type(entries, t, m) == find_type(entries.take(n as int), t, m) by {
        lemma_find_type_prefix_at(entries, t, n, m);
    }
}

proof fn lemma_find_type_prefix_at(entries: Seq<Binding>, t: TypeName, n: nat, m: nat)
    requires
        m <= n <= entries.len(),
    ensures
        find_type(entries, t, m) == find_type(entries.take(n as int), t, m),
    decreases m,
{
    if m > 0 {
        lemma_find_type_prefix_at(entries, t, n, (m - 1) as nat);
    }
}

/// Two record sequences that agree on which records are types and on their names agree on
/// where each type is found.
pub proof fn lemma_find_type_same_shape(a: Seq<Binding>, b: Seq<Binding>, t: TypeName, n: nat)
    requires
        a.len() == b.len(),
        n <= a.len(),
        forall|i: int| 0 <= i < a.len() ==> (a[i] is Type <==> b[i] is Type),
        forall|i: int| 0 <= i < a.len() && a[i] is Type ==> a[i]->Type_0.associated_typename == b[i]->Type_0.associated_typename,
    ensures
        find_type(a, t, n) == find_type(b, t, n),
    decreases n,
{
    if n > 0 {
        lemma_find_type_same_shape(a, b, t, (n - 1) as nat);
    }
}

impl Bindings {
    /// Whether `id` names a variable.
    pub fn has_var(&self, id: VarID) -> (r: bool)
        ensures
            r == self.is_var(id),
    {
        id.0 < self.entries.len() as u64 && matches!(self.entries[id.0 as usize], Binding::Var(_))
    }

    /// Whether `id` names a function.
    pub fn has_fun(&self, id: FunID) -> (r: bool)
        ensures
            r == self.is_fun(id),
    {
        id.0 < self.entries.len() as u64 && matches!(self.entries[id.0 as usize], Binding::Fun(_))
    }

    /// Unifies the type of variable `id` with an expression type, as `type_match_var` does, and
    /// reports whether they matched.
    pub fn match_var_type(&mut self, id: VarID, expr_type: &TypeName) -> (r: bool)
        requires
            old(self).wf(),
            old(self).is_var(id),
        ensures
            final(self).wf(),
            final(self)@ == old(self)@.with_var_type(id, match_spec(old(self).var(id).typ, *expr_type).0),
            final(self).next_id() == old(self).next_id(),
            r == match_spec(old(self).var(id).typ, *expr_type).1,
            forall|n: Seq<u8>| #[trigger] final(self).uses(n) == old(self).uses(n),
    {
        let v = self.get_var_mut(id);
        let r = type_match_var(&mut v.typ, expr_type);
        proof {
            self.lemma_var_update_keeps_wf(old(self), id);
            assert(self@.entries =~= old(self)@.with_var_type(id, match_spec(old(self).var(id).typ, *expr_type).0).entries);
        }
        r
    }
}

impl Bindings {
    /// The parameters of a registered function are variables.
    pub proof fn lemma_fun_args_valid(&self, f: FunID)
        requires
            self.wf(),
            self.is_fun(f),
        ensures
            forall|k: int| 0 <= k < self.fun(f).args@.len() ==> self.is_var(#[trigger] self.fun(f).args@[k]),
    {
        assert forall|k: int| 0 <= k < self.fun(f).args@.len() implies self.is_var(#[trigger] self.fun(f).args@[k]) by {
            assert(self.entries@[f.0 as int]->Fun_0.args@[k] == self.fun(f).args@[k]);
        }
    }

    /// The fields of a type are variables.
    pub proof fn lemma_type_members_valid(&self, t: TypeID)
        requires
            self.wf(),
            self.is_type(t),
        ensures
            forall|k: int| 0 <= k < self.type_at(t).members@.len() ==> self.is_var(#[trigger] self.type_at(t).members@[k]),
    {
        assert forall|k: int| 0 <= k < self.type_at(t).members@.len() implies self.is_var(#[trigger] self.type_at(t).members@[k]) by {
            assert(self.entries@[t.0 as int]->Type_0.members@[k] == self.type_at(t).members@[k]);
        }
    }

    pub fn get_type_by_id(&self, id: TypeID) -> (r: &Type)
        requires
            self.is_type(id),
        ensures
            *r == self.type_at(id),
    {
        match &self.entries[self.slot(id.0)] {
            Binding::Type(t) => t,
            _ => vstd::pervasive::unreached(),
        }
    }
}

/// Every listed identity is a type record.
pub proof fn lemma_type_ids_are_types(entries: Seq<Binding>, n: nat)
    requires
        n <= entries.len(),
        n <= u64::MAX,
    ensures
        forall|k: int| 0 <= k < type_ids(entries, n).len() ==> {
            let id = #[trigger] type_ids(entries, n)[k];
            id.0 < entries.len() && entries[id.0 as int] is Type
        },
    decreases n,
{
    if n > 0 {
        lemma_type_ids_are_types(entries, (n - 1) as nat);
        let prev = type_ids(entries, (n - 1) as nat);
        assert forall|k: int| 0 <= k < type_ids(entries, n).len() implies {
            let id = #[trigger] type_ids(entries, n)[k];
            id.0 < entries.len() && entries[id.0 as int] is Type
        } by {
            if k < prev.len() {
                assert(type_ids(entries, n)[k] == prev[k]);
            }
        }
    }
}

/// Appending a record keeps every type where it was found.
pub proof fn lemma_push_keeps_types(a: BindingsView, b: BindingsView)
    requires
        b.entries.len() == a.entries.len() + 1,
        b.entries.take(a.entries.len() as int) == a.entries,
    ensures
        keeps_types(a, b),
{
    assert forall|t: TypeName| (#[trigger] a.type_named(t)) is Some implies b.type_named(t) == a.type_named(t) by {
        lemma_find_type_prefix(b.entries, t, a.entries.len());
        lemma_find_type_stable(b.entries, t, a.entries.len(), b.entries.len());
    }
}

/// Changing records without changing which are types, or the names of the types, keeps every
/// type where it was found.
pub proof fn lemma_same_shape_keeps_types(a: BindingsView, b: BindingsView)
    requires
        a.entries.len() == b.entries.len(),
        forall|i: int| 0 <= i < a.entries.len() ==> (a.entries[i] is Type <==> b.entries[i] is Type),
        forall|i: int| 0 <= i < a.entries.len() && a.entries[i] is Type
            ==> a.entries[i]->Type_0.associated_typename == b.entries[i]->Type_0.associated_typename,
    ensures
        keeps_types(a, b),
{
    assert forall|t: TypeName| (#[trigger] a.type_named(t)) is Some implies b.type_named(t) == a.type_named(t) by {
        lemma_find_type_same_shape(a.entries, b.entries, t, a.entries.len());
    }
}

impl Bindings {
    /// A table whose functions are those of `self`, and whose variables have the types they had
    /// in `self`, has the same overloads.
    proof fn lemma_frame_same_overloads(&self, after: BindingsView)
        requires
            self.wf(),
            after.overloads == self.overloads@,
            after.entries.len() >= self.entries@.len(),
            forall|i: int| 0 <= i < self.entries@.len() && self.entries@[i] is Fun ==> after.entries[i] == self.entries@[i],
            forall|i: int| 0 <= i < self.entries@.len() && self.entries@[i] is Var ==> after.entries[i] is Var
                && after.entries[i]->Var_0.typ == self.entries@[i]->Var_0.typ,
        ensures
            same_overloads(self@, after),
    {
        assert forall|k: int| 0 <= k < self@.overloads.len() implies {
            let f = (#[trigger] self@.overloads[k]).2;
            &&& self@.fun(f).args@ == after.fun(f).args@
            &&& param_types(self@, self@.fun(f).args@) == param_types(after, after.fun(f).args@)
        } by {
            let f = self.overloads@[k].2;
            assert(self.is_fun(f));
            let args = self@.fun(f).args@;
            assert forall|m: int| 0 <= m < args.len() implies self@.var(args[m]).typ == after.var(args[m]).typ by {
                assert(self.entries@[f.0 as int]->Fun_0.args@[m] == args[m]);
                assert(self.is_var(args[m]));
            }
            assert(param_types(self@, args) =~= param_types(after, args));
        }
    }
}

} // verus!
