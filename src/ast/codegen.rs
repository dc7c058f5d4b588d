//! Lowering of typed trees to C-like text: prelude, forward declarations, then bodies.

use vstd::prelude::*;
use vstd::string::StringSliceAdditionalSpecFns;
use crate::ast::{Node, NodeList, TypedList, TypedNode, expr_type, op_text};
use crate::ast::types::{TypeName, type_text};
use crate::bindings::{Bindings, BindingsView, FunBinding, FunID, Namespace, TypeID, VarID, type_ids};
use crate::string_pool::{StringPool, pooled_text, push_bytes, push_str};

verus! {

/// A parameter in a declaration: its type and its output name.
pub open spec fn param_text(pool: Seq<Seq<u8>>, b: BindingsView, a: VarID) -> Seq<u8> {
    type_text(pool, b.var(a).typ) + " ".spec_bytes() + b.var(a).output_name@
}

/// Parameters separated by commas; `leading` puts a comma before the first one as well.
pub open spec fn params_list(pool: Seq<Seq<u8>>, b: BindingsView, args: Seq<VarID>, leading: bool) -> Seq<u8>
    decreases args.len(),
{
    if args.len() == 0 {
        Seq::empty()
    } else {
        params_list(pool, b, args.drop_last(), leading)
            + (if leading || args.len() > 1 { ", ".spec_bytes() } else { Seq::empty() })
            + param_text(pool, b, args.last())
    }
}

/// A function's signature: return type, output name and parameters, with a receiver pointer
/// first for a dynamic-call function.
pub open spec fn fun_decl_text(pool: Seq<Seq<u8>>, b: BindingsView, f: FunBinding) -> Seq<u8> {
    let dynamic = f.namespace is DynamicCall;
    type_text(pool, f.return_type) + " ".spec_bytes() + f.output_name@ + "(".spec_bytes()
        + (if dynamic { "void *self_ptr".spec_bytes() } else { Seq::empty() })
        + params_list(pool, b, f.args@, dynamic) + ")".spec_bytes()
}

/// The cast of the receiver pointer at the top of a dynamic-call function's body.
pub open spec fn self_cast_text(pool: Seq<Seq<u8>>, ns: Namespace) -> Seq<u8> {
    match ns {
        Namespace::DynamicCall(t) => {
            let tt = type_text(pool, TypeName::Primitive(t));
            tt + " *self = (".spec_bytes() + tt + "*)(self_ptr);\n".spec_bytes()
        },
        _ => Seq::empty(),
    }
}

/// The lowering of a resolved node. References to identities that the table does not hold
/// produce nothing.
pub open spec fn gen(pool: Seq<Seq<u8>>, b: BindingsView, n: TypedNode) -> Seq<u8>
    decreases n,
{
    match n {
        Node::FunDecl(f, body) => if b.is_fun(f) {
            fun_decl_text(pool, b, b.fun(f)) + " {\n".spec_bytes() + self_cast_text(pool, b.fun(f).namespace)
                + gen_list(pool, b, body) + "}\n".spec_bytes()
        } else {
            Seq::empty()
        },
        Node::FunCall(_, called_on, f, args) => if b.is_fun(f) {
            b.fun(f).output_name@ + "(".spec_bytes()
                + (match called_on {
                    Some(c) => gen(pool, b, *c),
                    None => Seq::empty(),
                })
                + gen_args(pool, b, args, called_on is Some) + ");\n".spec_bytes()
        } else {
            Seq::empty()
        },
        Node::Tree(tree) => gen_list(pool, b, tree.children),
        Node::Decl(id, e) => if b.is_var(id) {
            type_text(pool, b.var(id).typ) + " ".spec_bytes() + b.var(id).output_name@
                + (match e {
                    Some(e) => " = ".spec_bytes() + gen(pool, b, *e),
                    None => Seq::empty(),
                })
                + ";\n".spec_bytes()
        } else {
            Seq::empty()
        },
        Node::Assign(id, e) => if b.is_var(id) {
            b.var(id).output_name@ + " = ".spec_bytes() + gen(pool, b, *e) + ";\n".spec_bytes()
        } else {
            Seq::empty()
        },
        Node::NumConst(v, _) => pooled_text(pool, v),
        Node::BinOp(op, lhs, rhs) => type_text(pool, expr_type(b, *lhs)) + "_op_".spec_bytes()
            + op_text(op).spec_bytes() + "(".spec_bytes() + gen(pool, b, *lhs) + ", ".spec_bytes()
            + gen(pool, b, *rhs) + ")".spec_bytes(),
        Node::VarRef(id) => if b.is_var(id) { b.var(id).output_name@ } else { Seq::empty() },
        Node::SelfRef => "self".spec_bytes(),
        Node::Empty => Seq::empty(),
    }
}

/// Statements one after the other.
pub open spec fn gen_list(pool: Seq<Seq<u8>>, b: BindingsView, l: TypedList) -> Seq<u8>
    decreases l,
{
    match l {
        NodeList::Nil => Seq::empty(),
        NodeList::Cons(h, t) => gen(pool, b, *h) + gen_list(pool, b, *t),
    }
}

/// Call arguments separated by commas; `leading` puts a comma before the first one as well.
pub open spec fn gen_args(pool: Seq<Seq<u8>>, b: BindingsView, l: TypedList, leading: bool) -> Seq<u8>
    decreases l,
{
    match l {
        NodeList::Nil => Seq::empty(),
        NodeList::Cons(h, t) => (if leading { ", ".spec_bytes() } else { Seq::empty() }) + gen(pool, b, *h)
            + gen_args(pool, b, *t, true),
    }
}

/// Writes a function's signature, without a brace or a semicolon.
fn codegen_fun_decl(pool: &StringPool, bindings: &Bindings, fun: &FunBinding, writer: &mut Vec<u8>)
    requires
        forall|k: int| 0 <= k < fun.args@.len() ==> bindings.is_var(#[trigger] fun.args@[k]),
    ensures
        final(writer)@ == old(writer)@ + fun_decl_text(pool.view(), bindings@, *fun),
{
    fun.return_type.write_text(pool, writer);
    push_str(writer, " ");
    push_bytes(writer, &fun.output_name);
    push_str(writer, "(");
    let mut generate_comma = false;
    if let Namespace::DynamicCall(_) = fun.namespace {
        push_str(writer, "void *self_ptr");
        generate_comma = true;
    }
    let ghost dynamic = fun.namespace is DynamicCall;
    let ghost start = writer@;
    let mut i: usize = 0;
    while i < fun.args.len()
        invariant
            i <= fun.args@.len(),
            forall|k: int| 0 <= k < fun.args@.len() ==> bindings.is_var(#[trigger] fun.args@[k]),
            generate_comma == (dynamic || i > 0),
            writer@ == start + params_list(pool.view(), bindings@, fun.args@.take(i as int), dynamic),
        decreases fun.args@.len() - i,
    {
        if generate_comma {
            push_str(writer, ", ");
        }
        let binding = bindings.get_var(fun.args[i]);
        binding.typ.write_text(pool, writer);
        push_str(writer, " ");
        push_bytes(writer, &binding.output_name);
        generate_comma = true;
        i += 1;
        assert(fun.args@.take(i as int).drop_last() =~= fun.args@.take(i - 1));
        assert(writer@ =~= start + params_list(pool.view(), bindings@, fun.args@.take(i as int), dynamic));
    }
    assert(fun.args@.take(fun.args@.len() as int) =~= fun.args@);
    push_str(writer, ")");
    assert(final(writer)@ =~= old(writer)@ + fun_decl_text(pool.view(), bindings@, *fun));
}

/// Lowers a resolved node to text, appending it to `writer`.
#[verifier::rlimit(40)]
pub fn codegen(pool: &StringPool, bindings: &Bindings, node: &TypedNode, writer: &mut Vec<u8>)
    requires
        bindings.wf(),
    ensures
        final(writer)@ == old(writer)@ + gen(pool.view(), bindings@, *node),
    decreases node, 1nat,
{
    match node {
        Node::FunDecl(bind_id, body) => {
            if !bindings.has_fun(*bind_id) {
                assert(old(writer)@ + Seq::<u8>::empty() =~= old(writer)@);
                return;
            }
            let fun = bindings.get_fun(*bind_id);
            proof { bindings.lemma_fun_args_valid(*bind_id); }
            codegen_fun_decl(pool, bindings, fun, writer);
            push_str(writer, " {\n");
            if let Namespace::DynamicCall(node_name) = fun.namespace {
                let self_type = TypeName::Primitive(node_name);
                self_type.write_text(pool, writer);
                push_str(writer, " *self = (");
                self_type.write_text(pool, writer);
                push_str(writer, "*)(self_ptr);\n");
            }
            codegen_list(pool, bindings, body, writer);
            push_str(writer, "}\n");
            assert(final(writer)@ =~= old(writer)@ + gen(pool.view(), bindings@, *node));
        },
        Node::FunCall(_, called_on, fun, args) => {
            if !bindings.has_fun(*fun) {
                assert(old(writer)@ + Seq::<u8>::empty() =~= old(writer)@);
                return;
            }
            let fun = bindings.get_fun(*fun);
            push_bytes(writer, &fun.output_name);
            push_str(writer, "(");
            // The receiver is the first argument.
            let generate_comma = match called_on {
                Some(c) => {
                    codegen(pool, bindings, &**c, writer);
                    true
                },
                None => false,
            };
            codegen_args(pool, bindings, args, generate_comma, writer);
            push_str(writer, ");\n");
            assert(final(writer)@ =~= old(writer)@ + gen(pool.view(), bindings@, *node));
        },
        Node::Tree(tree) => {
            codegen_list(pool, bindings, &tree.children, writer);
        },
        Node::Decl(bind_id, expr) => {
            if !bindings.has_var(*bind_id) {
                assert(old(writer)@ + Seq::<u8>::empty() =~= old(writer)@);
                return;
            }
            let binding = bindings.get_var(*bind_id);
            binding.typ.write_text(pool, writer);
            push_str(writer, " ");
            push_bytes(writer, &binding.output_name);
            if let Some(expr) = expr {
                push_str(writer, " = ");
                codegen(pool, bindings, &**expr, writer);
            }
            push_str(writer, ";\n");
            assert(final(writer)@ =~= old(writer)@ + gen(pool.view(), bindings@, *node));
        },
        Node::Assign(bind, expr) => {
            if !bindings.has_var(*bind) {
                assert(old(writer)@ + Seq::<u8>::empty() =~= old(writer)@);
                return;
            }
            let binding = bindings.get_var(*bind);
            push_bytes(writer, &binding.output_name);
            push_str(writer, " = ");
            codegen(pool, bindings, &**expr, writer);
            push_str(writer, ";\n");
            assert(final(writer)@ =~= old(writer)@ + gen(pool.view(), bindings@, *node));
        },
        Node::NumConst(val, _) => {
            pool.write_pooled(*val, writer);
        },
        Node::BinOp(..) => {
            codegen_op(pool, bindings, node, writer);
        },
        Node::VarRef(id) => {
            if !bindings.has_var(*id) {
                assert(old(writer)@ + Seq::<u8>::empty() =~= old(writer)@);
                return;
            }
            let binding = bindings.get_var(*id);
            push_bytes(writer, &binding.output_name);
        },
        Node::SelfRef => {
            push_str(writer, "self");
        },
        Node::Empty => {
            assert(old(writer)@ + Seq::<u8>::empty() =~= old(writer)@);
        },
    }
}

fn codegen_list(pool: &StringPool, bindings: &Bindings, list: &TypedList, writer: &mut Vec<u8>)
    requires
        bindings.wf(),
    ensures
        final(writer)@ == old(writer)@ + gen_list(pool.view(), bindings@, *list),
    decreases list, 1nat,
{
    match list {
        NodeList::Nil => {
            assert(old(writer)@ + Seq::<u8>::empty() =~= old(writer)@);
        },
        NodeList::Cons(h, t) => {
            codegen(pool, bindings, &**h, writer);
            codegen_list(pool, bindings, &**t, writer);
            assert(final(writer)@ =~= old(writer)@ + gen_list(pool.view(), bindings@, *list));
        },
    }
}

fn codegen_args(pool: &StringPool, bindings: &Bindings, list: &TypedList, generate_comma: bool, writer: &mut Vec<u8>)
    requires
        bindings.wf(),
    ensures
        final(writer)@ == old(writer)@ + gen_args(pool.view(), bindings@, *list, generate_comma),
    decreases list, 1nat,
{
    match list {
        NodeList::Nil => {
            assert(old(writer)@ + Seq::<u8>::empty() =~= old(writer)@);
        },
        NodeList::Cons(h, t) => {
            if generate_comma {
                push_str(writer, ", ");
            }
            codegen(pool, bindings, &**h, writer);
            codegen_args(pool, bindings, &**t, true, writer);
            assert(final(writer)@ =~= old(writer)@ + gen_args(pool.view(), bindings@, *list, generate_comma));
        },
    }
}

/// An operation becomes a call of a function named after the left operand's type and the
/// operation, so that its meaning may differ per type.
fn codegen_op(pool: &StringPool, bindings: &Bindings, node: &TypedNode, writer: &mut Vec<u8>)
    requires
        bindings.wf(),
        node is BinOp,
    ensures
        final(writer)@ == old(writer)@ + gen(pool.view(), bindings@, *node),
    decreases node, 0nat,
{
    if let Node::BinOp(op, lhs, rhs) = node {
        (**lhs).get_expr_type(bindings).write_text(pool, writer);
        push_str(writer, "_op_");
        push_str(writer, op.impl_str());
        push_str(writer, "(");
        codegen(pool, bindings, &**lhs, writer);
        push_str(writer, ", ");
        codegen(pool, bindings, &**rhs, writer);
        push_str(writer, ")");
        assert(final(writer)@ =~= old(writer)@ + gen(pool.view(), bindings@, *node));
    }
}

/// The fixed start of every output: includes, and the operator macros of the built-in numeric
/// types.
pub open spec fn prelude_text() -> Seq<u8> {
    "#include <stdint.h>\n#include <stdlib.h>\n#include <stdio.h>\n\n#define int32_t_op_add(a, b) ((a) + (b))\n#define float_op_add(a, b) ((a) + (b))\n".spec_bytes()
}

pub fn write_prelude(writer: &mut Vec<u8>)
    ensures
        final(writer)@ == old(writer)@ + prelude_text(),
{
    push_str(writer, "#include <stdint.h>\n#include <stdlib.h>\n#include <stdio.h>\n\n#define int32_t_op_add(a, b) ((a) + (b))\n#define float_op_add(a, b) ((a) + (b))\n");
}

/// The signatures of the functions `ids`, each closed by a semicolon.
pub open spec fn funs_forward(pool: Seq<Seq<u8>>, b: BindingsView, ids: Seq<FunID>) -> Seq<u8>
    decreases ids.len(),
{
    if ids.len() == 0 {
        Seq::empty()
    } else {
        funs_forward(pool, b, ids.drop_last()) + fun_decl_text(pool, b, b.fun(ids.last())) + ";\n".spec_bytes()
    }
}

/// The fields of a type as `(type, output name)` lines of a macro.
pub open spec fn members_text(pool: Seq<Seq<u8>>, b: BindingsView, ms: Seq<VarID>) -> Seq<u8>
    decreases ms.len(),
{
    if ms.len() == 0 {
        Seq::empty()
    } else {
        members_text(pool, b, ms.drop_last()) + " \\\n".spec_bytes() + type_text(pool, b.var(ms.last()).typ)
            + " ".spec_bytes() + b.var(ms.last()).output_name@ + ";".spec_bytes()
    }
}

/// The field-list macro of a type: its base class's field list, then its own fields.
pub open spec fn field_list_text(pool: Seq<Seq<u8>>, b: BindingsView, t: TypeID) -> Seq<u8> {
    let ty = b.type_at(t);
    "#define FieldList_".spec_bytes() + ty.output_name@
        + (match ty.base_class {
            Some(bc) => " \\\nFieldList_".spec_bytes() + type_text(pool, bc),
            None => Seq::empty(),
        })
        + members_text(pool, b, ty.members@) + "\n".spec_bytes()
}

/// The struct definition of a type, which expands its field-list macro.
pub open spec fn struct_text(b: BindingsView, t: TypeID) -> Seq<u8> {
    let name = b.type_at(t).output_name@;
    "typedef struct S".spec_bytes() + name + " {\n".spec_bytes() + "\tFieldList_".spec_bytes() + name
        + "\n".spec_bytes() + "} ".spec_bytes() + name + ";\n".spec_bytes()
}

pub open spec fn field_lists(pool: Seq<Seq<u8>>, b: BindingsView, ids: Seq<TypeID>) -> Seq<u8>
    decreases ids.len(),
{
    if ids.len() == 0 {
        Seq::empty()
    } else {
        field_lists(pool, b, ids.drop_last()) + field_list_text(pool, b, ids.last())
    }
}

pub open spec fn structs(b: BindingsView, ids: Seq<TypeID>) -> Seq<u8>
    decreases ids.len(),
{
    if ids.len() == 0 {
        Seq::empty()
    } else {
        structs(b, ids.drop_last()) + struct_text(b, ids.last())
    }
}

/// All forward declarations: every function's signature in registration order, then every
/// type's field-list macro, then every type's struct, in order of creation.
pub open spec fn forward_text(pool: Seq<Seq<u8>>, b: BindingsView) -> Seq<u8> {
    let types = type_ids(b.entries, b.entries.len());
    funs_forward(pool, b, b.overloads.map_values(|o: (Namespace, crate::string_pool::PoolS, FunID)| o.2))
        + field_lists(pool, b, types) + structs(b, types)
}

fn write_field_list(pool: &StringPool, bindings: &Bindings, id: TypeID, writer: &mut Vec<u8>)
    requires
        bindings.wf(),
        bindings.is_type(id),
    ensures
        final(writer)@ == old(writer)@ + field_list_text(pool.view(), bindings@, id),
{
    let typ = bindings.get_type_by_id(id);
    proof { bindings.lemma_type_members_valid(id); }
    push_str(writer, "#define FieldList_");
    push_bytes(writer, &typ.output_name);
    if let Some(base_class) = &typ.base_class {
        push_str(writer, " \\\nFieldList_");
        base_class.write_text(pool, writer);
    }
    let ghost start = writer@;
    let mut i: usize = 0;
    while i < typ.members.len()
        invariant
            i <= typ.members@.len(),
            forall|k: int| 0 <= k < typ.members@.len() ==> bindings.is_var(#[trigger] typ.members@[k]),
            writer@ == start + members_text(pool.view(), bindings@, typ.members@.take(i as int)),
        decreases typ.members@.len() - i,
    {
        let var = bindings.get_var(typ.members[i]);
        push_str(writer, " \\\n");
        var.typ.write_text(pool, writer);
        push_str(writer, " ");
        push_bytes(writer, &var.output_name);
        push_str(writer, ";");
        i += 1;
        assert(typ.members@.take(i as int).drop_last() =~= typ.members@.take(i - 1));
        assert(writer@ =~= start + members_text(pool.view(), bindings@, typ.members@.take(i as int)));
    }
    assert(typ.members@.take(typ.members@.len() as int) =~= typ.members@);
    push_str(writer, "\n");
    assert(final(writer)@ =~= old(writer)@ + field_list_text(pool.view(), bindings@, id));
}

fn write_struct(bindings: &Bindings, id: TypeID, writer: &mut Vec<u8>)
    requires
        bindings.is_type(id),
    ensures
        final(writer)@ == old(writer)@ + struct_text(bindings@, id),
{
    let typ = bindings.get_type_by_id(id);
    push_str(writer, "typedef struct S");
    push_bytes(writer, &typ.output_name);
    push_str(writer, " {\n");
    push_str(writer, "\tFieldList_");
    push_bytes(writer, &typ.output_name);
    push_str(writer, "\n");
    push_str(writer, "} ");
    push_bytes(writer, &typ.output_name);
    push_str(writer, ";\n");
    assert(final(writer)@ =~= old(writer)@ + struct_text(bindings@, id));
}

/// Writes every function's signature, then each type's field-list macro and struct, so that
/// the bodies that follow may refer to any of them.
pub fn write_forward_declarations(pool: &StringPool, bindings: &Bindings, writer: &mut Vec<u8>)
    requires
        bindings.wf(),
    ensures
        final(writer)@ == old(writer)@ + forward_text(pool.view(), bindings@),
{
    let funs = bindings.fun_bindings();
    let ghost s0 = writer@;
    let mut i: usize = 0;
    while i < funs.len()
        invariant
            bindings.wf(),
            i <= funs@.len(),
            forall|k: int| 0 <= k < funs@.len() ==> bindings.is_fun(#[trigger] funs@[k]),
            writer@ == s0 + funs_forward(pool.view(), bindings@, funs@.take(i as int)),
        decreases funs@.len() - i,
    {
        let fun = bindings.get_fun(funs[i]);
        proof { bindings.lemma_fun_args_valid(funs@[i as int]); }
        codegen_fun_decl(pool, bindings, fun, writer);
        push_str(writer, ";\n");
        i += 1;
        assert(funs@.take(i as int).drop_last() =~= funs@.take(i - 1));
        assert(writer@ =~= s0 + funs_forward(pool.view(), bindings@, funs@.take(i as int)));
    }
    assert(funs@.take(funs@.len() as int) =~= funs@);
    let types = bindings.type_bindings();
    let ghost s1 = writer@;
    let mut i: usize = 0;
    while i < types.len()
        invariant
            bindings.wf(),
            i <= types@.len(),
            forall|k: int| 0 <= k < types@.len() ==> bindings.is_type(#[trigger] types@[k]),
            writer@ == s1 + field_lists(pool.view(), bindings@, types@.take(i as int)),
        decreases types@.len() - i,
    {
        write_field_list(pool, bindings, types[i], writer);
        i += 1;
        assert(types@.take(i as int).drop_last() =~= types@.take(i - 1));
    }
    assert(types@.take(types@.len() as int) =~= types@);
    let ghost s2 = writer@;
    let mut i: usize = 0;
    while i < types.len()
        invariant
            i <= types@.len(),
            forall|k: int| 0 <= k < types@.len() ==> bindings.is_type(#[trigger] types@[k]),
            writer@ == s2 + structs(bindings@, types@.take(i as int)),
        decreases types@.len() - i,
    {
        write_struct(bindings, types[i], writer);
        i += 1;
        assert(types@.take(i as int).drop_last() =~= types@.take(i - 1));
    }
    assert(final(writer)@ =~= old(writer)@ + forward_text(pool.view(), bindings@));
}

} // verus!
