//! Type checking: resolves calls, infers variable types and propagates concrete numeric types
//! into literals, against a mathematical statement of the whole pass.

use vstd::prelude::*;
use crate::ast::{BindPoint, Node, NodeList, Tree, TypedList, TypedNode, UntypedList, UntypedNode, list_types};
use crate::ast::types::{TypeName, is_specific_numeric_spec, may_coerce};
use crate::bindings::{Bindings, BindingsView, VarID, resolve_in_self};
use crate::error::CompileError;
use crate::string_pool::PoolS;

verus! {

/// Unification of a variable's type `v` with an expression's type `e`: the variable's new type
/// and whether they matched.
/// - An unset variable adopts the expression's type; an unspecific numeric becomes `Float`.
/// - An optional or dereference variable type unwraps one level, against a same-wrapped
///   expression type or directly against an unwrapped one.
/// - Otherwise the types must be equal, except that a concrete numeric variable also accepts an
///   unspecific numeric expression.
pub open spec fn match_spec(v: TypeName, e: TypeName) -> (TypeName, bool)
    decreases v,
{
    match v {
        TypeName::Unset => if e is UnspecificNumeric {
            (TypeName::Float, true)
        } else {
            (e, true)
        },
        TypeName::Optional(inner) => {
            let r = match e {
                TypeName::Optional(ei) => match_spec(*inner, *ei),
                _ => match_spec(*inner, e),
            };
            (TypeName::Optional(Box::new(r.0)), r.1)
        },
        TypeName::Deref(inner) => {
            let r = match e {
                TypeName::Deref(ei) => match_spec(*inner, *ei),
                _ => match_spec(*inner, e),
            };
            (TypeName::Deref(Box::new(r.0)), r.1)
        },
        _ => (v, may_coerce(v, e)),
    }
}

/// Unifies `var_type` with `expr_type` in place (see `match_spec`); returns whether they matched.
pub fn type_match_var(var_type: &mut TypeName, expr_type: &TypeName) -> (r: bool)
    ensures
        (*final(var_type), r) == match_spec(*old(var_type), *expr_type),
    decreases *old(var_type),
{
    match var_type {
        TypeName::Unset => {
            match expr_type {
                TypeName::UnspecificNumeric => {
                    *var_type = TypeName::Float;
                    true
                },
                _ => {
                    *var_type = expr_type.clone();
                    true
                },
            }
        },
        TypeName::Optional(inner) => {
            if let TypeName::Optional(expr_inner) = expr_type {
                type_match_var(&mut **inner, &**expr_inner)
            } else {
                type_match_var(&mut **inner, expr_type)
            }
        },
        TypeName::Deref(inner) => {
            if let TypeName::Deref(expr_inner) = expr_type {
                type_match_var(&mut **inner, &**expr_inner)
            } else {
                type_match_var(&mut **inner, expr_type)
            }
        },
        _ => var_type.eq_or_may_coerce(expr_type),
    }
}

/// Gives every unspecific numeric literal reachable through operations, call receivers and
/// call arguments the type `t`.
pub open spec fn propagate(n: TypedNode, t: TypeName) -> TypedNode
    decreases n,
{
    match n {
        Node::NumConst(v, nt) => if nt is UnspecificNumeric {
            Node::NumConst(v, t)
        } else {
            n
        },
        Node::BinOp(op, lhs, rhs) => Node::BinOp(op, Box::new(propagate(*lhs, t)), Box::new(propagate(*rhs, t))),
        Node::FunCall(ns, called_on, f, args) => Node::FunCall(
            ns,
            match called_on {
                Some(c) => Some(Box::new(propagate(*c, t))),
                None => None,
            },
            f,
            propagate_list(args, t),
        ),
        _ => n,
    }
}

pub open spec fn propagate_list(l: TypedList, t: TypeName) -> TypedList
    decreases l,
{
    match l {
        NodeList::Nil => NodeList::Nil,
        NodeList::Cons(h, tl) => NodeList::Cons(Box::new(propagate(*h, t)), Box::new(propagate_list(*tl, t))),
    }
}

fn propagate_numeric(node: TypedNode, typ: &TypeName) -> (r: TypedNode)
    ensures
        r == propagate(node, *typ),
    decreases node,
{
    match node {
        Node::NumConst(val, num_typ) => {
            if let TypeName::UnspecificNumeric = num_typ {
                Node::NumConst(val, typ.clone())
            } else {
                Node::NumConst(val, num_typ)
            }
        },
        Node::BinOp(op, lhs, rhs) => {
            let rhs = propagate_numeric(*rhs, typ);
            let lhs = propagate_numeric(*lhs, typ);
            Node::BinOp(op, Box::new(lhs), Box::new(rhs))
        },
        Node::FunCall(ns, called_on, f, args) => {
            let called_on = match called_on {
                Some(c) => Some(Box::new(propagate_numeric(*c, typ))),
                None => None,
            };
            Node::FunCall(ns, called_on, f, propagate_numeric_list(args, typ))
        },
        other => other,
    }
}

fn propagate_numeric_list(list: TypedList, typ: &TypeName) -> (r: TypedList)
    ensures
        r == propagate_list(list, *typ),
    decreases list,
{
    match list {
        NodeList::Nil => NodeList::Nil,
        NodeList::Cons(h, t) => {
            let h = propagate_numeric(*h, typ);
            NodeList::Cons(Box::new(h), Box::new(propagate_numeric_list(*t, typ)))
        },
    }
}

/// The outcome of checking one node: the binding table afterwards, and the typed node with its
/// expression type (`Error` for a node that is not an expression), or the first error.
pub type Checked = (BindingsView, Result<(TypedNode, TypeName), CompileError>);

/// Checks `e` and unifies the type of variable `id` with it; on success, when the variable is
/// concretely numeric and `e` was unspecific, the concrete type is propagated into `e`.
pub open spec fn tc_assign(b: BindingsView, e: UntypedNode, id: VarID) -> (BindingsView, Result<TypedNode, CompileError>)
    decreases e, 1nat,
{
    let (b1, r) = tc(b, e);
    match r {
        Err(err) => (b1, Err(err)),
        Ok((n, et)) => if !b1.is_var(id) {
            (b1, Err(CompileError::UnboundIdentifier))
        } else {
            let (nt, ok) = match_spec(b1.var(id).typ, et);
            let b2 = b1.with_var_type(id, nt);
            if !ok {
                (b2, Err(CompileError::TypeMismatch(nt, et)))
            } else if is_specific_numeric_spec(nt) && et is UnspecificNumeric {
                (b2, Ok(propagate(n, nt)))
            } else {
                (b2, Ok(n))
            }
        },
    }
}

/// Type checking of one node: the table afterwards, and the typed node with its expression type,
/// or the first error. A literal has its stored type and a variable its current type. An
/// operation first propagates a concrete numeric type into an unspecific operand, then requires
/// equal operand types. Declarations and assignments unify their variable (`tc_assign`). A call
/// checks its arguments first; an unresolved callee is then looked up in the caller's own
/// namespace, which adds a `self` receiver, and then in the global one.
pub open spec fn tc(b: BindingsView, n: UntypedNode) -> Checked
    decreases n, 0nat,
{
    match n {
        Node::Tree(tree) => {
            let (b1, r) = tc_list(b, tree.children);
            match r {
                Err(e) => (b1, Err(e)),
                Ok(cs) => (b1, Ok((Node::Tree(Tree { base_type: tree.base_type, own_type: tree.own_type, children: cs }), TypeName::Error))),
            }
        },
        Node::FunDecl(id, body) => {
            let (b1, r) = tc_list(b, body);
            match r {
                Err(e) => (b1, Err(e)),
                Ok(cs) => (b1, Ok((Node::FunDecl(id, cs), TypeName::Error))),
            }
        },
        Node::Decl(id, None) => (b, Ok((Node::Decl(id, None), TypeName::Error))),
        Node::Decl(id, Some(e)) => {
            let (b1, r) = tc_assign(b, *e, id);
            match r {
                Err(err) => (b1, Err(err)),
                Ok(en) => (b1, Ok((Node::Decl(id, Some(Box::new(en))), TypeName::Error))),
            }
        },
        Node::Assign(BindPoint::Unbound(_), _) => (b, Err(CompileError::UnboundIdentifier)),
        Node::Assign(BindPoint::BoundTo(id), e) => {
            let (b1, r) = tc_assign(b, *e, id);
            match r {
                Err(err) => (b1, Err(err)),
                Ok(en) => (b1, Ok((Node::Assign(id, Box::new(en)), TypeName::Error))),
            }
        },
        Node::NumConst(v, t) => (b, Ok((Node::NumConst(v, t), t))),
        Node::VarRef(BindPoint::Unbound(_)) => (b, Err(CompileError::UnboundIdentifier)),
        Node::VarRef(BindPoint::BoundTo(id)) => if b.is_var(id) {
            (b, Ok((Node::VarRef(id), b.var(id).typ)))
        } else {
            (b, Err(CompileError::UnboundIdentifier))
        },
        Node::BinOp(op, lhs, rhs) => {
            let (b1, rl) = tc(b, *lhs);
            match rl {
                Err(e) => (b1, Err(e)),
                Ok((ln, lt)) => {
                    let (b2, rr) = tc(b1, *rhs);
                    match rr {
                        Err(e) => (b2, Err(e)),
                        Ok((rn, rt)) => {
                            let (ln, lt, rn, rt) = if lt is UnspecificNumeric && is_specific_numeric_spec(rt) {
                                (propagate(ln, rt), rt, rn, rt)
                            } else if rt is UnspecificNumeric && is_specific_numeric_spec(lt) {
                                (ln, lt, propagate(rn, lt), lt)
                            } else {
                                (ln, lt, rn, rt)
                            };
                            if lt == rt {
                                (b2, Ok((Node::BinOp(op, Box::new(ln), Box::new(rn)), lt)))
                            } else {
                                (b2, Err(CompileError::TypeMismatch(lt, rt)))
                            }
                        },
                    }
                },
            }
        },
        Node::FunCall(ns, called_on, point, args) => {
            let (b1, ra) = tc_list(b, args);
            match ra {
                Err(e) => (b1, Err(e)),
                Ok(targs) => match called_on {
                    Some(inner) => {
                        let (b2, ri) = tc(b1, *inner);
                        match ri {
                            Err(e) => (b2, Err(e)),
                            Ok(_) => (b2, Err(CompileError::Unsupported)),
                        }
                    },
                    None => match point {
                        BindPoint::Unbound(name) => match resolve_in_self(b1, ns, name, list_types(b1, targs@)) {
                            None => (b1, Err(CompileError::NoMatchingOverload(name))),
                            Some((f, needs_self)) => (b1, Ok((
                                Node::FunCall(ns, if needs_self { Some(Box::new(Node::SelfRef)) } else { None }, f, targs),
                                b1.fun(f).return_type,
                            ))),
                        },
                        BindPoint::BoundTo(f) => if b1.is_fun(f) {
                            (b1, Ok((Node::FunCall(ns, None, f, targs), b1.fun(f).return_type)))
                        } else {
                            (b1, Err(CompileError::UnboundIdentifier))
                        },
                    },
                },
            }
        },
        Node::SelfRef => (b, Ok((Node::SelfRef, TypeName::Error))),
        Node::Empty => (b, Ok((Node::Empty, TypeName::Error))),
    }
}

/// Type checking of a statement or argument list, in order, stopping at the first error.
pub open spec fn tc_list(b: BindingsView, l: UntypedList) -> (BindingsView, Result<TypedList, CompileError>)
    decreases l, 0nat,
{
    match l {
        NodeList::Nil => (b, Ok(NodeList::Nil)),
        NodeList::Cons(h, t) => {
            let (b1, rh) = tc(b, *h);
            match rh {
                Err(e) => (b1, Err(e)),
                Ok((hn, _)) => {
                    let (b2, rt) = tc_list(b1, *t);
                    match rt {
                        Err(e) => (b2, Err(e)),
                        Ok(tn) => (b2, Ok(NodeList::Cons(Box::new(hn), Box::new(tn)))),
                    }
                },
            }
        },
    }
}

fn typecheck_assignment(bindings: &mut Bindings, expr: UntypedNode, id: VarID) -> (r: Result<TypedNode, CompileError>)
    requires
        old(bindings).wf(),
    ensures
        final(bindings).wf(),
        (final(bindings)@, r) == tc_assign(old(bindings)@, expr, id),
        final(bindings).next_id() == old(bindings).next_id(),
        final(bindings)@.overloads == old(bindings)@.overloads,
        forall|n: Seq<u8>| #[trigger] final(bindings).uses(n) == old(bindings).uses(n),
    decreases expr, 1nat,
{
    let (node, expr_type) = typecheck(bindings, expr)?;
    if !bindings.has_var(id) {
        return Err(CompileError::UnboundIdentifier);
    }
    let matched = bindings.match_var_type(id, &expr_type);
    if !matched {
        let var_type = bindings.get_var(id).typ.clone();
        return Err(CompileError::TypeMismatch(var_type, expr_type));
    }
    let var_type = &bindings.get_var(id).typ;
    if var_type.is_specific_numeric() && matches!(expr_type, TypeName::UnspecificNumeric) {
        return Ok(propagate_numeric(node, var_type));
    }
    Ok(node)
}

/// Checks the statements or arguments of `list` in order and stops at the first error.
fn typecheck_list(bindings: &mut Bindings, list: UntypedList) -> (r: Result<TypedList, CompileError>)
    requires
        old(bindings).wf(),
    ensures
        final(bindings).wf(),
        (final(bindings)@, r) == tc_list(old(bindings)@, list),
        final(bindings).next_id() == old(bindings).next_id(),
        final(bindings)@.overloads == old(bindings)@.overloads,
        forall|n: Seq<u8>| #[trigger] final(bindings).uses(n) == old(bindings).uses(n),
    decreases list, 0nat,
{
    match list {
        NodeList::Nil => Ok(NodeList::Nil),
        NodeList::Cons(h, t) => {
            let (hn, _) = typecheck(bindings, *h)?;
            let tn = typecheck_list(bindings, *t)?;
            Ok(NodeList::Cons(Box::new(hn), Box::new(tn)))
        },
    }
}

/// Resolves and type checks a tree, producing a tree with every reference bound, together with
/// the node's expression type (`Error` for statements and declarations). Variable types are
/// inferred in the binding table as a side effect. The first unbound reference, type mismatch or
/// unresolvable call ends the pass with that error.
pub fn typecheck(bindings: &mut Bindings, node: UntypedNode) -> (r: Result<(TypedNode, TypeName), CompileError>)
    requires
        old(bindings).wf(),
    ensures
        final(bindings).wf(),
        (final(bindings)@, r) == tc(old(bindings)@, node),
        final(bindings).next_id() == old(bindings).next_id(),
        final(bindings)@.overloads == old(bindings)@.overloads,
        forall|n: Seq<u8>| #[trigger] final(bindings).uses(n) == old(bindings).uses(n),
    decreases node, 0nat,
{
    match node {
        Node::Tree(tree) => {
            let children = typecheck_list(bindings, tree.children)?;
            let typed_tree = Tree { base_type: tree.base_type, own_type: tree.own_type, children };
            Ok((Node::Tree(typed_tree), TypeName::Error))
        },
        Node::FunDecl(id, body) => {
            let body = typecheck_list(bindings, body)?;
            Ok((Node::FunDecl(id, body), TypeName::Error))
        },
        Node::Decl(id, expr) => {
            match expr {
                None => Ok((Node::Decl(id, None), TypeName::Error)),
                Some(expr) => {
                    let expr = typecheck_assignment(bindings, *expr, id)?;
                    Ok((Node::Decl(id, Some(Box::new(expr))), TypeName::Error))
                },
            }
        },
        Node::Assign(bind, expr) => {
            match bind {
                BindPoint::Unbound(_) => Err(CompileError::UnboundIdentifier),
                BindPoint::BoundTo(id) => {
                    let expr = typecheck_assignment(bindings, *expr, id)?;
                    Ok((Node::Assign(id, Box::new(expr)), TypeName::Error))
                },
            }
        },
        Node::NumConst(id, typ) => {
            let t = typ.clone();
            Ok((Node::NumConst(id, typ), t))
        },
        Node::VarRef(point) => {
            match point {
                BindPoint::Unbound(_) => Err(CompileError::UnboundIdentifier),
                BindPoint::BoundTo(id) => {
                    if !bindings.has_var(id) {
                        return Err(CompileError::UnboundIdentifier);
                    }
                    let typ = bindings.get_var(id).typ.clone();
                    Ok((Node::VarRef(id), typ))
                },
            }
        },
        Node::BinOp(op, lhs, rhs) => {
            let (mut ln, mut lt) = typecheck(bindings, *lhs)?;
            let (mut rn, mut rt) = typecheck(bindings, *rhs)?;
            if matches!(lt, TypeName::UnspecificNumeric) && rt.is_specific_numeric() {
                ln = propagate_numeric(ln, &rt);
                lt = rt.clone();
            } else if matches!(rt, TypeName::UnspecificNumeric) && lt.is_specific_numeric() {
                rn = propagate_numeric(rn, &lt);
                rt = lt.clone();
            }
            if lt.same(&rt) {
                Ok((Node::BinOp(op, Box::new(ln), Box::new(rn)), lt))
            } else {
                Err(CompileError::TypeMismatch(lt, rt))
            }
        },
        Node::FunCall(namespace, called_on, point, args) => {
            // Arity and argument types must be known before the call can be resolved.
            let args = typecheck_list(bindings, args)?;
            match called_on {
                Some(inner) => {
                    let _ = typecheck(bindings, *inner)?;
                    Err(CompileError::Unsupported)
                },
                None => {
                    match point {
                        BindPoint::Unbound(name) => {
                            match bindings.find_fun_from_nodes_in_self_namespace(namespace, name, &args) {
                                None => Err(CompileError::NoMatchingOverload(name)),
                                Some((f, needs_self)) => {
                                    let called_on = if needs_self {
                                        Some(Box::new(Node::SelfRef))
                                    } else {
                                        None
                                    };
                                    let typ = bindings.get_fun(f).return_type.clone();
                                    Ok((Node::FunCall(namespace, called_on, f, args), typ))
                                },
                            }
                        },
                        BindPoint::BoundTo(f) => {
                            if !bindings.has_fun(f) {
                                return Err(CompileError::UnboundIdentifier);
                            }
                            let typ = bindings.get_fun(f).return_type.clone();
                            Ok((Node::FunCall(namespace, None, f, args), typ))
                        },
                    }
                },
            }
        },
        Node::SelfRef => Ok((Node::SelfRef, TypeName::Error)),
        Node::Empty => Ok((Node::Empty, TypeName::Error)),
    }
}

/// The one coercion, and nothing more: an unset variable matched with an unspecific numeric becomes `Float`; an
/// `Int32` variable accepts an unspecific numeric and stays `Int32`; an `Int32` variable does
/// not accept a `Float`.
pub proof fn lemma_coercion_closure()
    ensures
        match_spec(TypeName::Unset, TypeName::UnspecificNumeric) == (TypeName::Float, true),
        match_spec(TypeName::Int32, TypeName::UnspecificNumeric) == (TypeName::Int32, true),
        !match_spec(TypeName::Int32, TypeName::Float).1,
{
}

/// Propagating a numeric type changes each literal at most once: a literal that already has a concrete type keeps it, and
/// propagating twice gives what propagating once gives.
pub proof fn lemma_propagation_idempotent(n: TypedNode, t: TypeName)
    ensures
        propagate(propagate(n, t), t) == propagate(n, t),
        n matches Node::NumConst(_, c) && !(c is UnspecificNumeric) ==> propagate(n, t) == n,
    decreases n,
{
    match n {
        Node::BinOp(_, lhs, rhs) => {
            lemma_propagation_idempotent(*lhs, t);
            lemma_propagation_idempotent(*rhs, t);
        },
        Node::FunCall(_, called_on, _, args) => {
            if let Some(c) = called_on {
                lemma_propagation_idempotent(*c, t);
            }
            lemma_propagation_list_idempotent(args, t);
        },
        _ => {},
    }
}

pub proof fn lemma_propagation_list_idempotent(l: TypedList, t: TypeName)
    ensures
        propagate_list(propagate_list(l, t), t) == propagate_list(l, t),
    decreases l,
{
    if let NodeList::Cons(h, tl) = l {
        lemma_propagation_idempotent(*h, t);
        lemma_propagation_list_idempotent(*tl, t);
    }
}

} // verus!
