//! Syntax trees, in an untyped form with bind points and a typed form with resolved identities.

use vstd::prelude::*;
use crate::bindings::{Bindings, BindingsView, FunID, Namespace, VarID};
use crate::string_pool::{PoolS, StringPool, pooled_text, push_str};
use vstd::string::StringSliceAdditionalSpecFns;

pub mod types;
pub mod typecheck;
pub mod codegen;
pub mod op;

pub use codegen::codegen;
pub use typecheck::typecheck;

pub use types::{TypeList, TypeName};

verus! {

/// A reference to a symbol: by name before resolution, by identity after it.
#[derive(Debug, PartialEq, Eq, Clone, Copy, Structural)]
pub enum BindPoint<Unres, Id> {
    Unbound(Unres),
    BoundTo(Id),
}

impl<Unres, Id: Copy> BindPoint<Unres, Id> {
    pub fn unresolved(unresolved: Unres) -> (r: Self)
        ensures
            r == BindPoint::<Unres, Id>::Unbound(unresolved),
    {
        BindPoint::Unbound(unresolved)
    }

    /// Resolves this point to `new_binding`.
    pub fn bind_to(&mut self, new_binding: Id)
        ensures
            *final(self) == BindPoint::<Unres, Id>::BoundTo(new_binding),
    {
        *self = BindPoint::BoundTo(new_binding);
    }

    /// The identity this point is bound to, if it is bound.
    pub fn get_id(&self) -> (r: Option<Id>)
        ensures
            r == match *self {
                BindPoint::Unbound(_) => None,
                BindPoint::BoundTo(id) => Some(id),
            },
    {
        match self {
            BindPoint::Unbound(_) => None,
            BindPoint::BoundTo(id) => Some(*id),
        }
    }
}

impl<Id> BindPoint<PoolS, Id> {
    /// Appends the point's text: its name while unresolved, a marker once bound.
    pub fn write_text(&self, pool: &StringPool, out: &mut Vec<u8>)
        ensures
            final(out)@ == old(out)@ + match *self {
                BindPoint::Unbound(name) => pooled_text(pool.view(), name),
                BindPoint::BoundTo(_) => "[todo]".spec_bytes(),
            },
    {
        match self {
            BindPoint::Unbound(name) => pool.write_pooled(*name, out),
            BindPoint::BoundTo(_) => push_str(out, "[todo]"),
        }
    }
}

/// The declarations of one source file, with the base type and the own type that it declares.
pub struct Tree<Node> {
    pub base_type: PoolS,
    pub own_type: PoolS,
    pub children: Node,
}

#[derive(Debug, PartialEq, Eq, Clone, Copy, Structural)]
pub enum Op {
    Add,
    Subtract,
    Multiply,
    Divide,
}

pub open spec fn op_text(op: Op) -> &'static str {
    match op {
        Op::Add => "add",
        Op::Subtract => "sub",
        Op::Multiply => "mul",
        Op::Divide => "div",
    }
}

impl Op {
    /// The name under which the operation is lowered.
    pub fn impl_str(&self) -> (r: &'static str)
        ensures
            r == op_text(*self),
    {
        match self {
            Op::Add => "add",
            Op::Subtract => "sub",
            Op::Multiply => "mul",
            Op::Divide => "div",
        }
    }
}

/// A syntax tree node. `V` and `F` are the references to variables and functions: bind points
/// before type checking, bare identities after it.
pub enum Node<V, F> {
    Tree(Tree<NodeList<V, F>>),
    FunDecl(FunID, NodeList<V, F>),
    Decl(VarID, Option<Box<Node<V, F>>>),
    Assign(V, Box<Node<V, F>>),
    VarRef(V),
    NumConst(PoolS, TypeName),
    FunCall(Namespace, Option<Box<Node<V, F>>>, F, NodeList<V, F>),
    BinOp(Op, Box<Node<V, F>>, Box<Node<V, F>>),
    SelfRef,
    Empty,
}

/// An ordered sequence of nodes.
pub enum NodeList<V, F> {
    Nil,
    Cons(Box<Node<V, F>>, Box<NodeList<V, F>>),
}

impl<V, F> NodeList<V, F> {
    pub open spec fn view(self) -> Seq<Node<V, F>>
        decreases self,
    {
        match self {
            NodeList::Nil => Seq::empty(),
            NodeList::Cons(head, tail) => seq![*head].add(tail.view()),
        }
    }

    /// The list of the elements of `s`, in order.
    pub open spec fn from_seq(s: Seq<Node<V, F>>) -> NodeList<V, F>
        decreases s.len(),
    {
        if s.len() == 0 {
            NodeList::Nil
        } else {
            NodeList::Cons(Box::new(s[0]), Box::new(Self::from_seq(s.drop_first())))
        }
    }

    /// The list that holds `items` in order.
    pub fn from_vec(items: Vec<Node<V, F>>) -> (r: NodeList<V, F>)
        ensures
            r@ == items@,
            r == Self::from_seq(items@),
    {
        let mut items = items;
        let mut r = NodeList::Nil;
        let ghost all = items@;
        while items.len() > 0
            invariant
                items@ + r@ == all,
                r == Self::from_seq(all.subrange(items@.len() as int, all.len() as int)),
            decreases items@.len(),
        {
            let ghost before_items = items@;
            let last = items.pop().unwrap();
            let ghost before = r@;
            r = NodeList::Cons(Box::new(last), Box::new(r));
            assert(r@ =~= seq![last] + before);
            assert(before_items =~= items@.push(last));
            assert(items@ + r@ =~= before_items + before);
            assert(all.subrange(items@.len() as int, all.len() as int).drop_first() =~= all.subrange(before_items.len() as int, all.len() as int));
        }
        assert(items@ + r@ =~= r@);
        assert(all.subrange(0, all.len() as int) =~= all);
        r
    }
}

pub type VarBindPoint = BindPoint<PoolS, VarID>;

pub type FunBindPoint = BindPoint<PoolS, FunID>;

/// A tree as the parser produces it.
pub type UntypedNode = Node<VarBindPoint, FunBindPoint>;

/// A tree in which every reference is resolved.
pub type TypedNode = Node<VarID, FunID>;

pub type UntypedList = NodeList<VarBindPoint, FunBindPoint>;

pub type TypedList = NodeList<VarID, FunID>;

/// The type of a resolved expression: a literal's stored type, a variable's current type, a
/// call's return type, or the type of an operation's left operand. Other nodes are not
/// expressions and have type `Error`.
pub open spec fn expr_type(b: BindingsView, n: TypedNode) -> TypeName
    decreases n,
{
    match n {
        Node::NumConst(_, t) => t,
        Node::VarRef(id) => if b.is_var(id) { b.var(id).typ } else { TypeName::Error },
        Node::FunCall(_, _, f, _) => if b.is_fun(f) { b.fun(f).return_type } else { TypeName::Error },
        Node::BinOp(_, lhs, _) => expr_type(b, *lhs),
        _ => TypeName::Error,
    }
}

/// The types of several resolved expressions.
pub open spec fn list_types(b: BindingsView, s: Seq<TypedNode>) -> Seq<TypeName> {
    s.map_values(|n: TypedNode| expr_type(b, n))
}

impl Node<VarID, FunID> {
    pub fn get_expr_type(&self, bindings: &Bindings) -> (r: TypeName)
        ensures
            r == expr_type(bindings@, *self),
        decreases self,
    {
        match self {
            Node::NumConst(_, t) => t.clone(),
            Node::VarRef(id) => if bindings.has_var(*id) {
                bindings.get_var(*id).typ.clone()
            } else {
                TypeName::Error
            },
            Node::FunCall(_, _, f, _) => if bindings.has_fun(*f) {
                bindings.get_fun(*f).return_type.clone()
            } else {
                TypeName::Error
            },
            Node::BinOp(_, lhs, _) => (**lhs).get_expr_type(bindings),
            _ => TypeName::Error,
        }
    }
}

impl NodeList<VarID, FunID> {
    /// The types of the listed expressions, appended to `out`.
    pub fn push_expr_types(&self, bindings: &Bindings, out: &mut Vec<TypeName>)
        ensures
            final(out)@ == old(out)@ + list_types(bindings@, self@),
        decreases self,
    {
        match self {
            NodeList::Nil => {
                assert(list_types(bindings@, self@) =~= Seq::<TypeName>::empty());
                assert(old(out)@ + Seq::<TypeName>::empty() =~= old(out)@);
            },
            NodeList::Cons(head, tail) => {
                out.push((**head).get_expr_type(bindings));
                (**tail).push_expr_types(bindings, out);
                assert(list_types(bindings@, self@) =~= seq![expr_type(bindings@, **head)] + list_types(bindings@, tail@));
                assert(final(out)@ =~= old(out)@ + list_types(bindings@, self@));
            },
        }
    }
}

impl Bindings {
    /// Call-site overload resolution against resolved argument expressions: the first function,
    /// in registration order, under `namespace` and `name` whose parameters accept the
    /// arguments' current types.
    pub fn find_fun_from_compat_nodes(&self, namespace: Namespace, name: PoolS, args: &TypedList) -> (r: Option<FunID>)
        requires
            self.wf(),
        ensures
            r == crate::bindings::resolve_compat(self@, namespace, name, list_types(self@, args@)),
            r matches Some(f) ==> self.is_fun(f),
    {
        let mut types: Vec<TypeName> = Vec::new();
        args.push_expr_types(self, &mut types);
        assert(types@ =~= list_types(self@, args@));
        self.find_fun_from_compat_types(namespace, name, &types)
    }

    /// Method resolution for an unqualified call inside a type's body, against resolved argument
    /// expressions: the own namespace (with an implicit receiver), then the global one. The
    /// namespaces of base classes are not searched.
    pub fn find_fun_from_nodes_in_self_namespace(&self, namespace: Namespace, name: PoolS, args: &TypedList) -> (r: Option<(FunID, bool)>)
        requires
            self.wf(),
        ensures
            r == crate::bindings::resolve_in_self(self@, namespace, name, list_types(self@, args@)),
            r matches Some((f, _)) ==> self.is_fun(f),
    {
        let mut types: Vec<TypeName> = Vec::new();
        args.push_expr_types(self, &mut types);
        assert(types@ =~= list_types(self@, args@));
        self.find_fun_from_types_in_self_namespace(namespace, name, &types)
    }
}

} // verus!
