//! The type algebra and the text under which types appear in generated code.

use vstd::prelude::*;
use crate::string_pool::{PoolS, StringPool, pooled, pooled_text, push_str};
use vstd::string::StringSliceAdditionalSpecFns;

verus! {

/// The types of the language, with the placeholders that inference uses.
#[derive(Debug, PartialEq, Eq, Hash)]
pub enum TypeName {
    Primitive(PoolS),
    Optional(Box<TypeName>),
    Deref(Box<TypeName>),
    Parameterized(PoolS, TypeList),
    Void,
    /// Not yet inferred.
    Unset,
    /// Marks a node that is not an expression.
    Error,
    /// The type of a numeric literal whose concrete type is not known yet.
    UnspecificNumeric,
    Int32,
    Float,
}

/// The argument list of a parameterized type.
#[derive(Debug, PartialEq, Eq, Hash)]
pub enum TypeList {
    Nil,
    Cons(Box<TypeName>, Box<TypeList>),
}

impl TypeList {
    /// The arguments in order.
    pub open spec fn view(self) -> Seq<TypeName>
        decreases self,
    {
        match self {
            TypeList::Nil => Seq::empty(),
            TypeList::Cons(head, tail) => seq![*head].add(tail.view()),
        }
    }

    /// The list of the elements of `s`, in order.
    pub open spec fn from_seq(s: Seq<TypeName>) -> TypeList
        decreases s.len(),
    {
        if s.len() == 0 {
            TypeList::Nil
        } else {
            TypeList::Cons(Box::new(s[0]), Box::new(Self::from_seq(s.drop_first())))
        }
    }

    /// The list that holds `items` in order.
    pub fn from_vec(items: Vec<TypeName>) -> (r: TypeList)
        ensures
            r@ == items@,
            r == Self::from_seq(items@),
    {
        let mut items = items;
        let mut r = TypeList::Nil;
        let ghost all = items@;
        while items.len() > 0
            invariant
                items@ + r@ == all,
                r == Self::from_seq(all.subrange(items@.len() as int, all.len() as int)),
            decreases items@.len(),
        {
            let ghost before_items = items@;
            let last = items.pop().unwrap();
            let ghost before = r@;
            r = TypeList::Cons(Box::new(last), Box::new(r));
            assert(r@ =~= seq![last] + before);
            assert(before_items =~= items@.push(last));
            assert(items@ + r@ =~= before_items + before);
            assert(all.subrange(items@.len() as int, all.len() as int).drop_first() =~= all.subrange(before_items.len() as int, all.len() as int));
        }
        assert(items@ + r@ =~= r@);
        assert(all.subrange(0, all.len() as int) =~= all);
        r
    }
}

pub open spec fn is_specific_numeric_spec(t: TypeName) -> bool {
    t is Int32 || t is Float
}

/// Whether a value of type `rhs` fits where `lhs` is expected: equal types, or an unspecific
/// numeric value meeting a concrete numeric type.
pub open spec fn may_coerce(lhs: TypeName, rhs: TypeName) -> bool {
    (is_specific_numeric_spec(lhs) && rhs is UnspecificNumeric) || lhs == rhs
}

/// The text under which a type appears in generated code and mangled names.
pub open spec fn type_text(pool: Seq<Seq<u8>>, t: TypeName) -> Seq<u8>
    decreases t,
{
    match t {
        TypeName::Primitive(p) => "T".spec_bytes() + pooled_text(pool, p),
        TypeName::Optional(inner) => "Op".spec_bytes() + type_text(pool, *inner),
        TypeName::Deref(inner) => "Dr".spec_bytes() + type_text(pool, *inner),
        TypeName::Parameterized(p, args) => "Par".spec_bytes() + pooled_text(pool, p)
            + "W".spec_bytes() + list_text(pool, args),
        TypeName::Void => "void".spec_bytes(),
        TypeName::Unset => "INFER_ERR".spec_bytes(),
        TypeName::Error => "BadType".spec_bytes(),
        TypeName::UnspecificNumeric => "NUMERIC_ERR".spec_bytes(),
        TypeName::Int32 => "int32_t".spec_bytes(),
        TypeName::Float => "float".spec_bytes(),
    }
}

/// The texts of several types, one after the other.
pub open spec fn list_text(pool: Seq<Seq<u8>>, ts: TypeList) -> Seq<u8>
    decreases ts,
{
    match ts {
        TypeList::Nil => Seq::empty(),
        TypeList::Cons(head, tail) => type_text(pool, *head) + list_text(pool, *tail),
    }
}

/// The type that a written primitive type name denotes: `int` and `float` are the built-in
/// numeric types.
pub open spec fn specific_spec(pool: Seq<Seq<u8>>, t: TypeName) -> TypeName {
    match t {
        TypeName::Primitive(p) => if pooled(pool, p) == Some("int".spec_bytes()) {
            TypeName::Int32
        } else if pooled(pool, p) == Some("float".spec_bytes()) {
            TypeName::Float
        } else {
            t
        },
        _ => t,
    }
}

impl Clone for TypeName {
    fn clone(&self) -> (r: TypeName)
        ensures
            r == *self,
    {
        self.duplicate()
    }
}

impl TypeName {
    /// Replaces the built-in primitive names by their numeric types.
    pub fn to_specific(self, pool: &StringPool) -> (r: TypeName)
        ensures
            r == specific_spec(pool.view(), self),
    {
        match self {
            TypeName::Primitive(what) => {
                if what.eq_utf8(pool, "int") {
                    return TypeName::Int32;
                }
                if what.eq_utf8(pool, "float") {
                    return TypeName::Float;
                }
                self
            },
            _ => self,
        }
    }

    pub fn is_specific_numeric(&self) -> (r: bool)
        ensures
            r == is_specific_numeric_spec(*self),
    {
        match self {
            TypeName::Float => true,
            TypeName::Int32 => true,
            _ => false,
        }
    }

    /// Equal types, or a concrete numeric `self` that may absorb an unspecific numeric `rhs`.
    /// No other coercion exists: two different concrete numeric types do not match.
    pub fn eq_or_may_coerce(&self, rhs: &TypeName) -> (r: bool)
        ensures
            r == may_coerce(*self, *rhs),
    {
        if self.is_specific_numeric() && matches!(rhs, TypeName::UnspecificNumeric) {
            return true;
        }
        self.same(rhs)
    }

    /// Structural equality of types.
    pub fn same(&self, other: &TypeName) -> (r: bool)
        ensures
            r == (*self == *other),
        decreases self,
    {
        match (self, other) {
            (TypeName::Primitive(a), TypeName::Primitive(b)) => a.value == b.value,
            (TypeName::Optional(a), TypeName::Optional(b)) => (**a).same(&**b),
            (TypeName::Deref(a), TypeName::Deref(b)) => (**a).same(&**b),
            (TypeName::Parameterized(a, xs), TypeName::Parameterized(b, ys)) => {
                a.value == b.value && xs.same(ys)
            },
            (TypeName::Void, TypeName::Void) => true,
            (TypeName::Unset, TypeName::Unset) => true,
            (TypeName::Error, TypeName::Error) => true,
            (TypeName::UnspecificNumeric, TypeName::UnspecificNumeric) => true,
            (TypeName::Int32, TypeName::Int32) => true,
            (TypeName::Float, TypeName::Float) => true,
            _ => false,
        }
    }

    /// An equal copy of this type.
    pub fn duplicate(&self) -> (r: TypeName)
        ensures
            r == *self,
        decreases self,
    {
        match self {
            TypeName::Primitive(a) => TypeName::Primitive(*a),
            TypeName::Optional(a) => TypeName::Optional(Box::new((**a).duplicate())),
            TypeName::Deref(a) => TypeName::Deref(Box::new((**a).duplicate())),
            TypeName::Parameterized(a, xs) => TypeName::Parameterized(*a, xs.duplicate()),
            TypeName::Void => TypeName::Void,
            TypeName::Unset => TypeName::Unset,
            TypeName::Error => TypeName::Error,
            TypeName::UnspecificNumeric => TypeName::UnspecificNumeric,
            TypeName::Int32 => TypeName::Int32,
            TypeName::Float => TypeName::Float,
        }
    }

    /// Appends this type's text to `out`.
    pub fn write_text(&self, pool: &StringPool, out: &mut Vec<u8>)
        ensures
            final(out)@ == old(out)@ + type_text(pool.view(), *self),
        decreases self,
    {
        match self {
            TypeName::Primitive(p) => {
                push_str(out, "T");
                pool.write_pooled(*p, out);
            },
            TypeName::Optional(inner) => {
                push_str(out, "Op");
                (**inner).write_text(pool, out);
            },
            TypeName::Deref(inner) => {
                push_str(out, "Dr");
                (**inner).write_text(pool, out);
            },
            TypeName::Parameterized(p, others) => {
                push_str(out, "Par");
                pool.write_pooled(*p, out);
                push_str(out, "W");
                others.write_text(pool, out);
            },
            TypeName::Void => push_str(out, "void"),
            TypeName::Unset => push_str(out, "INFER_ERR"),
            TypeName::Error => push_str(out, "BadType"),
            TypeName::UnspecificNumeric => push_str(out, "NUMERIC_ERR"),
            TypeName::Int32 => push_str(out, "int32_t"),
            TypeName::Float => push_str(out, "float"),
        }
    }
}

impl TypeList {
    pub fn same(&self, other: &TypeList) -> (r: bool)
        ensures
            r == (*self == *other),
        decreases self,
    {
        match (self, other) {
            (TypeList::Nil, TypeList::Nil) => true,
            (TypeList::Cons(a, x), TypeList::Cons(b, y)) => (**a).same(&**b) && (**x).same(&**y),
            _ => false,
        }
    }

    pub fn duplicate(&self) -> (r: TypeList)
        ensures
            r == *self,
        decreases self,
    {
        match self {
            TypeList::Nil => TypeList::Nil,
            TypeList::Cons(a, x) => TypeList::Cons(Box::new((**a).duplicate()), Box::new((**x).duplicate())),
        }
    }

    /// Appends the texts of the listed types to `out`.
    pub fn write_text(&self, pool: &StringPool, out: &mut Vec<u8>)
        ensures
            final(out)@ == old(out)@ + list_text(pool.view(), *self),
        decreases self,
    {
        match self {
            TypeList::Nil => {
                assert(old(out)@ + Seq::<u8>::empty() =~= old(out)@);
            },
            TypeList::Cons(a, x) => {
                (**a).write_text(pool, out);
                (**x).write_text(pool, out);
                assert(final(out)@ =~= old(out)@ + list_text(pool.view(), *self));
            },
        }
    }
}

} // verus!
