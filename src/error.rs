//! The errors of parsing and type checking, and their messages.

use vstd::prelude::*;
use vstd::string::StringSliceAdditionalSpecFns;
use crate::ast::types::{TypeName, type_text};
use crate::string_pool::{PoolS, StringPool, decimal, pooled_text, push_bytes, push_decimal, push_str};

verus! {

/// Where the lexer stood when parsing failed, and why it failed.
#[derive(Debug)]
pub struct ParseError {
    pub tagline: Vec<u8>,
    pub line: usize,
    pub column: usize,
    pub message: &'static str,
}

/// The first error of a phase; it ends that phase.
#[derive(Debug)]
pub enum CompileError {
    /// A function was declared twice with the same namespace, name and parameter types.
    DuplicateSignature(PoolS),
    /// A reference names no symbol.
    UnboundIdentifier,
    /// Two types disagree and no coercion applies: the expected one and the one found.
    TypeMismatch(TypeName, TypeName),
    /// No overload in reach of a call accepts its arguments.
    NoMatchingOverload(PoolS),
    /// A construct that type checking does not handle yet: a call on an explicit receiver.
    Unsupported,
    Parse(ParseError),
}

/// The text under which an error is reported.
pub open spec fn message_text(pool: Seq<Seq<u8>>, e: CompileError) -> Seq<u8> {
    match e {
        CompileError::DuplicateSignature(name) => "function ".spec_bytes() + pooled_text(pool, name)
            + " already defined with these arguments".spec_bytes(),
        CompileError::UnboundIdentifier => "Unbound ID".spec_bytes(),
        CompileError::TypeMismatch(a, b) => "Could not match types ".spec_bytes() + type_text(pool, a)
            + " and ".spec_bytes() + type_text(pool, b),
        CompileError::NoMatchingOverload(name) => "In call to ".spec_bytes() + pooled_text(pool, name)
            + ", could not find matching arg list".spec_bytes(),
        CompileError::Unsupported => "Not implemented yet, sorry!".spec_bytes(),
        CompileError::Parse(p) => p.tagline@ + ":".spec_bytes() + decimal(p.line as nat) + ":".spec_bytes()
            + decimal(p.column as nat) + ": ".spec_bytes() + p.message.spec_bytes(),
    }
}

impl CompileError {
    /// The error as text, with the source position for a parse error.
    pub fn message(&self, pool: &StringPool) -> (r: Vec<u8>)
        ensures
            r@ == message_text(pool.view(), *self),
    {
        let mut out: Vec<u8> = Vec::new();
        match self {
            CompileError::DuplicateSignature(name) => {
                push_str(&mut out, "function ");
                pool.write_pooled(*name, &mut out);
                push_str(&mut out, " already defined with these arguments");
            },
            CompileError::UnboundIdentifier => push_str(&mut out, "Unbound ID"),
            CompileError::TypeMismatch(a, b) => {
                push_str(&mut out, "Could not match types ");
                a.write_text(pool, &mut out);
                push_str(&mut out, " and ");
                b.write_text(pool, &mut out);
            },
            CompileError::NoMatchingOverload(name) => {
                push_str(&mut out, "In call to ");
                pool.write_pooled(*name, &mut out);
                push_str(&mut out, ", could not find matching arg list");
            },
            CompileError::Unsupported => push_str(&mut out, "Not implemented yet, sorry!"),
            CompileError::Parse(p) => {
                push_bytes(&mut out, &p.tagline);
                push_str(&mut out, ":");
                push_decimal(&mut out, p.line as u64);
                push_str(&mut out, ":");
                push_decimal(&mut out, p.column as u64);
                push_str(&mut out, ": ");
                push_str(&mut out, p.message);
            },
        }
        assert(out@ =~= message_text(pool.view(), *self));
        out
    }
}

} // verus!
