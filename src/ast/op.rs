//! Builders of operation nodes.

use vstd::prelude::*;
use crate::ast::{Node, Op, UntypedNode};
use crate::error::CompileError;

verus! {

/// The sum of two expressions.
pub fn add(lhs: UntypedNode, rhs: UntypedNode) -> (r: Result<UntypedNode, CompileError>)
    ensures
        r == Ok::<UntypedNode, CompileError>(Node::BinOp(Op::Add, Box::new(lhs), Box::new(rhs))),
{
    Ok(Node::BinOp(Op::Add, Box::new(lhs), Box::new(rhs)))
}

} // verus!
