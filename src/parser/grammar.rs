//! The grammar of a source file, stated over its token sequence: what the parser returns for
//! every sequence of tokens, and how the binding table changes on the way.

use vstd::prelude::*;
use crate::ast::{BindPoint, Node, NodeList, Op, Tree, TypeList, TypeName, UntypedNode};
use crate::ast::types::specific_spec;
use crate::bindings::{FunID, Namespace, TableModel, VarID};
use crate::lexer::Token;
use crate::lexer::token::token_eq;
use crate::parser::scope::scopes_lookup;
use crate::string_pool::PoolS;

verus! {

/// Where the parser stands: the index of the token it looks at, the open scopes, the namespace
/// of the functions it declares, and the type that top-level variables belong to.
pub ghost struct PState {
    pub pos: nat,
    pub scopes: Seq<Seq<(PoolS, VarID)>>,
    pub ns: Namespace,
    pub context: Option<TypeName>,
}

/// The outcome of a rule: a value, a parse error at a token with a message, or a refused
/// repeated function signature.
pub ghost enum PResult<T> {
    Done(T),
    Fail(nat, &'static str),
    Dup(PoolS),
}

pub open spec fn fuel(toks: Seq<Token>, st: PState) -> nat {
    if st.pos < toks.len() { (toks.len() - st.pos) as nat } else { 0 }
}

pub open spec fn cur(toks: Seq<Token>, st: PState) -> Token {
    if st.pos < toks.len() { toks[st.pos as int] } else { Token::EOF }
}

/// Moves to the next token; the last token is never left.
pub open spec fn adv(toks: Seq<Token>, st: PState) -> PState {
    if st.pos + 1 < toks.len() { PState { pos: st.pos + 1, ..st } } else { st }
}

pub open spec fn eat(toks: Seq<Token>, st: PState, t: Token) -> (PState, bool) {
    if token_eq(cur(toks, st), t) { (adv(toks, st), true) } else { (st, false) }
}

pub open spec fn eat_id(toks: Seq<Token>, st: PState) -> (PState, Option<PoolS>) {
    match cur(toks, st) {
        Token::ID(s) => (adv(toks, st), Some(s)),
        _ => (st, None),
    }
}

pub open spec fn moved(a: PState, b: PState) -> bool {
    b.pos > a.pos
}

/// `name` or `name[T, ...]`; `int` and `float` name the built-in numeric types.
pub open spec fn p_id_type(toks: Seq<Token>, pool: Seq<Seq<u8>>, st: PState) -> (PState, PResult<TypeName>)
    decreases fuel(toks, st), 0nat,
{
    let (st1, id) = eat_id(toks, st);
    match id {
        None => (st1, PResult::Fail(st1.pos, "Expected type")),
        Some(id) => {
            let (st2, lb) = eat(toks, st1, Token::LBracket);
            if lb {
                if moved(st, st2) {
                    p_type_args(toks, pool, st2, id, Seq::empty())
                } else {
                    (st2, PResult::Fail(st2.pos, "Expected type"))
                }
            } else {
                (st2, PResult::Done(specific_spec(pool, TypeName::Primitive(id))))
            }
        },
    }
}

/// The arguments of a parameterized type, after `[`.
pub open spec fn p_type_args(toks: Seq<Token>, pool: Seq<Seq<u8>>, st: PState, id: PoolS, acc: Seq<TypeName>) -> (PState, PResult<TypeName>)
    decreases fuel(toks, st), 2nat,
{
    let (st1, r) = p_type(toks, pool, st);
    match r {
        PResult::Done(t) => {
            let acc = acc.push(t);
            let (st2, comma) = eat(toks, st1, Token::Comma);
            if comma {
                if moved(st, st2) {
                    p_type_args(toks, pool, st2, id, acc)
                } else {
                    (st2, PResult::Fail(st2.pos, "Expected ',' or ']' in arg list"))
                }
            } else {
                let (st3, rb) = eat(toks, st2, Token::RBracket);
                if rb {
                    (st3, PResult::Done(TypeName::Parameterized(id, TypeList::from_seq(acc))))
                } else {
                    (st3, PResult::Fail(st3.pos, "Expected ',' or ']' in arg list"))
                }
            }
        },
        PResult::Fail(k, m) => (st1, PResult::Fail(k, m)),
        PResult::Dup(n) => (st1, PResult::Dup(n)),
    }
}

/// A type, possibly after `+` (dereference) or `?` (optional).
pub open spec fn p_type(toks: Seq<Token>, pool: Seq<Seq<u8>>, st: PState) -> (PState, PResult<TypeName>)
    decreases fuel(toks, st), 1nat,
{
    let (st1, plus) = eat(toks, st, Token::Plus);
    if plus {
        if moved(st, st1) {
            let (st2, r) = p_id_type(toks, pool, st1);
            (st2, match r {
                PResult::Done(t) => PResult::Done(TypeName::Deref(Box::new(t))),
                PResult::Fail(k, m) => PResult::Fail(k, m),
                PResult::Dup(n) => PResult::Dup(n),
            })
        } else {
            (st1, PResult::Fail(st1.pos, "Expected type"))
        }
    } else {
        let (st1, q) = eat(toks, st, Token::QuestionMark);
        if q {
            if moved(st, st1) {
                let (st2, r) = p_id_type(toks, pool, st1);
                (st2, match r {
                    PResult::Done(t) => PResult::Done(TypeName::Optional(Box::new(t))),
                    PResult::Fail(k, m) => PResult::Fail(k, m),
                    PResult::Dup(n) => PResult::Dup(n),
                })
            } else {
                (st1, PResult::Fail(st1.pos, "Expected type"))
            }
        } else {
            p_id_type(toks, pool, st)
        }
    }
}

/// A number, a variable or a call, possibly followed by `+` and another expression.
pub open spec fn p_expr(toks: Seq<Token>, st: PState) -> (PState, PResult<UntypedNode>)
    decreases fuel(toks, st), 1nat,
{
    let (st1, lhs) = match cur(toks, st) {
        Token::Num(s) => (adv(toks, st), PResult::Done(Node::NumConst(s, TypeName::UnspecificNumeric))),
        Token::ID(_) => p_expr_id(toks, st),
        _ => (st, PResult::Fail(st.pos, "Expected expression")),
    };
    match lhs {
        PResult::Done(lhs) => if cur(toks, st1) is Plus {
            let st2 = adv(toks, st1);
            if moved(st, st2) {
                let (st3, rhs) = p_expr(toks, st2);
                (st3, match rhs {
                    PResult::Done(rhs) => PResult::Done(Node::BinOp(Op::Add, Box::new(lhs), Box::new(rhs))),
                    PResult::Fail(k, m) => PResult::Fail(k, m),
                    PResult::Dup(n) => PResult::Dup(n),
                })
            } else {
                (st2, PResult::Fail(st2.pos, "Expected expression"))
            }
        } else {
            (st1, PResult::Done(lhs))
        },
        PResult::Fail(k, m) => (st1, PResult::Fail(k, m)),
        PResult::Dup(n) => (st1, PResult::Dup(n)),
    }
}

/// The reference that `name` makes in the open scopes.
pub open spec fn bind_point(st: PState, name: PoolS) -> BindPoint<PoolS, VarID> {
    match scopes_lookup(st.scopes, name) {
        Some(id) => BindPoint::BoundTo(id),
        None => BindPoint::Unbound(name),
    }
}

/// A variable reference, or a call `name(args)` with its callee left unresolved.
pub open spec fn p_expr_id(toks: Seq<Token>, st: PState) -> (PState, PResult<UntypedNode>)
    decreases fuel(toks, st), 0nat,
{
    let (st1, id) = eat_id(toks, st);
    match id {
        None => (st1, PResult::Fail(st1.pos, "Failed to consume identifier when parsing identifier")),
        Some(id) => {
            let (st2, lp) = eat(toks, st1, Token::LParen);
            if lp {
                let (st3, rp) = eat(toks, st2, Token::RParen);
                if rp {
                    (st3, PResult::Done(Node::FunCall(st.ns, None, BindPoint::Unbound(id), NodeList::Nil)))
                } else if moved(st, st3) {
                    p_call_args(toks, st3, id, Seq::empty())
                } else {
                    (st3, PResult::Fail(st3.pos, "Expected ')' or ',' in function call"))
                }
            } else {
                (st2, PResult::Done(Node::VarRef(bind_point(st2, id))))
            }
        },
    }
}

/// The arguments of a call, after `(`.
pub open spec fn p_call_args(toks: Seq<Token>, st: PState, id: PoolS, acc: Seq<UntypedNode>) -> (PState, PResult<UntypedNode>)
    decreases fuel(toks, st), 2nat,
{
    let (st1, r) = p_expr(toks, st);
    match r {
        PResult::Done(e) => {
            let acc = acc.push(e);
            let (st2, comma) = eat(toks, st1, Token::Comma);
            if comma {
                if moved(st, st2) {
                    p_call_args(toks, st2, id, acc)
                } else {
                    (st2, PResult::Fail(st2.pos, "Expected ')' or ',' in function call"))
                }
            } else {
                let (st3, rp) = eat(toks, st2, Token::RParen);
                if rp {
                    (st3, PResult::Done(Node::FunCall(st.ns, None, BindPoint::Unbound(id), NodeList::from_seq(acc))))
                } else {
                    (st3, PResult::Fail(st3.pos, "Expected ')' or ',' in function call"))
                }
            }
        },
        PResult::Fail(k, m) => (st1, PResult::Fail(k, m)),
        PResult::Dup(n) => (st1, PResult::Dup(n)),
    }
}

/// A statement that starts with a name: an assignment or a call.
pub open spec fn p_statement_id(toks: Seq<Token>, st: PState) -> (PState, PResult<UntypedNode>) {
    let (st1, r) = p_expr_id(toks, st);
    match r {
        PResult::Done(lhs) => {
            let (st2, eq) = eat(toks, st1, Token::Equals);
            if eq {
                let (st3, r2) = p_expr(toks, st2);
                match r2 {
                    PResult::Done(rhs) => match lhs {
                        Node::VarRef(var) => (st3, PResult::Done(Node::Assign(var, Box::new(rhs)))),
                        _ => (st3, PResult::Fail(st3.pos, "Only variable assignment supported at the moment")),
                    },
                    PResult::Fail(k, m) => (st3, PResult::Fail(k, m)),
                    PResult::Dup(n) => (st3, PResult::Dup(n)),
                }
            } else if lhs is FunCall {
                (st2, PResult::Done(lhs))
            } else {
                (st2, PResult::Fail(st2.pos, "Expected function call or arithmetic expression"))
            }
        },
        PResult::Fail(k, m) => (st1, PResult::Fail(k, m)),
        PResult::Dup(n) => (st1, PResult::Dup(n)),
    }
}

/// Declaring a variable: the next identity, bound in the innermost scope; outside any function
/// it becomes a field of the type being declared.
pub open spec fn new_var(st: PState, table: TableModel, name: PoolS, typ: TypeName) -> (PState, TableModel, PResult<VarID>) {
    let id = VarID(table.next_id() as u64);
    let table = table.add_var(typ);
    let scopes = if st.scopes.len() == 0 {
        st.scopes
    } else {
        st.scopes.update(st.scopes.len() - 1, st.scopes.last().push((name, id)))
    };
    let st1 = PState { scopes, ..st };
    if st.scopes.len() == 0 {
        match st.context {
            None => (st1, table, PResult::Fail(st.pos, "Variable declared outside of a type")),
            Some(t) => (st1, table.make_type(t), PResult::Done(id)),
        }
    } else {
        (st1, table, PResult::Done(id))
    }
}

/// `let name[: type] [= expr]`; the current token is `let`.
pub open spec fn p_let(toks: Seq<Token>, pool: Seq<Seq<u8>>, st: PState, table: TableModel) -> (PState, TableModel, PResult<UntypedNode>) {
    let st1 = adv(toks, st);
    let (st2, id) = eat_id(toks, st1);
    match id {
        None => (st2, table, PResult::Fail(st2.pos, "Expected identifier after let")),
        Some(id) => {
            let (st3, colon) = eat(toks, st2, Token::Colon);
            let (st4, rt) = if colon { p_type(toks, pool, st3) } else { (st3, PResult::Done(TypeName::Unset)) };
            match rt {
                PResult::Done(typ) => {
                    let (st5, eq) = eat(toks, st4, Token::Equals);
                    if eq {
                        let (st6, re) = p_expr(toks, st5);
                        match re {
                            PResult::Done(e) => {
                                let (st7, table, rv) = new_var(st6, table, id, typ);
                                (st7, table, match rv {
                                    PResult::Done(v) => PResult::Done(Node::Decl(v, Some(Box::new(e)))),
                                    PResult::Fail(k, m) => PResult::Fail(k, m),
                                    PResult::Dup(n) => PResult::Dup(n),
                                })
                            },
                            PResult::Fail(k, m) => (st6, table, PResult::Fail(k, m)),
                            PResult::Dup(n) => (st6, table, PResult::Dup(n)),
                        }
                    } else {
                        let (st7, table, rv) = new_var(st5, table, id, typ);
                        (st7, table, match rv {
                            PResult::Done(v) => PResult::Done(Node::Decl(v, None)),
                            PResult::Fail(k, m) => PResult::Fail(k, m),
                            PResult::Dup(n) => PResult::Dup(n),
                        })
                    }
                },
                PResult::Fail(k, m) => (st4, table, PResult::Fail(k, m)),
                PResult::Dup(n) => (st4, table, PResult::Dup(n)),
            }
        },
    }
}

pub open spec fn p_statement(toks: Seq<Token>, pool: Seq<Seq<u8>>, st: PState, table: TableModel) -> (PState, TableModel, PResult<UntypedNode>) {
    match cur(toks, st) {
        Token::KeyLet => p_let(toks, pool, st, table),
        Token::ID(_) => {
            let (st1, r) = p_statement_id(toks, st);
            (st1, table, r)
        },
        _ => (st, table, PResult::Fail(st.pos, "Unknown statement")),
    }
}

/// Parameters `name: type, ...` up to the first token that is not a name.
pub open spec fn p_params(toks: Seq<Token>, pool: Seq<Seq<u8>>, st: PState, table: TableModel, args: Seq<VarID>) -> (PState, TableModel, PResult<Seq<VarID>>)
    decreases fuel(toks, st),
{
    match cur(toks, st) {
        Token::ID(param) => {
            let st1 = adv(toks, st);
            let (st2, colon) = eat(toks, st1, Token::Colon);
            if !colon {
                (st2, table, PResult::Fail(st2.pos, "Expected ':' after function parameter name"))
            } else {
                let (st3, rt) = p_type(toks, pool, st2);
                match rt {
                    PResult::Done(t) => {
                        let (st4, table, rv) = new_var(st3, table, param, t);
                        match rv {
                            PResult::Done(v) => {
                                let args = args.push(v);
                                let (st5, comma) = eat(toks, st4, Token::Comma);
                                if comma {
                                    if moved(st, st5) {
                                        p_params(toks, pool, st5, table, args)
                                    } else {
                                        (st5, table, PResult::Fail(st5.pos, "Expected ')' after function name"))
                                    }
                                } else {
                                    (st5, table, PResult::Done(args))
                                }
                            },
                            PResult::Fail(k, m) => (st4, table, PResult::Fail(k, m)),
                            PResult::Dup(n) => (st4, table, PResult::Dup(n)),
                        }
                    },
                    PResult::Fail(k, m) => (st3, table, PResult::Fail(k, m)),
                    PResult::Dup(n) => (st3, table, PResult::Dup(n)),
                }
            }
        },
        _ => (st, table, PResult::Done(args)),
    }
}

/// Statements up to the end of the block.
pub open spec fn p_body(toks: Seq<Token>, pool: Seq<Seq<u8>>, st: PState, table: TableModel, acc: Seq<UntypedNode>) -> (PState, TableModel, PResult<Seq<UntypedNode>>)
    decreases fuel(toks, st),
{
    let (st1, end) = eat(toks, st, Token::BlockEnd);
    if end {
        (st1, table, PResult::Done(acc))
    } else {
        let (st2, table, r) = p_statement(toks, pool, st1, table);
        match r {
            PResult::Done(s) => if moved(st, st2) {
                p_body(toks, pool, st2, table, acc.push(s))
            } else {
                (st2, table, PResult::Fail(st2.pos, "Unknown statement"))
            },
            PResult::Fail(k, m) => (st2, table, PResult::Fail(k, m)),
            PResult::Dup(n) => (st2, table, PResult::Dup(n)),
        }
    }
}

/// `fun name(params) [-> type]:` and an indented body; the current token is `fun`. The
/// function is registered before its body is read, and a signature already taken is refused.
pub open spec fn p_fun_impl(toks: Seq<Token>, pool: Seq<Seq<u8>>, st: PState, table: TableModel) -> (PState, TableModel, PResult<UntypedNode>) {
    let st1 = adv(toks, st);
    let (st2, id) = eat_id(toks, st1);
    match id {
        None => (st2, table, PResult::Fail(st2.pos, "Unexpected token after 'fun'")),
        Some(id) => {
            let (st3, lp) = eat(toks, st2, Token::LParen);
            if !lp {
                (st3, table, PResult::Fail(st3.pos, "Expected '(' after function name"))
            } else {
                let (st4, table, ra) = p_params(toks, pool, st3, table, Seq::empty());
                match ra {
                    PResult::Done(args) => {
                        let (st5, rp) = eat(toks, st4, Token::RParen);
                        if !rp {
                            (st5, table, PResult::Fail(st5.pos, "Expected ')' after function name"))
                        } else {
                            let (st6, arrow) = eat(toks, st5, Token::RArrow);
                            let (st7, rt) = if arrow { p_type(toks, pool, st6) } else { (st6, PResult::Done(TypeName::Void)) };
                            match rt {
                                PResult::Done(_) => {
                                    let (st8, colon) = eat(toks, st7, Token::Colon);
                                    if !colon {
                                        (st8, table, PResult::Fail(st8.pos, "Expected ':' after function"))
                                    } else {
                                        let (st9, bs) = eat(toks, st8, Token::BlockStart);
                                        if !bs {
                                            (st9, table, PResult::Fail(st9.pos, "Expected block after function"))
                                        } else {
                                            let (table, f) = table.declare_fun(st.ns, id, args);
                                            match f {
                                                None => (st9, table, PResult::Dup(id)),
                                                Some(f) => {
                                                    let (st10, table, rb) = p_body(toks, pool, st9, table, Seq::empty());
                                                    (st10, table, match rb {
                                                        PResult::Done(body) => PResult::Done(Node::FunDecl(f, NodeList::from_seq(body))),
                                                        PResult::Fail(k, m) => PResult::Fail(k, m),
                                                        PResult::Dup(n) => PResult::Dup(n),
                                                    })
                                                },
                                            }
                                        }
                                    }
                                },
                                PResult::Fail(k, m) => (st7, table, PResult::Fail(k, m)),
                                PResult::Dup(n) => (st7, table, PResult::Dup(n)),
                            }
                        }
                    },
                    PResult::Fail(k, m) => (st4, table, PResult::Fail(k, m)),
                    PResult::Dup(n) => (st4, table, PResult::Dup(n)),
                }
            }
        },
    }
}

/// A function inside a scope of its own.
pub open spec fn p_fun(toks: Seq<Token>, pool: Seq<Seq<u8>>, st: PState, table: TableModel) -> (PState, TableModel, PResult<UntypedNode>) {
    let st1 = PState { scopes: st.scopes.push(Seq::empty()), ..st };
    let (st2, table, r) = p_fun_impl(toks, pool, st1, table);
    let scopes = if st2.scopes.len() == 0 { st2.scopes } else { st2.scopes.drop_last() };
    (PState { scopes, ..st2 }, table, r)
}

/// A top-level declaration: a function, or a field (which produces no node of its own).
pub open spec fn p_top_level(toks: Seq<Token>, pool: Seq<Seq<u8>>, st: PState, table: TableModel) -> (PState, TableModel, PResult<UntypedNode>) {
    match cur(toks, st) {
        Token::EOF => (st, table, PResult::Done(Node::Empty)),
        Token::KeyFun => p_fun(toks, pool, st, table),
        Token::KeyLet => {
            let (st1, table, r) = p_let(toks, pool, st, table);
            (st1, table, match r {
                PResult::Done(_) => PResult::Done(Node::Empty),
                PResult::Fail(k, m) => PResult::Fail(k, m),
                PResult::Dup(n) => PResult::Dup(n),
            })
        },
        _ => {
            let st1 = adv(toks, st);
            (st1, table, PResult::Fail(st1.pos, "Unexpected token at top level. Expected 'fun'"))
        },
    }
}

/// Top-level declarations up to the end of input or a lexing failure.
pub open spec fn p_children(toks: Seq<Token>, pool: Seq<Seq<u8>>, st: PState, table: TableModel, acc: Seq<UntypedNode>) -> (PState, TableModel, PResult<Seq<UntypedNode>>)
    decreases fuel(toks, st),
{
    let t = cur(toks, st);
    if t is EOF || t is BadLex {
        (st, table, PResult::Done(acc))
    } else {
        let (st1, table, r) = p_top_level(toks, pool, st, table);
        match r {
            PResult::Done(c) => if moved(st, st1) {
                p_children(toks, pool, st1, table, acc.push(c))
            } else {
                (st1, table, PResult::Fail(st1.pos, "Unexpected token at top level. Expected 'fun'"))
            },
            PResult::Fail(k, m) => (st1, table, PResult::Fail(k, m)),
            PResult::Dup(n) => (st1, table, PResult::Dup(n)),
        }
    }
}

/// A whole source file: `extends Base as Own`, then the functions and fields of `Own`.
#[verifier::opaque]
pub open spec fn p_file(toks: Seq<Token>, pool: Seq<Seq<u8>>, st: PState, table: TableModel) -> (PState, TableModel, PResult<UntypedNode>) {
    let (st1, ext) = eat(toks, st, Token::KeyExtends);
    if !ext {
        (st1, table, PResult::Fail(st1.pos, "Expected 'extends' at top of file"))
    } else {
        let (st2, base) = eat_id(toks, st1);
        match base {
            None => (st2, table, PResult::Fail(st2.pos, "Expected base type at top of file")),
            Some(base) => {
                let (st3, as_) = eat(toks, st2, Token::KeyAs);
                if !as_ {
                    (st3, table, PResult::Fail(st3.pos, "Expected 'as' at top of file"))
                } else {
                    let (st4, own) = eat_id(toks, st3);
                    match own {
                        None => (st4, table, PResult::Fail(st4.pos, "Expected node type at top of file")),
                        Some(own) => {
                            let own_type = TypeName::Primitive(own);
                            let st5 = PState { ns: Namespace::DynamicCall(own), context: Some(own_type), ..st4 };
                            let table = table.make_type(own_type);
                            let (st6, table, rc) = p_children(toks, pool, st5, table, Seq::empty());
                            (st6, table, match rc {
                                PResult::Done(cs) => PResult::Done(Node::Tree(Tree {
                                    base_type: base,
                                    own_type: own,
                                    children: NodeList::from_seq(cs),
                                })),
                                PResult::Fail(k, m) => PResult::Fail(k, m),
                                PResult::Dup(n) => PResult::Dup(n),
                            })
                        },
                    }
                }
            }
        }
    }
}

} // verus!
