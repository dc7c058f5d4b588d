use ponyscript::ast::op::add;
use ponyscript::ast::{BindPoint, Node, NodeList, Op, TypeList, TypeName, UntypedNode};
use ponyscript::bindings::{FunID, VarID};
use ponyscript::lexer::predicates::{is_alpha, is_alphanum, is_id_char, is_num, is_whitespace, is_whitespace_but_newline};
use ponyscript::parser::scope::Scopes;
use ponyscript::string_pool::StringPool;

#[test]
fn operators_have_lowering_names() {
    assert_eq!(Op::Add.impl_str(), "add");
    assert_eq!(Op::Subtract.impl_str(), "sub");
    assert_eq!(Op::Multiply.impl_str(), "mul");
    assert_eq!(Op::Divide.impl_str(), "div");
}

#[test]
fn bind_points_resolve_once_bound() {
    let mut pool = StringPool::new();
    let name = pool.pool_str("v");
    let mut point: BindPoint<_, VarID> = BindPoint::unresolved(name);
    assert_eq!(point.get_id(), None);
    let mut text = Vec::new();
    point.write_text(&pool, &mut text);
    assert_eq!(text, b"v".to_vec());
    point.bind_to(VarID(7));
    assert_eq!(point.get_id(), Some(VarID(7)));
    let mut text = Vec::new();
    point.write_text(&pool, &mut text);
    assert_eq!(text, b"[todo]".to_vec());
}

#[test]
fn add_builds_an_addition() {
    let mut pool = StringPool::new();
    let one = pool.pool_str("1");
    let lhs: UntypedNode = Node::NumConst(one, TypeName::UnspecificNumeric);
    let rhs: UntypedNode = Node::Empty;
    match add(lhs, rhs) {
        Ok(Node::BinOp(Op::Add, l, r)) => {
            assert!(matches!(*l, Node::NumConst(_, TypeName::UnspecificNumeric)));
            assert!(matches!(*r, Node::Empty));
        }
        _ => panic!("expected an addition"),
    }
}

#[test]
fn type_texts_and_specific_names() {
    let mut pool = StringPool::new();
    let int = pool.pool_str("int");
    let float = pool.pool_str("float");
    let node = pool.pool_str("Node");
    assert!(matches!(TypeName::Primitive(int).to_specific(&pool), TypeName::Int32));
    assert!(matches!(TypeName::Primitive(float).to_specific(&pool), TypeName::Float));
    assert!(matches!(TypeName::Primitive(node).to_specific(&pool), TypeName::Primitive(p) if p == node));
    let list = TypeList::from_vec(vec![TypeName::Int32, TypeName::Primitive(node)]);
    let t = TypeName::Optional(Box::new(TypeName::Parameterized(node, list)));
    let mut out = Vec::new();
    t.write_text(&pool, &mut out);
    assert_eq!(out, b"OpParNodeWint32_tTNode".to_vec());
    assert!(t.same(&t.clone()));
    assert!(!t.same(&TypeName::Optional(Box::new(TypeName::Int32))));
    for (ty, text) in [
        (TypeName::Void, "void"),
        (TypeName::Unset, "INFER_ERR"),
        (TypeName::Error, "BadType"),
        (TypeName::UnspecificNumeric, "NUMERIC_ERR"),
        (TypeName::Deref(Box::new(TypeName::Float)), "Drfloat"),
    ] {
        let mut out = Vec::new();
        ty.write_text(&pool, &mut out);
        assert_eq!(out, text.as_bytes().to_vec());
    }
    assert!(TypeName::Int32.is_specific_numeric());
    assert!(!TypeName::UnspecificNumeric.is_specific_numeric());
}

#[test]
fn byte_classes() {
    assert!(is_whitespace(Some(b'\n')) && is_whitespace(Some(b' ')));
    assert!(!is_whitespace(None) && !is_whitespace(Some(b'0')));
    assert!(is_whitespace_but_newline(Some(b'\t')) && !is_whitespace_but_newline(Some(b'\n')));
    assert!(is_alpha(Some(b'q')) && is_alpha(Some(b'Z')) && !is_alpha(Some(b'_')) && !is_alpha(None));
    assert!(is_num(Some(b'7')) && !is_num(Some(b'/')) && !is_num(None));
    assert!(is_alphanum(Some(b'7')) && is_alphanum(Some(b'x')) && !is_alphanum(Some(b'-')));
    assert!(is_id_char(Some(b'_')) && !is_id_char(None) && !is_id_char(Some(b' ')));
}

#[test]
fn outermost_scope_decides_a_name() {
    let mut pool = StringPool::new();
    let a = pool.pool_str("a");
    let b = pool.pool_str("b");
    let mut scopes = Scopes::new();
    assert!(scopes.is_top_level());
    scopes.add_var(a, VarID(1));
    assert!(matches!(scopes.find_var(a), BindPoint::Unbound(n) if n == a));
    scopes.push();
    scopes.add_var(a, VarID(2));
    scopes.push();
    scopes.add_var(a, VarID(3));
    scopes.add_var(b, VarID(4));
    assert!(!scopes.is_top_level());
    assert!(matches!(scopes.find_var(a), BindPoint::BoundTo(VarID(2))));
    assert!(matches!(scopes.find_var(b), BindPoint::BoundTo(VarID(4))));
    scopes.pop();
    assert!(matches!(scopes.find_var(b), BindPoint::Unbound(_)));
    scopes.pop();
    scopes.pop();
    assert!(scopes.is_top_level());
}

#[test]
fn node_lists_keep_order() {
    let list: NodeList<VarID, FunID> = NodeList::from_vec(vec![Node::SelfRef, Node::Empty]);
    match list {
        NodeList::Cons(h, t) => {
            assert!(matches!(*h, Node::SelfRef));
            assert!(matches!(*t, NodeList::Cons(ref h2, ref t2) if matches!(**h2, Node::Empty) && matches!(**t2, NodeList::Nil)));
        }
        NodeList::Nil => panic!("expected two nodes"),
    }
}
