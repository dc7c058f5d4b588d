use ponyscript::ast::{BindPoint, Node, NodeList, TypeName, TypedList};
use ponyscript::ast::typecheck::{type_match_var, typecheck};
use ponyscript::bindings::{Bindings, Namespace, VarID};
use ponyscript::error::CompileError;
use ponyscript::string_pool::StringPool;

#[test]
fn identities_are_distinct_and_increasing() {
    let mut pool = StringPool::new();
    let mut b = Bindings::new();
    let x = pool.pool_str("x");
    let f = pool.pool_str("f");
    let v0 = b.new_var_binding(&pool, x, TypeName::Int32);
    let v1 = b.new_var_binding(&pool, x, TypeName::Float);
    let fun = b.new_fun_binding(&pool, Namespace::Global, f, TypeName::Void, vec![v0]).unwrap();
    let t = b.get_or_make_type(&pool, &TypeName::Primitive(f));
    let v2 = b.new_var_binding(&pool, f, TypeName::Unset);
    assert!(v0.0 < v1.0 && v1.0 < fun.0 && fun.0 < t.0 && t.0 < v2.0);
    // Shadowing gets a new sequence number per raw name.
    assert_eq!(b.get_var(v0).output_name, b"x_0".to_vec());
    assert_eq!(b.get_var(v1).output_name, b"x_1".to_vec());
    assert_eq!(b.get_var(v2).output_name, b"f_0".to_vec());
    assert_eq!(b.get_fun(fun).output_name, b"g_f_args_int32_t".to_vec());
    // Looking the type up again returns the same identity.
    assert_eq!(b.get_or_make_type(&pool, &TypeName::Primitive(f)), t);
}

#[test]
fn second_declaration_with_same_types_is_refused() {
    let mut pool = StringPool::new();
    let mut b = Bindings::new();
    let x = pool.pool_str("x");
    let bar = pool.pool_str("bar");
    let a = b.new_var_binding(&pool, x, TypeName::Int32);
    let c = b.new_var_binding(&pool, x, TypeName::Int32);
    let d = b.new_var_binding(&pool, x, TypeName::Float);
    assert!(b.new_fun_binding(&pool, Namespace::Global, bar, TypeName::Void, vec![a]).is_ok());
    let second = b.new_fun_binding(&pool, Namespace::Global, bar, TypeName::Void, vec![c]);
    assert!(matches!(second, Err(CompileError::DuplicateSignature(n)) if n == bar));
    assert!(b.new_fun_binding(&pool, Namespace::Global, bar, TypeName::Void, vec![d]).is_ok());
    assert!(b.new_fun_binding(&pool, Namespace::StaticCall(x), bar, TypeName::Void, vec![c]).is_ok());
    assert_eq!(b.fun_bindings().len(), 3);
}

#[test]
fn resolution_takes_first_compatible_overload() {
    let mut pool = StringPool::new();
    let mut b = Bindings::new();
    let p = pool.pool_str("p");
    let g = pool.pool_str("g");
    let pi = b.new_var_binding(&pool, p, TypeName::Int32);
    let pf = b.new_var_binding(&pool, p, TypeName::Float);
    let gi = b.new_fun_binding(&pool, Namespace::Global, g, TypeName::Void, vec![pi]).unwrap();
    let gf = b.new_fun_binding(&pool, Namespace::Global, g, TypeName::Void, vec![pf]).unwrap();
    let unspecific = vec![TypeName::UnspecificNumeric];
    assert_eq!(b.find_fun_from_compat_types(Namespace::Global, g, &unspecific), Some(gi));
    assert_eq!(b.find_fun_from_compat_types(Namespace::Global, g, &unspecific), Some(gi));
    assert_eq!(b.find_fun_from_compat_types(Namespace::Global, g, &vec![TypeName::Float]), Some(gf));
    assert_eq!(b.find_fun_from_compat_types(Namespace::Global, g, &vec![TypeName::Void]), None);
    assert_eq!(b.find_fun_from_compat_types(Namespace::Global, g, &vec![]), None);
    assert_eq!(b.find_fun_from_vars(Namespace::Global, g, &vec![pf]), Some(gf));
}

#[test]
fn self_namespace_falls_back_to_global() {
    let mut pool = StringPool::new();
    let mut b = Bindings::new();
    let own = pool.pool_str("Foo");
    let h = pool.pool_str("h");
    let k = pool.pool_str("k");
    let ns = Namespace::DynamicCall(own);
    let fh = b.new_fun_binding(&pool, ns, h, TypeName::Void, vec![]).unwrap();
    let fk = b.new_fun_binding(&pool, Namespace::Global, k, TypeName::Void, vec![]).unwrap();
    assert_eq!(b.find_fun_from_types_in_self_namespace(ns, h, &vec![]), Some((fh, true)));
    assert_eq!(b.find_fun_from_types_in_self_namespace(ns, k, &vec![]), Some((fk, false)));
    assert_eq!(b.find_fun_from_types_in_self_namespace(ns, own, &vec![]), None);
    let args: TypedList = NodeList::Nil;
    assert_eq!(b.find_fun_from_compat_nodes(Namespace::Global, k, &args), Some(fk));
    assert_eq!(b.find_fun_from_nodes_in_self_namespace(ns, h, &args), Some((fh, true)));
}

#[test]
fn type_members_accumulate_in_order() {
    let mut pool = StringPool::new();
    let mut b = Bindings::new();
    let foo = TypeName::Primitive(pool.pool_str("Foo"));
    let m = pool.pool_str("m");
    let a = b.new_var_binding(&pool, m, TypeName::Int32);
    let c = b.new_var_binding(&pool, m, TypeName::Float);
    b.type_push_member(&pool, &foo, a);
    b.type_push_member(&pool, &foo, c);
    b.to_member_var(a);
    let t = b.get_type(&foo).unwrap();
    assert_eq!(t.members, vec![a, c]);
    assert_eq!(t.output_name, b"TFoo".to_vec());
    assert!(b.get_var(a).is_member);
    assert!(!b.get_var(c).is_member);
    assert!(b.get_type(&TypeName::Int32).is_none());
    assert_eq!(b.type_bindings().len(), 1);
}

#[test]
fn coercion_rules_of_type_match_var() {
    let mut unset = TypeName::Unset;
    assert!(type_match_var(&mut unset, &TypeName::UnspecificNumeric));
    assert!(matches!(unset, TypeName::Float));

    let mut int = TypeName::Int32;
    assert!(type_match_var(&mut int, &TypeName::UnspecificNumeric));
    assert!(matches!(int, TypeName::Int32));

    let mut int = TypeName::Int32;
    assert!(!type_match_var(&mut int, &TypeName::Float));

    let mut unspecific = TypeName::UnspecificNumeric;
    assert!(type_match_var(&mut unspecific, &TypeName::UnspecificNumeric));
    assert!(matches!(unspecific, TypeName::UnspecificNumeric));

    let mut void = TypeName::Void;
    assert!(type_match_var(&mut void, &TypeName::Void));
    assert!(!type_match_var(&mut void, &TypeName::UnspecificNumeric));

    let mut opt = TypeName::Optional(Box::new(TypeName::Unset));
    assert!(type_match_var(&mut opt, &TypeName::Optional(Box::new(TypeName::Int32))));
    assert!(matches!(opt, TypeName::Optional(ref i) if matches!(**i, TypeName::Int32)));

    let mut deref = TypeName::Deref(Box::new(TypeName::Float));
    assert!(type_match_var(&mut deref, &TypeName::Float));
    assert!(!TypeName::Float.eq_or_may_coerce(&TypeName::Int32));
    assert!(TypeName::Float.eq_or_may_coerce(&TypeName::UnspecificNumeric));
    assert!(!TypeName::UnspecificNumeric.eq_or_may_coerce(&TypeName::Float));
}

#[test]
fn literal_takes_the_concrete_type_of_the_other_operand() {
    let mut pool = StringPool::new();
    let mut b = Bindings::new();
    let x = pool.pool_str("x");
    let two = pool.pool_str("2");
    let v = b.new_var_binding(&pool, x, TypeName::Int32);
    let node = Node::BinOp(
        ponyscript::ast::Op::Add,
        Box::new(Node::NumConst(two, TypeName::UnspecificNumeric)),
        Box::new(Node::VarRef(BindPoint::BoundTo(v))),
    );
    let (typed, t) = typecheck(&mut b, node).unwrap();
    assert!(matches!(t, TypeName::Int32));
    match typed {
        Node::BinOp(_, lhs, _) => assert!(matches!(*lhs, Node::NumConst(_, TypeName::Int32))),
        _ => panic!("expected an operation"),
    }
    // A second declaration of the same concrete type leaves the literal as it is.
    let y = b.new_var_binding(&pool, x, TypeName::Int32);
    let decl = Node::Decl(y, Some(Box::new(Node::NumConst(two, TypeName::Int32))));
    let (typed, _) = typecheck(&mut b, decl).unwrap();
    match typed {
        Node::Decl(_, Some(e)) => assert!(matches!(*e, Node::NumConst(_, TypeName::Int32))),
        _ => panic!("expected a declaration"),
    }
    assert_eq!(VarID(0), v);
}

#[test]
fn operands_of_different_types_are_refused() {
    let mut pool = StringPool::new();
    let mut b = Bindings::new();
    let x = pool.pool_str("x");
    let vi = b.new_var_binding(&pool, x, TypeName::Int32);
    let vf = b.new_var_binding(&pool, x, TypeName::Float);
    let node = Node::BinOp(
        ponyscript::ast::Op::Add,
        Box::new(Node::VarRef(BindPoint::BoundTo(vi))),
        Box::new(Node::VarRef(BindPoint::BoundTo(vf))),
    );
    let r = typecheck(&mut b, node);
    assert!(matches!(r, Err(CompileError::TypeMismatch(TypeName::Int32, TypeName::Float))));
}

#[test]
fn call_on_explicit_receiver_is_not_supported() {
    let mut pool = StringPool::new();
    let mut b = Bindings::new();
    let m = pool.pool_str("m");
    let call = Node::FunCall(Namespace::Global, Some(Box::new(Node::SelfRef)), BindPoint::Unbound(m), NodeList::Nil);
    assert!(matches!(typecheck(&mut b, call), Err(CompileError::Unsupported)));
    assert_eq!(CompileError::Unsupported.message(&pool), b"Not implemented yet, sorry!".to_vec());
}

#[test]
fn empty_tree_checks_to_empty_tree() {
    let mut pool = StringPool::new();
    let mut b = Bindings::new();
    let base = pool.pool_str("Node");
    let own = pool.pool_str("Foo");
    let tree = Node::Tree(ponyscript::ast::Tree { base_type: base, own_type: own, children: NodeList::Nil });
    let (typed, t) = typecheck(&mut b, tree).unwrap();
    assert!(matches!(t, TypeName::Error));
    assert!(matches!(typed, Node::Tree(ref tr) if tr.own_type == own && matches!(tr.children, NodeList::Nil)));
}
