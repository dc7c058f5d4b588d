use ponyscript::ast::TypeName;
use ponyscript::bindings::{Bindings, VarID};
use ponyscript::parser::Parser;
use ponyscript::compiler::Compiler;
use ponyscript::error::CompileError;
use ponyscript::string_pool::StringPool;

fn parsed(source: &str) -> Compiler<ponyscript::ast::UntypedNode> {
    let mut c = Compiler::new(StringPool::new());
    c.parse_source_file(b"[test]".to_vec(), source.as_bytes().to_vec()).unwrap();
    c
}

#[test]
fn round_trip_binop_with_literal() {
    let c = parsed("extends Node as Foo\nfun bar(x: int) -> float:\n\tlet y = x + 2\n");
    let typed = c.typecheck().ok().unwrap();
    // Identities: the type Foo, then x, then bar, then y.
    assert!(matches!(typed.bindings().get_var(VarID(1)).typ, TypeName::Int32));
    assert!(matches!(typed.bindings().get_var(VarID(3)).typ, TypeName::Int32));
    let out = String::from_utf8(typed.output()).unwrap();
    let expected = String::from(
        "#include <stdint.h>\n#include <stdlib.h>\n#include <stdio.h>\n\n\
         #define int32_t_op_add(a, b) ((a) + (b))\n#define float_op_add(a, b) ((a) + (b))\n\
         float dFoo_bar_args_int32_t(void *self_ptr, int32_t x_0);\n\
         #define FieldList_TFoo\n\
         typedef struct STFoo {\n\tFieldList_TFoo\n} TFoo;\n\
         float dFoo_bar_args_int32_t(void *self_ptr, int32_t x_0) {\n\
         TFoo *self = (TFoo*)(self_ptr);\n\
         int32_t y_0 = int32_t_op_add(x_0, 2);\n\
         }\n",
    );
    assert_eq!(out, expected);
}

#[test]
fn unset_variable_takes_float_for_a_literal() {
    let c = parsed("extends Node as Foo\nfun bar():\n\tlet y = 2\n");
    let typed = c.typecheck().ok().unwrap();
    assert!(matches!(typed.bindings().get_var(VarID(2)).typ, TypeName::Float));
    let out = String::from_utf8(typed.output()).unwrap();
    assert!(out.contains("float y_0 = 2;\n"));
}

#[test]
fn duplicate_declaration_is_refused() {
    let mut c = Compiler::new(StringPool::new());
    let r = c.parse_source_file(
        b"[test]".to_vec(),
        b"extends Node as Foo\nfun bar(x: int):\n\tlet a = 1\nfun bar(x: int):\n\tlet b = 2\n".to_vec(),
    );
    let e = r.unwrap_err();
    assert!(matches!(e, CompileError::DuplicateSignature(_)));
    assert_eq!(e.message(c.pool()), b"function bar already defined with these arguments".to_vec());
}

#[test]
fn overloads_with_other_parameter_types_are_kept() {
    let c = parsed("extends Node as Foo\nfun bar(x: int):\n\tlet a = x\nfun bar(x: float):\n\tlet b = x\n");
    let typed = c.typecheck().ok().unwrap();
    let out = String::from_utf8(typed.output()).unwrap();
    assert!(out.contains("void dFoo_bar_args_int32_t(void *self_ptr, int32_t x_0);\n"));
    assert!(out.contains("void dFoo_bar_args_float(void *self_ptr, float x_1);\n"));
}

#[test]
fn call_in_own_namespace_gets_self_receiver() {
    let c = parsed("extends Node as Foo\nfun helper(a: int):\n\tlet z = a\nfun run(b: int):\n\thelper(b)\n");
    let typed = c.typecheck().ok().unwrap();
    let out = String::from_utf8(typed.output()).unwrap();
    assert!(out.contains("void dFoo_helper_args_int32_t(void *self_ptr, int32_t a_0);\n"));
    assert!(out.contains("dFoo_helper_args_int32_t(self, b_0);\n"));
}

#[test]
fn unresolvable_call_names_the_callee() {
    let c = parsed("extends Node as Foo\nfun run(b: int):\n\tbaz(b)\n");
    let (e, msg) = match c.typecheck() {
        Ok(_) => panic!("the call must not resolve"),
        Err(failure) => failure,
    };
    assert!(matches!(e, CompileError::NoMatchingOverload(_)));
    assert_eq!(String::from_utf8(msg).unwrap(), "In call to baz, could not find matching arg list");
}

#[test]
fn mismatched_assignment_is_refused() {
    let c = parsed("extends Node as Foo\nfun run(b: int, c: float):\n\tb = c\n");
    let (e, msg) = match c.typecheck() {
        Ok(_) => panic!("int and float must not match"),
        Err(failure) => failure,
    };
    assert!(matches!(e, CompileError::TypeMismatch(TypeName::Int32, TypeName::Float)));
    assert_eq!(String::from_utf8(msg).unwrap(), "Could not match types int32_t and float");
}

#[test]
fn unbound_variable_is_refused() {
    let c = parsed("extends Node as Foo\nfun run():\n\tq = 1\n");
    let (e, msg) = match c.typecheck() {
        Ok(_) => panic!("q is not declared"),
        Err(failure) => failure,
    };
    assert!(matches!(e, CompileError::UnboundIdentifier));
    assert_eq!(msg, b"Unbound ID".to_vec());
}

#[test]
fn parse_error_reports_position() {
    let mut c = Compiler::new(StringPool::new());
    let e = c.parse_source_file(b"f.ps".to_vec(), b"fun x():\n".to_vec()).unwrap_err();
    assert_eq!(String::from_utf8(e.message(c.pool())).unwrap(), "f.ps:1:5: Expected 'extends' at top of file");
}

#[test]
fn top_level_let_becomes_a_field() {
    let c = parsed("extends Node as Foo\nlet count: int\nfun run():\n\tlet local = 3\n");
    let typed = c.typecheck().ok().unwrap();
    assert!(typed.bindings().get_var(VarID(1)).is_member);
    assert!(!typed.bindings().get_var(VarID(3)).is_member);
    let out = String::from_utf8(typed.output()).unwrap();
    assert!(out.contains("#define FieldList_TFoo \\\nint32_t count_0;\n"));
    assert!(out.contains("float local_0 = 3;\n"));
}

#[test]
fn optional_and_parameterized_types_render() {
    let c = parsed("extends Node as Foo\nfun run(a: ?int, b: +Node, c: List[int, float]):\n\tlet d = 1\n");
    let typed = c.typecheck().ok().unwrap();
    let out = String::from_utf8(typed.output()).unwrap();
    assert!(out.contains(
        "void dFoo_run_args_Opint32_t_DrTNode_ParListWint32_tfloat(void *self_ptr, Opint32_t a_0, DrTNode b_0, ParListWint32_tfloat c_0);\n"
    ));
}

#[test]
fn empty_source_is_a_parse_error() {
    let mut c = Compiler::new(StringPool::new());
    let e = c.parse_source_file(b"empty".to_vec(), Vec::new()).unwrap_err();
    assert!(matches!(e, CompileError::Parse(_)));
    let typed = c.typecheck().ok().unwrap();
    let out = String::from_utf8(typed.output()).unwrap();
    assert!(out.starts_with("#include <stdint.h>\n"));
    assert!(out.ends_with("#define float_op_add(a, b) ((a) + (b))\n"));
}

#[test]
fn two_files_share_one_table() {
    let mut c = Compiler::new(StringPool::new());
    c.parse_source_file(b"a".to_vec(), b"extends Node as A\nfun f(x: int):\n\tlet y = x\n".to_vec()).unwrap();
    c.parse_source_file(b"b".to_vec(), b"extends A as B\nfun f(x: int):\n\tlet y = x\n".to_vec()).unwrap();
    let typed = c.typecheck().ok().unwrap();
    let out = String::from_utf8(typed.output()).unwrap();
    assert!(out.contains("void dA_f_args_int32_t(void *self_ptr, int32_t x_0);\nvoid dB_f_args_int32_t(void *self_ptr, int32_t x_1);\n"));
    assert!(out.contains("#define FieldList_TA\n#define FieldList_TB\ntypedef struct STA"));
    assert!(out.contains("int32_t y_1 = x_1;\n"));
}

#[test]
fn parser_refuses_repeated_signature_and_keeps_header() {
    let mut b = Bindings::new();
    let mut p = Parser::from_str(
        StringPool::new(),
        "extends Node as Foo\nfun bar(x: int):\n\tlet a = 1\nfun bar(x: int):\n\tlet b = 2\n",
    );
    let r = p.parse(&mut b);
    assert!(matches!(r, Err(CompileError::DuplicateSignature(n)) if n.eq_utf8(p.pool(), "bar")));

    let mut b = Bindings::new();
    let mut p = Parser::from_str(StringPool::new(), "extends Node as Foo\nfun bar(x: int):\n\tlet a = 1\n");
    match p.parse(&mut b) {
        Ok(ponyscript::ast::Node::Tree(t)) => {
            assert!(t.base_type.eq_utf8(p.pool(), "Node"));
            assert!(t.own_type.eq_utf8(p.pool(), "Foo"));
            assert!(matches!(t.children, ponyscript::ast::NodeList::Cons(_, ref rest) if matches!(**rest, ponyscript::ast::NodeList::Nil)));
        }
        _ => panic!("expected a tree"),
    }
}
