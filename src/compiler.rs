//! One compilation from source texts to generated text: parse every file, type check every
//! tree, then lower them.

use vstd::prelude::*;
use crate::ast::{TypedNode, UntypedNode};
use crate::ast::codegen::{codegen, forward_text, gen, prelude_text, write_forward_declarations, write_prelude};
use crate::ast::typecheck::{tc, typecheck};
use crate::bindings::{Bindings, BindingsView, model_of, signatures_distinct};
use crate::error::{CompileError, message_text};
use crate::lexer::{Lexer, Token, lexed, pool_extends, start_state};
use crate::parser::grammar::{PResult, PState, p_file};
use crate::parser::Parser;
use crate::string_pool::StringPool;

verus! {

/// Type checking of several trees in order, each against the table the previous ones left.
pub open spec fn tc_all(b: BindingsView, trees: Seq<UntypedNode>) -> (BindingsView, Result<Seq<TypedNode>, CompileError>)
    decreases trees.len(),
{
    if trees.len() == 0 {
        (b, Ok(Seq::empty()))
    } else {
        let (b1, r) = tc_all(b, trees.drop_last());
        match r {
            Err(e) => (b1, Err(e)),
            Ok(ts) => {
                let (b2, r2) = tc(b1, trees.last());
                match r2 {
                    Err(e) => (b2, Err(e)),
                    Ok((n, _)) => (b2, Ok(ts.push(n))),
                }
            },
        }
    }
}

/// After an error, further trees do not change the outcome.
pub proof fn lemma_tc_all_err_stable(b: BindingsView, trees: Seq<UntypedNode>, m: nat)
    requires
        m <= trees.len(),
        tc_all(b, trees.take(m as int)).1 is Err,
    ensures
        tc_all(b, trees).1 == tc_all(b, trees.take(m as int)).1,
    decreases trees.len() - m,
{
    if m < trees.len() {
        let next = trees.take(m as int + 1);
        assert(next.drop_last() =~= trees.take(m as int));
        assert(tc_all(b, next).1 == tc_all(b, trees.take(m as int)).1);
        lemma_tc_all_err_stable(b, trees, m + 1);
    } else {
        assert(trees.take(m as int) =~= trees);
    }
}

/// The lowering of several trees, one after the other.
pub open spec fn gen_all(pool: Seq<Seq<u8>>, b: BindingsView, trees: Seq<TypedNode>) -> Seq<u8>
    decreases trees.len(),
{
    if trees.len() == 0 {
        Seq::empty()
    } else {
        gen_all(pool, b, trees.drop_last()) + gen(pool, b, trees.last())
    }
}

/// Where the parser starts on a file: at its first token, with no scope open, declaring global
/// functions, outside any type.
pub open spec fn initial_pstate() -> PState {
    PState { pos: 0, scopes: Seq::empty(), ns: crate::bindings::Namespace::Global, context: None }
}

/// One compilation: the pool, the binding table, and the trees of the source files, untyped
/// until `typecheck` and typed after it.
pub struct Compiler<N> {
    pool: StringPool,
    bindings: Bindings,
    trees: Vec<N>,
}

impl<N> Compiler<N> {
    pub closed spec fn wf(&self) -> bool {
        self.pool.wf() && self.bindings.wf()
    }

    pub closed spec fn pool_view(&self) -> Seq<Seq<u8>> {
        self.pool.view()
    }

    pub closed spec fn bindings_view(&self) -> BindingsView {
        self.bindings@
    }

    pub closed spec fn trees(&self) -> Seq<N> {
        self.trees@
    }

    /// The pool, the binding table and the trees.
    fn into_parts(self) -> (r: (StringPool, Bindings, Vec<N>))
        ensures
            r.0.view() == self.pool_view(),
            r.1@ == self.bindings_view(),
            r.2@ == self.trees(),
            self.wf() ==> r.0.wf() && r.1.wf(),
    {
        (self.pool, self.bindings, self.trees)
    }

    pub fn pool(&self) -> (r: &StringPool)
        ensures
            r.view() == self.pool_view(),
    {
        &self.pool
    }

    pub fn bindings(&self) -> (r: &Bindings)
        ensures
            r@ == self.bindings_view(),
    {
        &self.bindings
    }
}

impl Compiler<UntypedNode> {
    pub fn new(pool: StringPool) -> (r: Self)
        requires
            pool.wf(),
        ensures
            r.wf(),
            r.pool_view() == pool.view(),
            r.trees().len() == 0,
            signatures_distinct(r.bindings_view()),
    {
        Compiler { pool, bindings: Bindings::new(), trees: Vec::new() }
    }

    /// Parses one source file, named `tagline` in error messages, and keeps its tree. No two
    /// functions recorded in the table share a namespace, a name and parameter types: a repeated
    /// declaration is refused by `Bindings::new_fun_binding` with `DuplicateSignature`, which ends
    /// the parse.
    pub fn parse_source_file(&mut self, tagline: Vec<u8>, source: Vec<u8>) -> (r: Result<(), CompileError>)
        requires
            old(self).wf(),
            source@.len() + 4 <= usize::MAX,
        ensures
            final(self).wf(),
            r is Ok ==> final(self).trees().len() == old(self).trees().len() + 1
                && final(self).trees().drop_last() == old(self).trees(),
            r is Err ==> final(self).trees() == old(self).trees(),
            signatures_distinct(old(self).bindings_view()) ==> signatures_distinct(final(self).bindings_view()),
            pool_extends(old(self).pool_view(), final(self).pool_view()),
            exists|toks: Seq<Token>| {
                &&& #[trigger] lexed(toks, final(self).pool_view(), start_state(source@))
                &&& ({
                    let (st, table, res) = p_file(toks, final(self).pool_view(), initial_pstate(), model_of(old(self).bindings_view()));
                    &&& model_of(final(self).bindings_view()) == table
                    &&& (r is Ok <==> res is Done)
                    &&& (res matches PResult::Done(t) ==> final(self).trees() == old(self).trees().push(t))
                    &&& (res matches PResult::Dup(n) ==> (r matches Err(CompileError::DuplicateSignature(n2)) && n2 == n))
                    &&& (res matches PResult::Fail(_, m) ==> (r matches Err(CompileError::Parse(pe)) && pe.message == m && pe.tagline@ == tagline@))
                })
            },
    {
        let ghost source_bytes = source@;
        let ghost tagline_bytes = tagline@;
        let mut pool = StringPool::new();
        std::mem::swap(&mut pool, &mut self.pool);
        let lexer = Lexer::new(pool, tagline, source);
        let mut parser = Parser::new(lexer);
        let ghost toks = parser.tokens();
        assert(parser.wf());
        let tree = parser.parse(&mut self.bindings);
        assert(parser.wf());
        assert(self.bindings.wf());
        let mut pool = parser.into_pool();
        assert(pool.wf());
        std::mem::swap(&mut pool, &mut self.pool);
        assert(lexed(toks, self.pool@, start_state(source_bytes)));
        match tree {
            Ok(tree) => {
                self.trees.push(tree);
                assert(self.trees@.drop_last() =~= old(self).trees@);
                assert(self.trees@ =~= old(self).trees@.push(tree));
                Ok(())
            },
            Err(e) => Err(e),
        }
    }

    /// Type checks the trees in order; the first error ends the pass.
    pub fn typecheck(self) -> (r: Result<Compiler<TypedNode>, (CompileError, Vec<u8>)>)
        requires
            self.wf(),
        ensures
            r matches Ok(c) ==> c.wf() && c.pool_view() == self.pool_view()
                && (c.bindings_view(), Ok::<Seq<TypedNode>, CompileError>(c.trees()))
                == tc_all(self.bindings_view(), self.trees()),
            r matches Err((e, msg)) ==> tc_all(self.bindings_view(), self.trees()).1 == Err::<Seq<TypedNode>, CompileError>(e)
                && msg@ == message_text(self.pool_view(), e),
    {
        let ghost all = self.trees();
        let ghost b0 = self.bindings_view();
        let (pool, mut bindings, trees) = self.into_parts();
        let count = trees.len();
        let mut rest = trees;
        let mut typed: Vec<TypedNode> = Vec::new();
        let mut k: usize = 0;
        while rest.len() > 0
            invariant
                bindings.wf(),
                b0 == self.bindings_view(),
                pool.view() == self.pool_view(),
                all == self.trees(),
                count == all.len(),
                k + rest@.len() == all.len(),
                rest@ == all.skip(k as int),
                (bindings@, Ok::<Seq<TypedNode>, CompileError>(typed@)) == tc_all(b0, all.take(k as int)),
            decreases rest@.len(),
        {
            let tree = rest.remove(0);
            assert(all.take(k + 1).drop_last() =~= all.take(k as int));
            assert(tree == all[k as int]);
            assert(all.take(k + 1).last() == tree);
            let checked = typecheck(&mut bindings, tree);
            match checked {
                Ok((node, _)) => typed.push(node),
                Err(e) => {
                    assert(tc_all(b0, all.take(k + 1)).1 == Err::<Seq<TypedNode>, CompileError>(e));
                    proof { lemma_tc_all_err_stable(b0, all, (k + 1) as nat); }
                    assert(tc_all(b0, all).1 == Err::<Seq<TypedNode>, CompileError>(e));
                    let msg = e.message(&pool);
                    return Err((e, msg));
                },
            }
            k += 1;
            assert(rest@ =~= all.skip(k as int));
        }
        assert(all.take(k as int) =~= all);
        Ok(Compiler { pool, bindings, trees: typed })
    }
}

impl Compiler<TypedNode> {
    /// The generated text: prelude, forward declarations, then the bodies of every tree.
    pub fn output(&self) -> (r: Vec<u8>)
        requires
            self.wf(),
        ensures
            r@ == prelude_text() + forward_text(self.pool_view(), self.bindings_view())
                + gen_all(self.pool_view(), self.bindings_view(), self.trees()),
    {
        let mut writer: Vec<u8> = Vec::new();
        self.codegen_impl(&mut writer);
        assert(writer@ =~= prelude_text() + forward_text(self.pool_view(), self.bindings_view())
            + gen_all(self.pool_view(), self.bindings_view(), self.trees()));
        writer
    }

    fn codegen_impl(&self, writer: &mut Vec<u8>)
        requires
            self.wf(),
        ensures
            final(writer)@ == old(writer)@ + prelude_text() + forward_text(self.pool_view(), self.bindings_view())
                + gen_all(self.pool_view(), self.bindings_view(), self.trees()),
    {
        write_prelude(writer);
        write_forward_declarations(&self.pool, &self.bindings, writer);
        let ghost start = writer@;
        let mut i: usize = 0;
        while i < self.trees.len()
            invariant
                self.wf(),
                i <= self.trees@.len(),
                writer@ == start + gen_all(self.pool@, self.bindings@, self.trees@.take(i as int)),
            decreases self.trees@.len() - i,
        {
            codegen(&self.pool, &self.bindings, &self.trees[i], writer);
            i += 1;
            assert(self.trees@.take(i as int).drop_last() =~= self.trees@.take(i - 1));
            assert(writer@ =~= start + gen_all(self.pool@, self.bindings@, self.trees@.take(i as int)));
        }
        assert(self.trees@.take(self.trees@.len() as int) =~= self.trees@);
    }
}

} // verus!
