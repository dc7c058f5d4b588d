//! The recursive-descent parser: tokens to an untyped tree, recording declarations in the
//! binding table as they are met. Its result is stated by the grammar in `grammar`.

use vstd::prelude::*;
use vstd::string::StringSliceAdditionalSpecFns;
use crate::ast::{BindPoint, Node, NodeList, Tree, TypeList, TypeName, UntypedNode};
use crate::ast::op;
use crate::bindings::{Bindings, FunID, Namespace, VarID, keeps_vars, model_of, signatures_distinct};
use crate::error::{CompileError, ParseError};
use crate::lexer::{Lexer, Token, pool_extends, lexed, lex_run, lexeme_at, lemma_token_holds_extends, token_holds};
use crate::lexer::token;
use crate::lexer::token::token_eq;
use crate::string_pool::{PoolS, StringPool};

pub mod grammar;
pub mod scope;

use grammar::{
    PResult, PState, adv, cur, eat as eat_spec, eat_id as eat_id_spec, new_var, p_body, p_call_args,
    p_expr, p_expr_id, p_file, p_fun, p_fun_impl, p_id_type, p_let, p_params, p_statement,
    p_statement_id, p_top_level, p_type, p_type_args, p_children,
};
use scope::Scopes;

verus! {

pub open spec fn something(t: Token) -> bool {
    !(t is EOF || t is BadLex)
}

/// Whether the exec outcome `r` is the grammar's outcome `s`, a parse error carrying the
/// position recorded for its token.
pub open spec fn agrees<T>(r: Result<T, CompileError>, s: PResult<T>, positions: Seq<(usize, usize)>, tagline: Seq<u8>) -> bool {
    match s {
        PResult::Done(v) => r == Ok::<T, CompileError>(v),
        PResult::Fail(k, m) => r matches Err(CompileError::Parse(pe)) && k < positions.len()
            && pe.line == positions[k as int].0 && pe.column == positions[k as int].1
            && pe.tagline@ == tagline && pe.message == m,
        PResult::Dup(n) => r matches Err(CompileError::DuplicateSignature(n2)) && n2 == n,
    }
}

/// A recursive-descent parser over the tokens of one source file. Local variables are bound
/// through the scopes as they are parsed; calls stay unresolved until type checking.
pub struct Parser {
    pool: StringPool,
    tagline: Vec<u8>,
    /// The tokens of the file: all but the last are tokens proper, the last is the end of input
    /// or a lexing failure.
    tokens: Vec<Token>,
    /// For each token, the line and column that the lexer had reached after reading it.
    positions: Vec<(usize, usize)>,
    /// The index of the token looked at.
    pos: usize,
    scope: Scopes,
    namespace: Namespace,
    /// The type that top-level variables belong to.
    context: Option<TypeName>,
}

pub type RNode = Result<UntypedNode, CompileError>;

impl Parser {
    pub closed spec fn tokens(&self) -> Seq<Token> {
        self.tokens@
    }

    pub closed spec fn positions(&self) -> Seq<(usize, usize)> {
        self.positions@
    }

    pub closed spec fn tagline(&self) -> Seq<u8> {
        self.tagline@
    }

    pub closed spec fn pool_view(&self) -> Seq<Seq<u8>> {
        self.pool.view()
    }

    pub closed spec fn pstate(&self) -> PState {
        PState { pos: self.pos as nat, scopes: self.scope@, ns: self.namespace, context: self.context }
    }

    pub closed spec fn wf(&self) -> bool {
        &&& self.pool.wf()
        &&& self.tokens@.len() >= 1
        &&& self.positions@.len() == self.tokens@.len()
        &&& self.pos < self.tokens@.len()
        &&& forall|k: int| 0 <= k < self.tokens@.len() - 1 ==> something(#[trigger] self.tokens@[k])
        &&& !something(self.tokens@.last())
    }

    /// Only the position, the scopes, the namespace and the context changed.
    pub closed spec fn same_input(&self, old: &Parser) -> bool {
        &&& self.wf()
        &&& self.tokens == old.tokens
        &&& self.positions == old.positions
        &&& self.tagline == old.tagline
        &&& self.pool == old.pool
    }

    /// Reads every token of `lexer`, up to the end of input or a lexing failure.
    pub fn new(lexer: Lexer) -> (r: Self)
        requires
            lexer.wf(),
        ensures
            r.wf(),
            r.pstate() == (PState { pos: 0, scopes: Seq::empty(), ns: Namespace::Global, context: None }),
            r.tagline() == lexer.tagline(),
            lexed(r.tokens(), r.pool_view(), lexer.state()),
            pool_extends(lexer.pool_view(), r.pool_view()),
    {
        let ghost s0 = lexer.state();
        let ghost p0 = lexer.pool_view();
        let tagline = lexer.tagline_copy();
        let mut lexer = lexer;
        let mut tokens: Vec<Token> = Vec::new();
        let mut positions: Vec<(usize, usize)> = Vec::new();
        loop
            invariant_except_break
                forall|k: int| 0 <= k < tokens@.len() ==> something(#[trigger] tokens@[k]),
            invariant
                lexer.wf(),
                positions@.len() == tokens@.len(),
                lexer.state() == lex_run(s0, tokens@.len() as nat),
                forall|k: int| 0 <= k < tokens@.len() ==> token_holds(#[trigger] tokens@[k], lexer.pool_view(), lexeme_at(s0, k as nat)),
                pool_extends(p0, lexer.pool_view()),
            ensures
                pool_extends(p0, lexer.pool_view()),
                lexer.wf(),
                forall|k: int| 0 <= k < tokens@.len() ==> token_holds(#[trigger] tokens@[k], lexer.pool_view(), lexeme_at(s0, k as nat)),
                positions@.len() == tokens@.len(),
                tokens@.len() >= 1,
                forall|k: int| 0 <= k < tokens@.len() - 1 ==> something(#[trigger] tokens@[k]),
                !something(tokens@.last()),
            decreases lexer.measure(),
        {
            let ghost pool0 = lexer.pool_view();
            let ghost n = tokens@.len();
            let t = lexer.next();
            proof {
                assert forall|k: int| 0 <= k < tokens@.len() implies token_holds(#[trigger] tokens@[k], lexer.pool_view(), lexeme_at(s0, k as nat)) by {
                    lemma_token_holds_extends(tokens@[k], pool0, lexer.pool_view(), lexeme_at(s0, k as nat));
                }
            }
            positions.push(lexer.position());
            let stop = !t.is_something();
            let ghost before = tokens@;
            tokens.push(t);
            assert(tokens@[n as int] == t);
            if stop {
                break;
            }
            assert forall|k: int| 0 <= k < tokens@.len() implies something(#[trigger] tokens@[k]) by {
                if k < before.len() {
                    assert(tokens@[k] == before[k]);
                }
            }
        }
        let pool = lexer.into_pool();
        let scope = Scopes::new();
        assert(scope@ =~= Seq::<Seq<(PoolS, VarID)>>::empty());
        Parser { pool, tagline, tokens, positions, pos: 0, scope, namespace: Namespace::Global, context: None }
    }
}

/// As `agrees`, for a rule that produces a sequence.
pub open spec fn agrees_vec<T>(r: Result<Vec<T>, CompileError>, s: PResult<Seq<T>>, positions: Seq<(usize, usize)>, tagline: Seq<u8>) -> bool {
    match s {
        PResult::Done(v) => r matches Ok(x) && x@ == v,
        PResult::Fail(k, m) => r matches Err(CompileError::Parse(pe)) && k < positions.len()
            && pe.line == positions[k as int].0 && pe.column == positions[k as int].1
            && pe.tagline@ == tagline && pe.message == m,
        PResult::Dup(n) => r matches Err(CompileError::DuplicateSignature(n2)) && n2 == n,
    }
}

impl Parser {
    /// A parser over the bytes of `string`.
    #[allow(unused)]
    pub fn from_str(pool: StringPool, string: &str) -> (r: Self)
        requires
            pool.wf(),
            string.spec_bytes().len() + 4 <= usize::MAX,
        ensures
            r.wf(),
            r.pstate() == (PState { pos: 0, scopes: Seq::empty(), ns: Namespace::Global, context: None }),
            r.tagline() == "[string]".spec_bytes(),
    {
        Parser::new(Lexer::from_str(pool, string))
    }

    pub fn pool(&self) -> (r: &StringPool)
        ensures
            r.view() == self.pool_view(),
            self.wf() ==> r.wf(),
    {
        &self.pool
    }

    /// Ends parsing and hands the pool back.
    pub fn into_pool(self) -> (r: StringPool)
        ensures
            r.view() == self.pool_view(),
            self.wf() ==> r.wf(),
    {
        self.pool
    }

    fn current(&self) -> (r: &Token)
        requires
            self.wf(),
        ensures
            *r == cur(self.tokens(), self.pstate()),
    {
        &self.tokens[self.pos]
    }

    fn advance(&mut self)
        requires
            old(self).wf(),
        ensures
            final(self).same_input(old(self)),
            final(self).pstate() == adv(old(self).tokens(), old(self).pstate()),
    {
        if self.pos < self.tokens.len() - 1 {
            self.pos = self.pos + 1;
        }
    }

    fn err<T>(&self, msg: &'static str) -> (r: Result<T, CompileError>)
        requires
            self.wf(),
        ensures
            agrees(r, PResult::<T>::Fail(self.pstate().pos, msg), self.positions(), self.tagline()),
    {
        let (line, column) = self.positions[self.pos];
        let mut tagline: Vec<u8> = Vec::new();
        crate::string_pool::push_bytes(&mut tagline, &self.tagline);
        Err(CompileError::Parse(ParseError { tagline, line, column, message: msg }))
    }

    fn err_vec<T>(&self, msg: &'static str) -> (r: Result<Vec<T>, CompileError>)
        requires
            self.wf(),
        ensures
            agrees_vec(r, PResult::<Seq<T>>::Fail(self.pstate().pos, msg), self.positions(), self.tagline()),
    {
        let (line, column) = self.positions[self.pos];
        let mut tagline: Vec<u8> = Vec::new();
        crate::string_pool::push_bytes(&mut tagline, &self.tagline);
        Err(CompileError::Parse(ParseError { tagline, line, column, message: msg }))
    }

    /// Consumes the current token if it equals `tok`.
    fn eat(&mut self, tok: Token) -> (r: bool)
        requires
            old(self).wf(),
        ensures
            final(self).same_input(old(self)),
            (final(self).pstate(), r) == eat_spec(old(self).tokens(), old(self).pstate(), tok),
    {
        if self.tokens[self.pos].same(&tok) {
            self.advance();
            true
        } else {
            false
        }
    }

    fn eat_id(&mut self) -> (r: Option<PoolS>)
        requires
            old(self).wf(),
        ensures
            final(self).same_input(old(self)),
            (final(self).pstate(), r) == eat_id_spec(old(self).tokens(), old(self).pstate()),
    {
        if let Token::ID(string) = self.tokens[self.pos] {
            self.advance();
            return Some(string);
        }
        None
    }
}

impl Parser {
    /// A type name, or a parameterized one `name[T, ...]`. `int` and `float` denote the built-in
    /// numeric types.
    fn parse_id_type(&mut self) -> (r: Result<TypeName, CompileError>)
        requires
            old(self).wf(),
        ensures
            final(self).same_input(old(self)),
            ({
                let (st, res) = p_id_type(old(self).tokens(), old(self).pool_view(), old(self).pstate());
                final(self).pstate() == st && agrees(r, res, old(self).positions(), old(self).tagline())
            }),
        decreases grammar::fuel(old(self).tokens(), old(self).pstate()), 0nat,
    {
        let start = self.pos;
        let id = match self.eat_id() {
            Some(id) => id,
            None => return self.err("Expected type"),
        };
        if self.eat(Token::LBracket) {
            if self.pos > start {
                self.parse_type_args(id, Vec::new())
            } else {
                self.err("Expected type")
            }
        } else {
            Ok(TypeName::Primitive(id).to_specific(&self.pool))
        }
    }

    /// The arguments of a parameterized type, after `[`.
    fn parse_type_args(&mut self, id: PoolS, acc: Vec<TypeName>) -> (r: Result<TypeName, CompileError>)
        requires
            old(self).wf(),
        ensures
            final(self).same_input(old(self)),
            ({
                let (st, res) = p_type_args(old(self).tokens(), old(self).pool_view(), old(self).pstate(), id, acc@);
                final(self).pstate() == st && agrees(r, res, old(self).positions(), old(self).tagline())
            }),
        decreases grammar::fuel(old(self).tokens(), old(self).pstate()), 2nat,
    {
        let start = self.pos;
        let t = self.parse_type()?;
        let mut acc = acc;
        acc.push(t);
        if self.eat(Token::Comma) {
            if self.pos > start {
                self.parse_type_args(id, acc)
            } else {
                self.err("Expected ',' or ']' in arg list")
            }
        } else if self.eat(Token::RBracket) {
            Ok(TypeName::Parameterized(id, TypeList::from_vec(acc)))
        } else {
            self.err("Expected ',' or ']' in arg list")
        }
    }

    /// A type, possibly prefixed by `+` (dereference) or `?` (optional).
    fn parse_type(&mut self) -> (r: Result<TypeName, CompileError>)
        requires
            old(self).wf(),
        ensures
            final(self).same_input(old(self)),
            ({
                let (st, res) = p_type(old(self).tokens(), old(self).pool_view(), old(self).pstate());
                final(self).pstate() == st && agrees(r, res, old(self).positions(), old(self).tagline())
            }),
        decreases grammar::fuel(old(self).tokens(), old(self).pstate()), 1nat,
    {
        let start = self.pos;
        if self.eat(Token::Plus) {
            if self.pos > start {
                let inner = self.parse_id_type()?;
                return Ok(TypeName::Deref(Box::new(inner)));
            }
            return self.err("Expected type");
        }
        if self.eat(Token::QuestionMark) {
            if self.pos > start {
                let inner = self.parse_id_type()?;
                return Ok(TypeName::Optional(Box::new(inner)));
            }
            return self.err("Expected type");
        }
        self.parse_id_type()
    }

    /// A number, a variable or a call, possibly followed by `+` and another expression.
    fn parse_expr(&mut self) -> (r: RNode)
        requires
            old(self).wf(),
        ensures
            final(self).same_input(old(self)),
            ({
                let (st, res) = p_expr(old(self).tokens(), old(self).pstate());
                final(self).pstate() == st && agrees(r, res, old(self).positions(), old(self).tagline())
            }),
        decreases grammar::fuel(old(self).tokens(), old(self).pstate()), 1nat,
    {
        let start = self.pos;
        let lhs = match self.current() {
            Token::Num(str) => {
                let str = *str;
                self.advance();
                Node::NumConst(str, TypeName::UnspecificNumeric)
            },
            Token::ID(_) => self.parse_expr_id()?,
            _ => return self.err("Expected expression"),
        };
        if let Token::Plus = self.current() {
            self.advance();
            if self.pos > start {
                let rhs = self.parse_expr()?;
                op::add(lhs, rhs)
            } else {
                self.err("Expected expression")
            }
        } else {
            Ok(lhs)
        }
    }

    /// A variable reference, or a call `name(args)` left unresolved.
    fn parse_expr_id(&mut self) -> (r: RNode)
        requires
            old(self).wf(),
        ensures
            final(self).same_input(old(self)),
            ({
                let (st, res) = p_expr_id(old(self).tokens(), old(self).pstate());
                final(self).pstate() == st && agrees(r, res, old(self).positions(), old(self).tagline())
            }),
        decreases grammar::fuel(old(self).tokens(), old(self).pstate()), 0nat,
    {
        let start = self.pos;
        let id = match self.eat_id() {
            Some(id) => id,
            None => return self.err("Failed to consume identifier when parsing identifier"),
        };
        if self.eat(Token::LParen) {
            if self.eat(Token::RParen) {
                Ok(Node::FunCall(self.namespace, None, BindPoint::unresolved(id), NodeList::Nil))
            } else if self.pos > start {
                // Which function is called depends on the argument types, known only later.
                self.parse_call_args(id, Vec::new())
            } else {
                self.err("Expected ')' or ',' in function call")
            }
        } else {
            Ok(Node::VarRef(self.scope.find_var(id)))
        }
    }

    /// The arguments of a call, after `(`.
    fn parse_call_args(&mut self, id: PoolS, acc: Vec<UntypedNode>) -> (r: RNode)
        requires
            old(self).wf(),
        ensures
            final(self).same_input(old(self)),
            ({
                let (st, res) = p_call_args(old(self).tokens(), old(self).pstate(), id, acc@);
                final(self).pstate() == st && agrees(r, res, old(self).positions(), old(self).tagline())
            }),
        decreases grammar::fuel(old(self).tokens(), old(self).pstate()), 2nat,
    {
        let start = self.pos;
        let namespace = self.namespace;
        let e = self.parse_expr()?;
        let mut acc = acc;
        acc.push(e);
        if self.eat(Token::Comma) {
            if self.pos > start {
                self.parse_call_args(id, acc)
            } else {
                self.err("Expected ')' or ',' in function call")
            }
        } else if self.eat(Token::RParen) {
            Ok(Node::FunCall(namespace, None, BindPoint::unresolved(id), NodeList::from_vec(acc)))
        } else {
            self.err("Expected ')' or ',' in function call")
        }
    }

    /// A statement that starts with a name: an assignment or a call.
    fn parse_statement_id(&mut self) -> (r: RNode)
        requires
            old(self).wf(),
        ensures
            final(self).same_input(old(self)),
            ({
                let (st, res) = p_statement_id(old(self).tokens(), old(self).pstate());
                final(self).pstate() == st && agrees(r, res, old(self).positions(), old(self).tagline())
            }),
    {
        let lhs = self.parse_expr_id()?;
        if self.eat(Token::Equals) {
            let rhs = self.parse_expr()?;
            return match lhs {
                Node::VarRef(var) => Ok(Node::Assign(var, Box::new(rhs))),
                _ => self.err("Only variable assignment supported at the moment"),
            };
        }
        // A call is a statement without an assignment.
        if let Node::FunCall(..) = lhs {
            return Ok(lhs);
        }
        self.err("Expected function call or arithmetic expression")
    }

    /// Records a variable and binds its name in the innermost scope; outside any function the
    /// variable becomes a field of the type being declared.
    fn new_var_binding(&mut self, bindings: &mut Bindings, string: PoolS, typ: TypeName) -> (r: Result<VarID, CompileError>)
        requires
            old(self).wf(),
            old(bindings).wf(),
        ensures
            final(self).same_input(old(self)),
            final(bindings).wf(),
            keeps_vars(old(bindings)@, final(bindings)@),
            signatures_distinct(old(bindings)@) ==> signatures_distinct(final(bindings)@),
            ({
                let (st, table, res) = new_var(old(self).pstate(), model_of(old(bindings)@), string, typ);
                final(self).pstate() == st && model_of(final(bindings)@) == table
                    && agrees(r, res, old(self).positions(), old(self).tagline())
            }),
            r matches Ok(v) ==> final(bindings).is_var(v),
    {
        let top = self.scope.is_top_level();
        let id = bindings.new_var_binding(&self.pool, string, typ);
        self.scope.add_var(string, id);
        if top {
            match &self.context {
                None => return self.err("Variable declared outside of a type"),
                Some(name) => {
                    let ghost before = bindings@;
                    assert(before.is_var(id));
                    bindings.type_push_member(&self.pool, name, id);
                    bindings.to_member_var(id);
                },
            }
        }
        Ok(id)
    }

    /// `let name[: type] [= expr]`.
    fn parse_let(&mut self, bindings: &mut Bindings) -> (r: RNode)
        requires
            old(self).wf(),
            old(bindings).wf(),
        ensures
            final(self).same_input(old(self)),
            final(bindings).wf(),
            keeps_vars(old(bindings)@, final(bindings)@),
            signatures_distinct(old(bindings)@) ==> signatures_distinct(final(bindings)@),
            ({
                let (st, table, res) = p_let(old(self).tokens(), old(self).pool_view(), old(self).pstate(), model_of(old(bindings)@));
                final(self).pstate() == st && model_of(final(bindings)@) == table
                    && agrees(r, res, old(self).positions(), old(self).tagline())
            }),
    {
        self.advance();
        let id = match self.eat_id() {
            Some(id) => id,
            None => return self.err("Expected identifier after let"),
        };
        let typ = if self.eat(Token::Colon) {
            self.parse_type()?
        } else {
            TypeName::Unset
        };
        if self.eat(Token::Equals) {
            let expr = self.parse_expr()?;
            let bind_id = self.new_var_binding(bindings, id, typ)?;
            Ok(Node::Decl(bind_id, Some(Box::new(expr))))
        } else {
            let bind_id = self.new_var_binding(bindings, id, typ)?;
            Ok(Node::Decl(bind_id, None))
        }
    }

    fn parse_statement(&mut self, bindings: &mut Bindings) -> (r: RNode)
        requires
            old(self).wf(),
            old(bindings).wf(),
        ensures
            final(self).same_input(old(self)),
            final(bindings).wf(),
            keeps_vars(old(bindings)@, final(bindings)@),
            signatures_distinct(old(bindings)@) ==> signatures_distinct(final(bindings)@),
            ({
                let (st, table, res) = p_statement(old(self).tokens(), old(self).pool_view(), old(self).pstate(), model_of(old(bindings)@));
                final(self).pstate() == st && model_of(final(bindings)@) == table
                    && agrees(r, res, old(self).positions(), old(self).tagline())
            }),
    {
        match self.current() {
            Token::KeyLet => self.parse_let(bindings),
            Token::ID(_) => self.parse_statement_id(),
            _ => self.err("Unknown statement"),
        }
    }

    /// Parameters `name: type, ...` up to the first token that is not a name.
    fn parse_params(&mut self, bindings: &mut Bindings, args: Vec<VarID>) -> (r: Result<Vec<VarID>, CompileError>)
        requires
            old(self).wf(),
            old(bindings).wf(),
            forall|k: int| 0 <= k < args@.len() ==> old(bindings).is_var(#[trigger] args@[k]),
        ensures
            final(self).same_input(old(self)),
            final(bindings).wf(),
            keeps_vars(old(bindings)@, final(bindings)@),
            signatures_distinct(old(bindings)@) ==> signatures_distinct(final(bindings)@),
            ({
                let (st, table, res) = p_params(old(self).tokens(), old(self).pool_view(), old(self).pstate(), model_of(old(bindings)@), args@);
                final(self).pstate() == st && model_of(final(bindings)@) == table
                    && agrees_vec(r, res, old(self).positions(), old(self).tagline())
            }),
            r matches Ok(v) ==> forall|k: int| 0 <= k < v@.len() ==> final(bindings).is_var(#[trigger] v@[k]),
        decreases grammar::fuel(old(self).tokens(), old(self).pstate()),
    {
        let start = self.pos;
        let param = match self.current() {
            Token::ID(param) => *param,
            _ => return Ok(args),
        };
        self.advance();
        if !self.eat(Token::Colon) {
            return self.err_vec("Expected ':' after function parameter name");
        }
        let t = match self.parse_type() {
            Ok(t) => t,
            Err(e) => return Err(e),
        };
        let ghost before = bindings@;
        let v = match self.new_var_binding(bindings, param, t) {
            Ok(v) => v,
            Err(e) => return Err(e),
        };
        let mut args = args;
        proof {
            assert forall|k: int| 0 <= k < args@.len() implies bindings.is_var(#[trigger] args@[k]) by {
                assert(before.is_var(args@[k]));
            }
        }
        args.push(v);
        if self.eat(Token::Comma) {
            if self.pos > start {
                self.parse_params(bindings, args)
            } else {
                self.err_vec("Expected ')' after function name")
            }
        } else {
            Ok(args)
        }
    }

    /// Statements up to the end of the block.
    fn parse_body(&mut self, bindings: &mut Bindings, acc: Vec<UntypedNode>) -> (r: Result<Vec<UntypedNode>, CompileError>)
        requires
            old(self).wf(),
            old(bindings).wf(),
        ensures
            final(self).same_input(old(self)),
            final(bindings).wf(),
            keeps_vars(old(bindings)@, final(bindings)@),
            signatures_distinct(old(bindings)@) ==> signatures_distinct(final(bindings)@),
            ({
                let (st, table, res) = p_body(old(self).tokens(), old(self).pool_view(), old(self).pstate(), model_of(old(bindings)@), acc@);
                final(self).pstate() == st && model_of(final(bindings)@) == table
                    && agrees_vec(r, res, old(self).positions(), old(self).tagline())
            }),
        decreases grammar::fuel(old(self).tokens(), old(self).pstate()),
    {
        let start = self.pos;
        if self.eat(Token::BlockEnd) {
            return Ok(acc);
        }
        let statement = match self.parse_statement(bindings) {
            Ok(s) => s,
            Err(e) => return Err(e),
        };
        if self.pos > start {
            let mut acc = acc;
            acc.push(statement);
            self.parse_body(bindings, acc)
        } else {
            self.err_vec("Unknown statement")
        }
    }

    /// `fun name(param: type, ...) [-> type]:` followed by an indented block of statements.
    #[verifier::rlimit(80)]
    fn parse_fun_impl(&mut self, bindings: &mut Bindings) -> (r: RNode)
        requires
            old(self).wf(),
            old(bindings).wf(),
        ensures
            final(self).same_input(old(self)),
            final(bindings).wf(),
            keeps_vars(old(bindings)@, final(bindings)@),
            signatures_distinct(old(bindings)@) ==> signatures_distinct(final(bindings)@),
            ({
                let (st, table, res) = p_fun_impl(old(self).tokens(), old(self).pool_view(), old(self).pstate(), model_of(old(bindings)@));
                final(self).pstate() == st && model_of(final(bindings)@) == table
                    && agrees(r, res, old(self).positions(), old(self).tagline())
            }),
    {
        let namespace = self.namespace;
        self.advance();
        let id = match self.eat_id() {
            Some(id) => id,
            None => return self.err("Unexpected token after 'fun'"),
        };
        if !self.eat(Token::LParen) {
            return self.err("Expected '(' after function name");
        }
        let args = self.parse_params(bindings, Vec::new())?;
        if !self.eat(Token::RParen) {
            return self.err("Expected ')' after function name");
        }
        // The return type comes after the arrow, before the colon.
        let return_type = if self.eat(Token::RArrow) {
            self.parse_type()?
        } else {
            TypeName::Void
        };
        if !self.eat(Token::Colon) {
            return self.err("Expected ':' after function");
        }
        if !self.eat(Token::BlockStart) {
            return self.err("Expected block after function");
        }
        let func_id = bindings.new_fun_binding(&self.pool, namespace, id, return_type, args)?;
        let body = self.parse_body(bindings, Vec::new())?;
        Ok(Node::FunDecl(func_id, NodeList::from_vec(body)))
    }

    fn parse_fun(&mut self, bindings: &mut Bindings) -> (r: RNode)
        requires
            old(self).wf(),
            old(bindings).wf(),
        ensures
            final(self).same_input(old(self)),
            final(bindings).wf(),
            keeps_vars(old(bindings)@, final(bindings)@),
            signatures_distinct(old(bindings)@) ==> signatures_distinct(final(bindings)@),
            ({
                let (st, table, res) = p_fun(old(self).tokens(), old(self).pool_view(), old(self).pstate(), model_of(old(bindings)@));
                final(self).pstate() == st && model_of(final(bindings)@) == table
                    && agrees(r, res, old(self).positions(), old(self).tagline())
            }),
    {
        self.scope.push();
        let result = self.parse_fun_impl(bindings);
        self.scope.pop();
        result
    }

    fn parse_top_level(&mut self, bindings: &mut Bindings) -> (r: RNode)
        requires
            old(self).wf(),
            old(bindings).wf(),
        ensures
            final(self).same_input(old(self)),
            final(bindings).wf(),
            keeps_vars(old(bindings)@, final(bindings)@),
            signatures_distinct(old(bindings)@) ==> signatures_distinct(final(bindings)@),
            ({
                let (st, table, res) = p_top_level(old(self).tokens(), old(self).pool_view(), old(self).pstate(), model_of(old(bindings)@));
                final(self).pstate() == st && model_of(final(bindings)@) == table
                    && agrees(r, res, old(self).positions(), old(self).tagline())
            }),
    {
        match self.current() {
            Token::EOF => Ok(Node::Empty),
            Token::KeyFun => self.parse_fun(bindings),
            // A top-level variable is a field of the type; it produces no code of its own.
            Token::KeyLet => {
                self.parse_let(bindings)?;
                Ok(Node::Empty)
            },
            _ => {
                self.advance();
                self.err("Unexpected token at top level. Expected 'fun'")
            },
        }
    }

    /// Top-level declarations up to the end of input or a lexing failure.
    fn parse_children(&mut self, bindings: &mut Bindings, acc: Vec<UntypedNode>) -> (r: Result<Vec<UntypedNode>, CompileError>)
        requires
            old(self).wf(),
            old(bindings).wf(),
        ensures
            final(self).same_input(old(self)),
            final(bindings).wf(),
            keeps_vars(old(bindings)@, final(bindings)@),
            signatures_distinct(old(bindings)@) ==> signatures_distinct(final(bindings)@),
            ({
                let (st, table, res) = p_children(old(self).tokens(), old(self).pool_view(), old(self).pstate(), model_of(old(bindings)@), acc@);
                final(self).pstate() == st && model_of(final(bindings)@) == table
                    && agrees_vec(r, res, old(self).positions(), old(self).tagline())
            }),
        decreases grammar::fuel(old(self).tokens(), old(self).pstate()),
    {
        let start = self.pos;
        if !self.current().is_something() {
            return Ok(acc);
        }
        let child = match self.parse_top_level(bindings) {
            Ok(c) => c,
            Err(e) => return Err(e),
        };
        if self.pos > start {
            let mut acc = acc;
            acc.push(child);
            self.parse_children(bindings, acc)
        } else {
            self.err_vec("Unexpected token at top level. Expected 'fun'")
        }
    }

    /// Parses a whole source file: `extends Base as Own`, then functions and fields of `Own`.
    /// Functions and variables are recorded in `bindings` as they are declared; the result and
    /// the new table are those of the grammar `p_file`. In particular a function whose
    /// namespace, name and parameter types are already recorded ends the parse with
    /// `DuplicateSignature` naming it. The base type is kept in the tree only; it is not recorded
    /// as the own type's base class.
    pub fn parse(&mut self, bindings: &mut Bindings) -> (r: RNode)
        requires
            old(self).wf(),
            old(bindings).wf(),
        ensures
            final(self).wf(),
            final(self).pool_view() == old(self).pool_view(),
            final(self).tokens() == old(self).tokens(),
            final(self).same_input(old(self)),
            final(bindings).wf(),
            keeps_vars(old(bindings)@, final(bindings)@),
            signatures_distinct(old(bindings)@) ==> signatures_distinct(final(bindings)@),
            ({
                let (st, table, res) = p_file(old(self).tokens(), old(self).pool_view(), old(self).pstate(), model_of(old(bindings)@));
                final(self).pstate() == st && model_of(final(bindings)@) == table
                    && agrees(r, res, old(self).positions(), old(self).tagline())
            }),
    {
        proof {
            reveal(p_file);
        }
        if !self.eat(Token::KeyExtends) {
            return self.err("Expected 'extends' at top of file");
        }
        let base = match self.eat_id() {
            Some(b) => b,
            None => return self.err("Expected base type at top of file"),
        };
        if !self.eat(Token::KeyAs) {
            return self.err("Expected 'as' at top of file");
        }
        let own = match self.eat_id() {
            Some(o) => o,
            None => return self.err("Expected node type at top of file"),
        };
        self.namespace = Namespace::DynamicCall(own);
        self.context = Some(TypeName::Primitive(own));
        bindings.get_or_make_type(&self.pool, &TypeName::Primitive(own));
        let children = self.parse_children(bindings, Vec::new())?;
        Ok(Node::Tree(Tree { base_type: base, own_type: own, children: NodeList::from_vec(children) }))
    }
}

} // verus!
