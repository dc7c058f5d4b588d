//! Tokens, and the constructors that the lexer uses.

use vstd::prelude::*;
use vstd::string::StringSliceAdditionalSpecFns;
use vstd::string::StrSliceExecFns;
use crate::string_pool::{PoolS, StringPool, bytes_equal, interned, pooled, pooled_text, push_bytes, push_str};

verus! {

#[derive(Debug, PartialEq, Eq)]
pub enum Token {
    ID(PoolS),
    StringLiteral(Vec<u8>),
    Num(PoolS),
    BlockStart,
    BlockEnd,
    LParen,
    RParen,
    Colon,
    Plus,
    Minus,
    Equals,
    RArrow,
    QuestionMark,
    LBracket,
    RBracket,
    Comma,
    KeyLet,
    KeyFun,
    KeyExtends,
    KeyAs,
    BadLex,
    EOF,
}

/// The keyword token that `bytes` spells, if it spells one.
pub open spec fn keyword(bytes: Seq<u8>) -> Option<Token> {
    if bytes == "fun".spec_bytes() {
        Some(Token::KeyFun)
    } else if bytes == "let".spec_bytes() {
        Some(Token::KeyLet)
    } else if bytes == "extends".spec_bytes() {
        Some(Token::KeyExtends)
    } else if bytes == "as".spec_bytes() {
        Some(Token::KeyAs)
    } else {
        None
    }
}

impl Token {
    pub fn is_eof(&self) -> (r: bool)
        ensures
            r == (*self is EOF),
    {
        matches!(self, Token::EOF)
    }

    pub fn is_bad(&self) -> (r: bool)
        ensures
            r == (*self is BadLex),
    {
        matches!(self, Token::BadLex)
    }

    /// Neither the end of input nor a lexing failure.
    pub fn is_something(&self) -> (r: bool)
        ensures
            r == !(*self is EOF || *self is BadLex),
    {
        !self.is_eof() && !self.is_bad()
    }

    #[allow(unused)]
    pub fn is_block_start(&self) -> (r: bool)
        ensures
            r == (*self is BlockStart),
    {
        matches!(self, Token::BlockStart)
    }

    #[allow(unused)]
    pub fn is_block_end(&self) -> (r: bool)
        ensures
            r == (*self is BlockEnd),
    {
        matches!(self, Token::BlockEnd)
    }

    /// Whether this is an identifier spelled `string` in `pool`.
    #[allow(unused)]
    pub fn is_id_str(&self, pool: &StringPool, string: &str) -> (r: bool)
        ensures
            r == (*self matches Token::ID(p) && pooled(pool.view(), p) == Some(string.spec_bytes())),
    {
        if let Token::ID(s) = self {
            s.eq_utf8(pool, string)
        } else {
            false
        }
    }

    /// Whether this is a number spelled `string` in `pool`.
    #[allow(unused)]
    pub fn is_num_str(&self, pool: &StringPool, string: &str) -> (r: bool)
        ensures
            r == (*self matches Token::Num(p) && pooled(pool.view(), p) == Some(string.spec_bytes())),
    {
        if let Token::Num(s) = self {
            s.eq_utf8(pool, string)
        } else {
            false
        }
    }

    /// Whether this is a string literal with the bytes of `string`.
    #[allow(unused)]
    pub fn is_lit_str(&self, string: &str) -> (r: bool)
        ensures
            r == (*self matches Token::StringLiteral(b) && b@ == string.spec_bytes()),
    {
        if let Token::StringLiteral(b) = self {
            bytes_equal(b, &string.as_bytes_vec())
        } else {
            false
        }
    }

    /// Whether two tokens are equal.
    pub fn same(&self, other: &Token) -> (r: bool)
        ensures
            r == (token_eq(*self, *other)),
    {
        match (self, other) {
            (Token::ID(a), Token::ID(b)) => a.value == b.value,
            (Token::Num(a), Token::Num(b)) => a.value == b.value,
            (Token::StringLiteral(a), Token::StringLiteral(b)) => bytes_equal(a, b),
            (Token::StringLiteral(_), _) => false,
            (_, Token::StringLiteral(_)) => false,
            (Token::ID(_), _) => false,
            (_, Token::ID(_)) => false,
            (Token::Num(_), _) => false,
            (_, Token::Num(_)) => false,
            _ => self.kind() == other.kind(),
        }
    }

    /// A number for each kind of token without contents.
    fn kind(&self) -> (r: u8)
        ensures
            r == kind_spec(*self),
    {
        match self {
            Token::ID(_) => 0,
            Token::StringLiteral(_) => 1,
            Token::Num(_) => 2,
            Token::BlockStart => 3,
            Token::BlockEnd => 4,
            Token::LParen => 5,
            Token::RParen => 6,
            Token::Colon => 7,
            Token::Plus => 8,
            Token::Minus => 9,
            Token::Equals => 10,
            Token::RArrow => 11,
            Token::QuestionMark => 12,
            Token::LBracket => 13,
            Token::RBracket => 14,
            Token::Comma => 15,
            Token::KeyLet => 16,
            Token::KeyFun => 17,
            Token::KeyExtends => 18,
            Token::KeyAs => 19,
            Token::BadLex => 20,
            Token::EOF => 21,
        }
    }
}

pub open spec fn kind_spec(t: Token) -> u8 {
    match t {
        Token::ID(_) => 0,
        Token::StringLiteral(_) => 1,
        Token::Num(_) => 2,
        Token::BlockStart => 3,
        Token::BlockEnd => 4,
        Token::LParen => 5,
        Token::RParen => 6,
        Token::Colon => 7,
        Token::Plus => 8,
        Token::Minus => 9,
        Token::Equals => 10,
        Token::RArrow => 11,
        Token::QuestionMark => 12,
        Token::LBracket => 13,
        Token::RBracket => 14,
        Token::Comma => 15,
        Token::KeyLet => 16,
        Token::KeyFun => 17,
        Token::KeyExtends => 18,
        Token::KeyAs => 19,
        Token::BadLex => 20,
        Token::EOF => 21,
    }
}

/// Token equality: the same kind, and for identifiers, numbers and literals the same contents.
pub open spec fn token_eq(a: Token, b: Token) -> bool {
    match (a, b) {
        (Token::ID(x), Token::ID(y)) => x == y,
        (Token::Num(x), Token::Num(y)) => x == y,
        (Token::StringLiteral(x), Token::StringLiteral(y)) => x@ == y@,
        _ => kind_spec(a) == kind_spec(b),
    }
}

pub fn eof() -> (r: Token)
    ensures
        r is EOF,
{
    Token::EOF
}

pub fn bad() -> (r: Token)
    ensures
        r is BadLex,
{
    Token::BadLex
}

/// An identifier token for `bytes`, interned in `pool`.
pub fn id(pool: &mut StringPool, bytes: Vec<u8>) -> (r: Token)
    requires
        old(pool).wf(),
    ensures
        final(pool).wf(),
        r matches Token::ID(p) && interned(old(pool).view(), final(pool).view(), bytes@, p),
{
    let id = pool.pool(bytes);
    Token::ID(id)
}

/// The keyword that `bytes` spells, or else an identifier token for it.
pub fn id_or_key(pool: &mut StringPool, bytes: Vec<u8>) -> (r: Token)
    requires
        old(pool).wf(),
    ensures
        final(pool).wf(),
        keyword(bytes@) matches Some(k) ==> r == k && final(pool).view() == old(pool).view(),
        keyword(bytes@) is None ==> (r matches Token::ID(p) && interned(old(pool).view(), final(pool).view(), bytes@, p)),
{
    if bytes_equal(&bytes, &"fun".as_bytes_vec()) {
        return Token::KeyFun;
    }
    if bytes_equal(&bytes, &"let".as_bytes_vec()) {
        return Token::KeyLet;
    }
    if bytes_equal(&bytes, &"extends".as_bytes_vec()) {
        return Token::KeyExtends;
    }
    if bytes_equal(&bytes, &"as".as_bytes_vec()) {
        return Token::KeyAs;
    }
    id(pool, bytes)
}

pub fn lit(bytes: Vec<u8>) -> (r: Token)
    ensures
        r == Token::StringLiteral(bytes),
{
    Token::StringLiteral(bytes)
}

/// A number token for the digits `bytes`, interned in `pool`.
pub fn num(pool: &mut StringPool, bytes: Vec<u8>) -> (r: Token)
    requires
        old(pool).wf(),
    ensures
        final(pool).wf(),
        r matches Token::Num(p) && interned(old(pool).view(), final(pool).view(), bytes@, p),
{
    let num = pool.pool(bytes);
    Token::Num(num)
}

/// The bracketed name under which a token without contents is shown.
pub open spec fn plain_token_text(t: Token) -> &'static str {
    match t {
        Token::EOF => "[EOF]",
        Token::BadLex => "[BadLex]",
        Token::BlockStart => "[BlockStart]",
        Token::BlockEnd => "[BlockEnd]",
        Token::LParen => "[(]",
        Token::RParen => "[)]",
        Token::Colon => "[:]",
        Token::KeyLet => "[KeyLet]",
        Token::KeyFun => "[KeyFun]",
        Token::KeyAs => "[KeyAs]",
        Token::KeyExtends => "[KeyExtends]",
        Token::Plus => "[+]",
        Token::QuestionMark => "[?]",
        Token::LBracket => "[[]",
        Token::RBracket => "[]]",
        Token::Equals => "[=]",
        Token::Comma => "[,]",
        Token::Minus => "[-]",
        Token::RArrow => "[->]",
        _ => "",
    }
}

/// How a token is shown in diagnostics: its kind in brackets, with its text for identifiers,
/// literals and numbers.
pub open spec fn token_text(pool: Seq<Seq<u8>>, t: Token) -> Seq<u8> {
    match t {
        Token::ID(p) => "[ID '".spec_bytes() + pooled_text(pool, p) + "']".spec_bytes(),
        Token::StringLiteral(b) => "[StringLiteral '".spec_bytes() + b@ + "']".spec_bytes(),
        Token::Num(p) => "[Num '".spec_bytes() + pooled_text(pool, p) + "']".spec_bytes(),
        _ => plain_token_text(t).spec_bytes(),
    }
}

impl Token {
    fn plain_text(&self) -> (r: &'static str)
        ensures
            r == plain_token_text(*self),
    {
        match self {
            Token::EOF => "[EOF]",
            Token::BadLex => "[BadLex]",
            Token::BlockStart => "[BlockStart]",
            Token::BlockEnd => "[BlockEnd]",
            Token::LParen => "[(]",
            Token::RParen => "[)]",
            Token::Colon => "[:]",
            Token::KeyLet => "[KeyLet]",
            Token::KeyFun => "[KeyFun]",
            Token::KeyAs => "[KeyAs]",
            Token::KeyExtends => "[KeyExtends]",
            Token::Plus => "[+]",
            Token::QuestionMark => "[?]",
            Token::LBracket => "[[]",
            Token::RBracket => "[]]",
            Token::Equals => "[=]",
            Token::Comma => "[,]",
            Token::Minus => "[-]",
            Token::RArrow => "[->]",
            _ => "",
        }
    }

    /// The token as shown in diagnostics.
    pub fn describe(&self, pool: &StringPool) -> (r: Vec<u8>)
        ensures
            r@ == token_text(pool.view(), *self),
    {
        let mut out: Vec<u8> = Vec::new();
        match self {
            Token::ID(p) => {
                push_str(&mut out, "[ID '");
                pool.write_pooled(*p, &mut out);
                push_str(&mut out, "']");
            },
            Token::StringLiteral(b) => {
                push_str(&mut out, "[StringLiteral '");
                push_bytes(&mut out, b);
                push_str(&mut out, "']");
            },
            Token::Num(p) => {
                push_str(&mut out, "[Num '");
                pool.write_pooled(*p, &mut out);
                push_str(&mut out, "']");
            },
            _ => push_str(&mut out, self.plain_text()),
        }
        assert(out@ =~= token_text(pool.view(), *self));
        out
    }
}

} // verus!
