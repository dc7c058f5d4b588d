//! The lexer: bytes to tokens, with blocks delimited by tab indentation.

use vstd::prelude::*;
use vstd::string::StrSliceExecFns;
use vstd::string::StringSliceAdditionalSpecFns;
use crate::error::ParseError;
use crate::string_pool::{StringPool, pooled, push_bytes};

pub mod predicates;
pub mod token;

pub use token::Token;

use predicates::{
    is_alpha, is_id_char, is_num, is_whitespace_but_newline, alpha_spec, digit_spec, id_char_spec,
    inline_whitespace_spec, BACKSLASH, CARRIAGE_RETURN, COLON, COMMA, EQUALS, GREATER, HASH,
    LEFT_BRACKET, LEFT_PAREN, MINUS, NEWLINE, PLUS, QUESTION, QUOTE, RIGHT_BRACKET, RIGHT_PAREN,
    SPACE, TAB,
};
use token::keyword;

verus! {

/// The byte classes that the lexer consumes runs of.
#[derive(Clone, Copy)]
enum CharClass {
    InlineWhitespace,
    Alpha,
    Num,
    IdChar,
}

spec fn class_spec(class: CharClass, c: u8) -> bool {
    match class {
        CharClass::InlineWhitespace => inline_whitespace_spec(c),
        CharClass::Alpha => alpha_spec(c),
        CharClass::Num => digit_spec(c),
        CharClass::IdChar => id_char_spec(c),
    }
}

fn class_holds(class: CharClass, byte: Option<u8>) -> (r: bool)
    ensures
        r == (byte matches Some(c) && class_spec(class, c)),
{
    match class {
        CharClass::InlineWhitespace => is_whitespace_but_newline(byte),
        CharClass::Alpha => is_alpha(byte),
        CharClass::Num => is_num(byte),
        CharClass::IdChar => is_id_char(byte),
    }
}

/// The spelling of an identifier: a letter, then letters, digits and underscores.
pub open spec fn is_identifier(b: Seq<u8>) -> bool {
    &&& b.len() > 0
    &&& alpha_spec(b[0])
    &&& forall|i: int| 1 <= i < b.len() ==> id_char_spec(#[trigger] b[i])
}

/// The spelling of a number: one or more digits.
pub open spec fn is_number(b: Seq<u8>) -> bool {
    &&& b.len() > 0
    &&& forall|i: int| 0 <= i < b.len() ==> digit_spec(#[trigger] b[i])
}

/// Whether the pool `after` keeps the strings of `before` under their handles.
pub open spec fn pool_extends(before: Seq<Seq<u8>>, after: Seq<Seq<u8>>) -> bool {
    &&& before.len() <= after.len()
    &&& forall|i: int| 0 <= i < before.len() ==> after[i] == before[i]
}

/// The lexer's position as a mathematical value: the input, the index of the next unread byte,
/// the byte looked at (not yet consumed), the line and column of that byte, the open and the
/// matched block levels, and whether indentation may open or close blocks.
pub ghost struct LexState {
    pub input: Seq<u8>,
    pub pos: nat,
    pub current: Option<u8>,
    pub line: nat,
    pub column: nat,
    pub block: nat,
    pub matched: nat,
    pub may_match: bool,
}

impl LexState {
    /// How many bytes, the current one included, are left.
    pub open spec fn remaining(self) -> nat {
        (if self.pos <= self.input.len() { (self.input.len() - self.pos) as nat } else { 0nat })
            + if self.current is Some { 1nat } else { 0nat }
    }

    /// Consumes the current byte: the next input byte becomes current, and the position moves
    /// to the next line after a newline.
    pub open spec fn advance(self) -> LexState {
        let (current, pos) = if self.pos < self.input.len() {
            (Some(self.input[self.pos as int]), self.pos + 1)
        } else {
            (None, self.pos)
        };
        let (line, column) = match self.current {
            Some(b) => if b == NEWLINE { (self.line + 1, 1nat) } else { (self.line, self.column + 1) },
            None => (self.line, self.column),
        };
        LexState { current, pos, line, column, ..self }
    }
}

/// Skips tabs, counting them onto `count`.
pub open spec fn skip_tabs(s: LexState, count: nat) -> (LexState, nat)
    decreases s.remaining(),
{
    if s.current == Some(TAB) {
        skip_tabs(s.advance(), count + 1)
    } else {
        (s, count)
    }
}

/// Skips blanks other than newlines.
pub open spec fn skip_blanks(s: LexState) -> LexState
    decreases s.remaining(),
{
    if s.current matches Some(c) && inline_whitespace_spec(c) {
        skip_blanks(s.advance())
    } else {
        s
    }
}

/// Skips to the end of the line.
pub open spec fn skip_line(s: LexState) -> LexState
    decreases s.remaining(),
{
    if s.current matches Some(c) && c != NEWLINE {
        skip_line(s.advance())
    } else {
        s
    }
}

/// Skips newlines and carriage returns.
pub open spec fn skip_newlines(s: LexState) -> LexState
    decreases s.remaining(),
{
    if s.current == Some(NEWLINE) || s.current == Some(CARRIAGE_RETURN) {
        skip_newlines(s.advance())
    } else {
        s
    }
}

/// Indentation, blanks and a comment; then either the end of the line (`None`: blocks may be
/// matched again, and blank lines are skipped) or the number of leading tabs.
pub open spec fn try_whitespace(s: LexState) -> (LexState, Option<nat>) {
    let (s1, level) = skip_tabs(s, 0);
    let s2 = skip_blanks(s1);
    let s3 = if s2.current == Some(HASH) { skip_line(s2.advance()) } else { s2 };
    if s3.current == Some(NEWLINE) {
        (skip_newlines(LexState { may_match: true, ..s3.advance() }), None)
    } else {
        (s3, Some(level))
    }
}

/// Whitespace up to the first line that has something on it; returns that line's indentation.
pub open spec fn whitespace(s: LexState) -> (LexState, nat)
    decreases s.remaining(),
{
    let (s1, r) = try_whitespace(s);
    match r {
        Some(level) => (s1, level),
        None => if s1.remaining() < s.remaining() { whitespace(s1) } else { (s1, 0) },
    }
}

/// Appends the longest run of digits (or, when `digits` is false, of identifier bytes).
pub open spec fn read_run(s: LexState, digits: bool, acc: Seq<u8>) -> (LexState, Seq<u8>)
    decreases s.remaining(),
{
    match s.current {
        Some(c) => if (if digits { digit_spec(c) } else { id_char_spec(c) }) {
            read_run(s.advance(), digits, acc.push(c))
        } else {
            (s, acc)
        },
        None => (s, acc),
    }
}

/// The bytes of a string literal up to its closing quote, which is not consumed. A backslash
/// takes the byte after it into the literal, whatever it is.
pub open spec fn read_literal(s: LexState, acc: Seq<u8>) -> (LexState, Seq<u8>)
    decreases s.remaining(),
{
    match s.current {
        Some(c) => if c != QUOTE {
            let s1 = s.advance();
            if c == BACKSLASH {
                match s1.current {
                    Some(d) => read_literal(s1.advance(), acc.push(c).push(d)),
                    None => read_literal(s1.advance(), acc.push(c)),
                }
            } else {
                read_literal(s1, acc.push(c))
            }
        } else {
            (s, acc)
        },
        None => (s, acc),
    }
}

/// One step of the open block level towards the matched one, if they differ.
pub open spec fn make_block(s: LexState) -> (LexState, Option<Token>) {
    if s.matched > s.block {
        (LexState { block: s.block + 1, ..s }, Some(Token::BlockStart))
    } else if s.matched < s.block {
        (LexState { block: (s.block - 1) as nat, ..s }, Some(Token::BlockEnd))
    } else {
        (s, None)
    }
}

/// What a token holds, with identifiers and numbers by their bytes.
pub ghost enum Lexeme {
    Ident(Seq<u8>),
    Number(Seq<u8>),
    Literal(Seq<u8>),
    Plain(Token),
}

/// The single-byte punctuation token that `c` spells, if any.
pub open spec fn punctuation(c: u8) -> Option<Token> {
    if c == LEFT_PAREN {
        Some(Token::LParen)
    } else if c == RIGHT_PAREN {
        Some(Token::RParen)
    } else if c == LEFT_BRACKET {
        Some(Token::LBracket)
    } else if c == RIGHT_BRACKET {
        Some(Token::RBracket)
    } else if c == COLON {
        Some(Token::Colon)
    } else if c == PLUS {
        Some(Token::Plus)
    } else if c == QUESTION {
        Some(Token::QuestionMark)
    } else if c == COMMA {
        Some(Token::Comma)
    } else if c == EQUALS {
        Some(Token::Equals)
    } else {
        None
    }
}

/// The token at a position where no block token is due.
pub open spec fn next_token(s: LexState) -> (LexState, Lexeme) {
    match s.current {
        None => if s.block > 0 {
            (LexState { block: (s.block - 1) as nat, matched: (s.matched - 1) as nat, ..s }, Lexeme::Plain(Token::BlockEnd))
        } else {
            (s, Lexeme::Plain(Token::EOF))
        },
        Some(c) => if alpha_spec(c) {
            let (s1, bytes) = read_run(s.advance(), false, seq![c]);
            (s1, match keyword(bytes) {
                Some(k) => Lexeme::Plain(k),
                None => Lexeme::Ident(bytes),
            })
        } else if digit_spec(c) {
            let (s1, bytes) = read_run(s.advance(), true, seq![c]);
            (s1, Lexeme::Number(bytes))
        } else if c == QUOTE {
            let (s1, bytes) = read_literal(s.advance(), Seq::empty());
            if s1.current == Some(QUOTE) {
                (s1.advance(), Lexeme::Literal(bytes))
            } else {
                (s1, Lexeme::Plain(Token::BadLex))
            }
        } else if punctuation(c) is Some {
            (s.advance(), Lexeme::Plain(punctuation(c).unwrap()))
        } else if c == MINUS {
            let s1 = s.advance();
            if s1.current == Some(GREATER) {
                (s1.advance(), Lexeme::Plain(Token::RArrow))
            } else {
                (s1, Lexeme::Plain(Token::Minus))
            }
        } else {
            (s, Lexeme::Plain(Token::BadLex))
        },
    }
}

/// One step of the lexer: a pending block token first; otherwise whitespace, then, after a
/// newline, a block token for the new indentation if it differs; otherwise the next token.
pub open spec fn lex_step(s: LexState) -> (LexState, Lexeme) {
    let (s0, b0) = make_block(s);
    if b0 is Some {
        (s0, Lexeme::Plain(b0.unwrap()))
    } else {
        let (s1, level) = whitespace(s);
        let s2 = LexState { may_match: false, ..s1 };
        let s3 = if s1.may_match { LexState { matched: level, ..s2 } } else { s2 };
        let (s4, b4) = make_block(s3);
        if s1.may_match && b4 is Some {
            (s4, Lexeme::Plain(b4.unwrap()))
        } else {
            next_token(s3)
        }
    }
}

/// Whether token `t`, with identifiers and numbers read in `pool`, holds lexeme `l`.
pub open spec fn token_holds(t: Token, pool: Seq<Seq<u8>>, l: Lexeme) -> bool {
    match l {
        Lexeme::Ident(b) => t matches Token::ID(p) && pooled(pool, p) == Some(b),
        Lexeme::Number(b) => t matches Token::Num(p) && pooled(pool, p) == Some(b),
        Lexeme::Literal(b) => t matches Token::StringLiteral(v) && v@ == b,
        Lexeme::Plain(k) => t == k,
    }
}

/// Turns source bytes into tokens. Indentation by tabs at the start of a line opens and closes
/// blocks: one `BlockStart` or `BlockEnd` per level of change.
pub struct Lexer {
    string_pool: StringPool,
    input: Vec<u8>,
    pos: usize,
    /// The byte that the lexer looks at, not yet consumed.
    current: Option<u8>,
    /// Names the source in error messages.
    current_tagline: Vec<u8>,
    current_line: usize,
    current_column: usize,
    block_level: usize,
    matched_block_level: usize,
    /// Only after a newline may indentation open or close blocks.
    may_match_blocks: bool,
}

impl Lexer {
    pub closed spec fn pool_view(&self) -> Seq<Seq<u8>> {
        self.string_pool.view()
    }

    /// The position of the lexer.
    pub closed spec fn state(&self) -> LexState {
        LexState {
            input: self.input@,
            pos: self.pos as nat,
            current: self.current,
            line: self.current_line as nat,
            column: self.current_column as nat,
            block: self.block_level as nat,
            matched: self.matched_block_level as nat,
            may_match: self.may_match_blocks,
        }
    }

    /// The name of the source in error messages.
    pub closed spec fn tagline(&self) -> Seq<u8> {
        self.current_tagline@
    }

    /// The line of the current byte, counted from 1.
    pub closed spec fn line(&self) -> usize {
        self.current_line
    }

    /// The column of the current byte, counted from 1.
    pub closed spec fn column(&self) -> usize {
        self.current_column
    }

    /// How many bytes, the current one included, are left.
    pub closed spec fn remaining(&self) -> nat {
        self.state().remaining()
    }

    /// How many blocks are open.
    pub closed spec fn depth(&self) -> nat {
        self.block_level as nat
    }

    /// The whole input is consumed and every block is closed.
    pub closed spec fn finished(&self) -> bool {
        self.remaining() == 0 && self.block_level == 0 && self.matched_block_level == 0
    }

    /// Decreases with every token but the end of input and a lexing failure.
    pub closed spec fn measure(&self) -> nat {
        3 * self.remaining() + 2 * (if self.matched_block_level > self.block_level {
            (self.matched_block_level - self.block_level) as nat
        } else {
            0nat
        }) + self.block_level as nat
    }

    closed spec fn consumed(&self) -> nat {
        self.pos as nat + if self.current is None { 1nat } else { 0nat }
    }

    pub closed spec fn wf(&self) -> bool {
        &&& self.string_pool.wf()
        &&& self.pos <= self.input@.len()
        &&& self.current is None ==> self.pos == self.input@.len()
        &&& self.input@.len() + 4 <= usize::MAX
        &&& 1 <= self.current_line
        &&& 1 <= self.current_column
        &&& self.current_line + self.current_column <= self.consumed() + 2
    }

    /// Everything but the position in the input is as in `other`.
    closed spec fn same_but_cursor(&self, other: &Lexer) -> bool {
        &&& self.string_pool == other.string_pool
        &&& self.input == other.input
        &&& self.current_tagline == other.current_tagline
        &&& self.block_level == other.block_level
        &&& self.matched_block_level == other.matched_block_level
        &&& self.may_match_blocks == other.may_match_blocks
    }

    /// A lexer over `source`, named `tagline` in error messages, interning into `pool`. It starts
    /// on a blank before the first byte, at line 1 and column 1, where indentation may open
    /// blocks.
    pub fn new(pool: StringPool, tagline: Vec<u8>, source: Vec<u8>) -> (r: Lexer)
        requires
            pool.wf(),
            source@.len() + 4 <= usize::MAX,
        ensures
            r.wf(),
            r.pool_view() == pool.view(),
            !r.finished(),
            r.depth() == 0,
            r.state() == (LexState {
                input: source@,
                pos: 0,
                current: Some(SPACE),
                line: 1,
                column: 1,
                block: 0,
                matched: 0,
                may_match: true,
            }),
            r.tagline() == tagline@,
    {
        Lexer {
            string_pool: pool,
            input: source,
            pos: 0,
            current: Some(SPACE),
            current_tagline: tagline,
            current_line: 1,
            current_column: 1,
            block_level: 0,
            matched_block_level: 0,
            may_match_blocks: true,
        }
    }

    /// A lexer over the bytes of `string`.
    #[allow(unused)]
    pub fn from_str(pool: StringPool, string: &str) -> (r: Lexer)
        requires
            pool.wf(),
            string.spec_bytes().len() + 4 <= usize::MAX,
        ensures
            r.wf(),
            r.pool_view() == pool.view(),
            r.state() == (LexState {
                input: string.spec_bytes(),
                pos: 0,
                current: Some(SPACE),
                line: 1,
                column: 1,
                block: 0,
                matched: 0,
                may_match: true,
            }),
            r.tagline() == "[string]".spec_bytes(),
    {
        Lexer::new(pool, "[string]".as_bytes_vec(), string.as_bytes_vec())
    }

    /// The pool that identifiers and numbers are interned in.
    pub fn pool(&self) -> (r: &StringPool)
        ensures
            r.view() == self.pool_view(),
            self.wf() ==> r.wf(),
    {
        &self.string_pool
    }

    /// Ends lexing and hands the pool back.
    pub fn into_pool(self) -> (r: StringPool)
        ensures
            r.view() == self.pool_view(),
            self.wf() ==> r.wf(),
    {
        self.string_pool
    }

    /// The line and the column of the current byte.
    pub fn position(&self) -> (r: (usize, usize))
        ensures
            r == (self.line(), self.column()),
    {
        (self.current_line, self.current_column)
    }

    /// A copy of the name of the source.
    pub fn tagline_copy(&self) -> (r: Vec<u8>)
        ensures
            r@ == self.tagline(),
    {
        let mut r: Vec<u8> = Vec::new();
        push_bytes(&mut r, &self.current_tagline);
        r
    }

    /// An error at the current position.
    pub fn err_msg(&self, message: &'static str) -> (r: ParseError)
        ensures
            r.tagline@ == self.tagline(),
            r.line == self.line(),
            r.column == self.column(),
            r.message == message,
    {
        ParseError {
            tagline: self.current_tagline.clone(),
            line: self.current_line,
            column: self.current_column,
            message,
        }
    }

    fn peek(&self) -> (r: Option<u8>)
        ensures
            r == self.current,
    {
        self.current
    }

    /// Consumes the current byte and returns it.
    fn advance(&mut self) -> (r: Option<u8>)
        requires
            old(self).wf(),
        ensures
            final(self).state() == old(self).state().advance(),
            final(self).wf(),
            final(self).same_but_cursor(old(self)),
            r == old(self).current,
            r is Some ==> final(self).remaining() + 1 == old(self).remaining(),
            r is None ==> final(self).remaining() == old(self).remaining(),
    {
        let result = self.current;
        if self.pos < self.input.len() {
            self.current = Some(self.input[self.pos]);
            self.pos = self.pos + 1;
        } else {
            self.current = None;
        }
        if let Some(byte) = result {
            if byte == NEWLINE {
                self.current_line = self.current_line + 1;
                self.current_column = 1;
            } else {
                self.current_column = self.current_column + 1;
            }
        }
        result
    }

    /// Consumes the current byte if it is `character`.
    fn match_one(&mut self, character: u8) -> (r: bool)
        requires
            old(self).wf(),
        ensures
            final(self).state() == if old(self).current == Some(character) { old(self).state().advance() } else { old(self).state() },
            final(self).wf(),
            final(self).same_but_cursor(old(self)),
            r == (old(self).current == Some(character)),
            r ==> final(self).remaining() + 1 == old(self).remaining(),
            !r ==> *final(self) == *old(self),
    {
        if self.peek() == Some(character) {
            self.advance();
            return true;
        }
        false
    }

    /// Consumes and returns the current byte unless it is `character` or the input has ended.
    fn match_not(&mut self, character: u8) -> (r: Option<u8>)
        requires
            old(self).wf(),
        ensures
            final(self).state() == if old(self).current matches Some(c) && c != character { old(self).state().advance() } else { old(self).state() },
            final(self).wf(),
            final(self).same_but_cursor(old(self)),
            r is Some ==> r == old(self).current && r != Some(character)
                && final(self).remaining() + 1 == old(self).remaining(),
            r is None ==> *final(self) == *old(self),
    {
        match self.peek() {
            Some(c) => if c != character {
                self.advance()
            } else {
                None
            },
            None => None,
        }
    }

    /// Consumes and returns the current byte if it is in `class`.
    fn match_fn(&mut self, class: CharClass) -> (r: Option<u8>)
        requires
            old(self).wf(),
        ensures
            final(self).state() == if old(self).current matches Some(c) && class_spec(class, c) { old(self).state().advance() } else { old(self).state() },
            r == if old(self).current matches Some(c) && class_spec(class, c) { old(self).current } else { None },
            final(self).wf(),
            final(self).same_but_cursor(old(self)),
            r matches Some(c) ==> class_spec(class, c) && final(self).remaining() + 1 == old(self).remaining(),
            r is None ==> *final(self) == *old(self),
    {
        if class_holds(class, self.peek()) {
            self.advance()
        } else {
            None
        }
    }

    fn match_to_vec(&mut self, class: CharClass) -> (r: Option<Vec<u8>>)
        requires
            old(self).wf(),
        ensures
            final(self).state() == if old(self).current matches Some(c) && class_spec(class, c) { old(self).state().advance() } else { old(self).state() },
            r matches Some(v) ==> old(self).current == Some(v@[0]),
            final(self).wf(),
            final(self).same_but_cursor(old(self)),
            r matches Some(v) ==> v@.len() == 1 && class_spec(class, v@[0])
                && final(self).remaining() + 1 == old(self).remaining(),
            r is None ==> *final(self) == *old(self),
    {
        match self.match_fn(class) {
            Some(byte) => Some(vec![byte]),
            None => None,
        }
    }

    /// Consumes the longest run of bytes in `class` and appends it to `vector`.
    fn match_onto_vec(&mut self, vector: &mut Vec<u8>, class: CharClass)
        requires
            old(self).wf(),
            class is Num || class is IdChar,
        ensures
            (final(self).state(), final(vector)@) == read_run(old(self).state(), class is Num, old(vector)@),
            final(self).wf(),
            final(self).same_but_cursor(old(self)),
            final(self).remaining() <= old(self).remaining(),
            final(vector)@.len() >= old(vector)@.len(),
            final(vector)@.take(old(vector)@.len() as int) == old(vector)@,
            forall|i: int| old(vector)@.len() <= i < final(vector)@.len() ==> class_spec(class, #[trigger] final(vector)@[i]),
    {
        let ghost start = *self;
        loop
            invariant
                self.wf(),
                self.same_but_cursor(&start),
                self.remaining() <= start.remaining(),
                vector@.len() >= old(vector)@.len(),
                vector@.take(old(vector)@.len() as int) == old(vector)@,
                forall|i: int| old(vector)@.len() <= i < vector@.len() ==> class_spec(class, #[trigger] vector@[i]),
                class is Num || class is IdChar,
                read_run(start.state(), class is Num, old(vector)@) == read_run(self.state(), class is Num, vector@),
            ensures
                self.wf(),
                self.same_but_cursor(&start),
                self.remaining() <= start.remaining(),
                vector@.len() >= old(vector)@.len(),
                vector@.take(old(vector)@.len() as int) == old(vector)@,
                forall|i: int| old(vector)@.len() <= i < vector@.len() ==> class_spec(class, #[trigger] vector@[i]),
                read_run(start.state(), class is Num, old(vector)@) == (self.state(), vector@),
            decreases self.remaining(),
        {
            match self.match_fn(class) {
                Some(byte) => {
                    let ghost before = vector@;
                    vector.push(byte);
                    assert(vector@.take(old(vector)@.len() as int) =~= before.take(old(vector)@.len() as int));
                },
                None => break,
            }
        }
    }
}

impl Lexer {
    /// Consumes the indentation, blanks and a comment at the current position. Returns the
    /// number of leading tabs, or `None` when a line ended (then blocks may be matched again).
    fn try_match_whitespace(&mut self) -> (r: Option<usize>)
        requires
            old(self).wf(),
        ensures
            final(self).state() == try_whitespace(old(self).state()).0,
            r matches Some(level) ==> try_whitespace(old(self).state()).1 == Some(level as nat),
            r is None ==> try_whitespace(old(self).state()).1 is None,
            final(self).wf(),
            final(self).string_pool == old(self).string_pool,
            final(self).block_level == old(self).block_level,
            final(self).matched_block_level == old(self).matched_block_level,
            final(self).remaining() <= old(self).remaining(),
            r matches Some(level) ==> level <= old(self).remaining() - final(self).remaining()
                && final(self).may_match_blocks == old(self).may_match_blocks,
            r is None ==> final(self).remaining() < old(self).remaining() && final(self).may_match_blocks,
    {
        let ghost start = *self;
        let mut block_level: usize = 0;
        assert(start.remaining() <= start.input@.len() + 1);
        loop
            invariant
                self.wf(),
                self.same_but_cursor(&start),
                start.remaining() <= start.input@.len() + 1,
                start.input@.len() + 4 <= usize::MAX,
                self.remaining() + block_level <= start.remaining(),
                skip_tabs(start.state(), 0) == skip_tabs(self.state(), block_level as nat),
            ensures
                self.wf(),
                self.same_but_cursor(&start),
                start.remaining() <= start.input@.len() + 1,
                self.remaining() + block_level <= start.remaining(),
                skip_tabs(start.state(), 0) == (self.state(), block_level as nat),
            decreases self.remaining(),
        {
            if !self.match_one(TAB) {
                break;
            }
            block_level = block_level + 1;
        }
        let ghost s1 = self.state();
        assert(skip_tabs(start.state(), 0) == (s1, block_level as nat));
        loop
            invariant
                self.wf(),
                self.same_but_cursor(&start),
                self.remaining() + block_level <= start.remaining(),
                skip_blanks(s1) == skip_blanks(self.state()),
            ensures
                self.wf(),
                self.same_but_cursor(&start),
                self.remaining() + block_level <= start.remaining(),
                skip_blanks(s1) == self.state(),
            decreases self.remaining(),
        {
            if self.match_fn(CharClass::InlineWhitespace).is_none() {
                break;
            }
        }
        let ghost s2 = self.state();
        assert(skip_blanks(s1) == s2);
        // A comment runs to the end of the line.
        if self.match_one(HASH) {
            loop
                invariant
                    self.wf(),
                    self.same_but_cursor(&start),
                    self.remaining() + block_level <= start.remaining(),
                    skip_line(s2.advance()) == skip_line(self.state()),
                ensures
                    self.wf(),
                    self.same_but_cursor(&start),
                    self.remaining() + block_level <= start.remaining(),
                    skip_line(s2.advance()) == self.state(),
                decreases self.remaining(),
            {
                match self.peek() {
                    Some(c) => if c != NEWLINE {
                        self.advance();
                    } else {
                        break;
                    },
                    None => break,
                }
            }
        }
        let ghost s3 = self.state();
        assert(s3 == (if s2.current == Some(HASH) { skip_line(s2.advance()) } else { s2 }));
        if self.match_one(NEWLINE) {
            self.may_match_blocks = true;
            let ghost s4 = self.state();
            assert(s4 == LexState { may_match: true, ..s3.advance() });
            loop
                invariant
                    self.wf(),
                    skip_newlines(s4) == skip_newlines(self.state()),
                    self.remaining() < start.remaining(),
                    self.string_pool == start.string_pool,
                    self.block_level == start.block_level,
                    self.matched_block_level == start.matched_block_level,
                    self.may_match_blocks,
                ensures
                    self.wf(),
                    skip_newlines(s4) == self.state(),
                    self.remaining() < start.remaining(),
                    self.string_pool == start.string_pool,
                    self.block_level == start.block_level,
                    self.matched_block_level == start.matched_block_level,
                    self.may_match_blocks,
                decreases self.remaining(),
            {
                if !(self.match_one(NEWLINE) || self.match_one(CARRIAGE_RETURN)) {
                    break;
                }
            }
            return None;
        }
        Some(block_level)
    }

    /// Consumes whitespace and blank lines; returns the indentation of the line reached.
    fn match_whitespace(&mut self) -> (r: usize)
        requires
            old(self).wf(),
        ensures
            (final(self).state(), r as nat) == whitespace(old(self).state()),
            final(self).wf(),
            final(self).string_pool == old(self).string_pool,
            final(self).block_level == old(self).block_level,
            final(self).matched_block_level == old(self).matched_block_level,
            r <= old(self).remaining() - final(self).remaining(),
            final(self).remaining() <= old(self).remaining(),
            old(self).may_match_blocks ==> final(self).may_match_blocks,
    {
        loop
            invariant
                self.wf(),
                self.string_pool == old(self).string_pool,
                self.block_level == old(self).block_level,
                self.matched_block_level == old(self).matched_block_level,
                self.remaining() <= old(self).remaining(),
                old(self).may_match_blocks ==> self.may_match_blocks,
                whitespace(old(self).state()) == whitespace(self.state()),
            decreases self.remaining(),
        {
            let next = self.try_match_whitespace();
            if let Some(block_level) = next {
                return block_level;
            }
        }
    }

    /// One step of the current block level towards the indentation matched last.
    fn make_block_token(&mut self) -> (r: Option<Token>)
        requires
            old(self).wf(),
        ensures
            (final(self).state(), r) == make_block(old(self).state()),
            final(self).wf(),
            final(self).string_pool == old(self).string_pool,
            final(self).remaining() == old(self).remaining(),
            r matches Some(t) ==> (t is BlockStart || t is BlockEnd) && final(self).measure() < old(self).measure(),
            r matches Some(Token::BlockStart) ==> final(self).block_level == old(self).block_level + 1,
            r matches Some(Token::BlockEnd) ==> final(self).block_level + 1 == old(self).block_level,
            r is None ==> *final(self) == *old(self) && old(self).matched_block_level == old(self).block_level,
    {
        if self.matched_block_level > self.block_level {
            self.block_level = self.block_level + 1;
            return Some(Token::BlockStart);
        } else if self.matched_block_level < self.block_level {
            self.block_level = self.block_level - 1;
            return Some(Token::BlockEnd);
        }
        None
    }

    /// The next token. Indentation changes come first, one level per token; at the end of
    /// input, open blocks are closed before `EOF` is returned, and `EOF` is returned from then on.
    pub fn next(&mut self) -> (r: Token)
        requires
            old(self).wf(),
        ensures
            final(self).state() == lex_step(old(self).state()).0,
            token_holds(r, final(self).pool_view(), lex_step(old(self).state()).1),
            final(self).wf(),
            pool_extends(old(self).pool_view(), final(self).pool_view()),
            final(self).measure() <= old(self).measure(),
            !(r is EOF || r is BadLex) ==> final(self).measure() < old(self).measure(),
            r matches Token::ID(p) ==> (pooled(final(self).pool_view(), p) matches Some(b)
                && is_identifier(b) && keyword(b) is None),
            r matches Token::Num(p) ==> (pooled(final(self).pool_view(), p) matches Some(b) && is_number(b)),
            r is EOF ==> final(self).finished(),
            old(self).finished() ==> r is EOF && final(self).finished(),
            r is BlockStart ==> final(self).depth() == old(self).depth() + 1,
            r is BlockEnd ==> final(self).depth() + 1 == old(self).depth(),
            !(r is BlockStart || r is BlockEnd) ==> final(self).depth() == old(self).depth(),
    {
        if let Some(block) = self.make_block_token() {
            return block;
        }
        let ghost s0 = *self;
        let new_block_level = self.match_whitespace();
        let may_match_blocks = self.may_match_blocks;
        self.may_match_blocks = false;
        if may_match_blocks {
            self.matched_block_level = new_block_level;
            assert(self.measure() <= s0.measure());
            if let Some(block) = self.make_block_token() {
                return block;
            }
        }
        assert(self.measure() <= s0.measure());
        assert(self.matched_block_level == self.block_level);
        self.read_token()
    }

    /// The token at the current byte, once no block token is due.
    fn read_token(&mut self) -> (r: Token)
        requires
            old(self).wf(),
            old(self).matched_block_level == old(self).block_level,
        ensures
            final(self).state() == next_token(old(self).state()).0,
            token_holds(r, final(self).pool_view(), next_token(old(self).state()).1),
            final(self).wf(),
            pool_extends(old(self).pool_view(), final(self).pool_view()),
            final(self).measure() <= old(self).measure(),
            !(r is EOF || r is BadLex) ==> final(self).measure() < old(self).measure(),
            r matches Token::ID(p) ==> (pooled(final(self).pool_view(), p) matches Some(b)
                && is_identifier(b) && keyword(b) is None),
            r matches Token::Num(p) ==> (pooled(final(self).pool_view(), p) matches Some(b) && is_number(b)),
            r is EOF ==> final(self).finished(),
            r is BlockStart ==> final(self).depth() == old(self).depth() + 1,
            r is BlockEnd ==> final(self).depth() + 1 == old(self).depth(),
            !(r is BlockStart || r is BlockEnd) ==> final(self).depth() == old(self).depth(),
    {
        if self.peek().is_none() {
            if self.block_level > 0 {
                self.block_level = self.block_level - 1;
                self.matched_block_level = self.matched_block_level - 1;
                return Token::BlockEnd;
            }
            return token::eof();
        }
        let ghost c = self.current.unwrap();
        let ghost s_old = self.state();
        if let Some(mut id) = self.match_to_vec(CharClass::Alpha) {
            assert(alpha_spec(c));
            assert(id@ =~= seq![c]);
            self.match_onto_vec(&mut id, CharClass::IdChar);
            assert((self.state(), id@) == read_run(s_old.advance(), false, seq![c]));
            let ghost b = id@;
            proof {
                assert(is_identifier(b)) by {
                    assert forall|i: int| 1 <= i < b.len() implies id_char_spec(#[trigger] b[i]) by {}
                }
            }
            let t = token::id_or_key(&mut self.string_pool, id);
            return t;
        }
        if let Some(mut num) = self.match_to_vec(CharClass::Num) {
            assert(!alpha_spec(c) && digit_spec(c));
            assert(num@ =~= seq![c]);
            self.match_onto_vec(&mut num, CharClass::Num);
            assert((self.state(), num@) == read_run(s_old.advance(), true, seq![c]));
            let ghost b = num@;
            proof {
                assert(is_number(b)) by {
                    assert forall|i: int| 0 <= i < b.len() implies digit_spec(#[trigger] b[i]) by {
                        if i > 0 {}
                    }
                }
            }
            return token::num(&mut self.string_pool, num);
        }
        if self.peek() == Some(QUOTE) {
            return self.read_string_literal();
        }
        self.read_punctuation()
    }

    /// A string literal; the current byte is its opening quote.
    fn read_string_literal(&mut self) -> (r: Token)
        requires
            old(self).wf(),
            old(self).current == Some(QUOTE),
        ensures
            ({
                let (s1, bytes) = read_literal(old(self).state().advance(), Seq::empty());
                if s1.current == Some(QUOTE) {
                    final(self).state() == s1.advance() && (r matches Token::StringLiteral(v) && v@ == bytes)
                } else {
                    final(self).state() == s1 && r is BadLex
                }
            }),
            final(self).wf(),
            final(self).string_pool == old(self).string_pool,
            final(self).block_level == old(self).block_level,
            final(self).matched_block_level == old(self).matched_block_level,
            final(self).remaining() < old(self).remaining(),
    {
        self.match_one(QUOTE);
        let ghost start = self.state();
        let mut result: Vec<u8> = Vec::new();
        loop
            invariant
                self.wf(),
                self.string_pool == old(self).string_pool,
                self.block_level == old(self).block_level,
                self.matched_block_level == old(self).matched_block_level,
                self.remaining() < old(self).remaining(),
                read_literal(start, Seq::empty()) == read_literal(self.state(), result@),
            ensures
                self.wf(),
                self.string_pool == old(self).string_pool,
                self.block_level == old(self).block_level,
                self.matched_block_level == old(self).matched_block_level,
                self.remaining() < old(self).remaining(),
                read_literal(start, Seq::empty()) == (self.state(), result@),
            decreases self.remaining(),
        {
            match self.match_not(QUOTE) {
                Some(next) => {
                    result.push(next);
                    if next == BACKSLASH {
                        // The byte after a backslash belongs to the literal, whatever it is.
                        if let Some(c) = self.advance() {
                            result.push(c);
                        }
                    }
                },
                None => break,
            }
        }
        if !self.match_one(QUOTE) {
            return token::bad();
        }
        token::lit(result)
    }

    /// A punctuation token, or a lexing failure for a byte that starts no token.
    fn read_punctuation(&mut self) -> (r: Token)
        requires
            old(self).wf(),
            old(self).current matches Some(c) && !alpha_spec(c) && !digit_spec(c) && c != QUOTE,
        ensures
            (final(self).state(), Lexeme::Plain(r)) == next_token(old(self).state()),
            final(self).wf(),
            final(self).string_pool == old(self).string_pool,
            final(self).block_level == old(self).block_level,
            final(self).matched_block_level == old(self).matched_block_level,
            !(r is BadLex) ==> final(self).remaining() < old(self).remaining(),
            r is BadLex ==> final(self).remaining() <= old(self).remaining(),
            !(r is EOF || r is BlockStart || r is BlockEnd || r is ID || r is Num),
    {
        if self.match_one(LEFT_PAREN) {
            return Token::LParen;
        }
        if self.match_one(RIGHT_PAREN) {
            return Token::RParen;
        }
        if self.match_one(LEFT_BRACKET) {
            return Token::LBracket;
        }
        if self.match_one(RIGHT_BRACKET) {
            return Token::RBracket;
        }
        if self.match_one(COLON) {
            return Token::Colon;
        }
        if self.match_one(PLUS) {
            return Token::Plus;
        }
        if self.match_one(QUESTION) {
            return Token::QuestionMark;
        }
        if self.match_one(COMMA) {
            return Token::Comma;
        }
        if self.match_one(EQUALS) {
            return Token::Equals;
        }
        if self.match_one(MINUS) {
            if self.match_one(GREATER) {
                return Token::RArrow;
            }
            return Token::Minus;
        }
        token::bad()
    }
}

/// The lexer's position after `k` steps from `s`.
pub open spec fn lex_run(s: LexState, k: nat) -> LexState
    decreases k,
{
    if k == 0 { s } else { lex_step(lex_run(s, (k - 1) as nat)).0 }
}

/// The `k`-th lexeme read from `s`, counting from 0.
pub open spec fn lexeme_at(s: LexState, k: nat) -> Lexeme {
    lex_step(lex_run(s, k)).1
}

/// Whether `toks` are the tokens read from `s`, with identifiers and numbers in `pool`, up to and
/// including the first end of input or lexing failure.
pub open spec fn lexed(toks: Seq<Token>, pool: Seq<Seq<u8>>, s: LexState) -> bool {
    &&& toks.len() >= 1
    &&& forall|k: int| 0 <= k < toks.len() ==> token_holds(#[trigger] toks[k], pool, lexeme_at(s, k as nat))
    &&& forall|k: int| 0 <= k < toks.len() - 1 ==> !(#[trigger] toks[k] is EOF || toks[k] is BadLex)
    &&& toks.last() is EOF || toks.last() is BadLex
}

/// The position at which a lexer starts on `input`.
pub open spec fn start_state(input: Seq<u8>) -> LexState {
    LexState {
        input,
        pos: 0,
        current: Some(SPACE),
        line: 1,
        column: 1,
        block: 0,
        matched: 0,
        may_match: true,
    }
}

/// A token read against a pool still holds its lexeme against a larger pool.
pub proof fn lemma_token_holds_extends(t: Token, before: Seq<Seq<u8>>, after: Seq<Seq<u8>>, l: Lexeme)
    requires
        token_holds(t, before, l),
        pool_extends(before, after),
    ensures
        token_holds(t, after, l),
{
}

} // verus!
