use ponyscript::lexer::{Lexer, Token};
use ponyscript::string_pool::StringPool;

#[test]
fn lex_id() {
    let sp = StringPool::new();
    let mut lexer = Lexer::from_str(sp, "  abc    hello    AlphaBET canhave12345 mix12and09");

    assert!(lexer.next().is_id_str(lexer.pool(), "abc"));
    assert!(lexer.next().is_id_str(lexer.pool(), "hello"));
    assert!(lexer.next().is_id_str(lexer.pool(), "AlphaBET"));
    assert!(lexer.next().is_id_str(lexer.pool(), "canhave12345"));
    assert!(lexer.next().is_id_str(lexer.pool(), "mix12and09"));
}

#[test]
fn lex_ascii_string_literal() {
    let sp = StringPool::new();
    let mut lexer = Lexer::from_str(sp, "    \"string literal\"   \"12__34__5\"    \"!@#$cvbn*()_=|\"   ");

    assert!(lexer.next().is_lit_str("string literal"));
    assert!(lexer.next().is_lit_str("12__34__5"));
    assert!(lexer.next().is_lit_str("!@#$cvbn*()_=|"));
}

#[test]
fn lex_lit_backspace() {
    let sp = StringPool::new();
    let mut lexer = Lexer::from_str(sp, "   \"\\n\\b\\c\\d\\\"asdf\\\"asdf\"");

    assert!(lexer.next().is_lit_str("\\n\\b\\c\\d\\\"asdf\\\"asdf"));
}

#[test]
fn lex_lit_no_end() {
    let sp = StringPool::new();
    let mut lexer = Lexer::from_str(sp, "    \"oops, no quote");

    assert!(lexer.next().is_bad());
}

#[test]
fn lex_num() {
    let sp = StringPool::new();
    let mut lexer = Lexer::from_str(sp, "10   30  20   1531897");

    assert!(lexer.next().is_num_str(lexer.pool(), "10"));
    assert!(lexer.next().is_num_str(lexer.pool(), "30"));
    assert!(lexer.next().is_num_str(lexer.pool(), "20"));
    assert!(lexer.next().is_num_str(lexer.pool(), "1531897"));
}

#[test]
fn lex_blocks() {
    let sp = StringPool::new();
    let mut lexer = Lexer::from_str(sp, "abc1\n\tabc2\n\t\tabc3");

    assert!(lexer.next().is_id_str(lexer.pool(), "abc1"));
    assert!(lexer.next().is_block_start());
    let next = lexer.next();
    assert!(next.is_id_str(lexer.pool(), "abc2"), "expected abc2 got {:?}", next);
    assert!(lexer.next().is_block_start());
    assert!(lexer.next().is_id_str(lexer.pool(), "abc3"));
    assert!(lexer.next().is_block_end());
    let next = lexer.next();
    assert!(next.is_block_end(), "expected [BlockEnd] got {:?}", next);
}

#[test]
fn lex_plus_minus_arrow() {
    let sp = StringPool::new();
    let mut lexer = Lexer::from_str(sp, "+ - ->");
    assert_eq!(lexer.next(), Token::Plus);
    assert_eq!(lexer.next(), Token::Minus);
    assert_eq!(lexer.next(), Token::RArrow);
}

#[test]
fn lex_keywords_and_eof() {
    let sp = StringPool::new();
    let mut lexer = Lexer::from_str(sp, "fun let extends as funny");
    assert_eq!(lexer.next(), Token::KeyFun);
    assert_eq!(lexer.next(), Token::KeyLet);
    assert_eq!(lexer.next(), Token::KeyExtends);
    assert_eq!(lexer.next(), Token::KeyAs);
    assert!(lexer.next().is_id_str(lexer.pool(), "funny"));
    assert!(lexer.next().is_eof());
    assert!(lexer.next().is_eof());
}

#[test]
fn lex_punctuation_and_comment() {
    let sp = StringPool::new();
    let mut lexer = Lexer::from_str(sp, "( ) [ ] : ? , = # a comment\nx");
    assert_eq!(lexer.next(), Token::LParen);
    assert_eq!(lexer.next(), Token::RParen);
    assert_eq!(lexer.next(), Token::LBracket);
    assert_eq!(lexer.next(), Token::RBracket);
    assert_eq!(lexer.next(), Token::Colon);
    assert_eq!(lexer.next(), Token::QuestionMark);
    assert_eq!(lexer.next(), Token::Comma);
    assert_eq!(lexer.next(), Token::Equals);
    assert!(lexer.next().is_id_str(lexer.pool(), "x"));
    assert!(lexer.next().is_eof());
}

#[test]
fn lex_unknown_byte_is_bad() {
    let sp = StringPool::new();
    let mut lexer = Lexer::from_str(sp, "%");
    assert!(lexer.next().is_bad());
    assert!(!Token::BadLex.is_something());
    assert!(Token::Comma.is_something());
}

#[test]
fn lex_error_position() {
    let sp = StringPool::new();
    let mut lexer = Lexer::from_str(sp, "ab\ncd");
    assert!(lexer.next().is_id_str(lexer.pool(), "ab"));
    assert!(lexer.next().is_id_str(lexer.pool(), "cd"));
    let e = lexer.err_msg("here");
    assert_eq!(e.line, 2);
    assert_eq!(e.tagline, b"[string]".to_vec());
    assert_eq!(e.message, "here");
}

#[test]
fn tokens_describe_themselves() {
    let sp = StringPool::new();
    let mut lexer = Lexer::from_str(sp, "abc 42 \"lit\" -> [");
    let id = lexer.next();
    assert_eq!(id.describe(lexer.pool()), b"[ID 'abc']".to_vec());
    let num = lexer.next();
    assert_eq!(num.describe(lexer.pool()), b"[Num '42']".to_vec());
    let lit = lexer.next();
    assert_eq!(lit.describe(lexer.pool()), b"[StringLiteral 'lit']".to_vec());
    assert_eq!(lexer.next().describe(lexer.pool()), b"[->]".to_vec());
    assert_eq!(lexer.next().describe(lexer.pool()), b"[[]".to_vec());
    assert_eq!(lexer.next().describe(lexer.pool()), b"[EOF]".to_vec());
    assert!(id.same(&Token::ID(match id { Token::ID(p) => p, _ => unreachable!() })));
    assert!(!id.same(&num));
}

#[test]
fn dedent_closes_each_level() {
    let sp = StringPool::new();
    let mut lexer = Lexer::from_str(sp, "a\n\t\tb\nc");
    assert!(lexer.next().is_id_str(lexer.pool(), "a"));
    assert!(lexer.next().is_block_start());
    assert!(lexer.next().is_block_start());
    assert!(lexer.next().is_id_str(lexer.pool(), "b"));
    assert!(lexer.next().is_block_end());
    assert!(lexer.next().is_block_end());
    assert!(lexer.next().is_id_str(lexer.pool(), "c"));
    assert!(lexer.next().is_eof());
}
