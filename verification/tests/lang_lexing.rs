use dzemu::lang::lexer::Lexer;
use dzemu::lang::parser::Parser;
use dzemu::lang::pattern::rules::ReturnStatement;
use dzemu::lang::pattern::PatternRule;
use dzemu::lang::token::rules::{Identifier, Keyword, UInt};
use dzemu::lang::token::Token;
use dzemu::lang::token::TokenRule;

#[test]
fn next_char() {
    let mut lexer = Lexer::new("ACBD");

    assert_eq!(lexer.next_char(), Some('A'));

    lexer.skip(1);
    assert_eq!(lexer.next_char(), Some('C'));

    lexer.skip(2);
    assert_eq!(lexer.next_char(), Some('D'));

    lexer.skip(1);
    assert_eq!(lexer.next_char(), None);
}

#[test]
fn next_uint() {
    let mut lexer = Lexer::new("  101  1234     ABCD");

    let rule_bin = UInt::new(2);
    assert_eq!(lexer.next(rule_bin), Some(Token::UInt(0b101)));
    lexer.skip(1);

    let rule_dec = UInt::new(10);
    assert_eq!(lexer.next(rule_dec), Some(Token::UInt(1234)));
    lexer.skip(1);

    let rule_hex = UInt::new(16);
    assert_eq!(lexer.next(rule_hex), Some(Token::UInt(0xABCD)));
}

#[test]
fn skip() {
    let mut lexer = Lexer::new("ABCDEF");

    lexer.skip(2);
    assert_eq!(lexer.idx, 2);

    lexer.skip_if(&|c: char| c.is_numeric());
    assert_eq!(lexer.idx, 2);

    lexer.skip_if(&|c: char| c.is_alphanumeric());
    assert_eq!(lexer.idx, 3);

    lexer.skip_while(&|c| c == 'D' || c == 'E');
    assert_eq!(lexer.idx, 5);

    lexer.skip(1);
    assert_eq!(lexer.idx, 6);
}

#[test]
fn test() {
    let lexer = Lexer::new("A");

    assert!(lexer.test(&|c| c == 'A'));
    assert!(!lexer.test(&|_| false));
    assert!(lexer.test_eq('A'))
}

#[test]
fn peek() {
    let lexer = Lexer::new("ABCD");

    assert_eq!(lexer.peek(3), Some('D'));
    assert_eq!(lexer.peek(4), None);
}

#[test]
fn tokens() {
    let mut lexer = Lexer::new("def foo");
    let rule_fn = Keyword::new("def", Token::FnDecl);
    let rule_id = Identifier::new(vec!["def".to_string()]);

    assert_eq!(lexer.next(rule_fn), Some(Token::FnDecl));

    lexer.skip(1);
    assert_eq!(lexer.next(rule_id), Some(Token::Identifier("foo".to_string())));

    lexer.skip(1);
    let rule_fn = Keyword::new("def", Token::FnDecl);
    assert_eq!(lexer.next(rule_fn), None);
}

#[test]
fn tokenize() {
    let mut lexer = Lexer::new("");
    lexer.add_str("def foo(parameter)\n");
    lexer.add_str("    return parameter + 3\n");
    lexer.add_str("end\n");

    let keywords: Vec<String> = vec!["def".to_string(), "return".to_string(), "end".to_string()];

    lexer
        .add_rule(Identifier::new(keywords))
        .add_rule(Keyword::new("def", Token::FnDecl))
        .add_rule(Keyword::new("return", Token::Return))
        .add_rule(Keyword::new("end", Token::End))
        .add_rule(Keyword::new("(", Token::LParen))
        .add_rule(Keyword::new(")", Token::RParen))
        .add_rule(Keyword::new("+", Token::OpPlus))
        .add_rule(Keyword::new("\n", Token::NewLine))
        .add_rule(UInt::new(10));

    lexer.tokenize();

    let foo = "foo".to_string();
    let par = "parameter".to_string();

    println!("");
    println!("{:?}", lexer.tokens);
    let target = vec![
        Token::FnDecl,
        Token::Identifier(foo.clone()),
        Token::LParen,
        Token::Identifier(par.clone()),
        Token::RParen,
        Token::NewLine,
        Token::Return,
        Token::Identifier(par.clone()),
        Token::OpPlus,
        Token::UInt(3),
        Token::NewLine,
        Token::End,
        Token::NewLine,
    ];
    println!("{:?}", target);
    println!("");

    assert_eq!(lexer.tokens, target);
}

#[test]
fn a_word_rule_takes_its_word_over_and_over() {
    let mut rule = Keyword::build("ab", Token::Dot);
    assert!(!rule.valid());
    assert_eq!(rule.get(), None);
    assert!(rule.push_char('a'));
    assert!(!rule.push_char('a'));
    assert!(rule.push_char('b'));
    assert!(rule.valid());
    assert_eq!(rule.get(), Some(Token::Dot));
    // The pattern has grown by what was taken: the word goes on.
    assert!(rule.push_char('a'));
    assert!(!rule.valid());
    assert_eq!(rule.get(), None);
    rule.clear();
    assert!(!rule.valid());
    assert!(rule.push_char('a'));
    assert!(rule.push_char('b'));
    assert_eq!(rule.get(), Some(Token::Dot));
}

#[test]
fn a_word_rule_counts_bytes() {
    // The letter takes two bytes, so the second character is held
    // against the third of the pattern.
    let mut rule = Keyword::build("\u{e9}abc", Token::Dot);
    assert!(rule.push_char('\u{e9}'));
    assert!(!rule.push_char('a'));
    assert!(rule.push_char('b'));
}

#[test]
fn an_empty_word_is_no_token() {
    let mut rule = Keyword::build("", Token::Dot);
    assert!(rule.valid());
    assert_eq!(rule.get(), None);
    assert!(!rule.push_char('a'));
    let mut lexer = Lexer::new("ab");
    lexer.add_rule(Keyword::new("", Token::Dot));
    lexer.tokenize();
    assert_eq!(lexer.tokens, Vec::<Token>::new());
    assert_eq!(lexer.idx, 2);
}

#[test]
fn a_name_rule_leaves_reserved_words_alone() {
    let mut rule = Identifier::build(vec!["end".to_string()]);
    assert!(!rule.valid());
    for c in "end".chars() {
        assert!(rule.push_char(c));
    }
    assert!(!rule.valid());
    assert_eq!(rule.get(), None);
    assert!(rule.push_char('_'));
    assert!(rule.valid());
    assert_eq!(rule.get(), Some(Token::Identifier("end_".to_string())));
    assert!(!rule.push_char(' '));
    rule.clear();
    assert!(rule.push_char('1'));
    assert_eq!(rule.get(), None);
}

#[test]
fn a_number_rule() {
    let mut rule = UInt::build(16);
    assert!(!rule.valid());
    assert_eq!(rule.get(), None);
    assert!(rule.push_char('f'));
    assert!(rule.push_char('F'));
    assert!(!rule.push_char('g'));
    assert!(rule.valid());
    assert_eq!(rule.get(), Some(Token::UInt(255)));
    rule.clear();
    for c in "100000000".chars() {
        assert!(rule.push_char(c));
    }
    assert!(rule.valid());
    assert_eq!(rule.get(), None);

    let mut rule = UInt::build(1);
    assert!(rule.push_char('0'));
    assert!(rule.valid());
    assert_eq!(rule.get(), None);
    let mut rule = UInt::build(40);
    assert!(rule.push_char('z'));
    assert_eq!(rule.get(), None);
}

#[test]
fn tokens_are_copied() {
    let token = Token::Identifier("name".to_string());
    assert_eq!(token.copy(), token);
    assert_eq!(Token::UInt(7).copy(), Token::UInt(7));
    assert_eq!(Token::While.copy(), Token::While);
}

#[test]
fn rules_are_moved_into_the_lexer() {
    let mut lexer = Lexer::new("12 ab");
    let mut rules: Vec<Box<dyn TokenRule>> = vec![UInt::new(10), Identifier::new(Vec::new())];
    lexer.add_rules(&mut rules);
    assert_eq!(rules.len(), 0);
    assert_eq!(lexer.rules.len(), 2);
    lexer.tokenize();
    assert_eq!(lexer.tokens, vec![Token::UInt(12), Token::Identifier("ab".to_string())]);
    assert_eq!(lexer.idx, 5);
    // At the end of the text nothing more is found.
    lexer.tokenize();
    assert_eq!(lexer.tokens.len(), 3);
}

#[test]
fn a_return_statement_is_found() {
    let tokens = vec![Token::Return, Token::UInt(1), Token::NewLine, Token::End];
    let mut parser = Parser::new(tokens);
    parser.add_rule(ReturnStatement::new());
    // The third token completes the statement; one token is left.
    assert_eq!(parser.parse(), Some(3));
    assert_eq!(parser.parse(), None);
    assert_eq!(parser.parse(), None);
}

#[test]
fn what_is_no_return_statement() {
    let mut rule = ReturnStatement {};
    assert!(!rule.parse(&[]));
    assert!(!rule.parse(&[Token::Return]));
    assert!(!rule.parse(&[Token::NewLine]));
    assert!(!rule.parse(&[Token::End, Token::NewLine]));
    assert!(rule.parse(&[Token::Return, Token::NewLine]));
    assert!(rule.parse(&[Token::Return, Token::Identifier("x".to_string()), Token::NewLine]));
    let mut parser = Parser::new(vec![Token::Return, Token::End]);
    parser.add_rule(ReturnStatement::new());
    assert_eq!(parser.parse(), None);
    let mut parser = Parser::new(vec![Token::Return, Token::NewLine]);
    assert_eq!(parser.parse(), None);
}
