use dzemu::util::lexer::{digit_of, Lexer, Token, TokenRule};

#[test]
fn lexer_next_char() {
    let mut lexer = Lexer::new("ACBD");

    assert_eq!(lexer.next_char(), Some('A'));

    lexer.skip(1);
    assert_eq!(lexer.next_char(), Some('C'));

    lexer.skip(2);
    assert_eq!(lexer.next_char(), Some('D'));

    lexer.skip(1);
    assert_eq!(lexer.next_char(), None);
}

#[test]
fn next_str_dec() {
    let mut lexer = Lexer::new("1337 A3B0");
    let rule = TokenRule::Number(10);

    assert_eq!(lexer.next_str(&rule), Some("1337".to_string()));
    assert_eq!(lexer.next_str(&rule), None);
}

#[test]
fn next_str_hexa() {
    let mut lexer = Lexer::new("A3B0 hello");
    let rule = TokenRule::Number(16);

    assert_eq!(lexer.next_str(&rule), Some("A3B0".to_string()));
    assert_eq!(lexer.next_str(&rule), None);
}

#[test]
fn next_str_bin() {
    let mut lexer = Lexer::new("10123A");
    let rule = TokenRule::Number(2);

    assert_eq!(lexer.next_str(&rule), Some("101".to_string()));
    assert_eq!(lexer.next_str(&rule), None);
}

#[test]
fn next_token_num() {
    let mut lexer = Lexer::new("  101  1234     ABCD");

    let rule_bin = TokenRule::Number(2);
    assert_eq!(lexer.next_token(&rule_bin), Some(Token::Number(0b101)));
    lexer.skip(1);

    let rule_dec = TokenRule::Number(10);
    assert_eq!(lexer.next_token(&rule_dec), Some(Token::Number(1234)));
    lexer.skip(1);

    let rule_hex = TokenRule::Number(16);
    assert_eq!(lexer.next_token(&rule_hex), Some(Token::Number(0xABCD)));
}

#[test]
fn lexer_skip() {
    let mut lexer = Lexer::new("ABCDEFGHIJ");

    lexer.skip(2);
    assert_eq!(lexer.idx, 2);

    lexer.skip_if(&|c: char| c.is_numeric());
    assert_eq!(lexer.idx, 2);

    lexer.skip_if(&|c: char| c.is_alphanumeric());
    assert_eq!(lexer.idx, 3);

    lexer.skip_while(&|c: char| c == 'D' || c == 'E');
    assert_eq!(lexer.idx, 5);
}

#[test]
fn lexer_tokens() {
    let mut lexer = Lexer::new("def foo");
    let rule_def = TokenRule::Def;
    let rule_id = TokenRule::Identifier;

    assert_eq!(lexer.next_token(&rule_def), Some(Token::Def));

    lexer.skip(1);
    assert_eq!(lexer.next_token(&rule_id), Some(Token::Identifier("foo".to_string())));

    lexer.skip(1);
    assert_eq!(lexer.next_token(&rule_def), None);
}

#[test]
fn white_space_is_one_space() {
    let lexer = Lexer::new(" \t a  b\n\nc ");
    assert_eq!(lexer.chars, vec!['a', ' ', 'b', ' ', 'c']);
    assert_eq!(Lexer::new("").chars, Vec::<char>::new());
    assert_eq!(Lexer::new("  ").chars, Vec::<char>::new());
    assert_eq!(Lexer::new("x").chars, vec!['x']);
}

#[test]
fn digits_of_a_radix() {
    assert_eq!(digit_of('0'), Some(0));
    assert_eq!(digit_of('9'), Some(9));
    assert_eq!(digit_of('a'), Some(10));
    assert_eq!(digit_of('Z'), Some(35));
    assert_eq!(digit_of('_'), None);
    assert!(TokenRule::Number(16).is_valid_char('f'));
    assert!(!TokenRule::Number(16).is_valid_char('g'));
    assert!(TokenRule::Number(36).is_valid_char('z'));
    assert!(!TokenRule::Number(2).is_valid_char('2'));
    assert!(TokenRule::Def.is_valid_char('e'));
    assert!(!TokenRule::Def.is_valid_char('D'));
    assert!(TokenRule::Identifier.is_valid_char('_'));
    assert!(!TokenRule::Identifier.is_valid_char('-'));
}

#[test]
fn texts_that_are_tokens() {
    assert!(TokenRule::Def.is_valid_str("DeF"));
    assert!(!TokenRule::Def.is_valid_str("defs"));
    assert!(TokenRule::Identifier.is_valid_str("foo_1"));
    assert!(!TokenRule::Identifier.is_valid_str("1foo"));
    assert!(TokenRule::Number(10).is_valid_str("123"));
    assert!(TokenRule::Number(10).is_valid_str(""));
    assert!(!TokenRule::Number(10).is_valid_str("12a"));
    assert_eq!(TokenRule::Def.parse("DEF"), Some(Token::Def));
    assert_eq!(TokenRule::Def.parse("fed"), None);
    assert_eq!(TokenRule::Identifier.parse("x1"), Some(Token::Identifier("x1".to_string())));
    assert_eq!(TokenRule::Number(16).parse("ff"), Some(Token::Number(255)));
    assert_eq!(TokenRule::Number(36).parse("zz"), Some(Token::Number(35 * 36 + 35)));
}

#[test]
fn numbers_that_are_no_tokens() {
    assert_eq!(TokenRule::Number(10).parse(""), None);
    assert_eq!(TokenRule::Number(10).parse("4294967295"), Some(Token::Number(u32::MAX)));
    assert_eq!(TokenRule::Number(10).parse("4294967296"), None);
    assert_eq!(TokenRule::Number(16).parse("100000000"), None);
    assert_eq!(TokenRule::Number(2).parse("102"), None);
    assert_eq!(TokenRule::Number(1).parse("0"), None);
    assert_eq!(TokenRule::Number(0).parse(""), None);
    assert_eq!(TokenRule::Number(37).parse("1"), None);
}

#[test]
fn a_position_behind_the_text() {
    let mut lexer = Lexer::new("ab");
    lexer.skip(5);
    assert_eq!(lexer.next_char(), None);
    assert_eq!(lexer.next_str(&TokenRule::Identifier), None);
    assert_eq!(lexer.next_token(&TokenRule::Identifier), None);
    lexer.skip_if(&|_c: char| true);
    lexer.skip_while(&|_c: char| true);
    assert_eq!(lexer.idx, 5);
    lexer.skip(usize::MAX);
    assert_eq!(lexer.idx, 4);
}
