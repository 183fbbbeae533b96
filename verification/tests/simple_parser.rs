use tinydb::tokenizer::simple_parser::SimpleParser;
use tinydb::tokenizer::Token;
use tinydb::tokenizer::TokenParser;

#[test]
fn match_create() {
    let parser = SimpleParser::new(String::from("create"), Token::Create);

    let test1 = "create EGGS";
    let test2 = "CREATE something";
    let test3 = "CREATE";

    assert_eq!(Some(Token::Create), parser.parse_skip(test1, 0).map(|r| r.0));
    assert_eq!(Some(Token::Create), parser.parse_skip(test2, 0).map(|r| r.0));
    assert_eq!(Some(Token::Create), parser.parse_skip(test3, 0).map(|r| r.0));
}

#[test]
fn simple_parser_no_matches() {
    let parser = SimpleParser::new(String::from("create"), Token::Create);

    let test1 = "12create";
    let test2 = "12create12";
    let test3 = "12CREATE1";

    assert_eq!(None, parser.parse_skip(test1, 0));
    assert_eq!(None, parser.parse_skip(test2, 0));
    assert_eq!(None, parser.parse_skip(test3, 0));
}

#[test]
fn match_consumes_the_literal() {
    let parser = SimpleParser::new(String::from(","), Token::Comma);
    let parsed = parser.parse_skip("a,b", 1).unwrap();
    assert_eq!(Token::Comma, parsed.0);
    assert_eq!(2, parsed.1);
}
