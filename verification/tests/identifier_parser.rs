use tinydb::tokenizer::identifier_parser::IdentifierParser;
use tinydb::tokenizer::Token;
use tinydb::tokenizer::TokenParser;

#[test]
fn string_identifier() {
    let token = IdentifierParser::new().parse_skip("MYSTRINGIDENTIFIER", 0);

    assert_eq!(
        Token::Identifier(String::from("MYSTRINGIDENTIFIER")),
        token.unwrap().0
    );
}

#[test]
fn identifiers_with_underscores() {
    let token1 = IdentifierParser::new().parse_skip("my_str", 0);
    let token2 = IdentifierParser::new().parse_skip("_egg", 0);
    let token3 = IdentifierParser::new().parse_skip("_", 0);

    assert_eq!(Token::Identifier(String::from("my_str")), token1.unwrap().0);
    assert_eq!(Token::Identifier(String::from("_egg")), token2.unwrap().0);
    assert_eq!(Token::Identifier(String::from("_")), token3.unwrap().0);
}

#[test]
fn identifiers_with_numbers() {
    let token1 = IdentifierParser::new().parse_skip("hi1", 0);
    let token2 = IdentifierParser::new().parse_skip("h_32", 0);

    assert_eq!(Token::Identifier(String::from("hi1")), token1.unwrap().0);
    assert_eq!(Token::Identifier(String::from("h_32")), token2.unwrap().0);
}

#[test]
fn with_token_mapping() {
    let mut parser = IdentifierParser::new();
    parser.add_token_mapping(String::from("Create"), Token::Create);
    parser.add_token_mapping(String::from("TABLE"), Token::Table);

    let create1 = parser.parse_skip("CREATE", 0).unwrap().0;
    let create2 = parser.parse_skip("CREATE EGGS", 0).unwrap().0;
    let table1 = parser.parse_skip("TABLE EGGS", 0).unwrap().0;
    let table2 = parser.parse_skip("table EGGS", 0).unwrap().0;

    assert_eq!(Token::Create, create1);
    assert_eq!(Token::Create, create2);
    assert_eq!(Token::Table, table1);
    assert_eq!(Token::Table, table2);
}

#[test]
fn identifier_parser_no_matches() {
    let empty1 = IdentifierParser::new().parse_skip("123_hello", 0);
    let empty2 = IdentifierParser::new().parse_skip("+932", 0);

    assert_eq!(None, empty1);
    assert_eq!(None, empty2);
}

#[test]
fn no_matches_with_mapping() {
    let mut parser = IdentifierParser::new();
    parser.add_token_mapping(String::from("Table"), Token::Table);

    assert_eq!(
        Token::Identifier(String::from("Table_")),
        parser.parse_skip("Table_", 0).unwrap().0
    );
}

#[test]
fn consumed_length_is_reported() {
    let parsed = IdentifierParser::new().parse_skip("my_str and more", 0).unwrap();
    assert_eq!(Token::Identifier(String::from("my_str")), parsed.0);
    assert_eq!(6, parsed.1);
}
