use sql_parser::{Keyword, Token, Tokenizer};

#[test]
fn test_basic_tokens() {
    let input = "SELECT * FROM users;";
    let tokenizer = Tokenizer::new(input);
    let tokens: Vec<Token> = tokenizer.collect();

    assert_eq!(tokens, vec![
        Token::Keyword(Keyword::Select),
        Token::Star,
        Token::Keyword(Keyword::From),
        Token::Identifier("users".to_string()),
        Token::Semicolon,
    ]);
}

#[test]
fn test_string_literals() {
    let input = "'hello' \"world\"";
    let tokenizer = Tokenizer::new(input);
    let tokens: Vec<Token> = tokenizer.collect();

    assert_eq!(tokens, vec![
        Token::String("hello".to_string()),
        Token::String("world".to_string()),
    ]);
}

#[test]
fn test_numbers_and_operators() {
    let input = "42 >= 30";
    let tokenizer = Tokenizer::new(input);
    let tokens: Vec<Token> = tokenizer.collect();

    assert_eq!(tokens, vec![
        Token::Number(42),
        Token::GreaterThanOrEqual,
        Token::Number(30),
    ]);
}

#[test]
fn keywords_ignore_case_and_identifiers_keep_it() {
    let tokens = Tokenizer::new("select Users oRdEr by_name").collect();
    assert_eq!(tokens, vec![
        Token::Keyword(Keyword::Select),
        Token::Identifier("Users".to_string()),
        Token::Keyword(Keyword::Order),
        Token::Identifier("by_name".to_string()),
    ]);
}

#[test]
fn every_keyword_is_recognized() {
    let tokens = Tokenizer::new(
        "SELECT CREATE TABLE WHERE ORDER BY ASC DESC FROM AND OR NOT TRUE FALSE PRIMARY KEY CHECK INT BOOL VARCHAR NULL",
    )
    .collect();
    let expected: Vec<Token> = vec![
        Keyword::Select, Keyword::Create, Keyword::Table, Keyword::Where, Keyword::Order,
        Keyword::By, Keyword::Asc, Keyword::Desc, Keyword::From, Keyword::And, Keyword::Or,
        Keyword::Not, Keyword::True, Keyword::False, Keyword::Primary, Keyword::Key,
        Keyword::Check, Keyword::Int, Keyword::Bool, Keyword::Varchar, Keyword::Null,
    ]
    .into_iter()
    .map(Token::Keyword)
    .collect();
    assert_eq!(tokens, expected);
}

#[test]
fn operators_and_punctuation() {
    let tokens = Tokenizer::new("( ) , ; * / - + > >= < <= = != !").collect();
    assert_eq!(tokens, vec![
        Token::LeftParentheses,
        Token::RightParentheses,
        Token::Comma,
        Token::Semicolon,
        Token::Star,
        Token::Divide,
        Token::Minus,
        Token::Plus,
        Token::GreaterThan,
        Token::GreaterThanOrEqual,
        Token::LessThan,
        Token::LessThanOrEqual,
        Token::Equal,
        Token::NotEqual,
        Token::Invalid('!'),
    ]);
}

#[test]
fn largest_number_and_overflow() {
    let tokens = Tokenizer::new("18446744073709551615 18446744073709551616").collect();
    assert_eq!(tokens, vec![Token::Number(u64::MAX), Token::Invalid('1')]);
}

#[test]
fn unterminated_string_is_invalid() {
    let tokens = Tokenizer::new("'abc").collect();
    assert_eq!(tokens, vec![Token::Invalid('\'')]);
    let tokens = Tokenizer::new("\"a'b\"").collect();
    assert_eq!(tokens, vec![Token::String("a'b".to_string())]);
}

#[test]
fn unknown_character_is_invalid() {
    let tokens = Tokenizer::new("a@b").collect();
    assert_eq!(tokens, vec![
        Token::Identifier("a".to_string()),
        Token::Invalid('@'),
        Token::Identifier("b".to_string()),
    ]);
}

#[test]
fn whitespace_only_gives_no_tokens() {
    assert_eq!(Tokenizer::new("").collect(), Vec::<Token>::new());
    assert_eq!(Tokenizer::new(" \t\n\u{3000}").collect(), Vec::<Token>::new());
    let mut t = Tokenizer::new("  x ");
    assert_eq!(t.next(), Some(Token::Identifier("x".to_string())));
    assert_eq!(t.next(), None);
    assert_eq!(t.next(), None);
}

#[test]
fn words_continue_with_digits_and_underscores() {
    let tokens = Tokenizer::new("_a1b2 9x").collect();
    assert_eq!(tokens, vec![
        Token::Identifier("_a1b2".to_string()),
        Token::Number(9),
        Token::Identifier("x".to_string()),
    ]);
}

#[test]
fn unicode_letters_continue_words_and_fold_to_keywords() {
    let tokens = Tokenizer::new("naïve deſc").collect();
    assert_eq!(tokens, vec![
        Token::Identifier("naïve".to_string()),
        Token::Keyword(Keyword::Desc),
    ]);
}
