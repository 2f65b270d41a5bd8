use mini_compiler::general::TryReader;
use mini_compiler::sourcecode::{Position, Span};
use mini_compiler::token::tokenize::{character, number, operator, word};
use mini_compiler::token::{
    tokenize, Bracket, BracketSide, Dictionary, Operator, ReservedWord, Token,
};

#[test]
fn test_default() {
    let dictionary = Dictionary::default();

    assert_eq!(
        Some(&Token::add()),
        dictionary.dig('+').ok().and_then(|d| d.terminal().as_ref())
    );

    let le = dictionary
        .dig('<')
        .ok()
        .and_then(|d| d.dig('=').ok())
        .and_then(|d| d.terminal().as_ref());
    assert_eq!(Some(&Token::le()), le);
}

#[test]
fn test_tokenize() {
    let src = String::from("1 + 23 - 2 * 4");

    let findable_tokens = tokenize(&src).unwrap();

    assert_eq!(findable_tokens[0].value, Token::Number(1));
    assert_eq!(findable_tokens[0].span, Span::new(0, 0, 1));

    assert_eq!(findable_tokens[1].value, Token::add());
    assert_eq!(findable_tokens[1].span, Span::new(0, 2, 1));

    assert_eq!(findable_tokens[2].value, Token::Number(23));
    assert_eq!(findable_tokens[2].span, Span::new(0, 4, 2));

    assert_eq!(findable_tokens[3].value, Token::sub());
    assert_eq!(findable_tokens[3].span, Span::new(0, 7, 1));

    assert_eq!(findable_tokens[4].value, Token::Number(2));
    assert_eq!(findable_tokens[4].span, Span::new(0, 9, 1));

    assert_eq!(findable_tokens[5].value, Token::mul());
    assert_eq!(findable_tokens[5].span, Span::new(0, 11, 1));

    assert_eq!(findable_tokens[6].value, Token::Number(4));
    assert_eq!(findable_tokens[6].span, Span::new(0, 13, 1));

    assert_eq!(findable_tokens.len(), 7);
}

#[test]
fn test_tokenize_relational() {
    let src = String::from("1 <= 3");

    let findable_tokens = tokenize(&src).unwrap();

    assert_eq!(findable_tokens[0].value, Token::Number(1));
    assert_eq!(findable_tokens[0].span, Span::new(0, 0, 1));

    assert_eq!(findable_tokens[1].value, Token::le());
    assert_eq!(findable_tokens[1].span, Span::new(0, 2, 2));

    assert_eq!(findable_tokens[2].value, Token::Number(3));
    assert_eq!(findable_tokens[2].span, Span::new(0, 5, 1));
}

#[test]
fn test_tokenize_no_space() {
    let src = String::from("1+2");

    let findable_tokens = tokenize(&src).unwrap();

    assert_eq!(findable_tokens[0].value, Token::Number(1));
    assert_eq!(findable_tokens[0].span, Span::new(0, 0, 1));

    assert_eq!(findable_tokens[1].value, Token::add());
    assert_eq!(findable_tokens[1].span, Span::new(0, 1, 1));

    assert_eq!(findable_tokens[2].value, Token::Number(2));
    assert_eq!(findable_tokens[2].span, Span::new(0, 2, 1));
}

#[test]
fn test_tokenize_number() {
    let src = "2".chars().collect();
    let mut reader = TryReader::new(&src);
    assert_eq!(number(&mut reader), Ok(2));
}

fn values(src: &str) -> Vec<Token> {
    tokenize(&src.to_string())
        .unwrap()
        .into_iter()
        .map(|code| code.value)
        .collect()
}

#[test]
fn longest_match_prefers_less_eq() {
    assert_eq!(values("<="), vec![Token::le()]);
    assert_eq!(values("<"), vec![Token::lt()]);
    assert_eq!(values(">=<"), vec![Token::ge(), Token::lt()]);
    assert_eq!(values("==!="), vec![Token::eq(), Token::neq()]);
}

#[test]
fn lone_equal_sign_is_rejected() {
    assert_eq!(tokenize(&"1 = 2".to_string()).err(), Some(Position { line: 0, pos: 2 }));
    assert_eq!(tokenize(&"<= =".to_string()).err(), Some(Position { line: 0, pos: 3 }));
}

#[test]
fn every_symbol_has_its_token() {
    assert_eq!(
        values("+ - * / < <= > >= == != ( ) { } := ,"),
        vec![
            Token::add(),
            Token::sub(),
            Token::mul(),
            Token::div(),
            Token::lt(),
            Token::le(),
            Token::gt(),
            Token::ge(),
            Token::eq(),
            Token::neq(),
            Token::Bracket(BracketSide::Left(Bracket::Round)),
            Token::Bracket(BracketSide::Right(Bracket::Round)),
            Token::Bracket(BracketSide::Left(Bracket::Curly)),
            Token::Bracket(BracketSide::Right(Bracket::Curly)),
            Token::assign(),
            Token::Comma,
        ]
    );
}

#[test]
fn token_constructors_name_their_operator() {
    assert_eq!(Token::add(), Token::Operator(Operator::Add));
    assert_eq!(Token::sub(), Token::Operator(Operator::Sub));
    assert_eq!(Token::mul(), Token::Operator(Operator::Mul));
    assert_eq!(Token::div(), Token::Operator(Operator::Div));
    assert_eq!(Token::eq(), Token::Operator(Operator::Equal));
    assert_eq!(Token::neq(), Token::Operator(Operator::NotEqual));
    assert_eq!(Token::lt(), Token::Operator(Operator::Less));
    assert_eq!(Token::gt(), Token::Operator(Operator::Greater));
    assert_eq!(Token::le(), Token::Operator(Operator::LessEq));
    assert_eq!(Token::ge(), Token::Operator(Operator::GreaterEq));
    assert_eq!(Token::assign(), Token::Operator(Operator::Assign));
    assert!(Token::add().same_as(&Token::add()));
    assert!(!Token::add().same_as(&Token::sub()));
    assert!(Token::Identifier("a".to_string()).same_as(&Token::Identifier("a".to_string())));
    assert!(!Token::Identifier("a".to_string()).same_as(&Token::Identifier("b".to_string())));
    assert_eq!(Token::Identifier("a".to_string()).clone(), Token::Identifier("a".to_string()));
}

#[test]
fn reserved_words_and_identifiers() {
    assert_eq!(
        values("let return if then else func lets x1"),
        vec![
            Token::ReservedWord(ReservedWord::Let),
            Token::ReservedWord(ReservedWord::Return),
            Token::ReservedWord(ReservedWord::If),
            Token::ReservedWord(ReservedWord::Then),
            Token::ReservedWord(ReservedWord::Else),
            Token::ReservedWord(ReservedWord::Func),
            Token::Identifier("lets".to_string()),
            Token::Identifier("x1".to_string()),
        ]
    );
}

#[test]
fn line_breaks_are_tokens_and_reset_the_column() {
    let tokens = tokenize(&"a\n  b".to_string()).unwrap();
    assert_eq!(tokens.len(), 3);
    assert_eq!(tokens[0].value, Token::Identifier("a".to_string()));
    assert_eq!(tokens[0].span, Span::new(0, 0, 1));
    assert_eq!(tokens[1].value, Token::LineBreak);
    assert_eq!(tokens[1].span, Span::new(0, 1, 1));
    assert_eq!(tokens[2].value, Token::Identifier("b".to_string()));
    assert_eq!(tokens[2].span, Span::new(1, 2, 1));
}

#[test]
fn number_followed_by_letters_is_two_tokens() {
    assert_eq!(
        values("12ab"),
        vec![Token::Number(12), Token::Identifier("ab".to_string())]
    );
}

#[test]
fn unmatched_character_gives_its_position() {
    assert_eq!(tokenize(&"1 + $".to_string()).err(), Some(Position { line: 0, pos: 4 }));
    assert_eq!(tokenize(&"a\nb ?".to_string()).err(), Some(Position { line: 1, pos: 2 }));
    assert_eq!(tokenize(&"!".to_string()).err(), Some(Position { line: 0, pos: 0 }));
}

#[test]
fn empty_text_gives_no_tokens() {
    assert_eq!(tokenize(&"".to_string()).unwrap().len(), 0);
    assert_eq!(tokenize(&"   ".to_string()).unwrap().len(), 0);
}

#[test]
fn largest_number_fits_and_the_next_does_not() {
    assert_eq!(values("9223372036854775807"), vec![Token::Number(i64::MAX)]);
    assert_eq!(
        tokenize(&"1 9223372036854775808".to_string()).err(),
        Some(Position { line: 0, pos: 2 })
    );
    assert_eq!(
        tokenize(&"99999999999999999999999".to_string()).err(),
        Some(Position { line: 0, pos: 0 })
    );
}

#[test]
fn number_reads_the_whole_run_of_digits() {
    let src: Vec<char> = "1234+5".chars().collect();
    let mut reader = TryReader::new(&src);
    assert_eq!(number(&mut reader), Ok(1234));
    assert_eq!(reader.offset(), 4);
    assert_eq!(number(&mut reader), Err(None));
    assert_eq!(reader.offset(), 4);
}

#[test]
fn number_leaves_the_cursor_on_overflow() {
    let src: Vec<char> = "92233720368547758080".chars().collect();
    let mut reader = TryReader::new(&src);
    assert_eq!(number(&mut reader), Err(None));
    assert_eq!(reader.offset(), 0);
}

#[test]
fn word_reads_letters_then_alphanumerics() {
    let src: Vec<char> = "ab12 c".chars().collect();
    let mut reader = TryReader::new(&src);
    assert_eq!(word(&mut reader), Ok("ab12".to_string()));
    assert_eq!(reader.offset(), 4);
    assert_eq!(word(&mut reader), Err(None));
    assert_eq!(reader.offset(), 4);
    let digits: Vec<char> = "1a".chars().collect();
    let mut reader = TryReader::new(&digits);
    assert_eq!(word(&mut reader), Err(None));
    assert_eq!(reader.offset(), 0);
}

#[test]
fn character_reads_only_its_target() {
    let src: Vec<char> = "ab".chars().collect();
    let mut reader = TryReader::new(&src);
    assert_eq!(character(&mut reader, 'b'), Err(None));
    assert_eq!(reader.offset(), 0);
    assert_eq!(character(&mut reader, 'a'), Ok(()));
    assert_eq!(reader.offset(), 1);
    assert_eq!(character(&mut reader, 'b'), Ok(()));
    assert_eq!(character(&mut reader, 'b'), Err(None));
}

#[test]
fn operator_takes_the_longest_spelling() {
    let dictionary = Dictionary::default();
    let src: Vec<char> = "<=<!x".chars().collect();
    let mut reader = TryReader::new(&src);
    assert_eq!(operator(&mut reader, &dictionary), Ok(Token::le()));
    assert_eq!(reader.offset(), 2);
    assert_eq!(operator(&mut reader, &dictionary), Ok(Token::lt()));
    assert_eq!(reader.offset(), 3);
    assert_eq!(operator(&mut reader, &dictionary), Err(None));
    assert_eq!(reader.offset(), 3);
}

#[test]
fn dictionary_dig_reports_the_terminal_where_no_child_is() {
    let dictionary = Dictionary::default();
    assert_eq!(dictionary.terminal(), &None);
    match dictionary.dig('a') {
        Ok(_) => panic!("no symbol starts with a letter"),
        Err(terminal) => assert_eq!(terminal, &None),
    }
    let less = dictionary.dig('<').ok().unwrap();
    assert_eq!(less.terminal(), &Some(Token::lt()));
    match less.dig('<') {
        Ok(_) => panic!("no symbol is spelled <<"),
        Err(terminal) => assert_eq!(terminal, &Some(Token::lt())),
    }
    let bang = dictionary.dig('!').ok().unwrap();
    assert_eq!(bang.terminal(), &None);
}
