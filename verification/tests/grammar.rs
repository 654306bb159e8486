use progmem_str::grammar::{
    custom_include_str, string_literal_alone, Arguments, Fault, ParseError, Source,
};
use progmem_str::lexeme::{lexeme, lexemes, Lexeme};
use progmem_str::token::{Delimiter, Token};

fn word(text: &str) -> Token {
    Token::Ident(text.to_string())
}

fn punct(c: char) -> Token {
    Token::Punct(c, false)
}

fn lit(repr: &str) -> Token {
    Token::Literal(repr.to_string())
}

fn inline(name: &str, repr: &str) -> Vec<Token> {
    vec![word("static"), word("progmem"), word("string"), word(name), punct('='), lit(repr), punct(';')]
}

fn inclusion(name: &str, repr: &str) -> Vec<Token> {
    vec![
        word("static"),
        word("progmem"),
        word("string"),
        word(name),
        punct('='),
        word("include_str"),
        punct('!'),
        Token::Open(Delimiter::Parenthesis),
        lit(repr),
        Token::Close(Delimiter::Parenthesis),
        punct(';'),
    ]
}

fn error(at: usize, fault: Fault, at_end: bool) -> ParseError {
    ParseError { at, fault, at_end }
}

fn without(tokens: &[Token], at: usize) -> Vec<Token> {
    let mut rest = tokens.to_vec();
    rest.remove(at);
    rest
}

fn with(tokens: &[Token], at: usize, token: Token) -> Vec<Token> {
    let mut changed = tokens.to_vec();
    changed[at] = token;
    changed
}

#[test]
fn parses_a_literal_declaration() {
    let args = Arguments::parse(&inline("PANCAKES", "\"pancakes\"")).unwrap();
    assert_eq!(
        args,
        Arguments {
            static_at: 0,
            varname: "PANCAKES".to_string(),
            varname_at: 3,
            eq_at: 4,
            source: Source::Text("pancakes".to_string()),
            semicolon_at: 6,
        }
    );
}

#[test]
fn parses_an_inclusion() {
    let args = Arguments::parse(&inclusion("LC", "\"lovecraft.txt\"")).unwrap();
    assert_eq!(
        args,
        Arguments {
            static_at: 0,
            varname: "LC".to_string(),
            varname_at: 3,
            eq_at: 4,
            source: Source::File("lovecraft.txt".to_string(), 8),
            semicolon_at: 10,
        }
    );
}

#[test]
fn decodes_the_escapes_of_the_literal() {
    let args = Arguments::parse(&inline("X", "\"tab\\there \\u{e9} \\\"q\\\" \\x41\\n\"")).unwrap();
    assert_eq!(args.source, Source::Text("tab\there \u{e9} \"q\" A\n".to_string()));
}

#[test]
fn takes_a_raw_string_verbatim() {
    let args = Arguments::parse(&inline("X", "r#\"a \"quoted\" \\n\"#")).unwrap();
    assert_eq!(args.source, Source::Text("a \"quoted\" \\n".to_string()));
}

#[test]
fn decodes_the_file_name_of_an_inclusion() {
    let args = Arguments::parse(&inclusion("X", "\"dir\\\\a\\tb.txt\"")).unwrap();
    assert_eq!(args.source, Source::File("dir\\a\tb.txt".to_string(), 8));
}

#[test]
fn the_spacing_of_input_punctuation_is_not_looked_at() {
    let mut tokens = inline("X", "\"a\"");
    tokens[4] = Token::Punct('=', true);
    tokens[6] = Token::Punct(';', true);
    assert!(Arguments::parse(&tokens).is_ok());
}

#[test]
fn rejects_empty_input_at_its_start() {
    let e = Arguments::parse(&Vec::new()).unwrap_err();
    assert_eq!(e, error(0, Fault::ExpectedStatic, true));
    assert_eq!(e.message(), "unexpected end of input, expected `static`");
}

#[test]
fn rejects_a_missing_static() {
    let tokens = without(&inline("X", "\"a\""), 0);
    let e = Arguments::parse(&tokens).unwrap_err();
    assert_eq!(e, error(0, Fault::ExpectedStatic, false));
    assert_eq!(e.message(), "expected `static`");
}

#[test]
fn rejects_another_storage_word() {
    let tokens = with(&inline("X", "\"a\""), 0, word("const"));
    assert_eq!(Arguments::parse(&tokens), Err(error(0, Fault::ExpectedStatic, false)));
}

#[test]
fn rejects_a_missing_progmem() {
    let tokens = without(&inline("X", "\"a\""), 1);
    let e = Arguments::parse(&tokens).unwrap_err();
    assert_eq!(e, error(1, Fault::ExpectedProgmem, false));
    assert_eq!(e.message(), "expected `progmem`");
}

#[test]
fn rejects_a_missing_string() {
    let tokens = without(&inline("X", "\"a\""), 2);
    let e = Arguments::parse(&tokens).unwrap_err();
    assert_eq!(e, error(2, Fault::ExpectedString, false));
    assert_eq!(e.message(), "expected `string`");
}

#[test]
fn rejects_a_raw_keyword_where_the_word_is_wanted() {
    let tokens = with(&inline("X", "\"a\""), 1, word("r#progmem"));
    assert_eq!(Arguments::parse(&tokens), Err(error(1, Fault::ExpectedProgmem, false)));
}

#[test]
fn rejects_a_missing_name() {
    let tokens = without(&inline("X", "\"a\""), 3);
    let e = Arguments::parse(&tokens).unwrap_err();
    assert_eq!(e, error(3, Fault::ExpectedIdentifier, false));
    assert_eq!(e.message(), "expected identifier");
}

#[test]
fn rejects_a_keyword_as_name() {
    for keyword in ["fn", "static", "self", "Self", "_", "yield", "true", "abstract"] {
        let tokens = inline(keyword, "\"a\"");
        assert_eq!(
            Arguments::parse(&tokens),
            Err(error(3, Fault::ExpectedIdentifier, false)),
            "{}",
            keyword
        );
    }
}

#[test]
fn rejects_a_literal_as_name() {
    let tokens = with(&inline("X", "\"a\""), 3, lit("5"));
    assert_eq!(Arguments::parse(&tokens), Err(error(3, Fault::ExpectedIdentifier, false)));
}

#[test]
fn accepts_words_that_are_no_keywords() {
    for name in ["x", "PANCAKES", "_x", "r#fn", "progmem", "string", "union", "async", "\u{e9}t\u{e9}"] {
        let args = Arguments::parse(&inline(name, "\"a\"")).unwrap();
        assert_eq!(args.varname, name);
    }
}

#[test]
fn rejects_a_missing_equals_sign() {
    let tokens = without(&inline("X", "\"a\""), 4);
    let e = Arguments::parse(&tokens).unwrap_err();
    assert_eq!(e, error(4, Fault::ExpectedEquals, false));
    assert_eq!(e.message(), "expected `=`");
}

#[test]
fn rejects_a_second_equals_sign_where_the_source_is_wanted() {
    let mut tokens = inline("X", "\"a\"");
    tokens[4] = Token::Punct('=', true);
    tokens.insert(5, punct('='));
    assert_eq!(Arguments::parse(&tokens), Err(error(5, Fault::ExpectedIncludeStr, false)));
}

#[test]
fn rejects_a_missing_source() {
    let tokens = without(&inline("X", "\"a\""), 5);
    let e = Arguments::parse(&tokens).unwrap_err();
    assert_eq!(e, error(5, Fault::ExpectedIncludeStr, false));
    assert_eq!(e.message(), "expected `include_str`");
}

#[test]
fn rejects_a_source_that_is_no_string_literal() {
    for repr in ["5", "5u8", "1.5", "'a'", "b\"bytes\"", "br\"bytes\"", "b'a'", "c\"text\"", "cr\"text\""] {
        let tokens = inline("X", repr);
        assert_eq!(
            Arguments::parse(&tokens),
            Err(error(5, Fault::ExpectedIncludeStr, false)),
            "{}",
            repr
        );
    }
}

#[test]
fn rejects_source_text_that_is_not_one_string_literal() {
    for repr in ["", "\"", "\"a\" \"b\"", "r", "r#\"open", "\"bad \\q escape\""] {
        let tokens = inline("X", repr);
        assert_eq!(
            Arguments::parse(&tokens),
            Err(error(5, Fault::ExpectedIncludeStr, false)),
            "{}",
            repr
        );
    }
}

#[test]
fn rejects_another_directive() {
    let tokens = with(&inclusion("X", "\"a\""), 5, word("include_bytes"));
    assert_eq!(Arguments::parse(&tokens), Err(error(5, Fault::ExpectedIncludeStr, false)));
}

#[test]
fn rejects_a_missing_bang() {
    let tokens = without(&inclusion("X", "\"a\""), 6);
    let e = Arguments::parse(&tokens).unwrap_err();
    assert_eq!(e, error(6, Fault::ExpectedBang, false));
    assert_eq!(e.message(), "expected `!`");
}

#[test]
fn rejects_other_brackets_round_the_file_name() {
    let mut tokens = inclusion("X", "\"a\"");
    tokens[7] = Token::Open(Delimiter::Bracket);
    tokens[9] = Token::Close(Delimiter::Bracket);
    let e = Arguments::parse(&tokens).unwrap_err();
    assert_eq!(e, error(7, Fault::ExpectedParentheses, false));
    assert_eq!(e.message(), "expected parentheses");
}

#[test]
fn rejects_an_empty_inclusion() {
    let tokens = without(&inclusion("X", "\"a\""), 8);
    let e = Arguments::parse(&tokens).unwrap_err();
    assert_eq!(e, error(8, Fault::ExpectedStringLiteral, true));
    assert_eq!(e.message(), "unexpected end of input, expected string literal");
}

#[test]
fn rejects_a_file_name_that_is_no_string_literal() {
    let tokens = with(&inclusion("X", "\"a\""), 8, word("name"));
    let e = Arguments::parse(&tokens).unwrap_err();
    assert_eq!(e, error(8, Fault::ExpectedStringLiteral, false));
    assert_eq!(e.message(), "expected string literal");
}

#[test]
fn rejects_a_second_token_in_the_inclusion() {
    let mut tokens = inclusion("X", "\"a\"");
    tokens.insert(9, lit("\"b\""));
    let e = Arguments::parse(&tokens).unwrap_err();
    assert_eq!(e, error(9, Fault::UnexpectedToken, false));
    assert_eq!(e.message(), "unexpected token");
}

#[test]
fn rejects_a_missing_semicolon() {
    let tokens = without(&inline("X", "\"a\""), 6);
    let e = Arguments::parse(&tokens).unwrap_err();
    assert_eq!(e, error(6, Fault::ExpectedSemicolon, true));
    assert_eq!(e.message(), "expected `;`");

    let tokens = without(&inclusion("X", "\"a\""), 10);
    assert_eq!(Arguments::parse(&tokens), Err(error(10, Fault::ExpectedSemicolon, true)));
}

#[test]
fn rejects_a_comma_for_the_semicolon() {
    let tokens = with(&inline("X", "\"a\""), 6, punct(','));
    assert_eq!(Arguments::parse(&tokens), Err(error(6, Fault::ExpectedSemicolon, false)));
}

#[test]
fn rejects_tokens_after_the_declaration() {
    let mut tokens = inline("X", "\"a\"");
    tokens.push(word("static"));
    let e = Arguments::parse(&tokens).unwrap_err();
    assert_eq!(e, error(7, Fault::UnexpectedToken, false));
    assert_eq!(e.message(), "unexpected token");

    let mut tokens = inclusion("X", "\"a\"");
    tokens.extend(inline("Y", "\"b\""));
    assert_eq!(Arguments::parse(&tokens), Err(error(11, Fault::UnexpectedToken, false)));
}

#[test]
fn rejects_every_proper_prefix_at_its_end() {
    for full in [inline("X", "\"a\""), inclusion("X", "\"a\"")] {
        for n in 0..full.len() {
            let e = Arguments::parse(&full[..n].to_vec()).unwrap_err();
            assert_eq!(e.at, n);
            assert!(e.at_end);
        }
    }
}

#[test]
fn reports_the_first_of_two_faults() {
    let mut tokens = inline("fn", "\"a\"");
    tokens[1] = word("progmam");
    tokens.pop();
    assert_eq!(Arguments::parse(&tokens), Err(error(1, Fault::ExpectedProgmem, false)));
}

#[test]
fn recognises_an_inclusion_wherever_it_starts() {
    let read = lexemes(&inclusion("X", "\"notes.txt\""));
    assert_eq!(custom_include_str(&read, 5), Ok("notes.txt".to_string()));
    assert_eq!(custom_include_str(&read[5..].to_vec(), 0), Ok("notes.txt".to_string()));
    assert_eq!(custom_include_str(&read, 6), Err(error(6, Fault::ExpectedIncludeStr, false)));
    assert_eq!(
        custom_include_str(&read[..8].to_vec(), 5),
        Err(error(8, Fault::ExpectedStringLiteral, true))
    );
    assert_eq!(
        custom_include_str(&read, usize::MAX),
        Err(error(usize::MAX, Fault::ExpectedIncludeStr, true))
    );
}

#[test]
fn reads_each_kind_of_token() {
    assert_eq!(lexeme(&word("PANCAKES")), Lexeme::Word("PANCAKES".to_string(), true));
    assert_eq!(lexeme(&word("static")), Lexeme::Word("static".to_string(), false));
    assert_eq!(lexeme(&word("_")), Lexeme::Word("_".to_string(), false));
    assert_eq!(lexeme(&word("r#static")), Lexeme::Word("r#static".to_string(), true));
    assert_eq!(lexeme(&Token::Punct('=', true)), Lexeme::Punct('='));
    assert_eq!(lexeme(&Token::Punct('=', false)), Lexeme::Punct('='));
    assert_eq!(lexeme(&lit("\"a\\tb\"")), Lexeme::Text("a\tb".to_string()));
    assert_eq!(lexeme(&lit("r\"a\\tb\"")), Lexeme::Text("a\\tb".to_string()));
    assert_eq!(lexeme(&lit("\"\"")), Lexeme::Text(String::new()));
    assert_eq!(lexeme(&lit("17usize")), Lexeme::Literal);
    assert_eq!(lexeme(&lit("b\"a\"")), Lexeme::Literal);
    assert_eq!(lexeme(&Token::Open(Delimiter::Brace)), Lexeme::Open(Delimiter::Brace));
    assert_eq!(lexeme(&Token::Close(Delimiter::Bracket)), Lexeme::Close(Delimiter::Bracket));
}

#[test]
fn reads_a_sequence_token_by_token() {
    let tokens = inclusion("LC", "\"lovecraft.txt\"");
    let read = lexemes(&tokens);
    assert_eq!(read.len(), tokens.len());
    for (token, one) in tokens.iter().zip(&read) {
        assert_eq!(&lexeme(token), one);
    }
    assert_eq!(read[8], Lexeme::Text("lovecraft.txt".to_string()));
    assert_eq!(lexemes(&Vec::new()), Vec::new());
}

#[test]
fn the_grammar_goes_by_what_was_read() {
    let read = vec![
        Lexeme::Word("static".to_string(), false),
        Lexeme::Word("progmem".to_string(), true),
        Lexeme::Word("string".to_string(), true),
        Lexeme::Word("X".to_string(), true),
        Lexeme::Punct('='),
        Lexeme::Text("a \"b\"".to_string()),
        Lexeme::Punct(';'),
    ];
    let args = Arguments::recognize(&read).unwrap();
    assert_eq!(args.varname, "X");
    assert_eq!(args.source, Source::Text("a \"b\"".to_string()));

    let mut unbindable = read.clone();
    unbindable[3] = Lexeme::Word("X".to_string(), false);
    assert_eq!(
        Arguments::recognize(&unbindable),
        Err(error(3, Fault::ExpectedIdentifier, false))
    );

    let mut number = read.clone();
    number[5] = Lexeme::Literal;
    assert_eq!(Arguments::recognize(&number), Err(error(5, Fault::ExpectedIncludeStr, false)));
}

#[test]
fn parsing_is_reading_and_recognising() {
    let mut cases = vec![inline("X", "\"a\""), inclusion("X", "\"a\""), inline("fn", "\"a\""), Vec::new()];
    cases.push(without(&inclusion("X", "\"a\""), 9));
    for tokens in cases {
        assert_eq!(Arguments::parse(&tokens), Arguments::recognize(&lexemes(&tokens)));
    }
}

#[test]
fn a_string_literal_alone_gives_its_text() {
    assert_eq!(string_literal_alone(&vec![Lexeme::Text("bacon".to_string())]), Ok("bacon".to_string()));
    assert_eq!(
        string_literal_alone(&Vec::new()),
        Err(error(0, Fault::ExpectedStringLiteral, true))
    );
    assert_eq!(
        string_literal_alone(&vec![Lexeme::Close(Delimiter::Brace)]),
        Err(error(0, Fault::ExpectedStringLiteral, true))
    );
    assert_eq!(
        string_literal_alone(&vec![Lexeme::Literal]),
        Err(error(0, Fault::ExpectedStringLiteral, false))
    );
    assert_eq!(
        string_literal_alone(&vec![Lexeme::Text("a".to_string()), Lexeme::Text("b".to_string())]),
        Err(error(1, Fault::UnexpectedToken, false))
    );
}

#[test]
fn words_every_fault() {
    let cases = [
        (Fault::ExpectedStatic, "expected `static`", true),
        (Fault::ExpectedProgmem, "expected `progmem`", true),
        (Fault::ExpectedString, "expected `string`", true),
        (Fault::ExpectedIdentifier, "expected identifier", true),
        (Fault::ExpectedEquals, "expected `=`", false),
        (Fault::ExpectedIncludeStr, "expected `include_str`", true),
        (Fault::ExpectedBang, "expected `!`", false),
        (Fault::ExpectedParentheses, "expected parentheses", true),
        (Fault::ExpectedStringLiteral, "expected string literal", true),
        (Fault::ExpectedSemicolon, "expected `;`", false),
        (Fault::UnexpectedToken, "unexpected token", false),
        (Fault::UnreadableFile, "failed to read file", false),
    ];
    for (fault, wording, announces) in cases {
        assert_eq!(error(3, fault, false).message(), wording);
        let at_end = error(3, fault, true).message();
        if announces {
            assert_eq!(at_end, format!("unexpected end of input, {}", wording));
        } else {
            assert_eq!(at_end, wording);
        }
    }
}
