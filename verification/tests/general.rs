use css_tokenizer::{NumericValue, Token, Tokenizer};

fn tokenize(input: &str) -> Vec<Token> {
    let mut tokenizer = Tokenizer::new(input);
    let mut tokens = Vec::new();
    while let Ok(token) = tokenizer.next() {
        tokens.push(token);
    }
    tokens
}

const SAMPLE: &str = "@media screen { a#b.c > d[e~='f'] { width: calc(100% - 2.5e1px); \
    background: url( \"x.png\" ) /* c */ ; unicode-range: U+4??, U+20-7E; } } <!-- \u{e9} -->";

#[test]
fn every_token_consumes_input() {
    // Each token takes at least one byte, so there are never more tokens
    // than bytes, and the end of the input is reached.
    for input in [SAMPLE, "", "\\", "'", "url(", "/*", "-", "\0", "\u{1F600}", "1e", "U+", "#"] {
        let mut tokenizer = Tokenizer::new(input);
        let mut count = 0;
        while tokenizer.next().is_ok() {
            count += 1;
            assert!(count <= input.len());
        }
        assert!(tokenizer.next().is_err());
        assert!(tokenizer.peek().is_err());
    }
}

#[test]
fn tokens_cover_the_input() {
    // Without comments, escapes and NUL, writing the tokens out again
    // gives the input back.
    let input = "a#b .c{d:1.5em;e:f(g),'h' -2 +3%}";
    let mut out = String::new();
    for token in tokenize(input) {
        match token {
            Token::Ident(s) => out.push_str(&s),
            Token::IDHash(s) | Token::Hash(s) => {
                out.push('#');
                out.push_str(&s);
            }
            Token::Function(s) => {
                out.push_str(&s);
                out.push('(');
            }
            Token::QuotedString(s) => {
                out.push('\'');
                out.push_str(&s);
                out.push('\'');
            }
            Token::Delim(c) => out.push(c),
            Token::Number(v) => {
                if v.signed && !v.repr.starts_with('-') {
                    out.push('+');
                }
                out.push_str(&v.repr);
            }
            Token::Percentage(v) => {
                if v.signed && !v.repr.starts_with('-') {
                    out.push('+');
                }
                out.push_str(&v.repr);
                out.push('%');
            }
            Token::Dimension(v, unit) => {
                out.push_str(&v.repr);
                out.push_str(&unit);
            }
            Token::WhiteSpace => out.push(' '),
            Token::Colon => out.push(':'),
            Token::Semicolon => out.push(';'),
            Token::Comma => out.push(','),
            Token::CurlyBracketBlock => out.push('{'),
            Token::CloseCurlyBracket => out.push('}'),
            Token::CloseParenthesis => out.push(')'),
            other => panic!("unexpected token {:?}", other),
        }
    }
    assert_eq!(out, input);
}

#[test]
fn unicode_ranges_are_ordered() {
    for input in ["U+4??", "U+20-7E", "u+??????", "U+0", "U+12345?", "U+a-a", "U+5-"] {
        match &tokenize(input)[0] {
            Token::UnicodeRange(start, end) => assert!(start <= end),
            other => panic!("unexpected token {:?}", other),
        }
    }
}

#[test]
fn int_value_only_without_fraction_and_exponent() {
    for (input, integer) in [
        ("12", true),
        ("+12", true),
        ("-0", true),
        ("12.0", false),
        (".5", false),
        ("1e2", false),
        ("1E2", false),
        ("1.5e-2", false),
        ("12px", true),
        ("12.5%", false),
        ("7em", true),
        ("1e", true),
    ] {
        let value: NumericValue = match tokenize(input).remove(0) {
            Token::Number(v) | Token::Percentage(v) | Token::Dimension(v, _) => v,
            other => panic!("unexpected token {:?}", other),
        };
        assert_eq!(value.int_value.is_some(), integer, "{}", input);
        let plain = !value.repr.contains('.') && !value.repr.contains('e')
            && !value.repr.contains('E');
        assert_eq!(plain, integer, "{}", input);
    }
}

#[test]
fn id_hash_only_for_identifier_bodies() {
    for (input, id) in [
        ("#a", true),
        ("#-a", true),
        ("#--", true),
        ("#_", true),
        ("#\u{e9}", true),
        ("#\\31", true),
        ("#1", false),
        ("#-1", false),
        ("#-", false),
    ] {
        match &tokenize(input)[0] {
            Token::IDHash(_) => assert!(id, "{}", input),
            Token::Hash(_) => assert!(!id, "{}", input),
            other => panic!("unexpected token {:?}", other),
        }
    }
    assert_eq!(tokenize("#")[0], Token::Delim('#'));
    assert_eq!(tokenize("#)")[0], Token::Delim('#'));
}

#[test]
fn peek_then_next_gives_the_same_token() {
    let mut tokenizer = Tokenizer::new(SAMPLE);
    let mut plain = Tokenizer::new(SAMPLE);
    loop {
        let peeked = tokenizer.peek().ok().cloned();
        assert!(tokenizer.has_pending() == peeked.is_some());
        let again = tokenizer.peek().ok().cloned();
        assert_eq!(peeked, again);
        let next = tokenizer.next().ok();
        assert_eq!(peeked, next);
        assert!(!tokenizer.has_pending());
        assert_eq!(next, plain.next().ok());
        if next.is_none() {
            break;
        }
    }
}

#[test]
fn push_back_then_next_gives_the_token_back() {
    let mut tokenizer = Tokenizer::new("a b");
    let first = tokenizer.next().unwrap();
    assert_eq!(first, Token::Ident("a".to_string()));
    assert!(!tokenizer.has_pending());
    tokenizer.push_back(first.clone());
    assert!(tokenizer.has_pending());
    assert_eq!(tokenizer.next(), Ok(first));
    assert_eq!(tokenizer.next(), Ok(Token::WhiteSpace));
    tokenizer.push_back(Token::Comma);
    assert_eq!(tokenizer.peek(), Ok(&Token::Comma));
    assert_eq!(tokenizer.next(), Ok(Token::Comma));
    assert_eq!(tokenizer.next(), Ok(Token::Ident("b".to_string())));
    assert_eq!(tokenizer.next(), Err(()));
    tokenizer.push_back(Token::Colon);
    assert_eq!(tokenizer.next(), Ok(Token::Colon));
    assert_eq!(tokenizer.next(), Err(()));
}

#[test]
fn whitespace_tokens_do_not_follow_each_other() {
    for input in [SAMPLE, " \t a \n\r b  ", "  ", "a \x0C\x0C 'b' \n"] {
        if input.contains("/*") && input != SAMPLE {
            continue;
        }
        let tokens = tokenize(&input.replace("/* c */", ""));
        for pair in tokens.windows(2) {
            assert!(!(pair[0] == Token::WhiteSpace && pair[1] == Token::WhiteSpace));
        }
    }
}

#[test]
fn comment_between_whitespace_gives_two_tokens() {
    assert_eq!(tokenize(" /**/ "), vec![Token::WhiteSpace, Token::WhiteSpace]);
}

#[test]
fn independent_cursors_over_one_input() {
    let input = String::from("a b");
    let mut first = Tokenizer::new(&input);
    let mut second = Tokenizer::new(&input);
    assert_eq!(first.next(), Ok(Token::Ident("a".to_string())));
    assert_eq!(first.next(), Ok(Token::WhiteSpace));
    assert_eq!(second.next(), Ok(Token::Ident("a".to_string())));
    assert_eq!(first.next(), Ok(Token::Ident("b".to_string())));
    assert_eq!(second.next(), Ok(Token::WhiteSpace));
}

#[test]
fn sample_stylesheet() {
    let tokens = tokenize(SAMPLE);
    assert_eq!(tokens[0], Token::AtKeyword("media".to_string()));
    assert!(tokens.contains(&Token::Function("calc".to_string())));
    assert!(tokens.contains(&Token::Url("x.png".to_string())));
    assert!(tokens.contains(&Token::UnicodeRange(0x400, 0x4FF)));
    assert!(tokens.contains(&Token::UnicodeRange(0x20, 0x7E)));
    assert!(tokens.contains(&Token::IncludeMatch));
    assert!(tokens.contains(&Token::IDHash("b".to_string())));
    assert!(tokens.contains(&Token::Ident("\u{e9}".to_string())));
    assert_eq!(tokens.last(), Some(&Token::CDC));
}
