use css_tokenizer::{NumericValue, Token, Tokenizer};

fn tokenize(input: &str) -> Vec<Token> {
    let mut tokenizer = Tokenizer::new(input);
    let mut tokens = Vec::new();
    while let Ok(token) = tokenizer.next() {
        tokens.push(token);
    }
    tokens
}

fn num(repr: &str, int_value: Option<i64>, signed: bool) -> NumericValue {
    NumericValue { repr: repr.to_string(), int_value, signed }
}

fn float(token: &Token) -> f64 {
    match token {
        Token::Number(v) | Token::Percentage(v) | Token::Dimension(v, _) => {
            v.repr.parse::<f64>().unwrap()
        }
        other => panic!("not numeric: {:?}", other),
    }
}

fn ident(name: &str) -> Token {
    Token::Ident(name.to_string())
}

#[test]
fn plain_identifier() {
    assert_eq!(tokenize("abc"), vec![ident("abc")]);
}

#[test]
fn whitespace_run_is_one_token() {
    assert_eq!(tokenize("  \t\n "), vec![Token::WhiteSpace]);
}

#[test]
fn comment_is_discarded() {
    assert_eq!(tokenize("/* c */ a"), vec![Token::WhiteSpace, ident("a")]);
}

#[test]
fn hashes() {
    assert_eq!(
        tokenize("#-ident #123 #"),
        vec![
            Token::IDHash("-ident".to_string()),
            Token::WhiteSpace,
            Token::Hash("123".to_string()),
            Token::WhiteSpace,
            Token::Delim('#'),
        ]
    );
}

#[test]
fn numbers() {
    let tokens = tokenize("12 12px 12.5% +.5e2 -3");
    assert_eq!(
        tokens,
        vec![
            Token::Number(num("12", Some(12), false)),
            Token::WhiteSpace,
            Token::Dimension(num("12", Some(12), false), "px".to_string()),
            Token::WhiteSpace,
            Token::Percentage(num("12.5", None, false)),
            Token::WhiteSpace,
            Token::Number(num(".5e2", None, true)),
            Token::WhiteSpace,
            Token::Number(num("-3", Some(-3), true)),
        ]
    );
    assert_eq!(float(&tokens[0]), 12.0);
    assert_eq!(float(&tokens[2]), 12.0);
    assert_eq!(float(&tokens[4]), 12.5);
    assert_eq!(float(&tokens[6]), 50.0);
    assert_eq!(float(&tokens[8]), -3.0);
}

#[test]
fn quoted_url() {
    assert_eq!(tokenize("url( \"x\" )"), vec![Token::Url("x".to_string())]);
}

#[test]
fn url_with_escaped_newline_is_bad() {
    assert_eq!(tokenize("url(a\\\n"), vec![Token::BadUrl]);
}

#[test]
fn unicode_range_with_wildcards() {
    assert_eq!(tokenize("U+4??"), vec![Token::UnicodeRange(0x400, 0x4FF)]);
}

#[test]
fn unicode_range_with_two_ends() {
    assert_eq!(tokenize("U+20-7E"), vec![Token::UnicodeRange(0x20, 0x7E)]);
}

#[test]
fn escaped_newline_in_string() {
    assert_eq!(tokenize("'a\\\nb'"), vec![Token::QuotedString("ab".to_string())]);
}

#[test]
fn newline_in_string_is_bad() {
    assert_eq!(
        tokenize("'a\nb'"),
        vec![
            Token::BadString,
            Token::WhiteSpace,
            ident("b"),
            Token::QuotedString(String::new()),
        ]
    );
}

#[test]
fn cdo_and_cdc() {
    assert_eq!(tokenize("<!-- -->"), vec![Token::CDO, Token::WhiteSpace, Token::CDC]);
}

#[test]
fn function_and_closing_parenthesis() {
    assert_eq!(
        tokenize("a(b)"),
        vec![Token::Function("a".to_string()), ident("b"), Token::CloseParenthesis]
    );
}

#[test]
fn hex_escape_in_identifier() {
    assert_eq!(tokenize("\\41 B"), vec![ident("AB")]);
}
