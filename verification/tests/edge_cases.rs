use css_tokenizer::{NumericValue, Token, Tokenizer};

fn tokenize(input: &str) -> Vec<Token> {
    let mut tokenizer = Tokenizer::new(input);
    let mut tokens = Vec::new();
    while let Ok(token) = tokenizer.next() {
        tokens.push(token);
    }
    tokens
}

fn num(repr: &str, int_value: Option<i64>, signed: bool) -> NumericValue {
    NumericValue { repr: repr.to_string(), int_value, signed }
}

fn ident(name: &str) -> Token {
    Token::Ident(name.to_string())
}

fn string(text: &str) -> Token {
    Token::QuotedString(text.to_string())
}

fn url(text: &str) -> Token {
    Token::Url(text.to_string())
}

#[test]
fn empty_input_has_no_token() {
    assert_eq!(tokenize(""), vec![]);
}

#[test]
fn lone_backslash_is_replacement_identifier() {
    assert_eq!(tokenize("\\"), vec![ident("\u{FFFD}")]);
}

#[test]
fn url_with_only_whitespace() {
    assert_eq!(tokenize("url(   "), vec![url("")]);
    assert_eq!(tokenize("url("), vec![url("")]);
    assert_eq!(tokenize("url()"), vec![url("")]);
    assert_eq!(tokenize("Url( \t)"), vec![url("")]);
}

#[test]
fn comments_do_not_nest() {
    assert_eq!(tokenize("/* a /* b */ c"), vec![Token::WhiteSpace, ident("c")]);
}

#[test]
fn unterminated_comment_runs_to_the_end() {
    assert_eq!(tokenize("/* unterminated"), vec![]);
    assert_eq!(tokenize("/*/ a"), vec![]);
    assert_eq!(tokenize("a/*"), vec![ident("a")]);
    assert_eq!(tokenize("/* x *"), vec![]);
}

#[test]
fn comments_back_to_back() {
    assert_eq!(tokenize("a/**//* */b"), vec![ident("a"), ident("b")]);
    assert_eq!(tokenize("/***/a"), vec![ident("a")]);
}

#[test]
fn slash_alone_is_a_delimiter() {
    assert_eq!(tokenize("/"), vec![Token::Delim('/')]);
    assert_eq!(tokenize("/a"), vec![Token::Delim('/'), ident("a")]);
}

#[test]
fn integer_values_saturate() {
    assert_eq!(
        tokenize("99999999999999999999"),
        vec![Token::Number(num("99999999999999999999", Some(i64::MAX), false))]
    );
    assert_eq!(
        tokenize("-99999999999999999999"),
        vec![Token::Number(num("-99999999999999999999", Some(i64::MIN), true))]
    );
    assert_eq!(
        tokenize("9223372036854775807"),
        vec![Token::Number(num("9223372036854775807", Some(i64::MAX), false))]
    );
    assert_eq!(
        tokenize("9223372036854775808"),
        vec![Token::Number(num("9223372036854775808", Some(i64::MAX), false))]
    );
    assert_eq!(
        tokenize("-9223372036854775808"),
        vec![Token::Number(num("-9223372036854775808", Some(i64::MIN), true))]
    );
    assert_eq!(
        tokenize("-9223372036854775807"),
        vec![Token::Number(num("-9223372036854775807", Some(-9223372036854775807), true))]
    );
    assert_eq!(
        tokenize("+0012"),
        vec![Token::Number(num("0012", Some(12), true))]
    );
}

#[test]
fn nul_is_replaced() {
    assert_eq!(tokenize("a\0b"), vec![ident("a\u{FFFD}b")]);
    assert_eq!(tokenize("\0"), vec![ident("\u{FFFD}")]);
    assert_eq!(tokenize("'a\0'"), vec![string("a\u{FFFD}")]);
    assert_eq!(tokenize("url(a\0)"), vec![url("a\u{FFFD}")]);
}

#[test]
fn escapes_that_name_no_character() {
    assert_eq!(tokenize("\\110000 "), vec![ident("\u{FFFD}")]);
    assert_eq!(tokenize("\\0 "), vec![ident("\u{FFFD}")]);
    assert_eq!(tokenize("\\D800 x"), vec![ident("\u{FFFD}x")]);
    assert_eq!(tokenize("\\DFFF"), vec![ident("\u{FFFD}")]);
    assert_eq!(tokenize("\\10FFFF"), vec![ident("\u{10FFFF}")]);
    assert_eq!(tokenize("\\E000"), vec![ident("\u{E000}")]);
}

#[test]
fn hex_escape_terminators() {
    assert_eq!(tokenize("\\41\r\nB"), vec![ident("AB")]);
    assert_eq!(tokenize("\\41\rB"), vec![ident("AB")]);
    assert_eq!(tokenize("\\41\tB"), vec![ident("AB")]);
    assert_eq!(tokenize("\\41\nB"), vec![ident("AB")]);
    assert_eq!(tokenize("\\41\x0CB"), vec![ident("AB")]);
    assert_eq!(tokenize("\\41  B"), vec![ident("A"), Token::WhiteSpace, ident("B")]);
    assert_eq!(tokenize("\\41\r\r"), vec![ident("A"), Token::WhiteSpace]);
}

#[test]
fn hex_escape_takes_six_digits_at_most() {
    assert_eq!(tokenize("\\000041B"), vec![ident("AB")]);
    assert_eq!(tokenize("\\0000411"), vec![ident("A1")]);
    assert_eq!(tokenize("\\e9"), vec![ident("\u{e9}")]);
    assert_eq!(tokenize("\\E9g"), vec![ident("\u{e9}g")]);
}

#[test]
fn escape_of_other_characters() {
    assert_eq!(tokenize("\\g"), vec![ident("g")]);
    assert_eq!(tokenize("a\\(b"), vec![ident("a(b")]);
    assert_eq!(tokenize("\\\u{e9}"), vec![ident("\u{e9}")]);
    assert_eq!(tokenize("a\\"), vec![ident("a\u{FFFD}")]);
}

#[test]
fn backslash_before_newline() {
    assert_eq!(tokenize("\\\n"), vec![Token::Delim('\\'), Token::WhiteSpace]);
    assert_eq!(
        tokenize("a\\\nb"),
        vec![ident("a"), Token::Delim('\\'), Token::WhiteSpace, ident("b")]
    );
    assert_eq!(
        tokenize("-\\\n"),
        vec![Token::Delim('-'), Token::Delim('\\'), Token::WhiteSpace]
    );
    assert_eq!(
        tokenize("#\\\x0C"),
        vec![Token::Delim('#'), Token::Delim('\\'), Token::WhiteSpace]
    );
}

#[test]
fn unquoted_urls() {
    assert_eq!(tokenize("url(x)"), vec![url("x")]);
    assert_eq!(tokenize("URL(x)"), vec![url("x")]);
    assert_eq!(tokenize("uRl( x )y"), vec![url("x"), ident("y")]);
    assert_eq!(tokenize("url(x"), vec![url("x")]);
    assert_eq!(tokenize("url(x  "), vec![url("x")]);
    assert_eq!(tokenize("url(a\\)b)"), vec![url("a)b")]);
    assert_eq!(tokenize("url(a\\41 b)"), vec![url("aAb")]);
    assert_eq!(tokenize("url(\u{e9}\u{20ac})"), vec![url("\u{e9}\u{20ac}")]);
    assert_eq!(tokenize("url(a\\"), vec![url("a\u{FFFD}")]);
}

#[test]
fn quoted_urls() {
    assert_eq!(tokenize("url('x')"), vec![url("x")]);
    assert_eq!(tokenize("url(\"x"), vec![url("x")]);
    assert_eq!(tokenize("url('x'  "), vec![url("x")]);
    assert_eq!(tokenize("url('a)b')c"), vec![url("a)b"), ident("c")]);
}

#[test]
fn bad_urls() {
    assert_eq!(tokenize("url(a b)c"), vec![Token::BadUrl, ident("c")]);
    assert_eq!(tokenize("url(a\"b\\)c)d"), vec![Token::BadUrl, ident("d")]);
    assert_eq!(tokenize("url('x' y)z"), vec![Token::BadUrl, ident("z")]);
    assert_eq!(tokenize("url('a\nb')c"), vec![Token::BadUrl, ident("c")]);
    assert_eq!(tokenize("url(a(b)c"), vec![Token::BadUrl, ident("c")]);
    assert_eq!(tokenize("url(a'b"), vec![Token::BadUrl]);
    assert_eq!(tokenize("url(a\x01)b"), vec![Token::BadUrl, ident("b")]);
    assert_eq!(tokenize("url(a\x7F)b"), vec![Token::BadUrl, ident("b")]);
    assert_eq!(tokenize("url(a\x0B"), vec![Token::BadUrl]);
    assert_eq!(tokenize("url(a\"\\"), vec![Token::BadUrl]);
    assert_eq!(tokenize("url(a\"\\\u{e9})b"), vec![Token::BadUrl, ident("b")]);
}

#[test]
fn functions_that_are_no_url() {
    assert_eq!(
        tokenize("urls(x)"),
        vec![Token::Function("urls".to_string()), ident("x"), Token::CloseParenthesis]
    );
    assert_eq!(
        tokenize("ur(x"),
        vec![Token::Function("ur".to_string()), ident("x")]
    );
    assert_eq!(
        tokenize("\u{fc}rl("),
        vec![Token::Function("\u{fc}rl".to_string())]
    );
    assert_eq!(tokenize("url x"), vec![ident("url"), Token::WhiteSpace, ident("x")]);
}

#[test]
fn text_outside_ascii() {
    assert_eq!(tokenize("\u{e9}"), vec![ident("\u{e9}")]);
    assert_eq!(tokenize("a\u{20ac}\u{1F600}b"), vec![ident("a\u{20ac}\u{1F600}b")]);
    assert_eq!(tokenize("#\u{e9}"), vec![Token::IDHash("\u{e9}".to_string())]);
    assert_eq!(tokenize("-\u{e9}"), vec![ident("-\u{e9}")]);
    assert_eq!(tokenize("'\u{e9}\u{20ac}\u{1F600}'"), vec![string("\u{e9}\u{20ac}\u{1F600}")]);
    assert_eq!(tokenize("\u{80}\u{7FF}\u{800}\u{FFFF}\u{10000}\u{10FFFF}"),
        vec![ident("\u{80}\u{7FF}\u{800}\u{FFFF}\u{10000}\u{10FFFF}")]);
    assert_eq!(
        tokenize("1\u{e9}"),
        vec![Token::Dimension(num("1", Some(1), false), "\u{e9}".to_string())]
    );
    assert_eq!(
        tokenize("+\u{e9}."),
        vec![Token::Delim('+'), ident("\u{e9}"), Token::Delim('.')]
    );
    assert_eq!(
        tokenize("u\u{e9}+1"),
        vec![ident("u\u{e9}"), Token::Number(num("1", Some(1), true))]
    );
}

#[test]
fn at_keywords() {
    assert_eq!(tokenize("@media"), vec![Token::AtKeyword("media".to_string())]);
    assert_eq!(tokenize("@-x"), vec![Token::AtKeyword("-x".to_string())]);
    assert_eq!(tokenize("@ "), vec![Token::Delim('@'), Token::WhiteSpace]);
    assert_eq!(tokenize("@"), vec![Token::Delim('@')]);
    assert_eq!(
        tokenize("@1"),
        vec![Token::Delim('@'), Token::Number(num("1", Some(1), false))]
    );
    assert_eq!(tokenize("@-"), vec![Token::Delim('@'), Token::Delim('-')]);
}

#[test]
fn match_operators() {
    assert_eq!(
        tokenize("~=|=^=$=*=||"),
        vec![
            Token::IncludeMatch,
            Token::DashMatch,
            Token::PrefixMatch,
            Token::SuffixMatch,
            Token::SubstringMatch,
            Token::Column,
        ]
    );
    assert_eq!(
        tokenize("~|^$*"),
        vec![
            Token::Delim('~'),
            Token::Delim('|'),
            Token::Delim('^'),
            Token::Delim('$'),
            Token::Delim('*'),
        ]
    );
    assert_eq!(tokenize("|||"), vec![Token::Column, Token::Delim('|')]);
    assert_eq!(tokenize("=="), vec![Token::Delim('='), Token::Delim('=')]);
}

#[test]
fn brackets_and_punctuation() {
    assert_eq!(
        tokenize("(){}[]:;,"),
        vec![
            Token::ParenthesisBlock,
            Token::CloseParenthesis,
            Token::CurlyBracketBlock,
            Token::CloseCurlyBracket,
            Token::SquareBracketBlock,
            Token::CloseSquareBracket,
            Token::Colon,
            Token::Semicolon,
            Token::Comma,
        ]
    );
}

#[test]
fn other_ascii_characters_are_delimiters() {
    assert_eq!(tokenize("!"), vec![Token::Delim('!')]);
    assert_eq!(tokenize("%"), vec![Token::Delim('%')]);
    assert_eq!(tokenize(">"), vec![Token::Delim('>')]);
    assert_eq!(tokenize("\x01"), vec![Token::Delim('\x01')]);
    assert_eq!(tokenize("\x7F"), vec![Token::Delim('\x7F')]);
    assert_eq!(tokenize("`"), vec![Token::Delim('`')]);
}

#[test]
fn minus_sign() {
    assert_eq!(tokenize("-"), vec![Token::Delim('-')]);
    assert_eq!(tokenize("-->"), vec![Token::CDC]);
    assert_eq!(tokenize("--x"), vec![ident("--x")]);
    assert_eq!(tokenize("--"), vec![ident("--")]);
    assert_eq!(tokenize("-x"), vec![ident("-x")]);
    assert_eq!(tokenize("-_"), vec![ident("-_")]);
    assert_eq!(tokenize("-\\41"), vec![ident("-A")]);
    assert_eq!(tokenize("-1"), vec![Token::Number(num("-1", Some(-1), true))]);
    assert_eq!(tokenize("-.5"), vec![Token::Number(num("-.5", None, true))]);
    assert_eq!(tokenize("-."), vec![Token::Delim('-'), Token::Delim('.')]);
    assert_eq!(tokenize("- "), vec![Token::Delim('-'), Token::WhiteSpace]);
}

#[test]
fn plus_sign_and_dot() {
    assert_eq!(tokenize("+"), vec![Token::Delim('+')]);
    assert_eq!(tokenize("+a"), vec![Token::Delim('+'), ident("a")]);
    assert_eq!(tokenize("+1"), vec![Token::Number(num("1", Some(1), true))]);
    assert_eq!(tokenize("+.5"), vec![Token::Number(num(".5", None, true))]);
    assert_eq!(tokenize("+."), vec![Token::Delim('+'), Token::Delim('.')]);
    assert_eq!(tokenize("."), vec![Token::Delim('.')]);
    assert_eq!(tokenize(".5"), vec![Token::Number(num(".5", None, false))]);
    assert_eq!(
        tokenize(". 5"),
        vec![Token::Delim('.'), Token::WhiteSpace, Token::Number(num("5", Some(5), false))]
    );
}

#[test]
fn exponents() {
    assert_eq!(tokenize("1e3"), vec![Token::Number(num("1e3", None, false))]);
    assert_eq!(tokenize("1E-2"), vec![Token::Number(num("1E-2", None, false))]);
    assert_eq!(tokenize("1e+2"), vec![Token::Number(num("1e+2", None, false))]);
    assert_eq!(tokenize("1.5e10"), vec![Token::Number(num("1.5e10", None, false))]);
    assert_eq!(
        tokenize("1e"),
        vec![Token::Dimension(num("1", Some(1), false), "e".to_string())]
    );
    assert_eq!(
        tokenize("1e+"),
        vec![Token::Dimension(num("1", Some(1), false), "e".to_string()), Token::Delim('+')]
    );
    assert_eq!(
        tokenize("1e-"),
        vec![Token::Dimension(num("1", Some(1), false), "e-".to_string())]
    );
    assert_eq!(
        tokenize("1e3px"),
        vec![Token::Dimension(num("1e3", None, false), "px".to_string())]
    );
    assert_eq!(tokenize("1e3%"), vec![Token::Percentage(num("1e3", None, false))]);
}

#[test]
fn fractions() {
    assert_eq!(
        tokenize("1.5.5"),
        vec![Token::Number(num("1.5", None, false)), Token::Number(num(".5", None, false))]
    );
    assert_eq!(
        tokenize("1."),
        vec![Token::Number(num("1", Some(1), false)), Token::Delim('.')]
    );
    assert_eq!(
        tokenize("1.a"),
        vec![Token::Number(num("1", Some(1), false)), Token::Delim('.'), ident("a")]
    );
    assert_eq!(tokenize("0.0"), vec![Token::Number(num("0.0", None, false))]);
}

#[test]
fn dimensions() {
    assert_eq!(
        tokenize("1-a"),
        vec![Token::Dimension(num("1", Some(1), false), "-a".to_string())]
    );
    assert_eq!(
        tokenize("1--"),
        vec![Token::Dimension(num("1", Some(1), false), "--".to_string())]
    );
    assert_eq!(
        tokenize("1-"),
        vec![Token::Number(num("1", Some(1), false)), Token::Delim('-')]
    );
    assert_eq!(
        tokenize("2\\70x"),
        vec![Token::Dimension(num("2", Some(2), false), "px".to_string())]
    );
    assert_eq!(
        tokenize("1_"),
        vec![Token::Dimension(num("1", Some(1), false), "_".to_string())]
    );
    assert_eq!(
        tokenize("1-2"),
        vec![Token::Number(num("1", Some(1), false)), Token::Number(num("-2", Some(-2), true))]
    );
}

#[test]
fn unicode_ranges() {
    assert_eq!(tokenize("u+??????"), vec![Token::UnicodeRange(0, 0xFFFFFF)]);
    assert_eq!(tokenize("U+?"), vec![Token::UnicodeRange(0, 0xF)]);
    assert_eq!(tokenize("u+a"), vec![Token::UnicodeRange(0xA, 0xA)]);
    assert_eq!(tokenize("U+F?"), vec![Token::UnicodeRange(0xF0, 0xFF)]);
    assert_eq!(tokenize("U+12345?"), vec![Token::UnicodeRange(0x123450, 0x12345F)]);
    assert_eq!(tokenize("U+FFFFFF"), vec![Token::UnicodeRange(0xFFFFFF, 0xFFFFFF)]);
    assert_eq!(
        tokenize("U+1234567"),
        vec![Token::UnicodeRange(0x123456, 0x123456), Token::Number(num("7", Some(7), false))]
    );
    assert_eq!(
        tokenize("U+123456?"),
        vec![Token::UnicodeRange(0x123456, 0x123456), Token::Delim('?')]
    );
    assert_eq!(tokenize("U+12-"), vec![Token::UnicodeRange(0x12, 0x12)]);
    assert_eq!(
        tokenize("U+12-z"),
        vec![Token::UnicodeRange(0x12, 0x12), ident("z")]
    );
    assert_eq!(tokenize("U+0-10FFFF"), vec![Token::UnicodeRange(0, 0x10FFFF)]);
    assert_eq!(
        tokenize("U+0-1234567"),
        vec![Token::UnicodeRange(0, 0x123456), Token::Number(num("7", Some(7), false))]
    );
    assert_eq!(
        tokenize("u+1?-5"),
        vec![Token::UnicodeRange(0x10, 0x1F), Token::Number(num("-5", Some(-5), true))]
    );
    assert_eq!(tokenize("U+aBcDeF"), vec![Token::UnicodeRange(0xABCDEF, 0xABCDEF)]);
}

#[test]
fn unicode_range_written_downwards() {
    assert_eq!(tokenize("U+20-10"), vec![Token::UnicodeRange(0x20, 0x10)]);
}

#[test]
fn letter_u_without_range() {
    assert_eq!(tokenize("U+z"), vec![ident("U"), Token::Delim('+'), ident("z")]);
    assert_eq!(tokenize("U+"), vec![ident("U"), Token::Delim('+')]);
    assert_eq!(tokenize("u"), vec![ident("u")]);
    assert_eq!(tokenize("unit"), vec![ident("unit")]);
    assert_eq!(tokenize("u-1"), vec![ident("u-1")]);
}

#[test]
fn strings() {
    assert_eq!(tokenize("''"), vec![string("")]);
    assert_eq!(tokenize("\"a'b\""), vec![string("a'b")]);
    assert_eq!(tokenize("'a\"b'"), vec![string("a\"b")]);
    assert_eq!(tokenize("'a"), vec![string("a")]);
    assert_eq!(tokenize("'a\\"), vec![string("a")]);
    assert_eq!(tokenize("'a\\\r\nb'"), vec![string("ab")]);
    assert_eq!(tokenize("'a\\\rb'"), vec![string("ab")]);
    assert_eq!(tokenize("'a\\\x0Cb'"), vec![string("ab")]);
    assert_eq!(tokenize("'\\41 b'"), vec![string("Ab")]);
    assert_eq!(tokenize("'a\\'b'"), vec![string("a'b")]);
    assert_eq!(tokenize("'a'b"), vec![string("a"), ident("b")]);
}

#[test]
fn bad_strings() {
    assert_eq!(
        tokenize("\"a\rb"),
        vec![Token::BadString, Token::WhiteSpace, ident("b")]
    );
    assert_eq!(tokenize("'\x0C"), vec![Token::BadString, Token::WhiteSpace]);
}

#[test]
fn cdo_needs_all_four_characters() {
    assert_eq!(
        tokenize("<!-"),
        vec![Token::Delim('<'), Token::Delim('!'), Token::Delim('-')]
    );
    assert_eq!(tokenize("<"), vec![Token::Delim('<')]);
    assert_eq!(tokenize("<!--x"), vec![Token::CDO, ident("x")]);
}

#[test]
fn hash_bodies() {
    assert_eq!(tokenize("#"), vec![Token::Delim('#')]);
    assert_eq!(tokenize("#1"), vec![Token::Hash("1".to_string())]);
    assert_eq!(tokenize("#-"), vec![Token::Hash("-".to_string())]);
    assert_eq!(tokenize("#-1"), vec![Token::Hash("-1".to_string())]);
    assert_eq!(tokenize("#--"), vec![Token::IDHash("--".to_string())]);
    assert_eq!(tokenize("#a1"), vec![Token::IDHash("a1".to_string())]);
    assert_eq!(tokenize("#_"), vec![Token::IDHash("_".to_string())]);
    assert_eq!(tokenize("#\\41"), vec![Token::IDHash("A".to_string())]);
    assert_eq!(tokenize("#\0"), vec![Token::IDHash("\u{FFFD}".to_string())]);
    assert_eq!(tokenize("# "), vec![Token::Delim('#'), Token::WhiteSpace]);
    assert_eq!(tokenize("##"), vec![Token::Delim('#'), Token::Delim('#')]);
}

#[test]
fn every_kind_of_whitespace() {
    assert_eq!(tokenize(" \t\n\r\x0C"), vec![Token::WhiteSpace]);
    assert_eq!(tokenize("a\rb"), vec![ident("a"), Token::WhiteSpace, ident("b")]);
    assert_eq!(tokenize("\x0B"), vec![Token::Delim('\x0B')]);
}
