//! The tokens of CSS Syntax Level 3 and their mathematical views.
use vstd::prelude::*;

verus! {

/// A numeric literal as it was written, with what the tokenizer learned
/// about it.
#[derive(Clone, Debug, PartialEq, Eq)]
pub struct NumericValue {
    /// The literal's text, without a leading `+`. It matches
    /// `-? ( digit+ ( . digit+ )? | . digit+ ) ( [eE] [+-]? digit+ )?`,
    /// so it can be parsed as a decimal floating-point number as it stands.
    pub repr: String,
    /// The literal's value when it has neither a fraction nor an exponent,
    /// saturated to the range of `i64`; `None` otherwise.
    pub int_value: Option<i64>,
    /// Whether the literal began with `+` or `-`.
    pub signed: bool,
}

/// The view of a [`NumericValue`].
pub ghost struct NumericView {
    pub repr: Seq<char>,
    pub int_value: Option<i64>,
    pub signed: bool,
}

impl View for NumericValue {
    type V = NumericView;

    open spec fn view(&self) -> NumericView {
        NumericView { repr: self.repr@, int_value: self.int_value, signed: self.signed }
    }
}

/// One token. Strings are decoded copies: escapes are resolved and NUL is
/// replaced by U+FFFD.
#[derive(Clone, Debug, PartialEq, Eq)]
pub enum Token {
    Ident(String),
    AtKeyword(String),
    Hash(String),
    /// A hash whose body would start an identifier.
    IDHash(String),
    QuotedString(String),
    Url(String),
    Delim(char),
    Number(NumericValue),
    Percentage(NumericValue),
    Dimension(NumericValue, String),
    /// First and last code point of the range.
    UnicodeRange(u32, u32),
    WhiteSpace,
    /// `:`
    Colon,
    /// `;`
    Semicolon,
    /// `,`
    Comma,
    /// `~=`
    IncludeMatch,
    /// `|=`
    DashMatch,
    /// `^=`
    PrefixMatch,
    /// `$=`
    SuffixMatch,
    /// `*=`
    SubstringMatch,
    /// `||`
    Column,
    /// `<!--`
    CDO,
    /// `-->`
    CDC,
    /// A name directly followed by `(`.
    Function(String),
    /// `(`
    ParenthesisBlock,
    /// `[`
    SquareBracketBlock,
    /// `{`
    CurlyBracketBlock,
    BadUrl,
    BadString,
    /// `)`
    CloseParenthesis,
    /// `]`
    CloseSquareBracket,
    /// `}`
    CloseCurlyBracket,
}

/// The view of a [`Token`]: the same cases over sequences of characters.
pub ghost enum TokenView {
    Ident(Seq<char>),
    AtKeyword(Seq<char>),
    Hash(Seq<char>),
    IDHash(Seq<char>),
    QuotedString(Seq<char>),
    Url(Seq<char>),
    Delim(char),
    Number(NumericView),
    Percentage(NumericView),
    Dimension(NumericView, Seq<char>),
    UnicodeRange(u32, u32),
    WhiteSpace,
    Colon,
    Semicolon,
    Comma,
    IncludeMatch,
    DashMatch,
    PrefixMatch,
    SuffixMatch,
    SubstringMatch,
    Column,
    CDO,
    CDC,
    Function(Seq<char>),
    ParenthesisBlock,
    SquareBracketBlock,
    CurlyBracketBlock,
    BadUrl,
    BadString,
    CloseParenthesis,
    CloseSquareBracket,
    CloseCurlyBracket,
}

impl View for Token {
    type V = TokenView;

    open spec fn view(&self) -> TokenView {
        match self {
            Token::Ident(s) => TokenView::Ident(s@),
            Token::AtKeyword(s) => TokenView::AtKeyword(s@),
            Token::Hash(s) => TokenView::Hash(s@),
            Token::IDHash(s) => TokenView::IDHash(s@),
            Token::QuotedString(s) => TokenView::QuotedString(s@),
            Token::Url(s) => TokenView::Url(s@),
            Token::Delim(c) => TokenView::Delim(*c),
            Token::Number(v) => TokenView::Number(v@),
            Token::Percentage(v) => TokenView::Percentage(v@),
            Token::Dimension(v, unit) => TokenView::Dimension(v@, unit@),
            Token::UnicodeRange(start, end) => TokenView::UnicodeRange(*start, *end),
            Token::WhiteSpace => TokenView::WhiteSpace,
            Token::Colon => TokenView::Colon,
            Token::Semicolon => TokenView::Semicolon,
            Token::Comma => TokenView::Comma,
            Token::IncludeMatch => TokenView::IncludeMatch,
            Token::DashMatch => TokenView::DashMatch,
            Token::PrefixMatch => TokenView::PrefixMatch,
            Token::SuffixMatch => TokenView::SuffixMatch,
            Token::SubstringMatch => TokenView::SubstringMatch,
            Token::Column => TokenView::Column,
            Token::CDO => TokenView::CDO,
            Token::CDC => TokenView::CDC,
            Token::Function(s) => TokenView::Function(s@),
            Token::ParenthesisBlock => TokenView::ParenthesisBlock,
            Token::SquareBracketBlock => TokenView::SquareBracketBlock,
            Token::CurlyBracketBlock => TokenView::CurlyBracketBlock,
            Token::BadUrl => TokenView::BadUrl,
            Token::BadString => TokenView::BadString,
            Token::CloseParenthesis => TokenView::CloseParenthesis,
            Token::CloseSquareBracket => TokenView::CloseSquareBracket,
            Token::CloseCurlyBracket => TokenView::CloseCurlyBracket,
        }
    }
}

} // verus!
