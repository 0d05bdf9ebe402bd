use vstd::prelude::*;
use vstd::string::StringExecFns;

verus! {

/// A terminal of the template language. Only `RawString` carries a payload;
/// every other kind has one fixed surface text.
#[derive(Debug, PartialEq, Eq)]
pub enum Token {
    RawString(String),
    Request,
    WorkerResponse,
    InterpolationStart,
    OpenParen,
    CloseParen,
    OpenSquareBracket,
    ClosedSquareBracket,
    ClosedCurlyBrace,
    Dot,
    If,
    Then,
    Else,
    EqualTo,
    GreaterThan,
    LessThan,
    GreaterThanOrEqualTo,
    LessThanOrEqualTo,
    Space,
    NewLine,
}

/// The mathematical value of a [`Token`].
pub enum TokenView {
    RawString(Seq<char>),
    Request,
    WorkerResponse,
    InterpolationStart,
    OpenParen,
    CloseParen,
    OpenSquareBracket,
    ClosedSquareBracket,
    ClosedCurlyBrace,
    Dot,
    If,
    Then,
    Else,
    EqualTo,
    GreaterThan,
    LessThan,
    GreaterThanOrEqualTo,
    LessThanOrEqualTo,
    Space,
    NewLine,
}

impl TokenView {
    /// The text that the token stands for in a template.
    pub open spec fn text(self) -> Seq<char> {
        match self {
            TokenView::RawString(s) => s,
            TokenView::Request => seq!['r', 'e', 'q', 'u', 'e', 's', 't'],
            TokenView::WorkerResponse => seq![
                'w', 'o', 'r', 'k', 'e', 'r', '.', 'r', 'e', 's', 'p', 'o', 'n', 's', 'e',
            ],
            TokenView::InterpolationStart => seq!['$', '{'],
            TokenView::OpenParen => seq!['('],
            TokenView::CloseParen => seq![')'],
            TokenView::OpenSquareBracket => seq!['['],
            TokenView::ClosedSquareBracket => seq![']'],
            TokenView::ClosedCurlyBrace => seq!['}'],
            TokenView::Dot => seq!['.'],
            TokenView::If => seq!['i', 'f'],
            TokenView::Then => seq!['t', 'h', 'e', 'n'],
            TokenView::Else => seq!['e', 'l', 's', 'e'],
            TokenView::EqualTo => seq!['=', '='],
            TokenView::GreaterThan => seq!['>'],
            TokenView::LessThan => seq!['<'],
            TokenView::GreaterThanOrEqualTo => seq!['>', '='],
            TokenView::LessThanOrEqualTo => seq!['<', '='],
            TokenView::Space => seq![' '],
            TokenView::NewLine => seq!['\n'],
        }
    }

    /// The name of the token's kind, as it is shown in messages.
    pub open spec fn kind_name(self) -> Seq<char> {
        match self {
            TokenView::RawString(_) => "RawString"@,
            TokenView::Request => "Request"@,
            TokenView::WorkerResponse => "WorkerResponse"@,
            TokenView::InterpolationStart => "InterpolationStart"@,
            TokenView::OpenParen => "OpenParen"@,
            TokenView::CloseParen => "CloseParen"@,
            TokenView::OpenSquareBracket => "OpenSquareBracket"@,
            TokenView::ClosedSquareBracket => "ClosedSquareBracket"@,
            TokenView::ClosedCurlyBrace => "ClosedCurlyBrace"@,
            TokenView::Dot => "Dot"@,
            TokenView::If => "If"@,
            TokenView::Then => "Then"@,
            TokenView::Else => "Else"@,
            TokenView::EqualTo => "EqualTo"@,
            TokenView::GreaterThan => "GreaterThan"@,
            TokenView::LessThan => "LessThan"@,
            TokenView::GreaterThanOrEqualTo => "GreaterThanOrEqualTo"@,
            TokenView::LessThanOrEqualTo => "LessThanOrEqualTo"@,
            TokenView::Space => "Space"@,
            TokenView::NewLine => "NewLine"@,
        }
    }

    /// Whether two tokens are of one kind. The payload of a `RawString` is
    /// not consulted.
    pub open spec fn same_kind(self, other: TokenView) -> bool {
        match (self, other) {
            (TokenView::RawString(_), TokenView::RawString(_)) => true,
            (TokenView::RawString(_), _) => false,
            (_, TokenView::RawString(_)) => false,
            (a, b) => a == b,
        }
    }

    /// Whether the token is white space, which code regions pass over.
    pub open spec fn is_blank(self) -> bool {
        self is Space || self is NewLine
    }

    /// The token as literal text: its surface text as a `RawString`. Only the
    /// marker that opens a code region keeps its meaning.
    pub open spec fn as_raw_string_token(self) -> TokenView {
        match self {
            TokenView::InterpolationStart => TokenView::InterpolationStart,
            t => TokenView::RawString(t.text()),
        }
    }
}

impl View for Token {
    type V = TokenView;

    open spec fn view(&self) -> TokenView {
        match self {
            Token::RawString(s) => TokenView::RawString(s@),
            Token::Request => TokenView::Request,
            Token::WorkerResponse => TokenView::WorkerResponse,
            Token::InterpolationStart => TokenView::InterpolationStart,
            Token::OpenParen => TokenView::OpenParen,
            Token::CloseParen => TokenView::CloseParen,
            Token::OpenSquareBracket => TokenView::OpenSquareBracket,
            Token::ClosedSquareBracket => TokenView::ClosedSquareBracket,
            Token::ClosedCurlyBrace => TokenView::ClosedCurlyBrace,
            Token::Dot => TokenView::Dot,
            Token::If => TokenView::If,
            Token::Then => TokenView::Then,
            Token::Else => TokenView::Else,
            Token::EqualTo => TokenView::EqualTo,
            Token::GreaterThan => TokenView::GreaterThan,
            Token::LessThan => TokenView::LessThan,
            Token::GreaterThanOrEqualTo => TokenView::GreaterThanOrEqualTo,
            Token::LessThanOrEqualTo => TokenView::LessThanOrEqualTo,
            Token::Space => TokenView::Space,
            Token::NewLine => TokenView::NewLine,
        }
    }
}

/// The views of a sequence of tokens, one for one.
pub open spec fn token_views(tokens: Seq<Token>) -> Seq<TokenView> {
    Seq::new(tokens.len(), |i: int| tokens[i]@)
}

/// The surface text of a sequence of tokens: their texts, joined in order.
pub open spec fn tokens_text(tokens: Seq<TokenView>) -> Seq<char>
    decreases tokens.len(),
{
    if tokens.len() == 0 {
        Seq::empty()
    } else {
        tokens[0].text() + tokens_text(tokens.drop_first())
    }
}

impl Clone for Token {
    fn clone(&self) -> (r: Token)
        ensures
            r@ == self@,
    {
        match self {
            Token::RawString(s) => Token::RawString(s.clone()),
            Token::Request => Token::Request,
            Token::WorkerResponse => Token::WorkerResponse,
            Token::InterpolationStart => Token::InterpolationStart,
            Token::OpenParen => Token::OpenParen,
            Token::CloseParen => Token::CloseParen,
            Token::OpenSquareBracket => Token::OpenSquareBracket,
            Token::ClosedSquareBracket => Token::ClosedSquareBracket,
            Token::ClosedCurlyBrace => Token::ClosedCurlyBrace,
            Token::Dot => Token::Dot,
            Token::If => Token::If,
            Token::Then => Token::Then,
            Token::Else => Token::Else,
            Token::EqualTo => Token::EqualTo,
            Token::GreaterThan => Token::GreaterThan,
            Token::LessThan => Token::LessThan,
            Token::GreaterThanOrEqualTo => Token::GreaterThanOrEqualTo,
            Token::LessThanOrEqualTo => Token::LessThanOrEqualTo,
            Token::Space => Token::Space,
            Token::NewLine => Token::NewLine,
        }
    }
}

impl Token {
    /// The token's surface text.
    pub fn to_string(&self) -> (r: String)
        ensures
            r@ == self@.text(),
    {
        proof {
            reveal_strlit("request");
            reveal_strlit("worker.response");
            reveal_strlit("${");
            reveal_strlit("(");
            reveal_strlit(")");
            reveal_strlit("[");
            reveal_strlit("]");
            reveal_strlit("}");
            reveal_strlit(".");
            reveal_strlit("if");
            reveal_strlit("then");
            reveal_strlit("else");
            reveal_strlit("==");
            reveal_strlit(">");
            reveal_strlit("<");
            reveal_strlit(">=");
            reveal_strlit("<=");
            reveal_strlit(" ");
            reveal_strlit("\n");
        }
        let r = match self {
            Token::RawString(s) => s.clone(),
            Token::Request => String::from_str("request"),
            Token::WorkerResponse => String::from_str("worker.response"),
            Token::InterpolationStart => String::from_str("${"),
            Token::OpenParen => String::from_str("("),
            Token::CloseParen => String::from_str(")"),
            Token::OpenSquareBracket => String::from_str("["),
            Token::ClosedSquareBracket => String::from_str("]"),
            Token::ClosedCurlyBrace => String::from_str("}"),
            Token::Dot => String::from_str("."),
            Token::If => String::from_str("if"),
            Token::Then => String::from_str("then"),
            Token::Else => String::from_str("else"),
            Token::EqualTo => String::from_str("=="),
            Token::GreaterThan => String::from_str(">"),
            Token::LessThan => String::from_str("<"),
            Token::GreaterThanOrEqualTo => String::from_str(">="),
            Token::LessThanOrEqualTo => String::from_str("<="),
            Token::Space => String::from_str(" "),
            Token::NewLine => String::from_str("\n"),
        };
        assert(r@ =~= self@.text());
        r
    }

    /// The name of the token's kind.
    pub fn kind_name(&self) -> (r: String)
        ensures
            r@ == self@.kind_name(),
    {
        match self {
            Token::RawString(_) => String::from_str("RawString"),
            Token::Request => String::from_str("Request"),
            Token::WorkerResponse => String::from_str("WorkerResponse"),
            Token::InterpolationStart => String::from_str("InterpolationStart"),
            Token::OpenParen => String::from_str("OpenParen"),
            Token::CloseParen => String::from_str("CloseParen"),
            Token::OpenSquareBracket => String::from_str("OpenSquareBracket"),
            Token::ClosedSquareBracket => String::from_str("ClosedSquareBracket"),
            Token::ClosedCurlyBrace => String::from_str("ClosedCurlyBrace"),
            Token::Dot => String::from_str("Dot"),
            Token::If => String::from_str("If"),
            Token::Then => String::from_str("Then"),
            Token::Else => String::from_str("Else"),
            Token::EqualTo => String::from_str("EqualTo"),
            Token::GreaterThan => String::from_str("GreaterThan"),
            Token::LessThan => String::from_str("LessThan"),
            Token::GreaterThanOrEqualTo => String::from_str("GreaterThanOrEqualTo"),
            Token::LessThanOrEqualTo => String::from_str("LessThanOrEqualTo"),
            Token::Space => String::from_str("Space"),
            Token::NewLine => String::from_str("NewLine"),
        }
    }

    /// Whether `self` and `other` are of one kind.
    pub fn same_kind(&self, other: &Token) -> (r: bool)
        ensures
            r == self@.same_kind(other@),
    {
        match (self, other) {
            (Token::RawString(_), Token::RawString(_)) => true,
            (Token::Request, Token::Request) => true,
            (Token::WorkerResponse, Token::WorkerResponse) => true,
            (Token::InterpolationStart, Token::InterpolationStart) => true,
            (Token::OpenParen, Token::OpenParen) => true,
            (Token::CloseParen, Token::CloseParen) => true,
            (Token::OpenSquareBracket, Token::OpenSquareBracket) => true,
            (Token::ClosedSquareBracket, Token::ClosedSquareBracket) => true,
            (Token::ClosedCurlyBrace, Token::ClosedCurlyBrace) => true,
            (Token::Dot, Token::Dot) => true,
            (Token::If, Token::If) => true,
            (Token::Then, Token::Then) => true,
            (Token::Else, Token::Else) => true,
            (Token::EqualTo, Token::EqualTo) => true,
            (Token::GreaterThan, Token::GreaterThan) => true,
            (Token::LessThan, Token::LessThan) => true,
            (Token::GreaterThanOrEqualTo, Token::GreaterThanOrEqualTo) => true,
            (Token::LessThanOrEqualTo, Token::LessThanOrEqualTo) => true,
            (Token::Space, Token::Space) => true,
            (Token::NewLine, Token::NewLine) => true,
            _ => false,
        }
    }

    /// Whether the token is white space.
    pub fn is_blank(&self) -> (r: bool)
        ensures
            r == self@.is_blank(),
    {
        match self {
            Token::Space => true,
            Token::NewLine => true,
            _ => false,
        }
    }

    /// The token as literal text: see [`TokenView::as_raw_string_token`].
    pub fn as_raw_string_token(&self) -> (r: Token)
        ensures
            r@ == self@.as_raw_string_token(),
    {
        match self {
            Token::InterpolationStart => Token::InterpolationStart,
            t => Token::RawString(t.to_string()),
        }
    }
}

} // verus!
