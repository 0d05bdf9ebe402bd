use crate::cursor::TokenCursor;
use crate::token::{token_views, tokens_text, Token, TokenView};
use vstd::prelude::*;
use vstd::string::StrSliceExecFns;
use vstd::string::StringExecFns;

verus! {

/// The characters that always end a run of raw text: each is a token by
/// itself, or the first character of one.
pub open spec fn is_delimiter(c: char) -> bool {
    c == '}' || c == '(' || c == ')' || c == '[' || c == ']' || c == '.' || c == '>' || c == '<'
        || c == ' ' || c == '\n'
}

/// Whether `s` holds `word` at position `i`.
pub open spec fn holds_at(s: Seq<char>, i: int, word: Seq<char>) -> bool {
    0 <= i && i + word.len() <= s.len() && s.subrange(i, i + word.len()) == word
}

/// Whether position `i` of `s` holds a character of raw text: one that is no
/// delimiter and does not begin `${` or `==`. A `$`, `{` or `=` that stands
/// alone is raw text.
pub open spec fn raw_at(s: Seq<char>, i: int) -> bool {
    &&& 0 <= i < s.len()
    &&& !is_delimiter(s[i])
    &&& !holds_at(s, i, TokenView::InterpolationStart.text())
    &&& !holds_at(s, i, TokenView::EqualTo.text())
}

/// Whether the keyword `word` stands at position `i` of `s` as a whole word:
/// no raw text follows it directly.
pub open spec fn keyword_at(s: Seq<char>, i: int, word: TokenView) -> bool {
    holds_at(s, i, word.text()) && !raw_at(s, i + word.text().len())
}

/// The end of the run of raw text that begins at `i`: the first position from
/// `i` on that holds no raw text.
pub open spec fn raw_end(s: Seq<char>, i: int) -> int
    decreases s.len() - i,
{
    if raw_at(s, i) {
        raw_end(s, i + 1)
    } else {
        i
    }
}

/// The token that begins at position `i` of `s`. Punctuation of two
/// characters comes before keywords, keywords before punctuation of one
/// character, and raw text takes what is left, as far as it reaches.
pub open spec fn token_at(s: Seq<char>, i: int) -> TokenView {
    if holds_at(s, i, TokenView::InterpolationStart.text()) {
        TokenView::InterpolationStart
    } else if holds_at(s, i, TokenView::GreaterThanOrEqualTo.text()) {
        TokenView::GreaterThanOrEqualTo
    } else if holds_at(s, i, TokenView::LessThanOrEqualTo.text()) {
        TokenView::LessThanOrEqualTo
    } else if holds_at(s, i, TokenView::EqualTo.text()) {
        TokenView::EqualTo
    } else if keyword_at(s, i, TokenView::WorkerResponse) {
        TokenView::WorkerResponse
    } else if keyword_at(s, i, TokenView::Request) {
        TokenView::Request
    } else if keyword_at(s, i, TokenView::If) {
        TokenView::If
    } else if keyword_at(s, i, TokenView::Then) {
        TokenView::Then
    } else if keyword_at(s, i, TokenView::Else) {
        TokenView::Else
    } else if s[i] == '}' {
        TokenView::ClosedCurlyBrace
    } else if s[i] == '(' {
        TokenView::OpenParen
    } else if s[i] == ')' {
        TokenView::CloseParen
    } else if s[i] == '[' {
        TokenView::OpenSquareBracket
    } else if s[i] == ']' {
        TokenView::ClosedSquareBracket
    } else if s[i] == '.' {
        TokenView::Dot
    } else if s[i] == '>' {
        TokenView::GreaterThan
    } else if s[i] == '<' {
        TokenView::LessThan
    } else if s[i] == ' ' {
        TokenView::Space
    } else if s[i] == '\n' {
        TokenView::NewLine
    } else {
        TokenView::RawString(s.subrange(i, raw_end(s, i)))
    }
}

/// The tokens of `s` from position `i` on.
pub open spec fn tokens_from(s: Seq<char>, i: int) -> Seq<TokenView>
    decreases s.len() - i,
{
    if 0 <= i < s.len() {
        proof {
            lemma_token_at(s, i);
        }
        seq![token_at(s, i)] + tokens_from(s, i + token_at(s, i).text().len())
    } else {
        Seq::empty()
    }
}

/// The tokens of a template.
pub open spec fn tokens_of(s: Seq<char>) -> Seq<TokenView> {
    tokens_from(s, 0)
}

/// A run of raw text ends at or after its beginning and within the text, and
/// is not empty where it begins on raw text.
pub proof fn lemma_raw_end(s: Seq<char>, i: int)
    requires
        0 <= i <= s.len(),
    ensures
        i <= raw_end(s, i) <= s.len(),
        raw_at(s, i) ==> i < raw_end(s, i),
        !raw_at(s, raw_end(s, i)),
        forall|k: int| i <= k < raw_end(s, i) ==> raw_at(s, k),
    decreases s.len() - i,
{
    if raw_at(s, i) {
        lemma_raw_end(s, i + 1);
    }
}

/// The token at a position of the text is not empty, and the text holds its
/// surface text at that position.
pub proof fn lemma_token_at(s: Seq<char>, i: int)
    requires
        0 <= i < s.len(),
    ensures
        token_at(s, i).text().len() >= 1,
        holds_at(s, i, token_at(s, i).text()),
{
    lemma_raw_end(s, i);
    let t = token_at(s, i);
    if t is RawString {
        assert(raw_at(s, i));
    } else if t is InterpolationStart || t is GreaterThanOrEqualTo || t is LessThanOrEqualTo
        || t is EqualTo || t is WorkerResponse || t is Request || t is If || t is Then
        || t is Else {
    } else {
        assert(s.subrange(i, i + 1) =~= seq![s[i]]);
    }
}

/// Tokenising loses nothing: the surface text of the tokens from `i` on is
/// the text from `i` on.
pub proof fn lemma_tokens_text_from(s: Seq<char>, i: int)
    requires
        0 <= i <= s.len(),
    ensures
        tokens_text(tokens_from(s, i)) == s.subrange(i, s.len() as int),
    decreases s.len() - i,
{
    if i < s.len() {
        lemma_token_at(s, i);
        let t = token_at(s, i);
        let n = t.text().len() as int;
        lemma_tokens_text_from(s, i + n);
        let rest = tokens_from(s, i + n);
        let all = seq![t] + rest;
        assert(all.drop_first() =~= rest);
        assert(tokens_text(all) == t.text() + tokens_text(rest));
        assert(s.subrange(i, i + n) + s.subrange(i + n, s.len() as int) =~= s.subrange(
            i,
            s.len() as int,
        ));
    } else {
        assert(s.subrange(i, s.len() as int) =~= Seq::<char>::empty());
    }
}

/// The surface text of the tokens of a template is the template.
pub proof fn lemma_tokens_text(s: Seq<char>)
    ensures
        tokens_text(tokens_of(s)) == s,
{
    lemma_tokens_text_from(s, 0);
    assert(s.subrange(0, s.len() as int) =~= s);
}

/// The characters of `input`, in order.
fn chars_of(input: &str) -> (r: Vec<char>)
    ensures
        r@ == input@,
{
    let n = input.unicode_len();
    let mut r: Vec<char> = Vec::new();
    let mut i: usize = 0;
    while i < n
        invariant
            n == input@.len(),
            i <= n,
            r@ == input@.subrange(0, i as int),
        decreases n - i,
    {
        let c = input.get_char(i);
        r.push(c);
        i = i + 1;
        assert(r@ =~= input@.subrange(0, i as int));
    }
    assert(input@.subrange(0, n as int) =~= input@);
    r
}

fn is_delimiter_char(c: char) -> (r: bool)
    ensures
        r == is_delimiter(c),
{
    c == '}' || c == '(' || c == ')' || c == '[' || c == ']' || c == '.' || c == '>' || c == '<'
        || c == ' ' || c == '\n'
}

/// Whether `chars` holds the two characters `a`, `b` at position `i`.
fn holds_pair(chars: &Vec<char>, i: usize, a: char, b: char) -> (r: bool)
    ensures
        r == holds_at(chars@, i as int, seq![a, b]),
{
    let ghost word = seq![a, b];
    if i < chars.len() && chars.len() - i >= 2 {
        let r = chars[i] == a && chars[i + 1] == b;
        proof {
            let part = chars@.subrange(i as int, i + 2);
            if r {
                assert(part =~= word);
            } else {
                assert(part[0] == chars@[i as int]);
                assert(part[1] == chars@[i + 1]);
                assert(word[0] == a && word[1] == b);
            }
        }
        r
    } else {
        false
    }
}

/// Whether `chars` holds `word` at position `i`.
fn holds_word(chars: &Vec<char>, i: usize, word: &Vec<char>) -> (r: bool)
    ensures
        r == holds_at(chars@, i as int, word@),
{
    let n = word.len();
    if i > chars.len() || chars.len() - i < n {
        return false;
    }
    let mut k: usize = 0;
    while k < n
        invariant
            n == word@.len(),
            i + n <= chars@.len(),
            chars@.len() <= usize::MAX,
            k <= n,
            chars@.subrange(i as int, i + k) == word@.subrange(0, k as int),
        decreases n - k,
    {
        if chars[i + k] != word[k] {
            proof {
                let part = chars@.subrange(i as int, i + n);
                assert(part[k as int] == chars@[i + k]);
            }
            return false;
        }
        k = k + 1;
        assert(chars@.subrange(i as int, i + k) =~= word@.subrange(0, k as int));
    }
    assert(word@.subrange(0, n as int) =~= word@);
    true
}

/// Whether position `i` of `chars` holds raw text.
fn raw_at_exec(chars: &Vec<char>, i: usize) -> (r: bool)
    ensures
        r == raw_at(chars@, i as int),
{
    if i >= chars.len() {
        return false;
    }
    let c = chars[i];
    if is_delimiter_char(c) {
        return false;
    }
    !holds_pair(chars, i, '$', '{') && !holds_pair(chars, i, '=', '=')
}

/// Whether the keyword with the text `word` stands at position `i`.
fn keyword_at_exec(chars: &Vec<char>, i: usize, word: &Vec<char>, Ghost(kind): Ghost<TokenView>) -> (r:
    bool)
    requires
        word@ == kind.text(),
        i < chars@.len(),
    ensures
        r == keyword_at(chars@, i as int, kind),
{
    let n = chars.len();
    if holds_word(chars, i, word) {
        !raw_at_exec(chars, i + word.len())
    } else {
        false
    }
}

/// The outcome of tokenising a template: its tokens, in order.
#[derive(Debug)]
pub struct TokeniserResult {
    pub value: Vec<Token>,
}

impl View for TokeniserResult {
    type V = Seq<TokenView>;

    open spec fn view(&self) -> Seq<TokenView> {
        token_views(self.value@)
    }
}

impl TokeniserResult {
    /// A cursor that stands before the first token.
    pub fn to_cursor(self) -> (r: TokenCursor)
        ensures
            r@ == self@,
    {
        TokenCursor::new(self.value)
    }
}

/// Scans a template into tokens.
#[derive(Debug)]
pub struct Tokenizer {
    text: String,
}

impl Tokenizer {
    /// The template that will be scanned.
    pub closed spec fn text(&self) -> Seq<char> {
        self.text@
    }

    /// A tokenizer for `input`.
    pub fn new(input: &str) -> (r: Tokenizer)
        ensures
            r.text() == input@,
    {
        Tokenizer { text: String::from_str(input) }
    }

    /// The tokens of the template. Scanning never fails.
    pub fn run(&self) -> (r: TokeniserResult)
        ensures
            r@ == tokens_of(self.text()),
    {
        let input = self.text.as_str();
        let chars = chars_of(input);
        let n = chars.len();
        let worker_response = vec![
            'w', 'o', 'r', 'k', 'e', 'r', '.', 'r', 'e', 's', 'p', 'o', 'n', 's', 'e',
        ];
        let request = vec!['r', 'e', 'q', 'u', 'e', 's', 't'];
        let word_if = vec!['i', 'f'];
        let word_then = vec!['t', 'h', 'e', 'n'];
        let word_else = vec!['e', 'l', 's', 'e'];
        assert(worker_response@ =~= TokenView::WorkerResponse.text());
        assert(request@ =~= TokenView::Request.text());
        assert(word_if@ =~= TokenView::If.text());
        assert(word_then@ =~= TokenView::Then.text());
        assert(word_else@ =~= TokenView::Else.text());
        let ghost s = chars@;
        let mut out: Vec<Token> = Vec::new();
        let mut i: usize = 0;
        while i < n
            invariant
                s == chars@,
                s == input@,
                n == s.len(),
                i <= n,
                worker_response@ == TokenView::WorkerResponse.text(),
                request@ == TokenView::Request.text(),
                word_if@ == TokenView::If.text(),
                word_then@ == TokenView::Then.text(),
                word_else@ == TokenView::Else.text(),
                tokens_of(s) == token_views(out@) + tokens_from(s, i as int),
            decreases n - i,
        {
            proof {
                lemma_token_at(s, i as int);
                lemma_raw_end(s, i as int);
            }
            let ghost before = out@;
            let c = chars[i];
            let mut next: usize = i + 1;
            let token = if holds_pair(&chars, i, '$', '{') {
                next = i + 2;
                Token::InterpolationStart
            } else if holds_pair(&chars, i, '>', '=') {
                next = i + 2;
                Token::GreaterThanOrEqualTo
            } else if holds_pair(&chars, i, '<', '=') {
                next = i + 2;
                Token::LessThanOrEqualTo
            } else if holds_pair(&chars, i, '=', '=') {
                next = i + 2;
                Token::EqualTo
            } else if keyword_at_exec(&chars, i, &worker_response, Ghost(TokenView::WorkerResponse)) {
                next = i + 15;
                Token::WorkerResponse
            } else if keyword_at_exec(&chars, i, &request, Ghost(TokenView::Request)) {
                next = i + 7;
                Token::Request
            } else if keyword_at_exec(&chars, i, &word_if, Ghost(TokenView::If)) {
                next = i + 2;
                Token::If
            } else if keyword_at_exec(&chars, i, &word_then, Ghost(TokenView::Then)) {
                next = i + 4;
                Token::Then
            } else if keyword_at_exec(&chars, i, &word_else, Ghost(TokenView::Else)) {
                next = i + 4;
                Token::Else
            } else if c == '}' {
                Token::ClosedCurlyBrace
            } else if c == '(' {
                Token::OpenParen
            } else if c == ')' {
                Token::CloseParen
            } else if c == '[' {
                Token::OpenSquareBracket
            } else if c == ']' {
                Token::ClosedSquareBracket
            } else if c == '.' {
                Token::Dot
            } else if c == '>' {
                Token::GreaterThan
            } else if c == '<' {
                Token::LessThan
            } else if c == ' ' {
                Token::Space
            } else if c == '\n' {
                Token::NewLine
            } else {
                let mut j: usize = i + 1;
                while raw_at_exec(&chars, j)
                    invariant
                        s == chars@,
                        n == s.len(),
                        i < j <= n,
                        raw_end(s, i as int) == raw_end(s, j as int),
                    decreases n - j,
                {
                    j = j + 1;
                }
                next = j;
                Token::RawString(String::from_str(input.substring_char(i, j)))
            };
            assert(token@ == token_at(s, i as int));
            assert(next == i + token@.text().len());
            out.push(token);
            proof {
                let rest = tokens_from(s, next as int);
                assert(token_views(out@) =~= token_views(before) + seq![token@]);
                assert(token_views(before) + (seq![token@] + rest) =~= token_views(out@) + rest);
            }
            i = next;
        }
        TokeniserResult { value: out }
    }
}

} // verus!
