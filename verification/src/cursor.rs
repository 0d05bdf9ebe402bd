use crate::token::{token_views, tokens_text, Token, TokenView};
use vstd::prelude::*;
use vstd::string::StringExecFns;

verus! {

/// The tokens that are left once leading white space is dropped.
pub open spec fn skip_blank(ts: Seq<TokenView>) -> Seq<TokenView>
    decreases ts.len(),
{
    if ts.len() > 0 && ts[0].is_blank() {
        skip_blank(ts.drop_first())
    } else {
        ts
    }
}

/// The position, from `i` on, of the token that closes a region opened
/// earlier, where `pending` regions of the same pair were opened after it and
/// are still open. Every token of the kind of `open` opens one more, every
/// token of the kind of `close` closes the innermost.
pub open spec fn closing_index(
    ts: Seq<TokenView>,
    open: TokenView,
    close: TokenView,
    pending: nat,
    i: int,
) -> Option<int>
    decreases ts.len() - i,
{
    if i < 0 || i >= ts.len() {
        None
    } else if ts[i].same_kind(open) {
        closing_index(ts, open, close, pending + 1, i + 1)
    } else if ts[i].same_kind(close) {
        if pending == 0 {
            Some(i)
        } else {
            closing_index(ts, open, close, (pending - 1) as nat, i + 1)
        }
    } else {
        closing_index(ts, open, close, pending, i + 1)
    }
}

/// What a balanced capture yields on the tokens `ts`, the opening token
/// having been read just before them: the surface text in front of the
/// matching closing token, and the tokens behind that token. `None` where no
/// token closes the region.
pub open spec fn capture_between(ts: Seq<TokenView>, open: TokenView, close: TokenView) -> Option<
    (Seq<char>, Seq<TokenView>),
> {
    match closing_index(ts, open, close, 0, 0) {
        Some(k) => Some((tokens_text(ts.subrange(0, k)), ts.subrange(k + 1, ts.len() as int))),
        None => None,
    }
}

/// The surface text of tokens followed by one more is their text followed by
/// the text of that one.
pub proof fn lemma_tokens_text_push(ts: Seq<TokenView>, t: TokenView)
    ensures
        tokens_text(ts.push(t)) == tokens_text(ts) + t.text(),
    decreases ts.len(),
{
    if ts.len() == 0 {
        let one = ts.push(t);
        assert(one.drop_first() =~= Seq::<TokenView>::empty());
        assert(tokens_text(one.drop_first()) == Seq::<char>::empty());
        assert(tokens_text(one) == one[0].text() + tokens_text(one.drop_first()));
        assert(tokens_text(ts) == Seq::<char>::empty());
        assert(tokens_text(one) =~= tokens_text(ts) + t.text());
    } else {
        lemma_tokens_text_push(ts.drop_first(), t);
        assert(ts.push(t).drop_first() =~= ts.drop_first().push(t));
        assert(tokens_text(ts.push(t)) =~= tokens_text(ts) + t.text());
    }
}

/// The surface text of two runs of tokens, one after the other, is the text
/// of the first followed by the text of the second.
pub proof fn lemma_tokens_text_concat(a: Seq<TokenView>, b: Seq<TokenView>)
    ensures
        tokens_text(a + b) == tokens_text(a) + tokens_text(b),
    decreases a.len(),
{
    if a.len() == 0 {
        assert(a + b =~= b);
        assert(tokens_text(a + b) =~= tokens_text(a) + tokens_text(b));
    } else {
        lemma_tokens_text_concat(a.drop_first(), b);
        assert((a + b).drop_first() =~= a.drop_first() + b);
        assert(tokens_text(a + b) =~= tokens_text(a) + tokens_text(b));
    }
}

/// Dropping leading white space leaves a tail of the tokens, with no more
/// surface text than they had.
pub proof fn lemma_skip_blank(ts: Seq<TokenView>)
    ensures
        skip_blank(ts).len() <= ts.len(),
        skip_blank(ts) == ts.subrange(ts.len() - skip_blank(ts).len(), ts.len() as int),
        tokens_text(skip_blank(ts)).len() <= tokens_text(ts).len(),
        skip_blank(ts).len() > 0 ==> !skip_blank(ts)[0].is_blank(),
    decreases ts.len(),
{
    if ts.len() > 0 && ts[0].is_blank() {
        let rest = ts.drop_first();
        lemma_skip_blank(rest);
        let k = rest.len() - skip_blank(rest).len();
        assert(rest.subrange(k, rest.len() as int) =~= ts.subrange(k + 1, ts.len() as int));
    } else {
        assert(ts.subrange(0, ts.len() as int) =~= ts);
    }
}

/// The closing token of a region lies within the tokens and is of the kind
/// of `close`.
pub proof fn lemma_closing_index(
    ts: Seq<TokenView>,
    open: TokenView,
    close: TokenView,
    pending: nat,
    i: int,
)
    requires
        0 <= i,
    ensures
        match closing_index(ts, open, close, pending, i) {
            Some(k) => i <= k < ts.len() && ts[k].same_kind(close),
            None => true,
        },
    decreases ts.len() - i,
{
    if i < ts.len() {
        if ts[i].same_kind(open) {
            lemma_closing_index(ts, open, close, pending + 1, i + 1);
        } else if ts[i].same_kind(close) {
            if pending > 0 {
                lemma_closing_index(ts, open, close, (pending - 1) as nat, i + 1);
            }
        } else {
            lemma_closing_index(ts, open, close, pending, i + 1);
        }
    }
}

/// A balanced capture splits the surface text of the tokens in three: what
/// was captured, the closing token, and the text of the tokens that are left.
pub proof fn lemma_capture_between(ts: Seq<TokenView>, open: TokenView, close: TokenView)
    ensures
        match capture_between(ts, open, close) {
            Some((text, rest)) => exists|closer: TokenView|
                #![auto]
                closer.same_kind(close) && tokens_text(ts) == text + closer.text() + tokens_text(
                    rest,
                ),
            None => true,
        },
{
    lemma_closing_index(ts, open, close, 0, 0);
    match closing_index(ts, open, close, 0, 0) {
        Some(k) => {
            let front = ts.subrange(0, k);
            let rest = ts.subrange(k + 1, ts.len() as int);
            lemma_tokens_text_push(front, ts[k]);
            lemma_tokens_text_concat(front.push(ts[k]), rest);
            assert(front.push(ts[k]) + rest =~= ts);
            assert(ts[k].same_kind(close) && tokens_text(ts) == tokens_text(front) + ts[k].text()
                + tokens_text(rest));
        },
        None => {},
    }
}

/// A forward reader over a sequence of tokens. No token is read twice.
#[derive(Debug)]
pub struct TokenCursor {
    tokens: Vec<Token>,
    index: usize,
}

impl View for TokenCursor {
    type V = Seq<TokenView>;

    /// The tokens that are still to be read.
    closed spec fn view(&self) -> Seq<TokenView> {
        if self.index <= self.tokens@.len() {
            token_views(self.tokens@).subrange(self.index as int, self.tokens@.len() as int)
        } else {
            Seq::empty()
        }
    }
}

impl TokenCursor {
    /// A cursor that stands before the first of `tokens`.
    pub fn new(tokens: Vec<Token>) -> (r: TokenCursor)
        ensures
            r@ == token_views(tokens@),
    {
        let r = TokenCursor { tokens, index: 0 };
        assert(r@ =~= token_views(tokens@));
        r
    }

    /// The next token, if one is left; the cursor moves behind it.
    pub fn next_token(&mut self) -> (r: Option<Token>)
        ensures
            match r {
                Some(t) => old(self)@.len() > 0 && t@ == old(self)@[0] && final(self)@ == old(
                    self,
                )@.drop_first(),
                None => old(self)@.len() == 0 && final(self)@ == old(self)@,
            },
    {
        if self.index < self.tokens.len() {
            let t = self.tokens[self.index].clone();
            self.index = self.index + 1;
            assert(final(self)@ =~= old(self)@.drop_first());
            Some(t)
        } else {
            assert(old(self)@ =~= Seq::<TokenView>::empty());
            None
        }
    }

    /// The next token that is not white space, if one is left; the cursor
    /// moves behind it, or to the end where only white space was left.
    pub fn next_non_empty_token(&mut self) -> (r: Option<Token>)
        ensures
            match r {
                Some(t) => skip_blank(old(self)@).len() > 0 && t@ == skip_blank(old(self)@)[0]
                    && final(self)@ == skip_blank(old(self)@).drop_first(),
                None => skip_blank(old(self)@).len() == 0 && final(self)@
                    == Seq::<TokenView>::empty(),
            },
    {
        loop
            invariant
                skip_blank(self@) == skip_blank(old(self)@),
            decreases self@.len(),
        {
            let ghost before = self@;
            match self.next_token() {
                None => {
                    return None;
                },
                Some(t) => {
                    if !t.is_blank() {
                        return Some(t);
                    }
                },
            }
        }
    }

    /// Captures the surface text between an opening token that was read just
    /// before and the token that closes it, regions of the same pair nested
    /// in between included; the cursor moves behind the closing token. Where
    /// no token closes the region, `None`, and the cursor is at the end.
    pub fn capture_string_between(&mut self, open: &Token, close: &Token) -> (r: Option<String>)
        ensures
            match capture_between(old(self)@, open@, close@) {
                Some((text, rest)) => r is Some && r->0@ == text && final(self)@ == rest,
                None => r is None && final(self)@ == Seq::<TokenView>::empty(),
            },
    {
        let ghost ts = self@;
        let mut text = String::new();
        let mut pending: usize = 0;
        let ghost mut i: int = 0;
        let total = self.tokens.len();
        proof {
            assert(token_views(self.tokens@).len() == total);
            assert(ts.subrange(0, ts.len() as int) =~= ts);
        }
        loop
            invariant
                0 <= i <= ts.len(),
                ts.len() <= usize::MAX,
                ts == old(self)@,
                self@ == ts.subrange(i, ts.len() as int),
                pending <= i,
                text@ == tokens_text(ts.subrange(0, i)),
                closing_index(ts, open@, close@, 0, 0) == closing_index(
                    ts,
                    open@,
                    close@,
                    pending as nat,
                    i,
                ),
            decreases ts.len() - i,
        {
            match self.next_token() {
                None => {
                    return None;
                },
                Some(t) => {
                    assert(t@ == ts[i]);
                    assert(self@ =~= ts.subrange(i + 1, ts.len() as int));
                    if t.same_kind(open) {
                        pending = pending + 1;
                    } else if t.same_kind(close) {
                        if pending == 0 {
                            return Some(text);
                        }
                        pending = pending - 1;
                    }
                    let piece = t.to_string();
                    text.append(piece.as_str());
                    proof {
                        lemma_tokens_text_push(ts.subrange(0, i), ts[i]);
                        assert(ts.subrange(0, i).push(ts[i]) =~= ts.subrange(0, i + 1));
                        i = i + 1;
                    }
                },
            }
        }
    }

    /// Captures the surface text of all the tokens that are left; the cursor
    /// moves to the end.
    pub fn capture_tail(&mut self) -> (r: Option<String>)
        ensures
            r is Some,
            r->0@ == tokens_text(old(self)@),
            final(self)@ == Seq::<TokenView>::empty(),
    {
        let ghost ts = self@;
        let mut text = String::new();
        let ghost mut i: int = 0;
        proof {
            assert(ts.subrange(0, ts.len() as int) =~= ts);
        }
        loop
            invariant
                0 <= i <= ts.len(),
                ts == old(self)@,
                self@ == ts.subrange(i, ts.len() as int),
                text@ == tokens_text(ts.subrange(0, i)),
            decreases ts.len() - i,
        {
            match self.next_token() {
                None => {
                    assert(ts.subrange(0, i) =~= ts);
                    return Some(text);
                },
                Some(t) => {
                    assert(self@ =~= ts.subrange(i + 1, ts.len() as int));
                    let piece = t.to_string();
                    text.append(piece.as_str());
                    proof {
                        lemma_tokens_text_push(ts.subrange(0, i), ts[i]);
                        assert(ts.subrange(0, i).push(ts[i]) =~= ts.subrange(0, i + 1));
                        i = i + 1;
                    }
                },
            }
        }
    }
}

} // verus!
