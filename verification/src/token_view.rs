//! The token-stream cursor: sequential, lookahead-capable consumption of a
//! pre-built token sequence for recursive-descent parsing.

use crate::chars::byte_len;
use crate::chars::slice_bytes;
use crate::chars::str_eq;
use crate::errors::ParseError;
use crate::errors::ParseErrorKind;
use crate::token::token_cloned;
use crate::token::token_fits;
use crate::token::Token;
use crate::token::Tokens;
use vstd::prelude::*;
use vstd::std_specs::cmp::PartialEqSpec;
use vstd::string::StringSliceAdditionalSpecFns;
use vstd::utf8::decode_utf8;

verus! {

broadcast use vstd::utf8::encode_utf8_valid_utf8, vstd::utf8::encode_utf8_decode_utf8;

/// A read cursor over a borrowed token container and the source text the
/// tokens were built from. `index` counts tokens, not bytes.
pub struct TokenView<'a, Kind> {
    pub source: &'a str,
    pub tokens: &'a Tokens<Kind>,
    pub index: usize,
}

impl<'a, Kind> TokenView<'a, Kind> {
    /// The source text as a byte sequence.
    pub open spec fn text(self) -> Seq<u8> {
        self.source.spec_bytes()
    }

    /// The token sequence being consumed.
    pub open spec fn toks(self) -> Seq<Token<Kind>> {
        self.tokens@
    }

    /// The byte range of token `i` of the container, decoded.
    pub open spec fn token_text(self, i: int) -> Seq<char> {
        decode_utf8(
            self.text().subrange(
                self.toks()[i].index as int,
                self.toks()[i].index as int + self.toks()[i].len as int,
            ),
        )
    }

    /// Cursor invariant: the read position never passes the end, and every
    /// token's range lies inside the source on character boundaries (the
    /// tokens were built from this same text).
    pub open spec fn wf(self) -> bool {
        &&& self.index <= self.toks().len()
        &&& forall|i: int|
            0 <= i < self.toks().len() ==> token_fits(#[trigger] self.toks()[i], self.text())
    }

    /// True when the head token exists and its kind equals `kind`, so that a
    /// matching consumption advances.
    pub open spec fn advances_on(self, kind: Kind) -> bool where Kind: PartialEq {
        &&& self.index < self.toks().len()
        &&& self.toks()[self.index as int].kind.eq_spec(&kind)
    }

    /// The read position after an attempted matching consumption of `kind`:
    /// one further on a match, unchanged otherwise. `expect` and
    /// `match_and_take` both reposition the cursor to exactly this index.
    pub open spec fn index_after_matching(self, kind: Kind) -> int where Kind: PartialEq {
        if self.advances_on(kind) {
            self.index + 1
        } else {
            self.index as int
        }
    }

    /// Creates a cursor at the first token of `tokens`, whose tokens must
    /// have been built from `source`.
    pub fn new(source: &'a str, tokens: &'a Tokens<Kind>) -> (r: Self)
        requires
            forall|i: int| 0 <= i < tokens@.len() ==> token_fits(#[trigger] tokens@[i], source.spec_bytes()),
        ensures
            r.wf(),
            r.source == source,
            r.tokens == tokens,
            r.index == 0,
    {
        TokenView { source, tokens, index: 0 }
    }

    /// Returns the token at the current position without consuming it; fails
    /// at the end of the stream.
    pub fn peek(&self) -> (r: Result<&'a Token<Kind>, ParseError<Kind>>)
        requires
            self.wf(),
        ensures
            r is Ok <==> self.index < self.toks().len(),
            r matches Ok(t) ==> *t == self.toks()[self.index as int],
            r matches Err(e) ==> e.kind is UnexpectedEndOfInput,
    {
        let toks: &'a Tokens<Kind> = self.tokens;
        if self.index < toks.inner.len() {
            Ok(&toks.inner[self.index])
        } else {
            Err(ParseError { kind: ParseErrorKind::UnexpectedEndOfInput })
        }
    }

    /// Signed lookahead or lookbehind relative to the current position;
    /// `None` when out of range.
    pub fn peekn(&self, off: isize) -> (r: Option<&'a Token<Kind>>)
        requires
            self.wf(),
            self.index <= isize::MAX,
            self.index + off <= isize::MAX,
        ensures
            r is Some <==> 0 <= self.index + off < self.toks().len(),
            r matches Some(t) ==> *t == self.toks()[self.index + off],
    {
        let toks: &'a Tokens<Kind> = self.tokens;
        let pos = self.index as isize;
        let pos = pos + off;
        if pos >= 0 && (pos as usize) < toks.inner.len() {
            Some(&toks.inner[pos as usize])
        } else {
            None
        }
    }

    /// Returns and consumes the current token, advancing the position by one;
    /// fails at the end of the stream.
    pub fn take(&mut self) -> (r: Result<&'a Token<Kind>, ParseError<Kind>>)
        requires
            old(self).wf(),
        ensures
            final(self).wf(),
            final(self).source == old(self).source,
            final(self).tokens == old(self).tokens,
            r is Ok <==> old(self).index < old(self).toks().len(),
            r matches Ok(t) ==> {
                &&& *t == old(self).toks()[old(self).index as int]
                &&& final(self).index == old(self).index + 1
            },
            r matches Err(e) ==> (*final(self) == *old(self) && e.kind is UnexpectedEndOfInput),
    {
        let toks: &'a Tokens<Kind> = self.tokens;
        if self.index < toks.inner.len() {
            let t: &'a Token<Kind> = &toks.inner[self.index];
            self.index = self.index + 1;
            Ok(t)
        } else {
            Err(ParseError { kind: ParseErrorKind::UnexpectedEndOfInput })
        }
    }

    /// Consumes the current token and returns its source substring; fails at
    /// the end of the stream.
    pub fn content_take(&mut self) -> (r: Result<&'a str, ParseError<Kind>>)
        requires
            old(self).wf(),
        ensures
            final(self).wf(),
            final(self).source == old(self).source,
            final(self).tokens == old(self).tokens,
            r is Ok <==> old(self).index < old(self).toks().len(),
            r matches Ok(s) ==> {
                &&& s@ == old(self).token_text(old(self).index as int)
                &&& final(self).index == old(self).index + 1
            },
            r matches Err(e) ==> (*final(self) == *old(self) && e.kind is UnexpectedEndOfInput),
    {
        let toks: &'a Tokens<Kind> = self.tokens;
        let src: &'a str = self.source;
        if self.index < toks.inner.len() {
            let t: &'a Token<Kind> = &toks.inner[self.index];
            self.index = self.index + 1;
            let _src_len = byte_len(src);
            let from = t.index as usize;
            let to = from + t.len as usize;
            Ok(slice_bytes(src, from, to))
        } else {
            Err(ParseError { kind: ParseErrorKind::UnexpectedEndOfInput })
        }
    }

    /// Consumes the current token only if its kind equals `kind`; otherwise
    /// fails and leaves the token unconsumed. Kind equality is `Kind`'s own
    /// value equality; the contract pins the outcome whenever that equality
    /// obeys its specification.
    pub fn expect(&mut self, kind: Kind) -> (r: Result<&'a Token<Kind>, ParseError<Kind>>) where
        Kind: Eq + Clone,

        requires
            old(self).wf(),
        ensures
            final(self).wf(),
            final(self).source == old(self).source,
            final(self).tokens == old(self).tokens,
            r is Ok ==> {
                &&& old(self).index < old(self).toks().len()
                &&& final(self).index == old(self).index + 1
            },
            r matches Ok(t) ==> *t == old(self).toks()[old(self).index as int],
            r is Err ==> *final(self) == *old(self),
            r matches Err(e) ==> (e.kind is UnexpectedEndOfInput <==> old(self).index == old(
                self,
            ).toks().len()),
            r matches Err(e) ==> old(self).index >= old(self).toks().len() || {
                &&& e.kind matches ParseErrorKind::ExpectedToken { expected, got }
                &&& expected == kind
                &&& token_cloned(old(self).toks()[old(self).index as int], got)
            },
            Kind::obeys_eq_spec() ==> (r is Ok <==> old(self).advances_on(kind)),
            Kind::obeys_eq_spec() ==> final(self).index == old(self).index_after_matching(kind),
    {
        let toks: &'a Tokens<Kind> = self.tokens;
        if self.index < toks.inner.len() {
            let t: &'a Token<Kind> = &toks.inner[self.index];
            if t.kind == kind {
                self.index = self.index + 1;
                Ok(t)
            } else {
                Err(
                    ParseError {
                        kind: ParseErrorKind::ExpectedToken { expected: kind, got: t.clone() },
                    },
                )
            }
        } else {
            Err(ParseError { kind: ParseErrorKind::UnexpectedEndOfInput })
        }
    }

    /// Consumes the current token only if its kind equals `kind` and returns
    /// its source substring.
    pub fn content_expect(&mut self, kind: Kind) -> (r: Result<&'a str, ParseError<Kind>>) where
        Kind: Eq + Clone,

        requires
            old(self).wf(),
        ensures
            final(self).wf(),
            final(self).source == old(self).source,
            final(self).tokens == old(self).tokens,
            r is Ok ==> {
                &&& old(self).index < old(self).toks().len()
                &&& final(self).index == old(self).index + 1
            },
            r matches Ok(s) ==> s@ == old(self).token_text(old(self).index as int),
            r is Err ==> *final(self) == *old(self),
            r matches Err(e) ==> (e.kind is UnexpectedEndOfInput <==> old(self).index == old(
                self,
            ).toks().len()),
            r matches Err(e) ==> old(self).index >= old(self).toks().len() || {
                &&& e.kind matches ParseErrorKind::ExpectedToken { expected, got }
                &&& expected == kind
                &&& token_cloned(old(self).toks()[old(self).index as int], got)
            },
            Kind::obeys_eq_spec() ==> (r is Ok <==> old(self).advances_on(kind)),
            Kind::obeys_eq_spec() ==> final(self).index == old(self).index_after_matching(kind),
    {
        let src: &'a str = self.source;
        let ghost prior = *self;
        match self.expect(kind) {
            Ok(t) => {
                let _src_len = byte_len(src);
                let from = t.index as usize;
                let to = from + t.len as usize;
                proof {
                    assert(token_fits(prior.toks()[prior.index as int], prior.text()));
                }
                Ok(slice_bytes(src, from, to))
            },
            Err(e) => Err(e),
        }
    }

    /// Checks the current token's substring against the literal `input`
    /// without consuming; fails when the texts differ.
    pub fn content_matches(&self, input: &str) -> (r: Result<&'a str, ParseError<Kind>>) where
        Kind: Clone,

        requires
            self.wf(),
        ensures
            r is Ok <==> (self.index < self.toks().len() && self.token_text(self.index as int)
                == input@),
            r matches Ok(s) ==> s@ == input@,
            r matches Err(e) ==> (e.kind is UnexpectedEndOfInput <==> self.index
                == self.toks().len()),
            r matches Err(e) ==> self.index >= self.toks().len() || {
                &&& e.kind matches ParseErrorKind::ExpectedString { expected, got, token }
                &&& expected@ == input@
                &&& got@ == self.token_text(self.index as int)
                &&& token_cloned(self.toks()[self.index as int], token)
            },
    {
        let toks: &'a Tokens<Kind> = self.tokens;
        let src: &'a str = self.source;
        if self.index < toks.inner.len() {
            let t: &'a Token<Kind> = &toks.inner[self.index];
            let _src_len = byte_len(src);
            let from = t.index as usize;
            let to = from + t.len as usize;
            let content = slice_bytes(src, from, to);
            if str_eq(content, input) {
                Ok(content)
            } else {
                Err(
                    ParseError {
                        kind: ParseErrorKind::ExpectedString {
                            expected: input.to_owned(),
                            got: content.to_owned(),
                            token: t.clone(),
                        },
                    },
                )
            }
        } else {
            Err(ParseError { kind: ParseErrorKind::UnexpectedEndOfInput })
        }
    }

    /// True when the current token exists and its kind equals `kind`.
    pub fn matches(&self, kind: Kind) -> (r: bool) where Kind: Eq
        requires
            self.wf(),
        ensures
            Kind::obeys_eq_spec() ==> (r <==> self.advances_on(kind)),
            r ==> self.index < self.toks().len(),
    {
        let toks: &'a Tokens<Kind> = self.tokens;
        if self.index < toks.inner.len() {
            toks.inner[self.index].kind == kind
        } else {
            false
        }
    }

    /// Consumes the current token if its kind equals `kind`; repositions the
    /// cursor exactly as `expect` does.
    pub fn match_and_take(&mut self, kind: Kind) -> (r: bool) where Kind: Eq
        requires
            old(self).wf(),
        ensures
            final(self).wf(),
            final(self).source == old(self).source,
            final(self).tokens == old(self).tokens,
            r ==> (old(self).index < old(self).toks().len() && final(self).index == old(
                self,
            ).index + 1),
            !r ==> *final(self) == *old(self),
            Kind::obeys_eq_spec() ==> (r <==> old(self).advances_on(kind)),
            Kind::obeys_eq_spec() ==> final(self).index == old(self).index_after_matching(kind),
    {
        let toks: &'a Tokens<Kind> = self.tokens;
        if self.index < toks.inner.len() {
            if toks.inner[self.index].kind == kind {
                self.index = self.index + 1;
                true
            } else {
                false
            }
        } else {
            false
        }
    }

    /// Recovers the source substring for `token`; `None` if its range falls
    /// outside the text.
    pub fn content(&self, token: &Token<Kind>) -> (r: Option<&'a str>)
        ensures
            r is Some <==> token_fits(*token, self.text()),
            r matches Some(s) ==> s.spec_bytes() == self.text().subrange(
                token.index as int,
                token.index as int + token.len as int,
            ),
            r matches Some(s) ==> s@ == decode_utf8(
                self.text().subrange(token.index as int, token.index as int + token.len as int),
            ),
    {
        let src: &'a str = self.source;
        crate::chars::try_substring(src, token.index, token.len)
    }

    /// True when the stream has a token left at the current position.
    pub fn has_more_tokens(&self) -> (r: bool)
        ensures
            r <==> self.index < self.toks().len(),
    {
        self.index < self.tokens.inner.len()
    }

    /// The current read position, for later backtracking.
    pub fn index(&self) -> (r: usize)
        ensures
            r == self.index,
    {
        self.index
    }

    /// Absolute repositioning; returns whether `idx` was in bounds, leaving
    /// the position unchanged when it was not. The at-end position (`idx`
    /// equal to the container length, where a full consumption leaves the
    /// cursor) is in bounds.
    pub fn set_position(&mut self, idx: usize) -> (r: bool)
        requires
            old(self).wf(),
        ensures
            final(self).wf(),
            final(self).source == old(self).source,
            final(self).tokens == old(self).tokens,
            r <==> idx <= old(self).toks().len(),
            r ==> final(self).index == idx,
            !r ==> *final(self) == *old(self),
    {
        if idx <= self.tokens.inner.len() {
            self.index = idx;
            true
        } else {
            false
        }
    }

    /// An error reporting a caller-detected grammar violation at `token`.
    pub fn unexpected(&self, token: &Token<Kind>) -> (e: ParseError<Kind>) where Kind: Clone
        ensures
            e.kind matches ParseErrorKind::UnexpectedToken(t) && token_cloned(*token, t),
    {
        ParseError { kind: ParseErrorKind::UnexpectedToken(token.clone()) }
    }

    /// An error reporting that the stream ended where the caller needed more.
    pub fn unexpected_end(&self) -> (e: ParseError<Kind>)
        ensures
            e.kind is UnexpectedEndOfInput,
    {
        ParseError { kind: ParseErrorKind::UnexpectedEndOfInput }
    }
}

} // verus!
