//! The character-level scanning cursor: turns a borrowed UTF-8 text into
//! tokens via manual, caller-driven scanning.

use crate::chars::char_at;
use crate::chars::char_width;
use crate::chars::chars_from;
use crate::chars::lemma_first_char;
use crate::chars::slice_bytes;
use crate::chars::try_substring;
use crate::chars::width_of_char;
use crate::errors::TokenizeError;
use crate::errors::TokenizeErrorKind;
use crate::token::token_fits;
use crate::token::Token;
use vstd::prelude::*;
use vstd::string::StringSliceAdditionalSpecFns;
use vstd::utf8::decode_utf8;
use vstd::utf8::is_char_boundary;

verus! {

broadcast use vstd::utf8::encode_utf8_valid_utf8, vstd::utf8::encode_utf8_decode_utf8;

/// A character-level scanning cursor over a borrowed UTF-8 text. `index` is
/// the current scan offset in bytes; `start` marks the beginning of the token
/// currently being assembled.
pub struct SimpleTokenizer<'a> {
    pub source: &'a str,
    pub index: usize,
    pub start: usize,
}

impl<'a> SimpleTokenizer<'a> {
    /// The source text as a byte sequence.
    pub open spec fn text(self) -> Seq<u8> {
        self.source.spec_bytes()
    }

    /// The characters that remain to be scanned.
    pub open spec fn remaining(self) -> Seq<char> {
        chars_from(self.text(), self.index as int)
    }

    /// Cursor invariant: `start <= index <= len(source)`, both offsets on
    /// character boundaries, and the source within the 32-bit addressable
    /// range that the model supports.
    pub open spec fn wf(self) -> bool {
        &&& self.start <= self.index <= self.text().len()
        &&& self.text().len() <= u32::MAX
        &&& is_char_boundary(self.text(), self.index as int)
        &&& is_char_boundary(self.text(), self.start as int)
    }

    /// Creates a cursor positioned at the beginning of `source`.
    pub fn new(source: &'a str) -> (r: Self)
        requires
            source.spec_bytes().len() <= u32::MAX,
        ensures
            r.wf(),
            r.source == source,
            r.index == 0,
            r.start == 0,
    {
        SimpleTokenizer { source, index: 0, start: 0 }
    }

    /// Starts assembling a new token at the current scan offset.
    pub fn begin_token(&mut self)
        requires
            old(self).wf(),
        ensures
            final(self).wf(),
            final(self).source == old(self).source,
            final(self).index == old(self).index,
            final(self).start == old(self).index,
    {
        self.start = self.index;
    }

    /// Forcibly repositions the cursor; if `index` falls below the current
    /// token start, the start is pulled down to it as well.
    pub fn set_index(&mut self, index: u32)
        requires
            old(self).wf(),
            index <= old(self).text().len(),
            is_char_boundary(old(self).text(), index as int),
        ensures
            final(self).wf(),
            final(self).source == old(self).source,
            final(self).index == index,
            final(self).start == if old(self).start > index {
                index as int
            } else {
                old(self).start as int
            },
    {
        let index = index as usize;
        if self.start > index {
            self.start = index;
        }
        self.index = index;
    }

    /// The offset where the token being assembled begins.
    pub fn get_start(&mut self) -> (r: u32)
        requires
            old(self).wf(),
        ensures
            *final(self) == *old(self),
            r == old(self).start,
    {
        self.start as u32
    }

    /// The current scan offset.
    pub fn get_index(&mut self) -> (r: u32)
        requires
            old(self).wf(),
        ensures
            *final(self) == *old(self),
            r == old(self).index,
    {
        self.index as u32
    }

    /// The raw text for an arbitrary byte range, which must lie in bounds on
    /// character boundaries.
    pub fn slice(&self, range: core::ops::Range<u32>) -> (r: &'a str)
        requires
            range.start <= range.end <= self.text().len(),
            is_char_boundary(self.text(), range.start as int),
            is_char_boundary(self.text(), range.end as int),
        ensures
            r.spec_bytes() == self.text().subrange(range.start as int, range.end as int),
            r@ == decode_utf8(self.text().subrange(range.start as int, range.end as int)),
    {
        let src: &'a str = self.source;
        slice_bytes(src, range.start as usize, range.end as usize)
    }

    /// True when at least one character remains to be scanned.
    pub fn has_more_chars(&self) -> (r: bool)
        requires
            self.wf(),
        ensures
            r <==> self.index < self.text().len(),
    {
        self.index < self.source.len()
    }

    /// Returns the next character without advancing; fails at end of input.
    pub fn peek(&self) -> (r: Result<char, TokenizeError>)
        requires
            self.wf(),
        ensures
            r is Ok <==> self.index < self.text().len(),
            r matches Ok(c) ==> c == self.remaining()[0],
            r matches Err(e) ==> e.index == self.index && e.kind is UnexpectedEndOfInput,
    {
        match char_at(self.source, self.index) {
            Some(c) => Ok(c),
            None => Err(
                TokenizeError {
                    index: self.index as u32,
                    kind: TokenizeErrorKind::UnexpectedEndOfInput,
                },
            ),
        }
    }

    /// Returns and consumes the next character, advancing the scan offset by
    /// that character's UTF-8 byte width; fails at end of input.
    pub fn take(&mut self) -> (r: Result<char, TokenizeError>)
        requires
            old(self).wf(),
        ensures
            final(self).wf(),
            final(self).source == old(self).source,
            final(self).start == old(self).start,
            r is Ok <==> old(self).index < old(self).text().len(),
            r matches Ok(c) ==> {
                &&& c == old(self).remaining()[0]
                &&& final(self).index == old(self).index + char_width(c)
                &&& final(self).remaining() == old(self).remaining().drop_first()
            },
            r matches Err(e) ==> {
                &&& *final(self) == *old(self)
                &&& e.index == old(self).index
                &&& e.kind is UnexpectedEndOfInput
            },
    {
        match char_at(self.source, self.index) {
            Some(c) => {
                proof {
                    lemma_first_char(self.text(), self.index as int);
                }
                let w = width_of_char(c);
                self.index = self.index + w;
                Ok(c)
            },
            None => Err(
                TokenizeError {
                    index: self.index as u32,
                    kind: TokenizeErrorKind::UnexpectedEndOfInput,
                },
            ),
        }
    }

    /// Consumes exactly one character if it equals `expected`; otherwise
    /// fails and leaves the cursor where it was.
    pub fn expect(&mut self, expected: char) -> (r: Result<(), TokenizeError>)
        requires
            old(self).wf(),
        ensures
            final(self).wf(),
            final(self).source == old(self).source,
            final(self).start == old(self).start,
            r is Ok <==> (old(self).index < old(self).text().len() && old(self).remaining()[0]
                == expected),
            r is Ok ==> {
                &&& final(self).index == old(self).index + char_width(expected)
                &&& final(self).remaining() == old(self).remaining().drop_first()
            },
            r matches Err(e) ==> {
                &&& *final(self) == *old(self)
                &&& e.index == old(self).index
                &&& if old(self).index == old(self).text().len() {
                    e.kind is UnexpectedEndOfInput
                } else {
                    e.kind matches TokenizeErrorKind::ExpectedChar { expected: exp, got } && exp
                        == expected && got == old(self).remaining()[0]
                }
            },
    {
        match char_at(self.source, self.index) {
            Some(c) => {
                if c == expected {
                    proof {
                        lemma_first_char(self.text(), self.index as int);
                    }
                    let w = width_of_char(c);
                    self.index = self.index + w;
                    Ok(())
                } else {
                    Err(
                        TokenizeError {
                            index: self.index as u32,
                            kind: TokenizeErrorKind::ExpectedChar { expected, got: c },
                        },
                    )
                }
            },
            None => Err(
                TokenizeError {
                    index: self.index as u32,
                    kind: TokenizeErrorKind::UnexpectedEndOfInput,
                },
            ),
        }
    }

    /// True when the next character equals `expected`.
    pub fn matches(&self, expected: char) -> (r: bool)
        requires
            self.wf(),
        ensures
            r <==> (self.index < self.text().len() && self.remaining()[0] == expected),
    {
        match char_at(self.source, self.index) {
            Some(c) => c == expected,
            None => false,
        }
    }

    /// Consumes the next character if it equals `expected`, advancing by that
    /// character's UTF-8 byte width.
    pub fn match_and_take(&mut self, expected: char) -> (r: bool)
        requires
            old(self).wf(),
        ensures
            final(self).wf(),
            final(self).source == old(self).source,
            final(self).start == old(self).start,
            r <==> (old(self).index < old(self).text().len() && old(self).remaining()[0]
                == expected),
            r ==> {
                &&& final(self).index == old(self).index + char_width(expected)
                &&& final(self).remaining() == old(self).remaining().drop_first()
            },
            !r ==> *final(self) == *old(self),
    {
        match char_at(self.source, self.index) {
            Some(c) => {
                if c == expected {
                    proof {
                        lemma_first_char(self.text(), self.index as int);
                    }
                    let w = width_of_char(c);
                    self.index = self.index + w;
                    true
                } else {
                    false
                }
            },
            None => false,
        }
    }

    /// Greedily consumes characters satisfying `predicate`; returns the
    /// consumed substring, or `None` if no leading character matched. Never
    /// fails: end of input simply stops the scan.
    pub fn take_while<F: Fn(char) -> bool>(&mut self, predicate: F) -> (r: Option<&'a str>)
        requires
            old(self).wf(),
            forall|c: char| predicate.requires((c,)),
        ensures
            final(self).wf(),
            final(self).source == old(self).source,
            final(self).start == old(self).start,
            old(self).index <= final(self).index,
            ({
                let consumed = decode_utf8(
                    old(self).text().subrange(old(self).index as int, final(self).index as int),
                );
                &&& consumed + final(self).remaining() == old(self).remaining()
                &&& forall|k: int|
                    0 <= k < consumed.len() ==> predicate.ensures((consumed[k],), true)
            }),
            final(self).index < final(self).text().len() ==> predicate.ensures(
                (final(self).remaining()[0],),
                false,
            ),
            r matches Some(s) ==> {
                &&& final(self).index > old(self).index
                &&& s.spec_bytes() == old(self).text().subrange(
                    old(self).index as int,
                    final(self).index as int,
                )
                &&& s@ == decode_utf8(
                    old(self).text().subrange(old(self).index as int, final(self).index as int),
                )
            },
            r is None <==> final(self).index == old(self).index,
            r is None ==> *final(self) == *old(self),
            (old(self).index < old(self).text().len() && !predicate.ensures(
                (old(self).remaining()[0],),
                true,
            )) ==> r is None,
            old(self).index == old(self).text().len() ==> r is None,
    {
        let src: &'a str = self.source;
        let start0 = self.index;
        let ghost bytes = self.text();
        let ghost i0 = self.index as int;
        loop
            invariant
                self.source == old(self).source,
                self.start == old(self).start,
                self.wf(),
                bytes == self.text(),
                i0 == old(self).index,
                i0 <= self.index as int,
                is_char_boundary(bytes, i0),
                start0 as int == i0,
                src == self.source,
                forall|c: char| predicate.requires((c,)),
                decode_utf8(bytes.subrange(i0, self.index as int)) + self.remaining()
                    == chars_from(bytes, i0),
                forall|k: int|
                    0 <= k < decode_utf8(bytes.subrange(i0, self.index as int)).len()
                        ==> predicate.ensures(
                        (decode_utf8(bytes.subrange(i0, self.index as int))[k],),
                        true,
                    ),
            ensures
                self.index as int == self.text().len() || predicate.ensures(
                    (self.remaining()[0],),
                    false,
                ),
            decreases bytes.len() - self.index,
        {
            proof {
                crate::chars::lemma_chars_concat(bytes, i0, self.index as int);
            }
            match char_at(src, self.index) {
                None => { break ; },
                Some(c) => {
                    if predicate(c) {
                        proof {
                            lemma_first_char(bytes, self.index as int);
                        }
                        let w = width_of_char(c);
                        proof {
                            let i = self.index as int;
                            let a = decode_utf8(bytes.subrange(i0, i));
                            let b = decode_utf8(bytes.subrange(i0, i + w));
                            crate::chars::lemma_chars_concat(bytes, i0, i + w);
                            assert(chars_from(bytes, i) =~= seq![c] + chars_from(bytes, i + w));
                            assert((a + seq![c]) + chars_from(bytes, i + w) =~= a + (seq![c]
                                + chars_from(bytes, i + w)));
                            assert((a + seq![c]) + chars_from(bytes, i + w) == b + chars_from(
                                bytes,
                                i + w,
                            ));
                            crate::chars::lemma_concat_cancel_right(
                                a + seq![c],
                                b,
                                chars_from(bytes, i + w),
                            );
                            assert(b == a + seq![c]);
                            assert(b[a.len() as int] == c);
                            assert(forall|k: int| 0 <= k < a.len() ==> b[k] == a[k]);
                        }
                        self.index = self.index + w;
                    } else {
                        break ;
                    }
                },
            }
        }
        proof {
            let consumed = decode_utf8(bytes.subrange(i0, self.index as int));
            if self.index as int > i0 {
                crate::chars::lemma_valid_between(bytes, i0, self.index as int);
                reveal_with_fuel(vstd::utf8::decode_utf8, 2);
                reveal_with_fuel(vstd::utf8::valid_utf8, 2);
                assert(bytes.subrange(i0, self.index as int).len() > 0);
                assert(consumed.len() > 0);
                assert(consumed[0] == (consumed + self.remaining())[0]);
                assert(predicate.ensures((chars_from(bytes, i0)[0],), true));
            }
        }
        if self.index > start0 {
            Some(slice_bytes(src, start0, self.index))
        } else {
            None
        }
    }

    /// Materializes a token spanning `[start, index)` tagged with `kind`.
    pub fn end_token<Kind>(&mut self, kind: Kind) -> (t: Token<Kind>)
        requires
            old(self).wf(),
        ensures
            *final(self) == *old(self),
            t.kind == kind,
            t.index == old(self).start,
            t.len == old(self).index - old(self).start,
            token_fits(t, old(self).text()),
    {
        Token { index: self.start as u32, len: (self.index - self.start) as u32, kind }
    }

    /// Recovers the substring for `tok` from the cursor's own source text;
    /// `None` if the token's range falls outside the text.
    pub fn content<Kind>(&self, tok: &Token<Kind>) -> (r: Option<&'a str>)
        ensures
            r is Some <==> token_fits(*tok, self.text()),
            r matches Some(s) ==> s.spec_bytes() == self.text().subrange(
                tok.index as int,
                tok.index as int + tok.len as int,
            ),
            r matches Some(s) ==> s@ == decode_utf8(
                self.text().subrange(tok.index as int, tok.index as int + tok.len as int),
            ),
    {
        let src: &'a str = self.source;
        try_substring(src, tok.index, tok.len)
    }

    /// An error reporting an unexpected character at the current offset.
    pub fn unexpected(&self, got: char) -> (e: TokenizeError)
        requires
            self.wf(),
        ensures
            e.index == self.index,
            e.kind matches TokenizeErrorKind::UnexpectedChar { got: g } && g == got,
    {
        TokenizeError { index: self.index as u32, kind: TokenizeErrorKind::UnexpectedChar { got } }
    }

    /// An error carrying a caller-supplied message, at the current offset.
    pub fn custom(&self, message: &'static str) -> (e: TokenizeError)
        requires
            self.wf(),
        ensures
            e.index == self.index,
            e.kind matches TokenizeErrorKind::Custom { message: m } && m == message,
    {
        TokenizeError { index: self.index as u32, kind: TokenizeErrorKind::Custom { message } }
    }
}

impl<'a> From<&'a str> for SimpleTokenizer<'a> {
    /// Creates a cursor positioned at the beginning of `value`.
    fn from(value: &'a str) -> (r: Self) {
        SimpleTokenizer { source: value, index: 0, start: 0 }
    }
}

impl<'a> vstd::std_specs::convert::FromSpecImpl<&'a str> for SimpleTokenizer<'a> {
    open spec fn obeys_from_spec() -> bool {
        true
    }

    open spec fn from_spec(value: &'a str) -> Self {
        SimpleTokenizer { source: value, index: 0, start: 0 }
    }
}

} // verus!
