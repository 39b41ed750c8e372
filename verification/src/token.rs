//! The immutable token record produced by the character cursor and the owned
//! container that holds a complete tokenizing pass.

use vstd::prelude::*;
use vstd::utf8::is_char_boundary;
use vstd::utf8::valid_utf8;

verus! {

/// An immutable, classified span of source text: a caller-supplied kind, the
/// byte offset of the span's first byte, and its byte length.
#[derive(Debug)]
pub struct Token<Kind> {
    pub kind: Kind,
    pub index: u32,
    pub len: u32,
}

/// True when the token's byte range lies inside `bytes` and both ends align
/// on character boundaries.
pub open spec fn token_fits<Kind>(t: Token<Kind>, bytes: Seq<u8>) -> bool {
    &&& t.index + t.len <= bytes.len()
    &&& is_char_boundary(bytes, t.index as int)
    &&& is_char_boundary(bytes, t.index as int + t.len as int)
}

/// True when `b` spans the same byte range as `a` and carries a kind that
/// could have been cloned from `a`'s.
pub open spec fn token_cloned<Kind: Clone>(a: Token<Kind>, b: Token<Kind>) -> bool {
    &&& b.index == a.index
    &&& b.len == a.len
    &&& cloned(a.kind, b.kind)
}

/// Law: a token whose range lies on character boundaries of its source names
/// a byte span that is valid UTF-8 on its own, so recovering its text never
/// splits a character's encoding.
pub proof fn lemma_token_text_valid<Kind>(t: Token<Kind>, bytes: Seq<u8>)
    requires
        valid_utf8(bytes),
        token_fits(t, bytes),
    ensures
        valid_utf8(bytes.subrange(t.index as int, t.index as int + t.len as int)),
{
    crate::chars::lemma_valid_between(bytes, t.index as int, t.index as int + t.len as int);
}

impl<Kind> Token<Kind> {
    /// The token's byte range in its source text.
    pub fn range(tok: &Self) -> (r: core::ops::Range<usize>)
        requires
            tok.index + tok.len <= usize::MAX,
        ensures
            r.start == tok.index,
            r.end == tok.index + tok.len,
    {
        let index = tok.index as usize;
        let len = tok.len as usize;
        index..index + len
    }
}

impl<Kind: Clone> Clone for Token<Kind> {
    /// Duplicates the span exactly; the kind is duplicated by `Kind`'s own
    /// `clone`.
    fn clone(&self) -> (r: Self)
        ensures
            token_cloned(*self, r),
    {
        Token { kind: self.kind.clone(), index: self.index, len: self.len }
    }
}

/// An owned, ordered, insertion-order sequence of tokens, built once by a
/// tokenizing pass and read-only for the lifetime of parsing.
pub struct Tokens<Kind> {
    pub inner: Vec<Token<Kind>>,
}

impl<Kind> View for Tokens<Kind> {
    type V = Seq<Token<Kind>>;

    open spec fn view(&self) -> Seq<Token<Kind>> {
        self.inner@
    }
}

impl<Kind> Tokens<Kind> {
    /// Wraps an already-collected sequence of tokens.
    pub fn from_vec(inner: Vec<Token<Kind>>) -> (r: Self)
        ensures
            r@ == inner@,
    {
        Tokens { inner }
    }

    /// Number of tokens in the container.
    pub fn len(&self) -> (n: usize)
        ensures
            n == self@.len(),
    {
        self.inner.len()
    }
}

} // verus!
