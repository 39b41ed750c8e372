//! Character-level primitives over UTF-8 byte sequences: byte widths of
//! characters, character boundaries, and substring extraction.

use vstd::prelude::*;
use vstd::string::StrSliceExecFns;
use vstd::string::StringSliceAdditionalSpecFns;
use vstd::utf8::*;

verus! {

broadcast use vstd::utf8::encode_utf8_valid_utf8, vstd::utf8::encode_utf8_decode_utf8;

/// Number of bytes in the UTF-8 encoding of `c`.
pub open spec fn char_width(c: char) -> int {
    encode_scalar(c as u32).len() as int
}

/// The bytes of `bytes` from offset `i` to the end.
pub open spec fn tail_bytes(bytes: Seq<u8>, i: int) -> Seq<u8> {
    bytes.subrange(i, bytes.len() as int)
}

/// The characters encoded in `bytes` from byte offset `i` to the end.
pub open spec fn chars_from(bytes: Seq<u8>, i: int) -> Seq<char> {
    decode_utf8(tail_bytes(bytes, i))
}

/// Stepping over the first character's encoding at a boundary lands on a
/// character boundary again.
proof fn lemma_boundary_step(bytes: Seq<u8>, i: int)
    requires
        valid_utf8(bytes),
        is_char_boundary(bytes, i),
        0 <= i < bytes.len(),
    ensures
        is_char_boundary(bytes, i + length_of_first_scalar(tail_bytes(bytes, i))),
    decreases i,
{
    reveal_with_fuel(is_char_boundary, 2);
    reveal_with_fuel(valid_utf8, 2);
    if i == 0 {
        assert(tail_bytes(bytes, 0) =~= bytes);
        let l0 = length_of_first_scalar(bytes);
        assert(l0 <= bytes.len());
        assert(is_char_boundary(pop_first_scalar(bytes), 0));
    } else {
        let l0 = length_of_first_scalar(bytes);
        let tail = pop_first_scalar(bytes);
        assert(is_char_boundary(tail, i - l0));
        assert(i - l0 >= 0);
        assert(tail_bytes(tail, i - l0) =~= tail_bytes(bytes, i));
        lemma_boundary_step(tail, i - l0);
    }
}

/// A boundary of the whole sequence is a boundary of the suffix that starts
/// at an earlier boundary.
pub proof fn lemma_boundary_in_suffix(bytes: Seq<u8>, i: int, j: int)
    requires
        valid_utf8(bytes),
        is_char_boundary(bytes, i),
        is_char_boundary(bytes, j),
        0 <= i <= j <= bytes.len(),
    ensures
        is_char_boundary(tail_bytes(bytes, i), j - i),
{
    broadcast use vstd::utf8::valid_utf8_split;

    let sfx = tail_bytes(bytes, i);
    if j == bytes.len() {
        is_char_boundary_start_end_of_seq(sfx);
    } else {
        is_char_boundary_iff_not_is_continuation_byte(bytes, j);
        is_char_boundary_iff_not_is_continuation_byte(sfx, j - i);
    }
}

/// A boundary of the whole sequence is a boundary of the prefix that ends at
/// a later boundary.
pub proof fn lemma_boundary_in_prefix(bytes: Seq<u8>, j: int, i: int)
    requires
        valid_utf8(bytes),
        is_char_boundary(bytes, i),
        is_char_boundary(bytes, j),
        0 <= i <= j <= bytes.len(),
    ensures
        is_char_boundary(bytes.subrange(0, j), i),
{
    broadcast use vstd::utf8::valid_utf8_split;

    let pre = bytes.subrange(0, j);
    if i == j {
        is_char_boundary_start_end_of_seq(pre);
    } else {
        is_char_boundary_iff_not_is_continuation_byte(bytes, i);
        is_char_boundary_iff_not_is_continuation_byte(pre, i);
    }
}

/// The text between two character boundaries is valid UTF-8 on its own.
pub proof fn lemma_valid_between(bytes: Seq<u8>, i: int, j: int)
    requires
        valid_utf8(bytes),
        is_char_boundary(bytes, i),
        is_char_boundary(bytes, j),
        0 <= i <= j <= bytes.len(),
    ensures
        valid_utf8(bytes.subrange(i, j)),
{
    broadcast use vstd::utf8::valid_utf8_split;

    let sfx = tail_bytes(bytes, i);
    lemma_boundary_in_suffix(bytes, i, j);
    assert(sfx.subrange(0, j - i) =~= bytes.subrange(i, j));
}

/// What the first character at a boundary looks like: it exists, its byte
/// width fits before the end of the text, the position just past it is again
/// a boundary, and stepping over it drops exactly that character.
pub proof fn lemma_first_char(bytes: Seq<u8>, i: int)
    requires
        valid_utf8(bytes),
        is_char_boundary(bytes, i),
        0 <= i < bytes.len(),
    ensures
        chars_from(bytes, i).len() > 0,
        chars_from(bytes, i)[0] == decode_first_scalar(tail_bytes(bytes, i)) as char,
        1 <= char_width(chars_from(bytes, i)[0]) <= 4,
        i + char_width(chars_from(bytes, i)[0]) <= bytes.len(),
        is_char_boundary(bytes, i + char_width(chars_from(bytes, i)[0])),
        chars_from(bytes, i + char_width(chars_from(bytes, i)[0])) == chars_from(
            bytes,
            i,
        ).drop_first(),
{
    broadcast use vstd::utf8::valid_utf8_split;

    let sfx = tail_bytes(bytes, i);
    assert(valid_utf8(sfx));
    assert(sfx.len() > 0);
    reveal_with_fuel(valid_utf8, 2);
    reveal_with_fuel(decode_utf8, 2);
    let c = decode_first_scalar(sfx) as char;
    assert(chars_from(bytes, i) == seq![c] + decode_utf8(pop_first_scalar(sfx)));
    decode_utf8_first_scalar(sfx);
    let l = length_of_first_scalar(sfx);
    assert(char_width(c) == take_first_scalar(sfx).len());
    assert(take_first_scalar(sfx).len() == l);
    assert(l <= sfx.len());
    lemma_boundary_step(bytes, i);
    assert(tail_bytes(bytes, i + l) =~= pop_first_scalar(sfx));
    assert(chars_from(bytes, i + l) =~= chars_from(bytes, i).drop_first());
}

/// Byte width of `c`'s UTF-8 encoding.
pub fn width_of_char(c: char) -> (w: usize)
    ensures
        w == char_width(c),
{
    proof {
        char_is_scalar(c);
    }
    let u = c as u32;
    if u < 0x80 {
        1
    } else if u < 0x800 {
        2
    } else if u < 0x10000 {
        3
    } else {
        4
    }
}

/// The decoded text between two boundaries, concatenated with the text from
/// the second boundary on, is the text from the first boundary on.
pub proof fn lemma_chars_concat(bytes: Seq<u8>, i: int, j: int)
    requires
        valid_utf8(bytes),
        is_char_boundary(bytes, i),
        is_char_boundary(bytes, j),
        0 <= i <= j <= bytes.len(),
    ensures
        decode_utf8(bytes.subrange(i, j)) + chars_from(bytes, j) == chars_from(bytes, i),
{
    broadcast use vstd::utf8::valid_utf8_split;

    let sfx = tail_bytes(bytes, i);
    lemma_boundary_in_suffix(bytes, i, j);
    decode_utf8_split(sfx, j - i);
    assert(sfx.subrange(0, j - i) =~= bytes.subrange(i, j));
    assert(sfx.subrange(j - i, sfx.len() as int) =~= tail_bytes(bytes, j));
}

/// Concatenation of character sequences cancels on the right.
pub proof fn lemma_concat_cancel_right(x: Seq<char>, y: Seq<char>, s: Seq<char>)
    requires
        x + s == y + s,
    ensures
        x == y,
{
    assert(x.len() + s.len() == (x + s).len());
    assert((y + s).len() == y.len() + s.len());
    assert(x.len() == y.len());
    assert forall|k: int| 0 <= k < x.len() implies x[k] == y[k] by {
        assert((x + s)[k] == x[k]);
        assert((y + s)[k] == y[k]);
    }
    assert(x =~= y);
}

/// First character of `s` at byte offset `i`, if any remains.
pub fn char_at(s: &str, i: usize) -> (r: Option<char>)
    requires
        i <= s.spec_bytes().len(),
        is_char_boundary(s.spec_bytes(), i as int),
    ensures
        r is Some <==> i < s.spec_bytes().len(),
        r matches Some(c) ==> c == chars_from(s.spec_bytes(), i as int)[0],
{
    let (_, rest) = s.split_at(i);
    proof {
        assert(rest.spec_bytes() =~= tail_bytes(s.spec_bytes(), i as int));
        reveal_with_fuel(encode_utf8, 2);
        if rest@.len() == 0 {
            assert(rest.spec_bytes().len() == 0);
        } else {
            char_is_scalar(rest@[0]);
            assert(rest.spec_bytes().len() > 0);
        }
    }
    if rest.is_empty() {
        None
    } else {
        let c = rest.get_char(0);
        proof {
            assert(rest@ == decode_utf8(rest.spec_bytes()));
            assert(c == chars_from(s.spec_bytes(), i as int)[0]);
        }
        Some(c)
    }
}

/// The substring of `s` covering byte offsets `[from, to)`, which must lie on
/// character boundaries.
pub fn slice_bytes<'a>(s: &'a str, from: usize, to: usize) -> (r: &'a str)
    requires
        from <= to <= s.spec_bytes().len(),
        is_char_boundary(s.spec_bytes(), from as int),
        is_char_boundary(s.spec_bytes(), to as int),
    ensures
        r.spec_bytes() == s.spec_bytes().subrange(from as int, to as int),
        r@ == decode_utf8(s.spec_bytes().subrange(from as int, to as int)),
        valid_utf8(r.spec_bytes()),
{
    let (pre, _) = s.split_at(to);
    proof {
        lemma_boundary_in_prefix(s.spec_bytes(), to as int, from as int);
    }
    let (_, mid) = pre.split_at(from);
    proof {
        assert(mid.spec_bytes() =~= s.spec_bytes().subrange(from as int, to as int));
        assert(mid@ == decode_utf8(mid.spec_bytes()));
    }
    mid
}

/// The substring of `s` for byte range `[from, from + len)`, if that range is
/// in bounds and aligned on character boundaries.
pub fn try_substring<'a>(s: &'a str, from: u32, len: u32) -> (r: Option<&'a str>)
    ensures
        r is Some <==> (from + len <= s.spec_bytes().len() && is_char_boundary(
            s.spec_bytes(),
            from as int,
        ) && is_char_boundary(s.spec_bytes(), from as int + len as int)),
        r matches Some(sub) ==> sub.spec_bytes() == s.spec_bytes().subrange(
            from as int,
            from as int + len as int,
        ),
        r matches Some(sub) ==> sub@ == decode_utf8(
            s.spec_bytes().subrange(from as int, from as int + len as int),
        ),
{
    let sb = s.as_bytes();
    let n = sb.len();
    proof {
        broadcast use vstd::slice::axiom_spec_len;

        assert(n == sb@.len());
    }
    let end64: u64 = from as u64 + len as u64;
    if end64 <= n as u64 {
        let start: usize = from as usize;
        let end: usize = end64 as usize;
        if s.is_char_boundary(start) && s.is_char_boundary(end) {
            Some(slice_bytes(s, start, end))
        } else {
            None
        }
    } else {
        None
    }
}

/// Byte length of `s`; unlike the spec-level sequence length, the returned
/// value is known to fit in `usize`.
pub fn byte_len(s: &str) -> (n: usize)
    ensures
        n == s.spec_bytes().len(),
{
    let sb = s.as_bytes();
    let n = sb.len();
    proof {
        broadcast use vstd::slice::axiom_spec_len;

        assert(n == sb@.len());
    }
    n
}

/// True when `a` and `b` hold the same text.
pub fn str_eq(a: &str, b: &str) -> (r: bool)
    ensures
        r <==> a.spec_bytes() == b.spec_bytes(),
        r <==> a@ == b@,
{
    proof {
        if a.spec_bytes() == b.spec_bytes() {
            assert(a@ == decode_utf8(a.spec_bytes()));
            assert(b@ == decode_utf8(b.spec_bytes()));
        }
    }
    let ab = a.as_bytes();
    let bb = b.as_bytes();
    if ab.len() != bb.len() {
        return false;
    }
    let n = ab.len();
    let mut i: usize = 0;
    while i < n
        invariant
            n == ab@.len() == bb@.len(),
            i <= n,
            ab@ == a.spec_bytes(),
            bb@ == b.spec_bytes(),
            forall|k: int| 0 <= k < i ==> ab@[k] == bb@[k],
        decreases n - i,
    {
        if ab[i] != bb[i] {
            return false;
        }
        i = i + 1;
    }
    proof {
        assert(a.spec_bytes() =~= b.spec_bytes());
    }
    true
}

} // verus!
