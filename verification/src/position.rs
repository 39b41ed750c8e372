//! The position resolver: recomputes human-readable line/column/line-start
//! metadata for a byte offset by re-scanning the text from the start. Pure
//! and stateless; intended for the error-reporting path only.

use crate::chars::char_at;
use crate::chars::char_width;
use crate::chars::chars_from;
use crate::chars::lemma_first_char;
use crate::chars::width_of_char;
use crate::errors::TokenizeError;
use vstd::prelude::*;
use vstd::string::StringSliceAdditionalSpecFns;

verus! {

broadcast use vstd::utf8::encode_utf8_valid_utf8, vstd::utf8::encode_utf8_decode_utf8;

/// Line/column information derived for a byte offset. `line` is 1-based;
/// `column` counts characters since the last newline; `line_start_index` is
/// the byte offset of the line's first character.
#[derive(Debug, Clone, Copy, PartialEq, Eq, Structural)]
pub struct PositionInfo {
    pub line: u32,
    pub column: u32,
    pub line_start_index: usize,
    pub index: usize,
}

/// Walks `chars`, carrying the line/column state reached at byte offset
/// `offset`, and returns `(line, column, line_start)` once the cumulative
/// byte offset reaches or passes `target` or the text is exhausted.
pub open spec fn scan_position(
    chars: Seq<char>,
    line: int,
    column: int,
    line_start: int,
    offset: int,
    target: int,
) -> (int, int, int)
    decreases chars.len(),
{
    if offset >= target || chars.len() == 0 {
        (line, column, line_start)
    } else {
        let w = char_width(chars[0]);
        if chars[0] == '\n' {
            scan_position(chars.drop_first(), line + 1, 0, offset + w, offset + w, target)
        } else {
            scan_position(chars.drop_first(), line, column + 1, line_start, offset + w, target)
        }
    }
}

/// Position of byte offset `target` within `chars`: 1-based line, 0-based
/// column, and the byte offset of the line's first character.
pub open spec fn position_of(chars: Seq<char>, target: int) -> (int, int, int) {
    scan_position(chars, 1, 0, 0, 0, target)
}

impl TokenizeError {
    /// Resolves this error's byte offset against `source` by walking the text
    /// character by character from the beginning.
    pub fn position(this: &Self, source: &str) -> (info: PositionInfo)
        requires
            source.spec_bytes().len() < u32::MAX,
        ensures
            ({
                let (line, column, line_start) = position_of(source@, this.index as int);
                &&& info.line == line
                &&& info.column == column
                &&& info.line_start_index == line_start
                &&& info.index == this.index
            }),
    {
        let ghost bytes = source.spec_bytes();
        let target = this.index as usize;
        let src_len = source.len();
        let mut line: u32 = 1;
        let mut column: u32 = 0;
        let mut line_start: usize = 0;
        let mut off: usize = 0;
        proof {
            assert(bytes.subrange(0, bytes.len() as int) =~= bytes);
            assert(vstd::utf8::decode_utf8(bytes) == source@);
            assert(source@ == chars_from(bytes, 0));
        }
        while off < target && off < src_len
            invariant
                src_len == bytes.len(),
                bytes == source.spec_bytes(),
                bytes.len() < u32::MAX,
                target == this.index,
                off <= src_len,
                vstd::utf8::is_char_boundary(bytes, off as int),
                1 <= line,
                line - 1 + column <= off,
                line_start <= off,
                scan_position(
                    chars_from(bytes, off as int),
                    line as int,
                    column as int,
                    line_start as int,
                    off as int,
                    target as int,
                ) == position_of(source@, this.index as int),
            decreases src_len - off,
        {
            let c = match char_at(source, off) {
                Some(c) => c,
                None => {
                    proof {
                        assert(false);
                    }
                    ' '
                },
            };
            proof {
                lemma_first_char(bytes, off as int);
            }
            let w = width_of_char(c);
            off = off + w;
            if c == '\n' {
                line = line + 1;
                column = 0;
                line_start = off;
            } else {
                column = column + 1;
            }
        }
        proof {
            if off < src_len {
            } else {
                reveal_with_fuel(vstd::utf8::decode_utf8, 1);
                assert(chars_from(bytes, off as int).len() == 0);
            }
        }
        PositionInfo { line, column, line_start_index: line_start, index: target }
    }
}

} // verus!
