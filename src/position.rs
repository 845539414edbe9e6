//! Protocol positions and their translation into byte offsets of a buffer.

use vstd::prelude::*;
use vstd::string::StringSliceAdditionalSpecFns;
use vstd::utf8::*;

verus! {

broadcast use vstd::utf8::group_utf8_lib;

/// A (line, character) location, both counted from zero. `character` counts
/// bytes of the UTF-8 encoding, the buffer's own addressing unit.
#[derive(Clone, Copy, Debug, PartialEq, Eq, Structural)]
pub struct Position {
    pub line: u32,
    pub character: u32,
}

/// A span between two positions: `start` inclusive, `end` exclusive.
#[derive(Clone, Copy, Debug, PartialEq, Eq, Structural)]
pub struct Range {
    pub start: Position,
    pub end: Position,
}

pub const NEWLINE: u8 = 10;

/// Byte `k` of `b` begins a line: the first byte, or the byte after a `\n`.
pub open spec fn starts_line(b: Seq<u8>, k: int) -> bool {
    0 <= k < b.len() && (k == 0 || b[k - 1] == NEWLINE)
}

/// The offsets at which the lines of `b` begin, in increasing order. Every
/// line keeps its `\n`; an empty buffer has no lines, and a final `\n` opens
/// no new one.
pub open spec fn line_starts(b: Seq<u8>) -> Seq<int>
    decreases b.len(),
{
    if b.len() == 0 {
        Seq::empty()
    } else if starts_line(b, b.len() - 1) {
        line_starts(b.drop_last()).push(b.len() - 1)
    } else {
        line_starts(b.drop_last())
    }
}

/// The byte offset that `(line, character)` denotes in `b`: the start of the
/// given line plus `character`, provided the line exists and the result falls
/// on a character boundary (at most the buffer's length).
pub open spec fn offset_of(b: Seq<u8>, line: nat, character: nat) -> Option<int> {
    if line < line_starts(b).len() && line_starts(b)[line as int] + character <= b.len()
        && is_char_boundary(b, line_starts(b)[line as int] + character) {
        Some(line_starts(b)[line as int] + character)
    } else {
        None
    }
}

/// The line starts of a prefix are a prefix of the line starts.
pub proof fn lemma_line_starts_prefix(b: Seq<u8>, j: int)
    requires
        0 <= j <= b.len(),
    ensures
        line_starts(b.subrange(0, j)).len() <= line_starts(b).len(),
        forall|k: int|
            0 <= k < line_starts(b.subrange(0, j)).len() ==> line_starts(b.subrange(0, j))[k]
                == line_starts(b)[k],
    decreases b.len(),
{
    if j == b.len() {
        assert(b.subrange(0, j) =~= b);
    } else {
        lemma_line_starts_prefix(b.drop_last(), j);
        assert(b.drop_last().subrange(0, j) =~= b.subrange(0, j));
    }
}

/// Line starts lie inside the buffer and strictly increase.
pub proof fn lemma_line_starts_increasing(b: Seq<u8>)
    ensures
        forall|k: int| 0 <= k < line_starts(b).len() ==> starts_line(b, #[trigger] line_starts(b)[k]),
        forall|i: int, k: int|
            0 <= i < k < line_starts(b).len() ==> #[trigger] line_starts(b)[i] < #[trigger] line_starts(b)[k],
    decreases b.len(),
{
    if b.len() > 0 {
        let p = b.drop_last();
        lemma_line_starts_increasing(p);
        assert forall|k: int| 0 <= k < line_starts(p).len() implies starts_line(b, line_starts(p)[k]) by {
            assert(starts_line(p, line_starts(p)[k]));
        }
    }
}

/// Translates `position` into a byte offset of `s`. `None` when the line does
/// not exist or the offset does not fall on a character boundary of `s`.
pub fn position_to_offset(position: Position, s: &str) -> (r: Option<usize>)
    ensures
        r matches Some(o) ==> offset_of(s.spec_bytes(), position.line as nat, position.character as nat) == Some(o as int),
        r is None ==> offset_of(s.spec_bytes(), position.line as nat, position.character as nat) is None,
        position.line >= line_starts(s.spec_bytes()).len() ==> r is None,
        r matches Some(o) ==> o <= s.spec_bytes().len(),
{
    let b = s.as_bytes();
    let ghost bs = b@;
    let line = position.line as usize;
    let mut count: usize = 0;
    let mut i: usize = 0;
    while i < b.len()
        invariant
            bs == s.spec_bytes(),
            b@ == bs,
            line == position.line,
            i <= b.len() == bs.len(),
            count <= line,
            count == line_starts(bs.subrange(0, i as int)).len(),
        decreases b.len() - i,
    {
        let ghost pre = bs.subrange(0, i as int);
        let ghost next = bs.subrange(0, i as int + 1);
        assert(next.drop_last() =~= pre);
        assert(i > 0 ==> next[i - 1] == b@[i - 1]);
        if i == 0 || b[i - 1] == NEWLINE {
            assert(starts_line(next, i as int));
            if count == line {
                proof {
                    lemma_line_starts_prefix(bs, i as int + 1);
                }
                assert(line_starts(next) == line_starts(pre).push(i as int));
                assert(line_starts(next)[count as int] == i);
                assert(line_starts(bs)[line as int] == i);
                assert((line as int) < line_starts(bs).len());
                let char_len = position.character as usize;
                if char_len <= b.len() - i && s.is_char_boundary(i + char_len) {
                    return Some(i + char_len);
                } else {
                    proof {
                        reveal_with_fuel(is_char_boundary, 1);
                        assert(valid_utf8(bs));
                    }
                    assert(!is_char_boundary(bs, i + char_len));
                    return None;
                }
            }
            count = count + 1;
        } else {
            assert(!starts_line(next, i as int));
        }
        i = i + 1;
    }
    assert(bs.subrange(0, i as int) =~= bs);
    None
}

/// Every offset that a position translates to lies within `[0, len(b)]`, at
/// or after the start of its line.
pub proof fn lemma_offset_within_buffer(b: Seq<u8>, line: nat, character: nat)
    requires
        offset_of(b, line, character) is Some,
    ensures
        0 <= line_starts(b)[line as int] <= offset_of(b, line, character)->0 <= b.len(),
{
    lemma_line_starts_increasing(b);
}

/// Distinct lines start at distinct offsets: translating the start of two
/// different existing lines never gives the same offset.
pub proof fn lemma_line_start_offsets_distinct(b: Seq<u8>, line1: nat, line2: nat)
    requires
        offset_of(b, line1, 0) is Some,
        offset_of(b, line2, 0) is Some,
        line1 != line2,
    ensures
        offset_of(b, line1, 0) != offset_of(b, line2, 0),
{
    lemma_line_starts_increasing(b);
    if line1 < line2 {
        assert(line_starts(b)[line1 as int] < line_starts(b)[line2 as int]);
    } else {
        assert(line_starts(b)[line2 as int] < line_starts(b)[line1 as int]);
    }
}

/// A position whose line index is at or beyond the number of lines of the
/// buffer never translates to an offset.
pub proof fn lemma_missing_line_fails(b: Seq<u8>, line: nat, character: nat)
    requires
        line >= line_starts(b).len(),
    ensures
        offset_of(b, line, character) is None,
{
}

} // verus!
