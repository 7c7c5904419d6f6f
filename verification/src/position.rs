//! Position index: bidirectional mapping between a linear byte offset and a
//! (line, column) position for one document snapshot.
//!
//! Columns are counted as raw byte units within the line.

use vstd::prelude::*;

verus! {

use vstd::string::StringSliceAdditionalSpecFns;

/// A (line, column) position, zero-based, in protocol units.
#[derive(Debug, Clone, Copy, PartialEq, Eq, Structural)]
pub struct Position {
    pub line: u32,
    pub character: u32,
}

/// The starting byte offsets of every line of one document snapshot.
#[derive(Debug, Clone)]
pub struct LineIndex {
    pub line_starts: Vec<usize>,
    pub text_len: usize,
}

/// The line-start offsets of the first `n` bytes of a document: offset 0,
/// then one start right after each line-terminator byte.
pub open spec fn starts_upto(bytes: Seq<u8>, n: int) -> Seq<usize>
    decreases n,
{
    if n <= 0 {
        seq![0usize]
    } else if bytes[n - 1] == 10u8 {
        starts_upto(bytes, n - 1).push(n as usize)
    } else {
        starts_upto(bytes, n - 1)
    }
}

/// The index of the line containing offset `o`: the greatest line whose
/// start does not exceed `o`.
pub open spec fn line_of(starts: Seq<usize>, o: int) -> int
    decreases starts.len(),
{
    if starts.len() <= 1 {
        0
    } else if starts[starts.len() - 1] <= o {
        starts.len() - 1
    } else {
        line_of(starts.drop_last(), o)
    }
}

proof fn lemma_starts_upto_wf(bytes: Seq<u8>, n: int)
    requires
        0 <= n <= bytes.len(),
        n <= usize::MAX,
    ensures
        starts_upto(bytes, n).len() >= 1,
        starts_upto(bytes, n)[0] == 0,
        forall|i: int, j: int|
            0 <= i < j < starts_upto(bytes, n).len() ==> starts_upto(bytes, n)[i] < starts_upto(
                bytes,
                n,
            )[j],
        forall|i: int|
            0 <= i < starts_upto(bytes, n).len() ==> starts_upto(bytes, n)[i] <= n,
    decreases n,
{
    if n > 0 {
        lemma_starts_upto_wf(bytes, n - 1);
        let prev = starts_upto(bytes, n - 1);
        if bytes[n - 1] == 10u8 {
            let cur = starts_upto(bytes, n);
            assert(cur == prev.push(n as usize));
            assert(forall|i: int| 0 <= i < prev.len() ==> cur[i] == prev[i]);
            assert(cur[cur.len() - 1] == n as usize);
        }
    }
}

impl LineIndex {
    /// Well-formedness: line starts begin at 0, increase strictly, and stay
    /// within a document that protocol positions can address.
    pub open spec fn wf(self) -> bool {
        &&& self.line_starts@.len() >= 1
        &&& self.line_starts@[0] == 0
        &&& (forall|i: int, j: int|
            0 <= i < j < self.line_starts@.len() ==> self.line_starts@[i] < self.line_starts@[j])
        &&& (forall|i: int|
            0 <= i < self.line_starts@.len() ==> self.line_starts@[i] <= self.text_len)
        &&& self.text_len <= u32::MAX
    }

    /// Built once per snapshot by scanning for line-terminator bytes.
    pub fn new(text: &str) -> (r: LineIndex)
        requires
            text@.len() <= u32::MAX,
            text.spec_bytes().len() <= u32::MAX,
        ensures
            r.line_starts@ == starts_upto(text.spec_bytes(), text.spec_bytes().len() as int),
            r.text_len == text.spec_bytes().len(),
            r.wf(),
    {
        let bytes = text.as_bytes();
        let text_len = bytes.len();
        let mut line_starts: Vec<usize> = Vec::new();
        line_starts.push(0);
        assert(line_starts@ =~= starts_upto(text.spec_bytes(), 0));
        let mut idx: usize = 0;
        while idx < text_len
            invariant
                0 <= idx <= text_len,
                text_len == text.spec_bytes().len(),
                bytes@ == text.spec_bytes(),
                line_starts@ == starts_upto(text.spec_bytes(), idx as int),
            decreases text_len - idx,
        {
            if bytes[idx] == 10u8 {
                line_starts.push(idx + 1);
            }
            idx += 1;
        }
        proof {
            lemma_starts_upto_wf(text.spec_bytes(), text_len as int);
        }
        LineIndex { line_starts, text_len }
    }

    /// The byte offset of a position: none if the line is out of range or
    /// the column exceeds that line's length.
    pub open spec fn spec_offset_of(self, position: Position) -> Option<usize> {
        let line = position.line as int;
        if line >= self.line_starts@.len() {
            None
        } else {
            let line_start = self.line_starts@[line] as int;
            let next_line_start = if line + 1 < self.line_starts@.len() {
                self.line_starts@[line + 1] as int
            } else {
                self.text_len as int
            };
            let line_end = if next_line_start <= self.text_len {
                next_line_start
            } else {
                self.text_len as int
            };
            if line_start + position.character <= line_end {
                Some((line_start + position.character) as usize)
            } else {
                None
            }
        }
    }

    pub fn offset_of(&self, position: Position) -> (r: Option<usize>)
        requires
            self.wf(),
        ensures
            r == self.spec_offset_of(position),
    {
        let line = position.line as usize;
        if line >= self.line_starts.len() {
            return None;
        }
        let line_start = self.line_starts[line];
        let next_line_start = if line + 1 < self.line_starts.len() {
            self.line_starts[line + 1]
        } else {
            self.text_len
        };
        let line_end = if next_line_start <= self.text_len {
            next_line_start
        } else {
            self.text_len
        };
        let character = position.character as usize;
        if character <= line_end - line_start {
            Some(line_start + character)
        } else {
            None
        }
    }

    /// The position of a byte offset, clamped to the document length.
    pub open spec fn spec_position_of(self, offset: usize) -> Position {
        let clamped: int = if offset <= self.text_len {
            offset as int
        } else {
            self.text_len as int
        };
        let line = line_of(self.line_starts@, clamped);
        Position {
            line: line as u32,
            character: (clamped - self.line_starts@[line]) as u32,
        }
    }

    pub fn position_of(&self, offset: usize) -> (r: Position)
        requires
            self.wf(),
        ensures
            r == self.spec_position_of(offset),
    {
        let clamped = if offset <= self.text_len {
            offset
        } else {
            self.text_len
        };
        proof {
            lemma_line_of_bounds(self.line_starts@, clamped as int);
        }
        // binary search for the greatest recorded start at or before the
        // clamped offset
        let mut lo: usize = 0;
        let mut hi: usize = self.line_starts.len() - 1;
        while lo < hi
            invariant
                self.wf(),
                clamped <= self.text_len,
                0 <= lo <= hi < self.line_starts@.len(),
                lo <= line_of(self.line_starts@, clamped as int) <= hi,
            decreases hi - lo,
        {
            let mid = hi - (hi - lo) / 2;
            proof {
                let ans = line_of(self.line_starts@, clamped as int);
                lemma_line_of_bounds(self.line_starts@, clamped as int);
                if self.line_starts@[mid as int] <= clamped {
                    lemma_line_of_is_upper(self.line_starts@, clamped as int, mid as int);
                } else {
                    if ans >= mid {
                        assert(self.line_starts@[ans] >= self.line_starts@[mid as int]);
                    }
                }
            }
            if self.line_starts[mid] <= clamped {
                lo = mid;
            } else {
                hi = mid - 1;
            }
        }
        let line = lo;
        Position {
            line: line as u32,
            character: (clamped - self.line_starts[line]) as u32,
        }
    }
}

/// `line_of` stays within the sequence, and the line it picks starts at or
/// before the offset (for a well-formed start sequence and `o >= 0`).
proof fn lemma_line_of_bounds(starts: Seq<usize>, o: int)
    requires
        starts.len() >= 1,
        starts[0] == 0,
        0 <= o,
    ensures
        0 <= line_of(starts, o) < starts.len(),
        starts[line_of(starts, o)] <= o,
    decreases starts.len(),
{
    if starts.len() > 1 && starts[starts.len() - 1] > o {
        lemma_line_of_bounds(starts.drop_last(), o);
    }
}

/// Every line after the one `line_of` picks starts past the offset.
proof fn lemma_line_of_greatest(starts: Seq<usize>, o: int, i: int)
    requires
        starts.len() >= 1,
        starts[0] == 0,
        0 <= o,
        0 <= i < starts.len(),
        line_of(starts, o) < i,
    ensures
        starts[i] > o,
    decreases starts.len(),
{
    if starts.len() > 1 && starts[starts.len() - 1] > o {
        if i < starts.len() - 1 {
            let head = starts.subrange(0, starts.len() - 1);
            assert(starts.drop_last() =~= head);
            lemma_line_of_greatest(head, o, i);
            assert(head[i] == starts[i]);
        }
    }
}

/// Any line starting at or before the offset is at or below `line_of`.
proof fn lemma_line_of_is_upper(starts: Seq<usize>, o: int, i: int)
    requires
        starts.len() >= 1,
        starts[0] == 0,
        0 <= o,
        0 <= i < starts.len(),
        starts[i] <= o,
    ensures
        i <= line_of(starts, o),
    decreases starts.len(),
{
    if starts.len() > 1 && starts[starts.len() - 1] > o {
        if i < starts.len() - 1 {
            lemma_line_of_is_upper(starts.drop_last(), o, i);
        }
    }
}

/// In a strictly increasing start sequence beginning at 0, the start of
/// line `i` is at least `i`.
proof fn lemma_start_at_least_index(starts: Seq<usize>, i: int)
    requires
        starts.len() >= 1,
        starts[0] == 0,
        forall|a: int, b: int| 0 <= a < b < starts.len() ==> starts[a] < starts[b],
        0 <= i < starts.len(),
    ensures
        starts[i] >= i,
    decreases i,
{
    if i > 0 {
        lemma_start_at_least_index(starts, i - 1);
    }
}

/// Round trip of position mapping: for every offset within the document,
/// mapping to a position and back yields the same offset.
pub proof fn lemma_offset_position_round_trip(li: LineIndex, o: usize)
    requires
        li.wf(),
        o <= li.text_len,
    ensures
        li.spec_offset_of(li.spec_position_of(o)) == Some(o),
{
    lemma_line_of_bounds(li.line_starts@, o as int);
    let line = line_of(li.line_starts@, o as int);
    lemma_start_at_least_index(li.line_starts@, line);
    assert(line <= li.line_starts@[line] <= u32::MAX);
    if line + 1 < li.line_starts@.len() {
        lemma_line_of_greatest(li.line_starts@, o as int, line + 1);
    }
}

} // verus!
