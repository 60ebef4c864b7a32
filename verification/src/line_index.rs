//! The display lines of a response body: logical lines cut into pieces of at most
//! `MAX_LINE_BYTES` bytes on character boundaries, with checkpoints for quick seeking.
use vstd::prelude::*;

verus! {

/// The longest piece of a line shown as one display line.
pub const MAX_LINE_BYTES: usize = 512;

/// How many display lines lie between two checkpoints.
pub const CHECKPOINT_LINE_INTERVAL: usize = 256;

/// `memchr::memchr`: the index of the first byte of `haystack` equal to `needle`.
#[verifier::external_body]
fn find_byte(needle: u8, haystack: &[u8]) -> (r: Option<usize>)
    ensures
        match r {
            Some(i) => i < haystack@.len() && haystack@[i as int] == needle && forall|j: int|
                0 <= j < i ==> haystack@[j] != needle,
            None => forall|j: int| 0 <= j < haystack@.len() ==> haystack@[j] != needle,
        },
{
    memchr::memchr(needle, haystack)
}

/// The index of the first `\n` at or after `start`, or the body's length.
pub open spec fn line_end_from(body: Seq<u8>, start: int) -> int
    decreases body.len() - start,
{
    if start < 0 || start >= body.len() {
        body.len() as int
    } else if body[start] == 10u8 {
        start
    } else {
        line_end_from(body, start + 1)
    }
}

/// A byte that continues a UTF-8 character.
pub open spec fn is_continuation(b: u8) -> bool {
    128 <= b && b < 192
}

/// `end`, moved back over continuation bytes, but not to `start`.
pub open spec fn back_to_boundary(body: Seq<u8>, start: int, end: int) -> int
    decreases end - start,
{
    if end < body.len() && end > start && is_continuation(body[end]) {
        back_to_boundary(body, start, end - 1)
    } else {
        end
    }
}

/// The display line that starts at `offset`: its start, where its visible text ends (without
/// a `\r` that ends a logical line), and where the next display line starts.
pub open spec fn next_line(body: Seq<u8>, offset: int) -> Option<(int, int, int)> {
    if offset < 0 || offset >= body.len() {
        None
    } else {
        let logical_end = line_end_from(body, offset);
        let cut = if logical_end - offset < MAX_LINE_BYTES {
            logical_end
        } else {
            offset + MAX_LINE_BYTES
        };
        let b = back_to_boundary(body, offset, cut);
        let end = if b == offset && logical_end > offset {
            offset + 1
        } else {
            b
        };
        let visible_end = if end == logical_end && end > offset && body[end - 1] == 13u8 {
            end - 1
        } else {
            end
        };
        let next = if end == logical_end {
            if logical_end < body.len() {
                logical_end + 1
            } else {
                logical_end
            }
        } else {
            end
        };
        Some((offset, visible_end, next))
    }
}

pub proof fn lemma_line_end_bounds(body: Seq<u8>, start: int)
    requires
        0 <= start <= body.len(),
    ensures
        start <= line_end_from(body, start) <= body.len(),
        line_end_from(body, start) < body.len() ==> body[line_end_from(body, start)] == 10u8,
        forall|j: int| start <= j < line_end_from(body, start) ==> body[j] != 10u8,
    decreases body.len() - start,
{
    if start < body.len() && body[start] != 10u8 {
        lemma_line_end_bounds(body, start + 1);
    }
}

pub proof fn lemma_line_end_inside(body: Seq<u8>, start: int, k: int)
    requires
        0 <= start <= k <= line_end_from(body, start),
        line_end_from(body, start) <= body.len(),
    ensures
        line_end_from(body, k) == line_end_from(body, start),
    decreases k - start,
{
    if start < k {
        lemma_line_end_bounds(body, start);
        assert(body[start] != 10u8);
        lemma_line_end_inside(body, start + 1, k);
    }
}

pub proof fn lemma_back_bounds(body: Seq<u8>, start: int, end: int)
    requires
        start <= end,
    ensures
        start <= back_to_boundary(body, start, end) <= end,
    decreases end - start,
{
    if end < body.len() && end > start && is_continuation(body[end]) {
        lemma_back_bounds(body, start, end - 1);
    }
}

/// Each display line moves the position forward, to at most the body's end.
pub proof fn lemma_next_line_advances(body: Seq<u8>, offset: int)
    requires
        0 <= offset < body.len(),
    ensures
        next_line(body, offset) matches Some((s, v, n)) && s == offset && offset <= v <= n && offset < n
            <= body.len(),
{
    let logical_end = line_end_from(body, offset);
    lemma_line_end_bounds(body, offset);
    let cut = if logical_end - offset < MAX_LINE_BYTES {
        logical_end
    } else {
        offset + MAX_LINE_BYTES
    };
    lemma_back_bounds(body, offset, cut);
}

/// A position in a body: where the next display line starts, and the end of the logical
/// line it lies in once that end is known.
#[derive(Clone, Copy)]
pub struct LineCursor {
    pub offset: usize,
    pub logical_end: Option<usize>,
}

impl LineCursor {
    /// A known line end is the end of the logical line the cursor is in.
    pub open spec fn valid_for(self, body: Seq<u8>) -> bool {
        &&& self.offset <= body.len()
        &&& (self.logical_end matches Some(e) ==> e == line_end_from(body, self.offset as int))
    }

    pub fn start() -> (r: LineCursor)
        ensures
            r.offset == 0,
            r.logical_end is None,
    {
        LineCursor { offset: 0, logical_end: None }
    }

    /// The next display line, as the range of its visible bytes; none at the body's end.
    pub fn next(&mut self, body: &[u8]) -> (r: Option<(usize, usize)>)
        requires
            old(self).valid_for(body@),
        ensures
            final(self).valid_for(body@),
            match next_line(body@, old(self).offset as int) {
                None => r is None && final(self).offset == old(self).offset,
                Some((s, v, n)) => r == Some((s as usize, v as usize)) && final(self).offset == n,
            },
    {
        if self.offset >= body.len() {
            return None;
        }
        let start = self.offset;
        proof {
            lemma_line_end_bounds(body@, start as int);
            lemma_next_line_advances(body@, start as int);
        }
        let logical_end = match self.logical_end {
            Some(e) => e,
            None => {
                let rest = &body[start..body.len()];
                let e = match find_byte(10u8, rest) {
                    Some(k) => {
                        assert(rest@[k as int] == body@[start + k]);
                        assert forall|j: int| start <= j < start + k implies body@[j] != 10u8 by {
                            assert(rest@[j - start] == body@[j]);
                        }
                        proof {
                            lemma_line_end_no_newline(body@, start as int, start + k);
                        }
                        start + k
                    },
                    None => {
                        assert forall|j: int| start <= j < body@.len() implies body@[j] != 10u8 by {
                            assert(rest@[j - start] == body@[j]);
                        }
                        proof {
                            lemma_line_end_no_newline(body@, start as int, body@.len() as int);
                        }
                        body.len()
                    },
                };
                self.logical_end = Some(e);
                e
            },
        };
        let cut = if logical_end - start < MAX_LINE_BYTES {
            logical_end
        } else {
            start + MAX_LINE_BYTES
        };
        let mut end = cut;
        while end < body.len() && end > start && 128u8 <= body[end] && body[end] < 192u8
            invariant
                start <= end <= cut,
                cut <= body@.len(),
                back_to_boundary(body@, start as int, cut as int) == back_to_boundary(
                    body@,
                    start as int,
                    end as int,
                ),
            decreases end,
        {
            end = end - 1;
        }
        if end == start && logical_end > start {
            end = start + 1;
        }
        let visible_end = if end == logical_end && end > start && body[end - 1] == 13u8 {
            end - 1
        } else {
            end
        };
        if end == logical_end {
            self.logical_end = None;
            self.offset = if logical_end < body.len() {
                logical_end + 1
            } else {
                logical_end
            };
        } else {
            self.offset = end;
            proof {
                lemma_line_end_inside(body@, start as int, end as int);
            }
        }
        Some((start, visible_end))
    }
}

proof fn lemma_line_end_no_newline(body: Seq<u8>, start: int, e: int)
    requires
        0 <= start <= e <= body.len(),
        forall|j: int| start <= j < e ==> body[j] != 10u8,
        e < body.len() ==> body[e] == 10u8,
    ensures
        line_end_from(body, start) == e,
    decreases e - start,
{
    if start < e {
        lemma_line_end_no_newline(body, start + 1, e);
    }
}

/// The display lines of a body from `offset` on, as (start, visible end) pairs.
pub open spec fn lines_from(body: Seq<u8>, offset: int) -> Seq<(int, int)>
    decreases body.len() - offset,
{
    match next_line(body, offset) {
        None => Seq::empty(),
        Some((s, v, n)) => if n <= offset || n > body.len() {
            Seq::empty()
        } else {
            seq![(s, v)] + lines_from(body, n)
        },
    }
}

/// The display lines of a body.
pub open spec fn display_lines(body: Seq<u8>) -> Seq<(int, int)> {
    lines_from(body, 0)
}


/// Walking on from a position yields its display line, then those after it.
pub proof fn lemma_lines_from_step(body: Seq<u8>, offset: int)
    requires
        0 <= offset < body.len(),
    ensures
        next_line(body, offset) matches Some((s, v, n)) && lines_from(body, offset) == seq![(s, v)]
            + lines_from(body, n),
{
    lemma_next_line_advances(body, offset);
}

pub proof fn lemma_lines_from_end(body: Seq<u8>, offset: int)
    requires
        offset >= body.len(),
    ensures
        lines_from(body, offset) == Seq::<(int, int)>::empty(),
{
}

/// The display lines of a body, with a cursor kept every `CHECKPOINT_LINE_INTERVAL` lines.
pub struct PlainIndex {
    pub checkpoints: Vec<LineCursor>,
    pub line_count: usize,
}

impl PlainIndex {
    /// The index belongs to `body`: it counts its display lines, and its `k`-th checkpoint
    /// stands where display line `k * CHECKPOINT_LINE_INTERVAL` starts.
    pub open spec fn indexes(&self, body: Seq<u8>) -> bool {
        &&& self.line_count == display_lines(body).len()
        &&& self.checkpoints@.len() == (self.line_count as int) / (CHECKPOINT_LINE_INTERVAL as int) + 1
        &&& forall|k: int| 0 <= k < self.checkpoints@.len() ==> {
            &&& (#[trigger] self.checkpoints@[k]).valid_for(body)
            &&& lines_from(body, self.checkpoints@[k].offset as int) == display_lines(body).skip(
                k * CHECKPOINT_LINE_INTERVAL,
            )
        }
    }

    pub fn new(body: &[u8]) -> (r: PlainIndex)
        ensures
            r.indexes(body@),
    {
        let ghost all = display_lines(body@);
        let mut cursor = LineCursor::start();
        let mut checkpoints: Vec<LineCursor> = Vec::new();
        checkpoints.push(cursor);
        let mut line_count: usize = 0;
        assert(all.skip(0) =~= all);
        loop
            invariant
                all == display_lines(body@),
                cursor.valid_for(body@),
                line_count <= cursor.offset,
                lines_from(body@, cursor.offset as int) == all.skip(line_count as int),
                line_count <= all.len(),
                checkpoints@.len() == (line_count as int) / (CHECKPOINT_LINE_INTERVAL as int) + 1,
                forall|k: int| 0 <= k < checkpoints@.len() ==> {
                    &&& (#[trigger] checkpoints@[k]).valid_for(body@)
                    &&& lines_from(body@, checkpoints@[k].offset as int) == all.skip(
                        k * CHECKPOINT_LINE_INTERVAL,
                    )
                },
            ensures
                line_count == all.len(),
                checkpoints@.len() == (line_count as int) / (CHECKPOINT_LINE_INTERVAL as int) + 1,
                forall|k: int| 0 <= k < checkpoints@.len() ==> {
                    &&& (#[trigger] checkpoints@[k]).valid_for(body@)
                    &&& lines_from(body@, checkpoints@[k].offset as int) == all.skip(
                        k * CHECKPOINT_LINE_INTERVAL,
                    )
                },
            decreases body@.len() - cursor.offset,
        {
            let ghost before = cursor.offset as int;
            if cursor.offset < body.len() {
                proof {
                    lemma_lines_from_step(body@, before);
                    lemma_next_line_advances(body@, before);
                }
            }
            match cursor.next(body) {
                None => {
                    proof {
                        lemma_lines_from_end(body@, before);
                        assert(all.skip(line_count as int).len() == 0);
                    }
                    break;
                },
                Some(_) => {},
            }
            proof {
                assert(all.skip(line_count as int).drop_first() =~= all.skip(line_count + 1));
            }
            line_count = line_count + 1;
            if line_count % CHECKPOINT_LINE_INTERVAL == 0 {
                proof {
                    assert((line_count as int) / (CHECKPOINT_LINE_INTERVAL as int) * (CHECKPOINT_LINE_INTERVAL as int) == line_count as int) by (nonlinear_arith)
                        requires
                            (line_count as int) % (CHECKPOINT_LINE_INTERVAL as int) == 0,
                    ;
                }
                checkpoints.push(cursor);
            }
        }
        PlainIndex { checkpoints, line_count }
    }

    /// The display lines `offset` to `offset + count` (fewer at the body's end), as byte ranges.
    pub fn ranges(&self, body: &[u8], offset: usize, count: usize) -> (r: Vec<(usize, usize)>)
        requires
            self.indexes(body@),
            offset < self.line_count,
        ensures
            r@.len() == if offset + count <= self.line_count {
                count as int
            } else {
                self.line_count - offset
            },
            forall|j: int| 0 <= j < r@.len() ==> (#[trigger] r@[j]).0 == display_lines(body@)[offset + j].0
                && r@[j].1 == display_lines(body@)[offset + j].1,
    {
        let ghost all = display_lines(body@);
        let q = offset / CHECKPOINT_LINE_INTERVAL;
        proof {
            assert((q as int) <= (self.line_count as int) / (CHECKPOINT_LINE_INTERVAL as int)) by (nonlinear_arith)
                requires
                    (q as int) == (offset as int) / (CHECKPOINT_LINE_INTERVAL as int),
                    (offset as int) < (self.line_count as int),
            ;
        }
        let mut cursor = self.checkpoints[q];
        assert(self.checkpoints@[q as int].valid_for(body@));
        let skip = offset % CHECKPOINT_LINE_INTERVAL;
        proof {
            assert((q as int) * (CHECKPOINT_LINE_INTERVAL as int) + (skip as int) == offset as int) by (nonlinear_arith)
                requires
                    (q as int) == (offset as int) / (CHECKPOINT_LINE_INTERVAL as int),
                    (skip as int) == (offset as int) % (CHECKPOINT_LINE_INTERVAL as int),
            ;
        }
        let mut i: usize = 0;
        while i < skip
            invariant
                all == display_lines(body@),
                self.line_count == all.len(),
                offset < all.len(),
                q * CHECKPOINT_LINE_INTERVAL + skip == offset,
                i <= skip,
                cursor.valid_for(body@),
                lines_from(body@, cursor.offset as int) == all.skip(q * CHECKPOINT_LINE_INTERVAL + i),
            decreases skip - i,
        {
            let ghost before = cursor.offset as int;
            proof {
                assert(all.skip(q * CHECKPOINT_LINE_INTERVAL + i).len() > 0);
                if before >= body@.len() {
                    lemma_lines_from_end(body@, before);
                }
                lemma_lines_from_step(body@, before);
            }
            cursor.next(body);
            assert(all.skip(q * CHECKPOINT_LINE_INTERVAL + i).drop_first() =~= all.skip(
                q * CHECKPOINT_LINE_INTERVAL + i + 1,
            ));
            i = i + 1;
        }
        let mut out: Vec<(usize, usize)> = Vec::new();
        let mut j: usize = 0;
        while j < count
            invariant
                all == display_lines(body@),
                self.line_count == all.len(),
                offset < all.len(),
                j <= count,
                out@.len() == j,
                offset + j <= all.len(),
                cursor.valid_for(body@),
                lines_from(body@, cursor.offset as int) == all.skip(offset + j),
                forall|k: int| 0 <= k < j ==> (#[trigger] out@[k]).0 == all[offset + k].0 && out@[k].1
                    == all[offset + k].1,
            ensures
                out@.len() == if offset + count <= all.len() {
                    count as int
                } else {
                    all.len() - offset
                },
                forall|k: int| 0 <= k < out@.len() ==> (#[trigger] out@[k]).0 == all[offset + k].0
                    && out@[k].1 == all[offset + k].1,
            decreases count - j,
        {
            let ghost before = cursor.offset as int;
            if cursor.offset < body.len() {
                proof {
                    lemma_lines_from_step(body@, before);
                }
            }
            match cursor.next(body) {
                None => {
                    proof {
                        lemma_lines_from_end(body@, before);
                    }
                    break;
                },
                Some(range) => {
                    assert(all.skip(offset + j).len() > 0);
                    assert(all.skip(offset + j)[0] == all[offset + j]);
                    assert(all.skip(offset + j).drop_first() =~= all.skip(offset + j + 1));
                    out.push(range);
                },
            }
            j = j + 1;
        }
        out
    }
}

} // verus!
