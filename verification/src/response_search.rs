//! A plain-text response as the response view shows it, and the search through its lines.
use vstd::prelude::*;
use crate::line_index::{display_lines, lemma_next_line_advances, lines_from, next_line, PlainIndex};
use crate::request_list::{lowercase_str, unicode_lowercase};
use crate::text::{contains, contains_str};

verus! {

/// What `String::from_utf8_lossy` makes of some bytes: their text, with each invalid
/// sequence replaced by U+FFFD.
pub uninterp spec fn utf8_lossy(bytes: Seq<u8>) -> Seq<char>;

/// Calls `String::from_utf8_lossy`; the text is named by `utf8_lossy`.
#[verifier::external_body]
pub(crate) fn lossy_text(bytes: &[u8]) -> (r: String)
    ensures
        r@ == utf8_lossy(bytes@),
{
    String::from_utf8_lossy(bytes).into_owned()
}

/// The display lines of a body lie within it, in order, from `offset` on.
pub proof fn lemma_lines_within(body: Seq<u8>, offset: int)
    requires
        0 <= offset <= body.len(),
    ensures
        forall|k: int| 0 <= k < lines_from(body, offset).len() ==> offset <= (#[trigger] lines_from(
            body,
            offset,
        )[k]).0 <= lines_from(body, offset)[k].1 <= body.len(),
    decreases body.len() - offset,
{
    if offset < body.len() {
        lemma_next_line_advances(body, offset);
        let (s, v, n) = next_line(body, offset).unwrap();
        lemma_lines_within(body, n);
        let rest = lines_from(body, n);
        assert(lines_from(body, offset) == seq![(s, v)] + rest);
        assert forall|k: int| 0 <= k < lines_from(body, offset).len() implies offset <= (
        #[trigger] lines_from(body, offset)[k]).0 <= lines_from(body, offset)[k].1 <= body.len() by {
            if k > 0 {
                assert(lines_from(body, offset)[k] == rest[k - 1]);
            }
        }
    }
}

/// Whether display line `k` holds the lowercased query, read as lowercased text.
pub open spec fn line_hit(body: Seq<u8>, lines: Seq<(int, int)>, k: int, query: Seq<char>) -> bool {
    contains(unicode_lowercase(utf8_lossy(body.subrange(lines[k].0, lines[k].1))), query)
}

/// The first line in `a..b` that holds the query.
pub open spec fn first_hit(body: Seq<u8>, lines: Seq<(int, int)>, query: Seq<char>, a: int, b: int) -> Option<int>
    decreases b - a,
{
    if a >= b {
        None
    } else if line_hit(body, lines, a, query) {
        Some(a)
    } else {
        first_hit(body, lines, query, a + 1, b)
    }
}

/// The last line in `a..b` that holds the query.
pub open spec fn last_hit(body: Seq<u8>, lines: Seq<(int, int)>, query: Seq<char>, a: int, b: int) -> Option<int>
    decreases b - a,
{
    if a >= b {
        None
    } else if line_hit(body, lines, b - 1, query) {
        Some(b - 1)
    } else {
        last_hit(body, lines, query, a, b - 1)
    }
}

pub open spec fn or_else(x: Option<int>, y: Option<int>) -> Option<int> {
    match x {
        Some(v) => Some(v),
        None => y,
    }
}

/// The line a search finds, case-insensitively: forward, the first match from `start` to
/// the end, else from the top; backward, the last match up to `start`, else from the end.
pub open spec fn spec_find_line(body: Seq<u8>, query: Seq<char>, start: usize, reverse: bool) -> Option<int> {
    let lines = display_lines(body);
    let n = lines.len() as int;
    let q = unicode_lowercase(query);
    if reverse {
        let up_to = if start as int + 1 > usize::MAX {
            usize::MAX as int
        } else {
            start + 1
        };
        let end = if n < up_to {
            n
        } else {
            up_to
        };
        or_else(last_hit(body, lines, q, 0, end), last_hit(body, lines, q, end, n))
    } else {
        let s = if (start as int) < n {
            start as int
        } else {
            n
        };
        or_else(first_hit(body, lines, q, s, n), first_hit(body, lines, q, 0, s))
    }
}

/// Where the next search starts: after the last match going forward, before it going
/// backward; from the top, or from the end, when nothing was found yet.
pub open spec fn spec_search_start(previous: Option<usize>, reverse: bool) -> usize {
    match previous {
        None => if reverse {
            usize::MAX
        } else {
            0
        },
        Some(line) => if reverse {
            if line == 0 {
                usize::MAX
            } else {
                (line - 1) as usize
            }
        } else if line == usize::MAX {
            usize::MAX
        } else {
            (line + 1) as usize
        },
    }
}

pub fn search_start(previous: Option<usize>, reverse: bool) -> (r: usize)
    ensures
        r == spec_search_start(previous, reverse),
{
    match previous {
        None => if reverse {
            usize::MAX
        } else {
            0
        },
        Some(line) => if reverse {
            if line == 0 {
                usize::MAX
            } else {
                line - 1
            }
        } else {
            line.saturating_add(1)
        },
    }
}

/// A plain-text response: its bytes, how many of them show, and the index of the lines
/// that show.
pub struct PlainDocument {
    body: Vec<u8>,
    displayed_bytes: usize,
    index: PlainIndex,
}

impl PlainDocument {
    pub closed spec fn spec_body(&self) -> Seq<u8> {
        self.body@
    }

    pub closed spec fn spec_displayed_bytes(&self) -> usize {
        self.displayed_bytes
    }

    /// The shown part of the body.
    pub open spec fn shown(&self) -> Seq<u8> {
        self.spec_body().take(self.spec_displayed_bytes() as int)
    }

    pub closed spec fn wf(&self) -> bool {
        &&& self.displayed_bytes <= self.body@.len()
        &&& self.index.indexes(self.body@.take(self.displayed_bytes as int))
    }

    /// A document that shows at most `max_display_bytes` of the body, and at least one
    /// byte of a body that has any.
    pub fn new(body: Vec<u8>, max_display_bytes: usize) -> (r: PlainDocument)
        ensures
            r.wf(),
            r.spec_body() == body@,
            r.spec_displayed_bytes() == if body@.len() < (if max_display_bytes > 0 {
                max_display_bytes
            } else {
                1
            }) {
                body@.len()
            } else if max_display_bytes > 0 {
                max_display_bytes as nat
            } else {
                1
            },
    {
        let limit = if max_display_bytes > 0 {
            max_display_bytes
        } else {
            1
        };
        let displayed_bytes = if body.len() < limit {
            body.len()
        } else {
            limit
        };
        let index = PlainIndex::new(&body.as_slice()[0..displayed_bytes]);
        proof {
            assert(body@.subrange(0, displayed_bytes as int) =~= body@.take(displayed_bytes as int));
        }
        PlainDocument { body, displayed_bytes, index }
    }

    pub fn displayed_bytes(&self) -> (r: usize)
        ensures
            r == self.spec_displayed_bytes(),
    {
        self.displayed_bytes
    }

    pub fn total_bytes(&self) -> (r: usize)
        ensures
            r == self.spec_body().len(),
    {
        self.body.len()
    }

    /// Whether part of the body does not show.
    pub fn limited(&self) -> (r: bool)
        ensures
            r == (self.spec_displayed_bytes() < self.spec_body().len()),
    {
        self.displayed_bytes < self.body.len()
    }

    pub fn line_count(&self) -> (r: usize)
        requires
            self.wf(),
        ensures
            r == display_lines(self.shown()).len(),
    {
        self.index.line_count
    }

    /// The line that a search for `query` finds from `start`, forward or backward.
    pub fn find_line(&self, query: &str, start: usize, reverse: bool) -> (r: Option<usize>)
        requires
            self.wf(),
        ensures
            match r {
                Some(k) => spec_find_line(self.shown(), query@, start, reverse) == Some(k as int),
                None => spec_find_line(self.shown(), query@, start, reverse) is None,
            },
    {
        let shown = &self.body.as_slice()[0..self.displayed_bytes];
        proof {
            assert(shown@ =~= self.shown());
        }
        let ghost lines = display_lines(shown@);
        let q = lowercase_str(query);
        let n = self.index.line_count;
        if n == 0 {
            return None;
        }
        let ranges = self.index.ranges(shown, 0, n);
        proof {
            lemma_lines_within(shown@, 0);
            assert(ranges_are_lines(shown@, ranges@));
        }
        if reverse {
            let up_to = start.saturating_add(1);
            let end = if n < up_to {
                n
            } else {
                up_to
            };
            match last_in(shown, &ranges, q.as_str(), 0, end) {
                Some(k) => Some(k),
                None => last_in(shown, &ranges, q.as_str(), end, n),
            }
        } else {
            let s = if start < n {
                start
            } else {
                n
            };
            match first_in(shown, &ranges, q.as_str(), s, n) {
                Some(k) => Some(k),
                None => first_in(shown, &ranges, q.as_str(), 0, s),
            }
        }
    }
}

fn hit(body: &[u8], ranges: &Vec<(usize, usize)>, k: usize, query: &str) -> (r: bool)
    requires
        k < ranges@.len(),
        ranges@[k as int].0 <= ranges@[k as int].1 <= body@.len(),
    ensures
        r == contains(
            unicode_lowercase(utf8_lossy(body@.subrange(ranges@[k as int].0 as int, ranges@[k as int].1 as int))),
            query@,
        ),
{
    let (s, e) = ranges[k];
    let text = lossy_text(&body[s..e]);
    contains_str(lowercase_str(text.as_str()).as_str(), query)
}

/// The ranges stand for the display lines of the body.
pub open spec fn ranges_are_lines(body: Seq<u8>, ranges: Seq<(usize, usize)>) -> bool {
    &&& ranges.len() == display_lines(body).len()
    &&& forall|j: int| 0 <= j < ranges.len() ==> (#[trigger] ranges[j]).0 == display_lines(body)[j].0
        && ranges[j].1 == display_lines(body)[j].1
    &&& forall|j: int| 0 <= j < ranges.len() ==> (#[trigger] display_lines(body)[j]).0 <= display_lines(
        body,
    )[j].1 <= body.len()
}

fn first_in(body: &[u8], ranges: &Vec<(usize, usize)>, query: &str, a: usize, b: usize) -> (r: Option<usize>)
    requires
        a <= b <= ranges@.len(),
        ranges_are_lines(body@, ranges@),
    ensures
        match r {
            Some(k) => first_hit(body@, display_lines(body@), query@, a as int, b as int) == Some(k as int),
            None => first_hit(body@, display_lines(body@), query@, a as int, b as int) is None,
        },
{
    let ghost lines = display_lines(body@);
    let mut i = a;
    while i < b
        invariant
            a <= i <= b <= ranges@.len(),
            ranges_are_lines(body@, ranges@),
            lines == display_lines(body@),
            first_hit(body@, lines, query@, a as int, b as int) == first_hit(body@, lines, query@, i as int, b as int),
        decreases b - i,
    {
        assert(ranges@[i as int].0 == lines[i as int].0 && ranges@[i as int].1 == lines[i as int].1);
        assert(lines[i as int].0 <= lines[i as int].1 <= body@.len());
        if hit(body, ranges, i, query) {
            return Some(i);
        }
        i = i + 1;
    }
    None
}

fn last_in(body: &[u8], ranges: &Vec<(usize, usize)>, query: &str, a: usize, b: usize) -> (r: Option<usize>)
    requires
        a <= b <= ranges@.len(),
        ranges_are_lines(body@, ranges@),
    ensures
        match r {
            Some(k) => last_hit(body@, display_lines(body@), query@, a as int, b as int) == Some(k as int),
            None => last_hit(body@, display_lines(body@), query@, a as int, b as int) is None,
        },
{
    let ghost lines = display_lines(body@);
    let mut i = b;
    while i > a
        invariant
            a <= i <= b <= ranges@.len(),
            ranges_are_lines(body@, ranges@),
            lines == display_lines(body@),
            last_hit(body@, lines, query@, a as int, b as int) == last_hit(body@, lines, query@, a as int, i as int),
        decreases i - a,
    {
        let k = i - 1;
        assert(ranges@[k as int].0 == lines[k as int].0 && ranges@[k as int].1 == lines[k as int].1);
        assert(lines[k as int].0 <= lines[k as int].1 <= body@.len());
        if hit(body, ranges, k, query) {
            return Some(k);
        }
        i = k;
    }
    None
}


proof fn lemma_first_hit(body: Seq<u8>, lines: Seq<(int, int)>, q: Seq<char>, a: int, b: int)
    ensures
        first_hit(body, lines, q, a, b) matches Some(k) ==> a <= k < b && line_hit(body, lines, k, q),
        (exists|k: int| a <= k < b && #[trigger] line_hit(body, lines, k, q)) ==> first_hit(body, lines, q, a, b) is Some,
    decreases b - a,
{
    if a < b {
        lemma_first_hit(body, lines, q, a + 1, b);
        if exists|k: int| a <= k < b && #[trigger] line_hit(body, lines, k, q) {
            let k = choose|k: int| a <= k < b && #[trigger] line_hit(body, lines, k, q);
            if k > a {
                assert(a + 1 <= k < b && line_hit(body, lines, k, q));
            }
        }
    }
}

proof fn lemma_last_hit(body: Seq<u8>, lines: Seq<(int, int)>, q: Seq<char>, a: int, b: int)
    ensures
        last_hit(body, lines, q, a, b) matches Some(k) ==> a <= k < b && line_hit(body, lines, k, q),
        (exists|k: int| a <= k < b && #[trigger] line_hit(body, lines, k, q)) ==> last_hit(body, lines, q, a, b) is Some,
    decreases b - a,
{
    if a < b {
        lemma_last_hit(body, lines, q, a, b - 1);
        if exists|k: int| a <= k < b && #[trigger] line_hit(body, lines, k, q) {
            let k = choose|k: int| a <= k < b && #[trigger] line_hit(body, lines, k, q);
            if k < b - 1 {
                assert(a <= k < b - 1 && line_hit(body, lines, k, q));
            }
        }
    }
}

/// A search finds a line that holds the query, and it finds one whenever any line holds
/// it, whatever line it starts from and in either direction.
pub proof fn law_search_finds_matches(body: Seq<u8>, query: Seq<char>, start: usize, reverse: bool)
    ensures
        spec_find_line(body, query, start, reverse) matches Some(k) ==> 0 <= k < display_lines(body).len()
            && line_hit(body, display_lines(body), k, unicode_lowercase(query)),
        (exists|k: int| 0 <= k < display_lines(body).len() && #[trigger] line_hit(
            body,
            display_lines(body),
            k,
            unicode_lowercase(query),
        )) ==> spec_find_line(body, query, start, reverse) is Some,
{
    let lines = display_lines(body);
    let n = lines.len() as int;
    let q = unicode_lowercase(query);
    if reverse {
        let up_to = if start as int + 1 > usize::MAX {
            usize::MAX as int
        } else {
            start + 1
        };
        let end = if n < up_to {
            n
        } else {
            up_to
        };
        lemma_last_hit(body, lines, q, 0, end);
        lemma_last_hit(body, lines, q, end, n);
        if exists|k: int| 0 <= k < n && #[trigger] line_hit(body, lines, k, q) {
            let k = choose|k: int| 0 <= k < n && #[trigger] line_hit(body, lines, k, q);
            if k < end {
                assert(0 <= k < end && line_hit(body, lines, k, q));
            } else {
                assert(end <= k < n && line_hit(body, lines, k, q));
            }
        }
    } else {
        let s0 = if (start as int) < n {
            start as int
        } else {
            n
        };
        lemma_first_hit(body, lines, q, s0, n);
        lemma_first_hit(body, lines, q, 0, s0);
        if exists|k: int| 0 <= k < n && #[trigger] line_hit(body, lines, k, q) {
            let k = choose|k: int| 0 <= k < n && #[trigger] line_hit(body, lines, k, q);
            if k < s0 {
                assert(0 <= k < s0 && line_hit(body, lines, k, q));
            } else {
                assert(s0 <= k < n && line_hit(body, lines, k, q));
            }
        }
    }
}

} // verus!
