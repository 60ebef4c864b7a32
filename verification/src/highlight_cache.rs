//! Which pages of a response body get highlighted, and which highlighted pages are kept.
//!
//! A background worker highlights the body a page at a time. The screen asks for the page
//! that covers what it shows; the cache answers from the first page or from the last few
//! pages it keeps, and asks the worker for the wanted window when nothing covers it. The
//! worker, its queue and the styles themselves live outside; these are the decisions.
use vstd::prelude::*;

verus! {

/// How many bytes one highlighted page spans.
pub const HIGHLIGHT_PAGE_BYTES: usize = 65536;

/// How many highlighted pages are kept besides the first one.
pub const CACHED_SCROLL_PAGES: usize = 3;

/// A byte range of the response body, from `start` up to `end`.
#[derive(PartialEq, Eq, Structural, Clone, Copy, Debug)]
pub struct ByteRange {
    pub start: usize,
    pub end: usize,
}

/// A page of the body covers a byte range when it starts no later and ends
/// no earlier.
pub open spec fn covers(page: ByteRange, range: ByteRange) -> bool {
    page.start <= range.start && page.end >= range.end
}

/// `i` is the first page of `pages` that covers `range`.
pub open spec fn is_first_covering(pages: Seq<ByteRange>, range: ByteRange, i: int) -> bool {
    &&& 0 <= i < pages.len()
    &&& covers(pages[i], range)
    &&& forall|j: int| 0 <= j < i ==> !covers(#[trigger] pages[j], range)
}

pub open spec fn any_covering(pages: Seq<ByteRange>, range: ByteRange) -> bool {
    exists|i: int| 0 <= i < pages.len() && covers(#[trigger] pages[i], range)
}

/// The window wanted for a visible range: from the start of the page that holds the range's
/// start, over at least two pages and the whole range, cut at the end of the body.
pub open spec fn spec_wanted(range: ByteRange, body_len: usize) -> ByteRange {
    let start = range.start / HIGHLIGHT_PAGE_BYTES * HIGHLIGHT_PAGE_BYTES;
    let two_pages = if start + 2 * HIGHLIGHT_PAGE_BYTES > usize::MAX {
        usize::MAX as int
    } else {
        start + 2 * HIGHLIGHT_PAGE_BYTES
    };
    let end = if range.end >= two_pages { range.end as int } else { two_pages };
    ByteRange { start: start as usize, end: if end <= body_len { end as usize } else { body_len } }
}

pub fn wanted_window(range: ByteRange, body_len: usize) -> (r: ByteRange)
    ensures
        r == spec_wanted(range, body_len),
{
    let a = range.start;
    let start = a / HIGHLIGHT_PAGE_BYTES * HIGHLIGHT_PAGE_BYTES;
    assert(a / 65536 * 65536 <= a) by (nonlinear_arith);
    let two_pages = start.saturating_add(2 * HIGHLIGHT_PAGE_BYTES);
    let end = if range.end >= two_pages { range.end } else { two_pages };
    ByteRange { start, end: if end <= body_len { end } else { body_len } }
}

/// The pages without `page`, in their order.
pub open spec fn without(pages: Seq<ByteRange>, page: ByteRange) -> Seq<ByteRange>
    decreases pages.len(),
{
    if pages.len() == 0 {
        pages
    } else {
        let rest = without(pages.drop_last(), page);
        if pages.last() == page {
            rest
        } else {
            rest.push(pages.last())
        }
    }
}

proof fn lemma_without(pages: Seq<ByteRange>, page: ByteRange)
    ensures
        without(pages, page).len() <= pages.len(),
        !without(pages, page).contains(page),
        forall|x: ByteRange| #[trigger] without(pages, page).contains(x) ==> pages.contains(x),
        pages.no_duplicates() ==> without(pages, page).no_duplicates(),
        pages.no_duplicates() && pages.contains(page) ==> without(pages, page).len() < pages.len(),
    decreases pages.len(),
{
    if pages.len() > 0 {
        let init = pages.drop_last();
        lemma_without(init, page);
        let rest = without(init, page);
        assert forall|x: ByteRange| #[trigger] without(pages, page).contains(x) implies pages.contains(x) by {
            if rest.contains(x) {
                let k = choose|k: int| 0 <= k < rest.len() && rest[k] == x;
                assert(init.contains(x));
                let m = choose|m: int| 0 <= m < init.len() && init[m] == x;
                assert(pages[m] == x);
            } else {
                assert(pages[pages.len() - 1] == x);
            }
        }
        if pages.no_duplicates() {
            assert(init.no_duplicates());
            if pages.last() != page {
                assert(!rest.contains(pages.last())) by {
                    if rest.contains(pages.last()) {
                        assert(init.contains(pages.last()));
                        let m = choose|m: int| 0 <= m < init.len() && init[m] == pages.last();
                        assert(pages[m] == pages[pages.len() - 1]);
                    }
                }
            }
            if pages.contains(page) && pages.last() != page {
                let m = choose|m: int| 0 <= m < pages.len() && pages[m] == page;
                assert(init[m] == page);
            }
        }
    }
}

proof fn lemma_skip_keeps(pages: Seq<ByteRange>, k: int)
    requires
        0 <= k <= pages.len(),
        pages.no_duplicates(),
    ensures
        pages.skip(k).no_duplicates(),
        forall|x: ByteRange| #[trigger] pages.skip(k).contains(x) ==> pages.contains(x),
{
    assert forall|x: ByteRange| #[trigger] pages.skip(k).contains(x) implies pages.contains(x) by {
        let m = choose|m: int| 0 <= m < pages.skip(k).len() && pages.skip(k)[m] == x;
        assert(pages[m + k] == x);
    }
}

/// What stays cached after `page` is published: the other pages, then `page`, the oldest
/// dropped beyond the limit.
pub open spec fn spec_after_publish(pages: Seq<ByteRange>, page: ByteRange) -> Seq<ByteRange> {
    let t = without(pages, page).push(page);
    if t.len() > CACHED_SCROLL_PAGES {
        t.skip(t.len() - CACHED_SCROLL_PAGES)
    } else {
        t
    }
}

/// A page just published answers every visible range it covers: a lookup of such a range
/// finds a kept page.
pub proof fn law_published_page_answers(pages: Seq<ByteRange>, page: ByteRange, range: ByteRange)
    requires
        covers(page, range),
    ensures
        any_covering(spec_after_publish(pages, page), range),
{
    let t = without(pages, page).push(page);
    let a = spec_after_publish(pages, page);
    if t.len() > CACHED_SCROLL_PAGES {
        let k = t.len() - CACHED_SCROLL_PAGES;
        assert(a[a.len() - 1] == t[t.len() - 1]);
    }
    assert(a[a.len() - 1] == page);
    assert(covers(a[a.len() - 1], range));
}

/// What is shown for a visible range: the first page, a kept page, or nothing yet.
#[derive(PartialEq, Eq, Structural, Clone, Copy, Debug)]
pub enum CachedPage {
    First,
    Ready(ByteRange),
    Missing,
}

/// The answer to a visible range: what can be shown, and the window to ask the worker for.
pub struct PageLookup {
    pub cached: CachedPage,
    pub request: Option<ByteRange>,
}

/// What the signals shared by all caches hold: whether something changed since the screen
/// last looked, which cache is on screen, how many jobs wait.
pub struct HighlightSignals {
    pub changed: bool,
    pub visible_cache_id: u64,
    pub queued: u64,
}

/// A piece of work for the worker.
#[derive(PartialEq, Eq, Structural, Clone, Copy, Debug)]
pub struct HighlightJob {
    pub id: u64,
    pub range: ByteRange,
    pub viewport: ByteRange,
    pub prefetch: bool,
    pub initial: bool,
}

/// The state of one cache: the wanted window, the kept pages from oldest to newest, whether
/// a job for the wanted window is out, and how often a visible range was found or missed.
pub struct HighlightPage {
    pub wanted: ByteRange,
    pub ready: Vec<ByteRange>,
    pub pending: bool,
    pub hits: u64,
    pub misses: u64,
}

impl HighlightSignals {
    pub fn new() -> (r: HighlightSignals)
        ensures
            !r.changed,
            r.visible_cache_id == 0,
            r.queued == 0,
    {
        HighlightSignals { changed: false, visible_cache_id: 0, queued: 0 }
    }

    /// Whether anything changed since the last call; the flag is cleared.
    pub fn take_response_highlight_change(&mut self) -> (r: bool)
        ensures
            r == old(self).changed,
            !final(self).changed,
            final(self).visible_cache_id == old(self).visible_cache_id,
            final(self).queued == old(self).queued,
    {
        let r = self.changed;
        self.changed = false;
        r
    }

    /// No cache is on screen any more.
    pub fn clear_response_highlight_focus(&mut self)
        ensures
            final(self).visible_cache_id == 0,
            final(self).changed == old(self).changed,
            final(self).queued == old(self).queued,
    {
        self.visible_cache_id = 0;
    }

    /// The cache `id` is the one on screen.
    pub fn focus(&mut self, id: u64)
        ensures
            final(self).visible_cache_id == id,
            final(self).changed == old(self).changed,
            final(self).queued == old(self).queued,
    {
        self.visible_cache_id = id;
    }

    pub fn mark_changed(&mut self)
        ensures
            final(self).changed,
            final(self).visible_cache_id == old(self).visible_cache_id,
            final(self).queued == old(self).queued,
    {
        self.changed = true;
    }

    /// One more job waits (the counter wraps, as an atomic add does).
    pub fn job_queued(&mut self)
        ensures
            final(self).queued == (if old(self).queued == u64::MAX { 0 } else { old(self).queued + 1 }),
            final(self).changed == old(self).changed,
            final(self).visible_cache_id == old(self).visible_cache_id,
    {
        self.queued = self.queued.wrapping_add(1);
    }

    /// A job left the queue (the counter wraps, as an atomic subtraction does).
    pub fn job_taken(&mut self)
        ensures
            final(self).queued == (if old(self).queued == 0 { u64::MAX } else { (old(self).queued - 1) as u64 }),
            final(self).changed == old(self).changed,
            final(self).visible_cache_id == old(self).visible_cache_id,
    {
        self.queued = self.queued.wrapping_sub(1);
    }

    /// A job is still worth doing: it is the first page or its cache is on screen, it is no
    /// prefetch while other jobs wait, and its cache still wants the window it was made for.
    pub fn job_is_current(&self, job: &HighlightJob, page: Option<&HighlightPage>) -> (r: bool)
        ensures
            r == ((job.initial || self.visible_cache_id == job.id) && (!job.prefetch
                || self.queued == 0) && match page {
                Some(p) => p.wanted == job.viewport,
                None => false,
            }),
    {
        (job.initial || self.visible_cache_id == job.id) && (!job.prefetch || self.queued == 0)
            && match page {
            Some(p) => p.wanted.start == job.viewport.start && p.wanted.end == job.viewport.end,
            None => false,
        }
    }
}

/// The first page of a body: its first bytes, up to a page.
pub open spec fn spec_first_window(body_len: usize) -> ByteRange {
    ByteRange { start: 0, end: if body_len <= HIGHLIGHT_PAGE_BYTES { body_len } else { HIGHLIGHT_PAGE_BYTES } }
}

/// The read-ahead after a job: two pages from where it ended, cut at the end of the body.
pub open spec fn spec_prefetch(job: HighlightJob, body_len: usize) -> HighlightJob {
    let two = if job.range.end + 2 * HIGHLIGHT_PAGE_BYTES > usize::MAX {
        usize::MAX as int
    } else {
        job.range.end + 2 * HIGHLIGHT_PAGE_BYTES
    };
    HighlightJob {
        id: job.id,
        range: ByteRange { start: job.range.end, end: if two <= body_len { two as usize } else { body_len } },
        viewport: job.viewport,
        prefetch: true,
        initial: job.initial,
    }
}

impl HighlightJob {
    /// The job that highlights the first page of a new cache.
    pub fn first(id: u64, body_len: usize) -> (r: HighlightJob)
        ensures
            r.id == id,
            r.range == spec_first_window(body_len),
            r.viewport == r.range,
            !r.prefetch,
            r.initial,
    {
        let end = if body_len <= HIGHLIGHT_PAGE_BYTES { body_len } else { HIGHLIGHT_PAGE_BYTES };
        HighlightJob { id, range: ByteRange { start: 0, end }, viewport: ByteRange { start: 0, end }, prefetch: false, initial: true }
    }

    /// The job that reads ahead after this one: two pages from where it ended, cut at the end
    /// of the body; none when it ended at the end of the body.
    pub fn prefetch_after(&self, body_len: usize) -> (r: Option<HighlightJob>)
        ensures
            self.range.end >= body_len ==> r is None,
            self.range.end < body_len ==> r == Some(spec_prefetch(*self, body_len)),
    {
        let start = self.range.end;
        if start >= body_len {
            return None;
        }
        let two = start.saturating_add(2 * HIGHLIGHT_PAGE_BYTES);
        let end = if two <= body_len { two } else { body_len };
        Some(HighlightJob {
            id: self.id,
            range: ByteRange { start, end },
            viewport: self.viewport,
            prefetch: true,
            initial: self.initial,
        })
    }
}

impl HighlightPage {
    /// The cache never keeps more than its limit of pages, nor one page twice.
    pub open spec fn wf(&self) -> bool {
        self.ready@.len() <= CACHED_SCROLL_PAGES && self.ready@.no_duplicates()
    }

    /// A new cache wants the first page and keeps nothing yet.
    pub fn new(body_len: usize) -> (r: HighlightPage)
        ensures
            r.wanted == spec_first_window(body_len),
            r.ready@.len() == 0,
            !r.pending,
            r.hits == 0,
            r.misses == 0,
            r.wf(),
    {
        let end = if body_len <= HIGHLIGHT_PAGE_BYTES { body_len } else { HIGHLIGHT_PAGE_BYTES };
        HighlightPage { wanted: ByteRange { start: 0, end }, ready: Vec::new(), pending: false, hits: 0, misses: 0 }
    }

    fn first_covering(&self, range: ByteRange) -> (r: Option<usize>)
        ensures
            match r {
                Some(i) => is_first_covering(self.ready@, range, i as int),
                None => !any_covering(self.ready@, range),
            },
    {
        let mut i: usize = 0;
        while i < self.ready.len()
            invariant
                i <= self.ready@.len(),
                forall|j: int| 0 <= j < i ==> !covers(#[trigger] self.ready@[j], range),
            decreases self.ready@.len() - i,
        {
            let p = self.ready[i];
            if p.start <= range.start && p.end >= range.end {
                return Some(i);
            }
            i = i + 1;
        }
        None
    }

    /// Answers a visible range. The wanted window moves to the one for this range (a job out
    /// for another window no longer counts); the first page answers when it reaches the
    /// range's end, else the first kept page that covers the range, which becomes the newest;
    /// a hit or a miss is counted (wrapping). The worker is asked for the wanted window when
    /// neither the kept pages nor the first page cover it and no job for it is out.
    pub fn lookup(&mut self, first_end: usize, range: ByteRange, body_len: usize) -> (r: PageLookup)
        ensures
            final(self).wanted == spec_wanted(range, body_len),
            final(self).pending == (old(self).pending && old(self).wanted == spec_wanted(range, body_len)),
            first_end >= range.end ==> r.cached == CachedPage::First && final(self).ready@ == old(self).ready@,
            first_end < range.end ==> match r.cached {
                CachedPage::Ready(p) => exists|i: int| is_first_covering(old(self).ready@, range, i)
                    && p == old(self).ready@[i] && final(self).ready@ == old(self).ready@.remove(i).push(p),
                CachedPage::Missing => !any_covering(old(self).ready@, range) && final(self).ready@ == old(self).ready@,
                CachedPage::First => false,
            },
            r.cached != CachedPage::Missing ==> final(self).hits == (if old(self).hits == u64::MAX { 0 } else { old(self).hits + 1 })
                && final(self).misses == old(self).misses,
            r.cached == CachedPage::Missing ==> final(self).misses == (if old(self).misses == u64::MAX { 0 } else { old(self).misses + 1 })
                && final(self).hits == old(self).hits,
            r.request == (if !(any_covering(final(self).ready@, spec_wanted(range, body_len)) || first_end >= spec_wanted(range, body_len).end)
                && !final(self).pending {
                Some(spec_wanted(range, body_len))
            } else {
                None
            }),
            old(self).wf() ==> final(self).wf(),
    {
        let wanted = wanted_window(range, body_len);
        if self.wanted.start != wanted.start || self.wanted.end != wanted.end {
            self.wanted = wanted;
            self.pending = false;
        }
        let ghost before = self.ready@;
        let cached = if first_end >= range.end {
            CachedPage::First
        } else {
            match self.first_covering(range) {
                Some(i) => {
                    let page = self.ready.remove(i);
                    self.ready.push(page);
                    proof {
                        if before.no_duplicates() {
                            assert(self.ready@ == before.remove(i as int).push(page));
                            assert forall|a: int, b: int|
                                0 <= a < self.ready@.len() && 0 <= b < self.ready@.len() && a != b
                                implies self.ready@[a] != self.ready@[b] by {
                                let fa = if a == self.ready@.len() - 1 { i as int } else if a < i { a } else { a + 1 };
                                let fb = if b == self.ready@.len() - 1 { i as int } else if b < i { b } else { b + 1 };
                                assert(self.ready@[a] == before[fa]);
                                assert(self.ready@[b] == before[fb]);
                            }
                        }
                    }
                    CachedPage::Ready(page)
                },
                None => CachedPage::Missing,
            }
        };
        match cached {
            CachedPage::Missing => self.misses = self.misses.wrapping_add(1),
            _ => self.hits = self.hits.wrapping_add(1),
        }
        let mut covered = first_end >= wanted.end;
        let mut k: usize = 0;
        while k < self.ready.len() && !covered
            invariant
                k <= self.ready@.len(),
                covered ==> (any_covering(self.ready@, wanted) || first_end >= wanted.end),
                !covered ==> first_end < wanted.end && forall|j: int| 0 <= j < k ==> !covers(#[trigger] self.ready@[j], wanted),
            decreases self.ready@.len() - k,
        {
            let p = self.ready[k];
            if p.start <= wanted.start && p.end >= wanted.end {
                covered = true;
                assert(covers(self.ready@[k as int], wanted));
            }
            k = k + 1;
        }
        let request = if !covered && !self.pending {
            Some(wanted)
        } else {
            None
        };
        PageLookup { cached, request }
    }

    /// A job for the wanted window is out.
    pub fn mark_pending(&mut self)
        ensures
            final(self).pending,
            final(self).wanted == old(self).wanted,
            final(self).ready@ == old(self).ready@,
            final(self).hits == old(self).hits,
            final(self).misses == old(self).misses,
    {
        self.pending = true;
    }

    /// With no worker left, an unhighlighted page stands for the window: the oldest kept page
    /// makes room when the cache is full.
    pub fn add_plain(&mut self, page: ByteRange)
        ensures
            final(self).ready@ == (if old(self).ready@.len() >= CACHED_SCROLL_PAGES {
                old(self).ready@.drop_first()
            } else {
                old(self).ready@
            }).push(page),
            final(self).wanted == old(self).wanted,
            final(self).pending == old(self).pending,
            final(self).hits == old(self).hits,
            final(self).misses == old(self).misses,
            old(self).wf() && !old(self).ready@.contains(page) ==> final(self).wf(),
    {
        let ghost before = self.ready@;
        if self.ready.len() >= CACHED_SCROLL_PAGES {
            self.ready.remove(0);
            assert(self.ready@ =~= before.drop_first());
        }
        let ghost mid = self.ready@;
        self.ready.push(page);
        proof {
            if before.no_duplicates() && !before.contains(page) && before.len() <= CACHED_SCROLL_PAGES {
                assert forall|a: int, b: int|
                    0 <= a < self.ready@.len() && 0 <= b < self.ready@.len() && a != b
                    implies self.ready@[a] != self.ready@[b] by {
                    let off: int = if before.len() >= CACHED_SCROLL_PAGES { 1 } else { 0 };
                    if a < mid.len() {
                        assert(self.ready@[a] == before[a + off]);
                    }
                    if b < mid.len() {
                        assert(self.ready@[b] == before[b + off]);
                    }
                }
            }
        }
    }

    /// The worker finished `page` for the window `viewport`. It is kept only while that window
    /// is still wanted: as the newest page, replacing an equal one, the oldest dropped beyond
    /// the limit; a page that is no prefetch ends the wait. Says whether it was kept.
    pub fn publish(&mut self, viewport: ByteRange, page: ByteRange, prefetch: bool) -> (r: bool)
        ensures
            r == (old(self).wanted == viewport),
            r ==> final(self).ready@ == spec_after_publish(old(self).ready@, page),
            r ==> final(self).pending == (old(self).pending && prefetch),
            !r ==> final(self).ready@ == old(self).ready@ && final(self).pending == old(self).pending,
            r ==> final(self).ready@.last() == page,
            final(self).wanted == old(self).wanted,
            final(self).hits == old(self).hits,
            final(self).misses == old(self).misses,
            old(self).wf() ==> final(self).wf(),
    {
        if self.wanted.start != viewport.start || self.wanted.end != viewport.end {
            return false;
        }
        let ghost before = self.ready@;
        let mut kept: Vec<ByteRange> = Vec::new();
        let mut i: usize = 0;
        while i < self.ready.len()
            invariant
                i <= before.len(),
                self.ready@ == before,
                kept@ == without(before.take(i as int), page),
            decreases before.len() - i,
        {
            let p = self.ready[i];
            proof {
                assert(before.take(i + 1).drop_last() =~= before.take(i as int));
                assert(before.take(i + 1).last() == p);
            }
            if p.start != page.start || p.end != page.end {
                kept.push(p);
            }
            i = i + 1;
        }
        assert(before.take(before.len() as int) =~= before);
        kept.push(page);
        let ghost t = kept@;
        proof {
            lemma_without(before, page);
        }
        if kept.len() > CACHED_SCROLL_PAGES {
            let drop = kept.len() - CACHED_SCROLL_PAGES;
            let mut out: Vec<ByteRange> = Vec::new();
            let mut j: usize = drop;
            while j < kept.len()
                invariant
                    drop <= j <= t.len(),
                    kept@ == t,
                    drop == t.len() - CACHED_SCROLL_PAGES,
                    out@ == t.subrange(drop as int, j as int),
                decreases t.len() - j,
            {
                out.push(kept[j]);
                assert(t.subrange(drop as int, j + 1) =~= t.subrange(drop as int, j as int).push(t[j as int]));
                j = j + 1;
            }
            assert(out@ =~= t.skip(drop as int));
            self.ready = out;
        } else {
            self.ready = kept;
        }
        if !prefetch {
            self.pending = false;
        }
        proof {
            let w = without(before, page);
            if before.no_duplicates() {
                assert(t.no_duplicates()) by {
                    assert forall|a: int, b: int| 0 <= a < t.len() && 0 <= b < t.len() && a != b implies t[a] != t[b] by {
                        if a == t.len() - 1 {
                            assert(w.contains(t[b]) ==> t[b] != page);
                            assert(t[b] == w[b]);
                        } else if b == t.len() - 1 {
                            assert(t[a] == w[a]);
                            assert(w.contains(w[a]));
                        } else {
                            assert(t[a] == w[a] && t[b] == w[b]);
                        }
                    }
                }
                if t.len() > CACHED_SCROLL_PAGES {
                    lemma_skip_keeps(t, t.len() - CACHED_SCROLL_PAGES);
                }
            }
        }
        true
    }

    /// A job that will not finish gives up the wait, when it was no prefetch and its window is
    /// still wanted. Says whether the wait ended.
    pub fn cancel_job(&mut self, viewport: ByteRange, prefetch: bool) -> (r: bool)
        ensures
            r == (!prefetch && old(self).wanted == viewport),
            final(self).pending == (old(self).pending && !r),
            final(self).wanted == old(self).wanted,
            final(self).ready@ == old(self).ready@,
            final(self).hits == old(self).hits,
            final(self).misses == old(self).misses,
    {
        if prefetch {
            return false;
        }
        if self.wanted.start == viewport.start && self.wanted.end == viewport.end {
            self.pending = false;
            true
        } else {
            false
        }
    }
}

} // verus!
