use postui::highlight_cache::{
    wanted_window, ByteRange, CachedPage, HighlightJob, HighlightPage, HighlightSignals,
    CACHED_SCROLL_PAGES, HIGHLIGHT_PAGE_BYTES,
};

fn r(start: usize, end: usize) -> ByteRange {
    ByteRange { start, end }
}

#[test]
fn wanted_window_spans_two_pages_from_the_page_start() {
    let p = HIGHLIGHT_PAGE_BYTES;
    assert_eq!(wanted_window(r(p + 10, p + 20), 10 * p), r(p, 3 * p));
    assert_eq!(wanted_window(r(10, 5 * p), 10 * p), r(0, 5 * p));
    assert_eq!(wanted_window(r(10, 20), 100), r(0, 100));
    assert_eq!(wanted_window(r(usize::MAX - 1, usize::MAX), usize::MAX).end, usize::MAX);
}

#[test]
fn signals_are_taken_once() {
    let mut s = HighlightSignals::new();
    assert!(!s.take_response_highlight_change());
    s.mark_changed();
    assert!(s.take_response_highlight_change());
    assert!(!s.take_response_highlight_change());
    s.focus(7);
    assert_eq!(s.visible_cache_id, 7);
    s.clear_response_highlight_focus();
    assert_eq!(s.visible_cache_id, 0);
    s.job_taken();
    assert_eq!(s.queued, u64::MAX);
    s.job_queued();
    assert_eq!(s.queued, 0);
}

#[test]
fn jobs_are_current_while_their_window_is_wanted() {
    let mut s = HighlightSignals::new();
    let page = HighlightPage::new(1000);
    let first = HighlightJob::first(3, 1000);
    assert_eq!(first.range, r(0, 1000));
    assert!(s.job_is_current(&first, Some(&page)));
    assert!(!s.job_is_current(&first, None));
    let later = HighlightJob { initial: false, ..first };
    assert!(!s.job_is_current(&later, Some(&page)));
    s.focus(3);
    assert!(s.job_is_current(&later, Some(&page)));
    let ahead = HighlightJob { prefetch: true, ..later };
    s.job_queued();
    assert!(!s.job_is_current(&ahead, Some(&page)));
}

#[test]
fn prefetch_reads_two_pages_ahead() {
    let p = HIGHLIGHT_PAGE_BYTES;
    let job = HighlightJob::first(1, 10 * p);
    let next = job.prefetch_after(10 * p).unwrap();
    assert_eq!(next.range, r(p, 3 * p));
    assert!(next.prefetch);
    assert_eq!(next.viewport, job.viewport);
    assert!(HighlightJob::first(1, 100).prefetch_after(100).is_none());
}

#[test]
fn lookup_uses_first_page_then_kept_pages() {
    let p = HIGHLIGHT_PAGE_BYTES;
    let len = 10 * p;
    let mut page = HighlightPage::new(len);
    let first = page.lookup(p, r(0, 100), len);
    assert_eq!(first.cached, CachedPage::First);
    assert_eq!(first.request, Some(r(0, 2 * p)));
    assert_eq!(page.lookup(2 * p, r(0, 100), len).request, None);
    assert_eq!(page.hits, 2);

    let miss = page.lookup(p, r(3 * p + 5, 3 * p + 50), len);
    assert_eq!(miss.cached, CachedPage::Missing);
    assert_eq!(miss.request, Some(r(3 * p, 5 * p)));
    assert_eq!(page.misses, 1);
    page.mark_pending();
    let again = page.lookup(p, r(3 * p + 5, 3 * p + 50), len);
    assert_eq!(again.request, None);

    assert!(page.publish(r(3 * p, 5 * p), r(3 * p, 5 * p), false));
    assert!(!page.pending);
    let hit = page.lookup(p, r(3 * p + 5, 3 * p + 50), len);
    assert_eq!(hit.cached, CachedPage::Ready(r(3 * p, 5 * p)));
    assert_eq!(hit.request, None);
}

#[test]
fn publish_keeps_the_newest_pages() {
    let mut page = HighlightPage::new(100);
    let w = page.wanted;
    for k in 0..5 {
        assert!(page.publish(w, r(k, k + 1), true));
    }
    assert_eq!(page.ready.len(), CACHED_SCROLL_PAGES);
    assert_eq!(page.ready, vec![r(2, 3), r(3, 4), r(4, 5)]);
    assert!(page.publish(w, r(3, 4), true));
    assert_eq!(page.ready, vec![r(2, 3), r(4, 5), r(3, 4)]);
    assert!(!page.publish(r(50, 60), r(9, 9), false));
    assert_eq!(page.ready.len(), 3);
}

#[test]
fn lookup_moves_the_found_page_last() {
    let mut page = HighlightPage::new(100);
    let w = page.wanted;
    page.publish(w, r(0, 10), true);
    page.publish(w, r(20, 30), true);
    page.publish(w, r(40, 50), true);
    let hit = page.lookup(0, r(21, 22), 100);
    assert_eq!(hit.cached, CachedPage::Ready(r(20, 30)));
    assert_eq!(page.ready, vec![r(0, 10), r(40, 50), r(20, 30)]);
}

#[test]
fn plain_pages_and_cancelled_jobs() {
    let mut page = HighlightPage::new(100);
    page.add_plain(r(0, 1));
    page.add_plain(r(1, 2));
    page.add_plain(r(2, 3));
    page.add_plain(r(3, 4));
    assert_eq!(page.ready, vec![r(1, 2), r(2, 3), r(3, 4)]);
    page.mark_pending();
    assert!(!page.cancel_job(page.wanted, true));
    assert!(page.pending);
    assert!(!page.cancel_job(r(7, 8), false));
    assert!(page.cancel_job(page.wanted, false));
    assert!(!page.pending);
}
