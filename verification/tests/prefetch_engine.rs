use manga_reader::config::{PageViewOptions, ViewConfig};
use manga_reader::prefetch::{NavAction, PageCache, SlotPair, Viewer};

fn config(mode: PageViewOptions, caching: bool) -> ViewConfig {
    let mut c = ViewConfig::new_default();
    c.page_view_options = mode;
    c.enable_single_file_caching = caching;
    c
}

fn pair(a: u32, b: u32) -> SlotPair<u32> {
    SlotPair { lead: Some(a), partner: Some(b) }
}

fn viewer(start: usize, count: usize) -> Viewer<u32> {
    Viewer::new(config(PageViewOptions::DoubleRL, true), false, start, count)
}

#[test]
fn prefetch_twice_for_unchanged_index_is_a_noop() {
    let mut v = viewer(2, 10);
    let first = v.prefetch();
    assert_eq!(first.ahead_start, Some(4));
    assert_eq!(first.behind_start, Some(0));

    // nothing was even installed; the marker alone suppresses the second pass
    let second = v.prefetch();
    assert_eq!(second.ahead_start, None);
    assert_eq!(second.behind_start, None);

    // and a third, after the buffers were filled, still asks for nothing
    v.buffers.fill_ahead(pair(40, 41));
    v.buffers.fill_behind(pair(0, 1));
    let third = v.prefetch();
    assert_eq!(third.ahead_start, None);
    assert_eq!(third.behind_start, None);
}

#[test]
fn prefetch_resumes_when_the_index_changes() {
    let mut v = viewer(2, 10);
    v.buffers.set_active(pair(20, 21));
    v.prefetch();
    v.buffers.fill_ahead(pair(40, 41));
    assert_eq!(v.next_page(), NavAction::Swapped);
    let plan = v.prefetch();
    // the lookahead was consumed by the swap, so it is refilled two ahead;
    // the lookbehind now holds the vacated active pair, so nothing is asked
    assert_eq!(plan.ahead_start, Some(6));
    assert_eq!(plan.behind_start, None);
}

#[test]
fn shifted_cover_prefetches_page_one() {
    let mut v = Viewer::<u32>::new(config(PageViewOptions::DoubleRL, false), true, 0, 10);
    let plan = v.prefetch();
    assert_eq!(plan.ahead_start, Some(1));
    assert_eq!(plan.behind_start, None);
}

#[test]
fn swap_on_navigate_moves_pairs_in_place() {
    let mut v = viewer(2, 10);
    v.buffers.set_active(pair(20, 21));
    v.buffers.fill_ahead(pair(40, 41));

    assert_eq!(v.next_page(), NavAction::Swapped);
    assert_eq!(v.state.current_index, 4);
    assert_eq!(v.buffers.active.lead, Some(40));
    assert_eq!(v.buffers.active.partner, Some(41));
    // the vacated active pair became the lookbehind
    assert_eq!(v.buffers.behind.lead, Some(20));
    assert_eq!(v.buffers.behind.partner, Some(21));
    assert!(v.buffers.ahead.lead.is_none());

    // and stepping back swaps it straight back in
    assert_eq!(v.prev_page(), NavAction::Swapped);
    assert_eq!(v.state.current_index, 2);
    assert_eq!(v.buffers.active.lead, Some(20));
    assert_eq!(v.buffers.ahead.lead, Some(40));
}

#[test]
fn empty_buffer_falls_back_to_a_synchronous_load() {
    let mut v = viewer(2, 10);
    v.buffers.set_active(pair(20, 21));
    assert_eq!(v.next_page(), NavAction::NeedsPair(4));
    // the caller loads and installs the pair itself
    v.buffers.set_active(pair(40, 41));
    assert_eq!(v.buffers.active.lead, Some(40));
}

#[test]
fn boundary_leaves_everything_unchanged() {
    let mut v = viewer(8, 10);
    v.buffers.set_active(pair(80, 81));
    assert_eq!(v.next_page(), NavAction::Boundary);
    assert_eq!(v.state.current_index, 8);
    assert_eq!(v.buffers.active.lead, Some(80));
}

#[test]
fn jumps_drop_the_speculative_buffers() {
    let mut v = viewer(4, 10);
    v.buffers.fill_ahead(pair(60, 61));
    v.buffers.fill_behind(pair(20, 21));
    assert_eq!(v.first_page(), Some(0));
    assert!(v.buffers.ahead.lead.is_none());
    assert!(v.buffers.behind.lead.is_none());
    assert_eq!(v.first_page(), None);

    assert_eq!(v.last_page(), Some(8));
    assert_eq!(v.state.current_index, 8);
    assert_eq!(v.last_page(), None);
}

#[test]
fn toggling_cover_mode_clears_buffers_and_cache() {
    let mut v = viewer(2, 10);
    v.cache.put(5, 55);
    assert_eq!(*v.cache.get(5), Some(55));
    v.buffers.fill_ahead(pair(40, 41));

    let idx = v.toggle_shifted();
    assert_eq!(idx, 3);
    assert!(v.state.shifted);
    assert!(v.buffers.ahead.lead.is_none());
    assert_eq!(*v.cache.get(5), None);

    let idx = v.toggle_shifted();
    assert_eq!(idx, 2);
    assert!(!v.state.shifted);
}

#[test]
fn lookahead_past_the_index_range_is_not_requested() {
    let mut b = manga_reader::prefetch::PageBuffers::<u32>::new_empty();
    let plan = b.prefetch(usize::MAX - 1, false);
    assert_eq!(plan.ahead_start, None, "no page can sit past the index range");
    assert_eq!(plan.behind_start, Some(usize::MAX - 3));
}

#[test]
fn cache_respects_the_setting() {
    let mut on = PageCache::new(true, 4);
    on.put(1, 11);
    assert_eq!(*on.get(1), Some(11));
    assert_eq!(*on.get(0), None);
    on.clear();
    assert_eq!(*on.get(1), None);

    let mut off = PageCache::new(false, 4);
    off.put(1, 11);
    assert_eq!(*off.get(1), None);
}
