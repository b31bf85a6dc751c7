//! The lookahead/lookbehind engine: two speculative pairs of decoded pages
//! around the active pair, a marker that keeps prefetch from re-running for
//! an unchanged position, constant-time buffer swaps on navigation, and the
//! optional whole-source decode cache.
use vstd::prelude::*;
use crate::config::ViewConfig;
use crate::cursor::{NavOutcome, ViewState};

verus! {

/// Two display slots: a pair's earlier page and its partner. A slot is
/// `None` when there is no such page or its load failed.
pub struct SlotPair<T> {
    pub lead: Option<T>,
    pub partner: Option<T>,
}

impl<T> SlotPair<T> {
    /// Neither slot is filled.
    pub open spec fn spec_is_empty(&self) -> bool {
        self.lead is None && self.partner is None
    }

    pub fn new_empty() -> (r: SlotPair<T>)
        ensures
            r.spec_is_empty(),
    {
        SlotPair { lead: None, partner: None }
    }
}

/// What one prefetch pass asks the loader to decode: the pair start for the
/// lookahead buffer and for the lookbehind buffer, when they need filling.
#[derive(Debug, PartialEq, Eq, Clone, Copy)]
pub struct PrefetchPlan {
    pub ahead_start: Option<usize>,
    pub behind_start: Option<usize>,
}

impl PrefetchPlan {
    /// The pass asked for nothing.
    pub open spec fn spec_is_noop(&self) -> bool {
        self.ahead_start is None && self.behind_start is None
    }
}

/// The buffer state of the viewer: the active pair, the two speculative
/// pairs, and the marker of the position the buffers were last filled for.
pub struct PageBuffers<T> {
    pub active: SlotPair<T>,
    pub ahead: SlotPair<T>,
    pub behind: SlotPair<T>,
    pub last_buffered: Option<usize>,
}

impl<T> PageBuffers<T> {
    pub fn new_empty() -> (r: PageBuffers<T>)
        ensures
            r.active.spec_is_empty(),
            r.ahead.spec_is_empty(),
            r.behind.spec_is_empty(),
            r.last_buffered is None,
    {
        PageBuffers {
            active: SlotPair::new_empty(),
            ahead: SlotPair::new_empty(),
            behind: SlotPair::new_empty(),
            last_buffered: None,
        }
    }

    /// Drop the speculative pairs; the active pair and the marker stay. The
    /// marker is cleared only by the index actually changing, never here.
    pub fn reset(&mut self)
        ensures
            final(self).active == old(self).active,
            final(self).ahead.spec_is_empty(),
            final(self).behind.spec_is_empty(),
            final(self).last_buffered == old(self).last_buffered,
    {
        self.ahead = SlotPair::new_empty();
        self.behind = SlotPair::new_empty();
    }

    /// Decide what to prefetch around position `idx`. A pass for the same
    /// position as the last one asks for nothing, so prefetch never
    /// re-triggers while the index is unchanged; otherwise the lookahead
    /// pair (two ahead, or page one when leaving a shifted cover) is
    /// requested when its buffer is empty, and likewise the lookbehind pair
    /// two behind, which no position under two has. A target past every
    /// representable index has no page, so nothing is asked for it.
    pub fn prefetch(&mut self, idx: usize, shifted: bool) -> (r: PrefetchPlan)
        ensures
            final(self).active == old(self).active,
            final(self).ahead == old(self).ahead,
            final(self).behind == old(self).behind,
            final(self).last_buffered == Some(idx),
            old(self).last_buffered == Some(idx) ==> r.spec_is_noop() && *final(self) == *old(
                self),
            old(self).last_buffered != Some(idx) ==> r.ahead_start == (
                if old(self).ahead.lead is None {
                    if idx == 0 && shifted {
                        Some(1usize)
                    } else if idx + 2 <= usize::MAX {
                        Some((idx + 2) as usize)
                    } else {
                        None
                    }
                } else {
                    None
                }
            ),
            old(self).last_buffered != Some(idx) ==> r.behind_start == (
                if idx >= 2 && old(self).behind.lead is None {
                    Some((idx - 2) as usize)
                } else {
                    None
                }
            ),
    {
        let already = match self.last_buffered {
            Some(k) => k == idx,
            None => false,
        };
        if already {
            return PrefetchPlan { ahead_start: None, behind_start: None };
        }
        let ahead_start = if self.ahead.lead.is_none() {
            if idx == 0 && shifted {
                Some(1)
            } else if idx <= usize::MAX - 2 {
                Some(idx + 2)
            } else {
                None
            }
        } else {
            None
        };
        let behind_start = if idx >= 2 && self.behind.lead.is_none() {
            Some(idx - 2)
        } else {
            None
        };
        self.last_buffered = Some(idx);
        PrefetchPlan { ahead_start, behind_start }
    }

    /// Hand the loader's result to the lookahead buffer.
    pub fn fill_ahead(&mut self, pair: SlotPair<T>)
        ensures
            final(self).ahead == pair,
            final(self).active == old(self).active,
            final(self).behind == old(self).behind,
            final(self).last_buffered == old(self).last_buffered,
    {
        self.ahead = pair;
    }

    /// Hand the loader's result to the lookbehind buffer.
    pub fn fill_behind(&mut self, pair: SlotPair<T>)
        ensures
            final(self).behind == pair,
            final(self).active == old(self).active,
            final(self).ahead == old(self).ahead,
            final(self).last_buffered == old(self).last_buffered,
    {
        self.behind = pair;
    }

    /// Replace the active pair, as the synchronous fallback load does.
    pub fn set_active(&mut self, pair: SlotPair<T>)
        ensures
            final(self).active == pair,
            final(self).ahead == old(self).ahead,
            final(self).behind == old(self).behind,
            final(self).last_buffered == old(self).last_buffered,
    {
        self.active = pair;
    }

    /// On moving forward with a filled lookahead buffer, rotate in constant
    /// time: the lookahead pair becomes active, the vacated active pair
    /// becomes the new lookbehind, and the lookahead empties. With nothing
    /// buffered, nothing moves and the caller loads synchronously.
    pub fn advance_swap(&mut self) -> (hit: bool)
        ensures
            hit == (old(self).ahead.lead is Some),
            hit ==> final(self).active == old(self).ahead && final(self).behind == old(
                self).active && final(self).ahead.spec_is_empty(),
            !hit ==> *final(self) == *old(self),
            final(self).last_buffered == old(self).last_buffered,
    {
        if self.ahead.lead.is_some() {
            self.behind.lead = self.active.lead.take();
            self.behind.partner = self.active.partner.take();
            self.active.lead = self.ahead.lead.take();
            self.active.partner = self.ahead.partner.take();
            true
        } else {
            false
        }
    }

    /// The backward counterpart of `advance_swap`.
    pub fn retreat_swap(&mut self) -> (hit: bool)
        ensures
            hit == (old(self).behind.lead is Some),
            hit ==> final(self).active == old(self).behind && final(self).ahead == old(
                self).active && final(self).behind.spec_is_empty(),
            !hit ==> *final(self) == *old(self),
            final(self).last_buffered == old(self).last_buffered,
    {
        if self.behind.lead.is_some() {
            self.ahead.lead = self.active.lead.take();
            self.ahead.partner = self.active.partner.take();
            self.active.lead = self.behind.lead.take();
            self.active.partner = self.behind.partner.take();
            true
        } else {
            false
        }
    }
}

/// The whole-source decode cache: one slot per page of the open source,
/// filled only while the caching setting is on, and replaced wholesale with
/// the source.
pub struct PageCache<T> {
    pub enabled: bool,
    pub slots: Vec<Option<T>>,
}

impl<T> PageCache<T> {
    /// Every page of the source has a slot.
    pub open spec fn wf(&self, count: int) -> bool {
        self.slots@.len() == count
    }

    pub fn new(enabled: bool, count: usize) -> (r: PageCache<T>)
        ensures
            r.wf(count as int),
            r.enabled == enabled,
            forall|i: int| 0 <= i < count ==> r.slots@[i] is None,
    {
        let mut slots: Vec<Option<T>> = Vec::new();
        let mut i: usize = 0;
        while i < count
            invariant
                i <= count,
                slots@.len() == i,
                forall|k: int| 0 <= k < i ==> slots@[k] is None,
            decreases count - i,
        {
            slots.push(None);
            i = i + 1;
        }
        PageCache { enabled, slots }
    }

    /// The cached page at `i`, if one was retained.
    pub fn get(&self, i: usize) -> (r: &Option<T>)
        requires
            i < self.slots@.len(),
        ensures
            *r == self.slots@[i as int],
    {
        &self.slots[i]
    }

    /// Retain a decoded page, when the setting allows retaining any.
    pub fn put(&mut self, i: usize, v: T)
        requires
            i < old(self).slots@.len(),
        ensures
            final(self).enabled == old(self).enabled,
            final(self).slots@.len() == old(self).slots@.len(),
            old(self).enabled ==> final(self).slots@ == old(self).slots@.update(
                i as int, Some(v)),
            !old(self).enabled ==> final(self).slots@ == old(self).slots@,
    {
        if self.enabled {
            self.slots.set(i, Some(v));
        }
    }

    /// Drop every retained page, as a settings change demands: pixels
    /// decoded under the old settings are no longer valid.
    pub fn clear(&mut self)
        ensures
            final(self).enabled == old(self).enabled,
            final(self).slots@.len() == old(self).slots@.len(),
            forall|i: int| 0 <= i < final(self).slots@.len() ==> final(self).slots@[i] is None,
    {
        let n = self.slots.len();
        let mut i: usize = 0;
        while i < n
            invariant
                i <= n,
                n == self.slots@.len(),
                self.enabled == old(self).enabled,
                forall|k: int| 0 <= k < i ==> self.slots@[k] is None,
            decreases n - i,
        {
            self.slots.set(i, None);
            i = i + 1;
        }
    }
}

/// What a navigation gesture asks of the caller.
#[derive(Debug, PartialEq, Eq, Structural, Clone, Copy)]
pub enum NavAction {
    /// The view moved and the buffered pair was swapped in; nothing to load.
    Swapped,
    /// The view moved but no pair was buffered: load the pair starting here
    /// synchronously and hand it to `set_active`.
    NeedsPair(usize),
    /// The boundary of the source: the position is unchanged, and the caller
    /// may move to a sibling source instead.
    Boundary,
}

/// A position with its buffers and cache: the viewer state of one open
/// source.
pub struct Viewer<T> {
    pub state: ViewState,
    pub buffers: PageBuffers<T>,
    pub cache: PageCache<T>,
}

impl<T> Viewer<T> {
    pub open spec fn wf(&self) -> bool {
        &&& self.state.wf()
        &&& self.cache.wf(self.state.page_count as int)
    }

    /// A fresh viewer for a newly opened source: empty buffers and an empty
    /// cache, standing at the requested start page. The settings come in as
    /// an explicit configuration value, never from ambient state.
    pub fn new(config: ViewConfig, shifted: bool, start: usize, count: usize) -> (r: Viewer<T>)
        requires
            count > 0 ==> start < count,
            count == 0 ==> start == 0,
        ensures
            r.wf(),
            r.state == (ViewState {
                mode: config.page_view_options,
                shifted,
                current_index: start,
                page_count: count,
            }),
            r.buffers.active.spec_is_empty(),
            r.buffers.ahead.spec_is_empty(),
            r.buffers.behind.spec_is_empty(),
            r.buffers.last_buffered is None,
            r.cache.enabled == config.enable_single_file_caching,
            forall|i: int| 0 <= i < count ==> r.cache.slots@[i] is None,
    {
        Viewer {
            state: ViewState::new(config.page_view_options, shifted, start, count),
            buffers: PageBuffers::new_empty(),
            cache: PageCache::new(config.enable_single_file_caching, count),
        }
    }

    /// Move forward one view. With the lookahead pair ready the swap is
    /// constant-time and the vacated pair becomes the lookbehind; otherwise
    /// the caller is asked to load the new pair. At the end of the source
    /// nothing changes and the boundary is reported.
    pub fn next_page(&mut self) -> (r: NavAction)
        requires
            old(self).wf(),
        ensures
            final(self).wf(),
            final(self).state.mode == old(self).state.mode,
            final(self).state.shifted == old(self).state.shifted,
            final(self).state.page_count == old(self).state.page_count,
            final(self).cache == old(self).cache,
            match old(self).state.spec_next_target() {
                None => r == NavAction::Boundary && *final(self) == *old(self),
                Some(j) => {
                    &&& final(self).state.current_index == j
                    &&& if old(self).buffers.ahead.lead is Some {
                        &&& r == NavAction::Swapped
                        &&& final(self).buffers.active == old(self).buffers.ahead
                        &&& final(self).buffers.behind == old(self).buffers.active
                        &&& final(self).buffers.ahead.spec_is_empty()
                    } else {
                        &&& r == NavAction::NeedsPair(final(self).state.current_index)
                        &&& final(self).buffers == old(self).buffers
                    }
                },
            },
    {
        let moved = self.state.next();
        match moved {
            NavOutcome::Boundary => NavAction::Boundary,
            NavOutcome::Moved(_) => {
                if self.buffers.advance_swap() {
                    NavAction::Swapped
                } else {
                    NavAction::NeedsPair(self.state.current_index)
                }
            },
        }
    }

    /// Move backward one view, the counterpart of `next_page`: the
    /// lookbehind pair swaps in when ready, and the vacated pair becomes the
    /// lookahead.
    pub fn prev_page(&mut self) -> (r: NavAction)
        requires
            old(self).wf(),
        ensures
            final(self).wf(),
            final(self).state.mode == old(self).state.mode,
            final(self).state.shifted == old(self).state.shifted,
            final(self).state.page_count == old(self).state.page_count,
            final(self).cache == old(self).cache,
            match old(self).state.spec_prev_target() {
                None => r == NavAction::Boundary && *final(self) == *old(self),
                Some(j) => {
                    &&& final(self).state.current_index == j
                    &&& if old(self).buffers.behind.lead is Some {
                        &&& r == NavAction::Swapped
                        &&& final(self).buffers.active == old(self).buffers.behind
                        &&& final(self).buffers.ahead == old(self).buffers.active
                        &&& final(self).buffers.behind.spec_is_empty()
                    } else {
                        &&& r == NavAction::NeedsPair(final(self).state.current_index)
                        &&& final(self).buffers == old(self).buffers
                    }
                },
            },
    {
        let moved = self.state.prev();
        match moved {
            NavOutcome::Boundary => NavAction::Boundary,
            NavOutcome::Moved(_) => {
                if self.buffers.retreat_swap() {
                    NavAction::Swapped
                } else {
                    NavAction::NeedsPair(self.state.current_index)
                }
            },
        }
    }

    /// Jump to the first page: the speculative buffers are dropped and the
    /// pair at page 0 must be loaded, unless the viewer already stands there.
    pub fn first_page(&mut self) -> (r: Option<usize>)
        requires
            old(self).wf(),
        ensures
            final(self).wf(),
            final(self).state.mode == old(self).state.mode,
            final(self).state.shifted == old(self).state.shifted,
            final(self).state.page_count == old(self).state.page_count,
            final(self).cache == old(self).cache,
            old(self).state.page_count > 0 && old(self).state.current_index != 0 ==> {
                &&& r == Some(0usize)
                &&& final(self).state.current_index == 0
                &&& final(self).buffers.ahead.spec_is_empty()
                &&& final(self).buffers.behind.spec_is_empty()
            },
            !(old(self).state.page_count > 0 && old(self).state.current_index != 0)
                ==> r is None && *final(self) == *old(self),
    {
        if self.state.page_count > 0 && self.state.current_index != 0 {
            self.buffers.reset();
            self.state.first();
            Some(0)
        } else {
            None
        }
    }

    /// Jump to the start of the last pair, the largest even index that still
    /// addresses a page; as with `first_page`, the caller loads the pair.
    pub fn last_page(&mut self) -> (r: Option<usize>)
        requires
            old(self).wf(),
        ensures
            final(self).wf(),
            final(self).state.mode == old(self).state.mode,
            final(self).state.shifted == old(self).state.shifted,
            final(self).state.page_count == old(self).state.page_count,
            final(self).cache == old(self).cache,
            match r {
                Some(j) => {
                    &&& final(self).state.current_index == j
                    &&& j < final(self).state.page_count
                    &&& j % 2 == 0
                    &&& j + 2 >= final(self).state.page_count
                    &&& final(self).buffers.ahead.spec_is_empty()
                    &&& final(self).buffers.behind.spec_is_empty()
                },
                None => *final(self) == *old(self) && (old(self).state.page_count == 0 || old(
                    self).state.current_index + 2 >= old(self).state.page_count && old(
                    self).state.current_index % 2 == 0),
            },
    {
        if self.state.page_count == 0 {
            return None;
        }
        let target = crate::cursor::last_pair_start(self.state.page_count);
        if self.state.current_index == target {
            return None;
        }
        self.buffers.reset();
        self.state.last();
        Some(target)
    }

    /// Flip the standalone-cover mode: the index re-aligns to the parity the
    /// new mode expects, the speculative buffers and the cache are dropped
    /// (their pixels pair pages the old way), and the caller reloads the
    /// pair at the returned index.
    pub fn toggle_shifted(&mut self) -> (r: usize)
        requires
            old(self).wf(),
        ensures
            final(self).wf(),
            final(self).state.mode == old(self).state.mode,
            final(self).state.page_count == old(self).state.page_count,
            final(self).state.shifted == !old(self).state.shifted,
            r == final(self).state.current_index,
            final(self).buffers.ahead.spec_is_empty(),
            final(self).buffers.behind.spec_is_empty(),
            forall|i: int| 0 <= i < final(self).cache.slots@.len()
                ==> final(self).cache.slots@[i] is None,
            !old(self).state.shifted ==> final(self).state.current_index == (
                if old(self).state.current_index == 0 {
                    0int
                } else if old(self).state.current_index % 2 == 1 {
                    old(self).state.current_index as int
                } else if old(self).state.current_index + 1 < old(self).state.page_count {
                    old(self).state.current_index + 1
                } else {
                    old(self).state.current_index - 1
                }
            ),
            old(self).state.shifted ==> final(self).state.current_index == (
                if old(self).state.current_index == 0 {
                    0int
                } else if old(self).state.current_index % 2 == 1 {
                    old(self).state.current_index - 1
                } else {
                    old(self).state.current_index - 2
                }
            ),
    {
        self.state.toggle_shifted();
        self.buffers.reset();
        self.cache.clear();
        self.state.current_index
    }

    /// One prefetch pass for the current position: what the loader should
    /// decode for the speculative buffers, and nothing when the position is
    /// the one the buffers were last filled for.
    pub fn prefetch(&mut self) -> (r: PrefetchPlan)
        requires
            old(self).wf(),
        ensures
            final(self).wf(),
            final(self).state == old(self).state,
            final(self).cache == old(self).cache,
            final(self).buffers.active == old(self).buffers.active,
            final(self).buffers.ahead == old(self).buffers.ahead,
            final(self).buffers.behind == old(self).buffers.behind,
            final(self).buffers.last_buffered == Some(old(self).state.current_index),
            old(self).buffers.last_buffered == Some(old(self).state.current_index)
                ==> r.spec_is_noop() && *final(self) == *old(self),
            old(self).buffers.last_buffered != Some(old(self).state.current_index)
                ==> r.ahead_start == (
                if old(self).buffers.ahead.lead is None {
                    if old(self).state.current_index == 0 && old(self).state.shifted {
                        Some(1usize)
                    } else if old(self).state.current_index + 2 <= usize::MAX {
                        Some((old(self).state.current_index + 2) as usize)
                    } else {
                        None
                    }
                } else {
                    None
                }
            ),
            old(self).buffers.last_buffered != Some(old(self).state.current_index)
                ==> r.behind_start == (
                if old(self).state.current_index >= 2 && old(self).buffers.behind.lead is None {
                    Some((old(self).state.current_index - 2) as usize)
                } else {
                    None
                }
            ),
    {
        self.buffers.prefetch(self.state.current_index, self.state.shifted)
    }
}

} // verus!
