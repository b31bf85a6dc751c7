//! Pagination policy: which page index the viewer stands on, how far one
//! gesture moves it under single/double/shifted modes, and which page or
//! pair of pages makes up the current view.
use vstd::prelude::*;
use crate::config::PageViewOptions;

verus! {

/// Where navigation within the current source ended up.
#[derive(Debug, PartialEq, Eq, Structural, Clone, Copy)]
pub enum NavOutcome {
    /// The index moved to this new position.
    Moved(usize),
    /// The boundary of the source was reached: the index is unchanged and
    /// the caller may move to a sibling source instead.
    Boundary,
}

/// The pages making up the current view, as indices into the page sequence.
#[derive(Debug, PartialEq, Eq, Clone, Copy)]
pub enum ViewSlots {
    /// A single page shown alone (single mode, or the standalone cover).
    One(usize),
    /// A pair: the page for the left visual slot and for the right one.
    /// A side is `None` when the pair would run past the last page.
    Two { left: Option<usize>, right: Option<usize> },
}

/// The largest even index that is at most `count - 1`: the start of the last
/// full or deliberately partial pair of pages.
pub fn last_pair_start(count: usize) -> (r: usize)
    requires
        count > 0,
    ensures
        r < count,
        r % 2 == 0,
        r + 2 >= count,
{
    ((count - 1) / 2) * 2
}

/// The position of the viewer inside the current source.
pub struct ViewState {
    pub mode: PageViewOptions,
    pub shifted: bool,
    pub current_index: usize,
    pub page_count: usize,
}

impl ViewState {
    /// The index addresses a page whenever there are any.
    pub open spec fn wf(self) -> bool {
        if self.page_count > 0 {
            self.current_index < self.page_count
        } else {
            self.current_index == 0
        }
    }

    /// Step for moving forward: one page in single mode, and one when leaving
    /// the standalone cover in shifted mode; otherwise a pair.
    pub open spec fn spec_next_step(self) -> int {
        if self.mode == PageViewOptions::Single || (self.shifted && self.current_index == 0) {
            1
        } else {
            2
        }
    }

    /// Step for moving backward: one page in single mode, and one when
    /// returning to the standalone cover in shifted mode; otherwise a pair.
    pub open spec fn spec_prev_step(self) -> int {
        if self.mode == PageViewOptions::Single || (self.shifted && self.current_index == 1) {
            1
        } else {
            2
        }
    }

    /// The index `next` moves to, or `None` at the end of the source.
    pub open spec fn spec_next_target(self) -> Option<int> {
        if self.current_index + self.spec_next_step() < self.page_count {
            Some(self.current_index + self.spec_next_step())
        } else {
            None
        }
    }

    /// The index `prev` moves to, or `None` at the start of the source.
    pub open spec fn spec_prev_target(self) -> Option<int> {
        if self.current_index >= self.spec_prev_step() {
            Some(self.current_index - self.spec_prev_step())
        } else {
            None
        }
    }

    pub fn new(mode: PageViewOptions, shifted: bool, start: usize, count: usize) -> (r: ViewState)
        requires
            count > 0 ==> start < count,
            count == 0 ==> start == 0,
        ensures
            r.wf(),
            r == (ViewState { mode, shifted, current_index: start, page_count: count }),
    {
        ViewState { mode, shifted, current_index: start, page_count: count }
    }

    /// Move forward by the mode's step, or report the end of the source.
    pub fn next(&mut self) -> (r: NavOutcome)
        requires
            old(self).wf(),
        ensures
            final(self).wf(),
            final(self).mode == old(self).mode,
            final(self).shifted == old(self).shifted,
            final(self).page_count == old(self).page_count,
            match old(self).spec_next_target() {
                Some(j) => r == NavOutcome::Moved(final(self).current_index)
                    && final(self).current_index == j,
                None => r == NavOutcome::Boundary
                    && final(self).current_index == old(self).current_index,
            },
    {
        let step: usize = if self.mode == PageViewOptions::Single
            || (self.shifted && self.current_index == 0) {
            1
        } else {
            2
        };
        if self.page_count - self.current_index > step {
            self.current_index = self.current_index + step;
            NavOutcome::Moved(self.current_index)
        } else {
            NavOutcome::Boundary
        }
    }

    /// Move backward by the mode's step, or report the start of the source.
    pub fn prev(&mut self) -> (r: NavOutcome)
        requires
            old(self).wf(),
        ensures
            final(self).wf(),
            final(self).mode == old(self).mode,
            final(self).shifted == old(self).shifted,
            final(self).page_count == old(self).page_count,
            match old(self).spec_prev_target() {
                Some(j) => r == NavOutcome::Moved(final(self).current_index)
                    && final(self).current_index == j,
                None => r == NavOutcome::Boundary
                    && final(self).current_index == old(self).current_index,
            },
    {
        let step: usize = if self.mode == PageViewOptions::Single
            || (self.shifted && self.current_index == 1) {
            1
        } else {
            2
        };
        if self.current_index >= step {
            self.current_index = self.current_index - step;
            NavOutcome::Moved(self.current_index)
        } else {
            NavOutcome::Boundary
        }
    }

    /// Jump to the first page.
    pub fn first(&mut self)
        requires
            old(self).wf(),
        ensures
            final(self).wf(),
            final(self).mode == old(self).mode,
            final(self).shifted == old(self).shifted,
            final(self).page_count == old(self).page_count,
            final(self).current_index == 0,
    {
        self.current_index = 0;
    }

    /// Jump to the start of the last pair: the largest even index that still
    /// addresses a page.
    pub fn last(&mut self)
        requires
            old(self).wf(),
            old(self).page_count > 0,
        ensures
            final(self).wf(),
            final(self).mode == old(self).mode,
            final(self).shifted == old(self).shifted,
            final(self).page_count == old(self).page_count,
            final(self).current_index < final(self).page_count,
            final(self).current_index % 2 == 0,
            final(self).current_index + 2 >= final(self).page_count,
    {
        self.current_index = last_pair_start(self.page_count);
    }

    /// Flip the standalone-cover flag and re-align the index to a parity the
    /// new mode agrees with: turning the cover on advances an even index by
    /// one (falling back one when there is no next page), turning it off
    /// rounds down to the pair start below.
    pub fn toggle_shifted(&mut self)
        requires
            old(self).wf(),
        ensures
            final(self).wf(),
            final(self).mode == old(self).mode,
            final(self).page_count == old(self).page_count,
            final(self).shifted == !old(self).shifted,
            !old(self).shifted ==> final(self).current_index == (
                if old(self).current_index == 0 {
                    0int
                } else if old(self).current_index % 2 == 1 {
                    old(self).current_index as int
                } else if old(self).current_index + 1 < old(self).page_count {
                    old(self).current_index + 1
                } else {
                    old(self).current_index - 1
                }
            ),
            old(self).shifted ==> final(self).current_index == (
                if old(self).current_index == 0 {
                    0int
                } else if old(self).current_index % 2 == 1 {
                    old(self).current_index - 1
                } else {
                    old(self).current_index - 2
                }
            ),
            final(self).shifted ==> final(self).current_index == 0
                || final(self).current_index % 2 == 1,
            !final(self).shifted ==> final(self).current_index % 2 == 0,
    {
        if !self.shifted {
            self.shifted = true;
            if self.current_index != 0 && self.current_index % 2 == 0 {
                if self.current_index + 1 < self.page_count {
                    self.current_index = self.current_index + 1;
                } else {
                    self.current_index = self.current_index - 1;
                }
            }
        } else {
            self.shifted = false;
            if self.current_index != 0 {
                if self.current_index % 2 == 1 {
                    self.current_index = self.current_index - 1;
                } else {
                    self.current_index = self.current_index - 2;
                }
            }
        }
    }

    /// The page or pair the current position displays. In right-to-left
    /// reading order the earlier page takes the right visual slot; in
    /// left-to-right order it takes the left one.
    pub fn resolve_view(&self) -> (r: ViewSlots)
        requires
            self.wf(),
            self.page_count > 0,
        ensures
            (self.mode == PageViewOptions::Single || (self.shifted && self.current_index == 0))
                ==> r == ViewSlots::One(self.current_index),
            self.mode == PageViewOptions::DoubleRL && !(self.shifted && self.current_index == 0)
                ==> r == (ViewSlots::Two {
                    left: if self.current_index + 1 < self.page_count {
                        Some((self.current_index + 1) as usize)
                    } else {
                        None
                    },
                    right: Some(self.current_index),
                }),
            self.mode == PageViewOptions::DoubleLR && !(self.shifted && self.current_index == 0)
                ==> r == (ViewSlots::Two {
                    left: Some(self.current_index),
                    right: if self.current_index + 1 < self.page_count {
                        Some((self.current_index + 1) as usize)
                    } else {
                        None
                    },
                }),
    {
        if self.mode == PageViewOptions::Single || (self.shifted && self.current_index == 0) {
            ViewSlots::One(self.current_index)
        } else {
            let partner: Option<usize> = if self.page_count - self.current_index > 1 {
                Some(self.current_index + 1)
            } else {
                None
            };
            if self.mode == PageViewOptions::DoubleRL {
                ViewSlots::Two { left: partner, right: Some(self.current_index) }
            } else {
                ViewSlots::Two { left: Some(self.current_index), right: partner }
            }
        }
    }

    /// The indices visited by stepping back from this position until the
    /// start boundary: this position first, then everything `prev` reaches.
    pub open spec fn walk_back_visits(self) -> Seq<int>
        decreases self.current_index,
    {
        match self.spec_prev_target() {
            None => seq![self.current_index as int],
            Some(j) => seq![self.current_index as int]
                + (ViewState {
                    current_index: j as usize,
                    ..self
                }).walk_back_visits(),
        }
    }
}

/// A successful step, forward or back, always lands strictly inside the page
/// sequence, for every valid combination of index, mode and shifted flag.
pub proof fn lemma_step_stays_in_bounds(s: ViewState)
    requires
        s.wf(),
        s.page_count > 0,
    ensures
        s.spec_next_target() matches Some(j) ==> 0 <= j < s.page_count,
        s.spec_prev_target() matches Some(j) ==> 0 <= j < s.page_count,
{
}

/// Stepping back repeatedly visits a strictly decreasing — hence pairwise
/// distinct — run of indices, and from any position whose parity the mode
/// agrees with (as after `last`, which lands on an even index) the run ends
/// at page 0.
pub proof fn lemma_walk_back_reaches_zero(s: ViewState)
    requires
        s.wf(),
        s.page_count > 0,
        s.mode == PageViewOptions::Single || s.shifted || s.current_index % 2 == 0,
    ensures
        s.walk_back_visits().len() >= 1,
        s.walk_back_visits()[0] == s.current_index,
        forall|i: int, j: int| 0 <= i < j < s.walk_back_visits().len()
            ==> s.walk_back_visits()[i] > s.walk_back_visits()[j],
        s.walk_back_visits().last() == 0,
    decreases s.current_index,
{
    let v = s.walk_back_visits();
    match s.spec_prev_target() {
        None => {
            assert(s.current_index == 0);
        },
        Some(j) => {
            let t = ViewState { current_index: j as usize, ..s };
            lemma_walk_back_reaches_zero(t);
            let w = t.walk_back_visits();
            assert(v == seq![s.current_index as int] + w);
            assert(v.len() == 1 + w.len());
            assert forall|i: int, k: int| 0 <= i < k < v.len() implies v[i] > v[k] by {
                if i == 0 {
                    assert(v[k] == w[k - 1]);
                    if k - 1 > 0 {
                        assert(w[0] > w[k - 1]);
                    }
                    assert(w[0] == j);
                } else {
                    assert(v[i] == w[i - 1] && v[k] == w[k - 1]);
                }
            }
            assert(v.last() == w.last());
        },
    }
}

} // verus!
