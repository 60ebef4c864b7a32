//! What the screen shows: focus, scroll positions, selections and clicks.
use vstd::prelude::*;

verus! {

/// The pane that keys go to.
#[derive(Clone, Copy, PartialEq, Eq, Structural, Debug)]
pub enum Focus {
    Header,
    Requests,
    Preview,
    Response,
}

/// The standard three panes, or the response alone.
#[derive(Clone, Copy, PartialEq, Eq, Structural, Debug)]
pub enum ViewMode {
    Standard,
    ResponseZoom,
}

/// How far one scroll step moves, for keys and the wheel.
pub const SCROLL_STEP: usize = 3;

/// An offset moved one step in a direction: back without going below zero, forward without
/// passing the largest `usize`; unchanged for direction zero.
pub open spec fn spec_stepped(offset: usize, direction: int) -> usize {
    if direction < 0 {
        if offset >= SCROLL_STEP {
            (offset - SCROLL_STEP) as usize
        } else {
            0
        }
    } else if direction > 0 {
        if offset + SCROLL_STEP <= usize::MAX {
            (offset + SCROLL_STEP) as usize
        } else {
            usize::MAX
        }
    } else {
        offset
    }
}

pub fn stepped(offset: usize, direction: isize) -> (r: usize)
    ensures
        r == spec_stepped(offset, direction as int),
{
    if direction < 0 {
        offset.saturating_sub(SCROLL_STEP)
    } else if direction > 0 {
        offset.saturating_add(SCROLL_STEP)
    } else {
        offset
    }
}

/// The scroll position of the preview: its first shown line and how many lines show.
pub struct ScrollState {
    pub offset: usize,
    pub viewport: usize,
}

impl ScrollState {
    pub fn new() -> (r: ScrollState)
        ensures
            r.offset == 0 && r.viewport == 0,
    {
        ScrollState { offset: 0, viewport: 0 }
    }

    pub fn offset(&self) -> (r: usize)
        ensures
            r == self.offset,
    {
        self.offset
    }

    pub fn reset(&mut self)
        ensures
            final(self).offset == 0,
            final(self).viewport == old(self).viewport,
    {
        self.offset = 0;
    }

    /// Records how many lines the preview shows.
    pub fn set_viewport(&mut self, height: usize)
        ensures
            final(self).viewport == height,
            final(self).offset == old(self).offset,
    {
        self.viewport = height;
    }

    /// Scrolls so that `line` shows: up to it when it lies above, down until it is the last
    /// shown line when it lies below.
    pub fn reveal_line(&mut self, line: usize)
        ensures
            final(self).viewport == old(self).viewport,
            final(self).offset == (if line < old(self).offset {
                line
            } else if old(self).viewport > 0 && line >= (if old(self).offset + old(self).viewport
                <= usize::MAX {
                old(self).offset + old(self).viewport
            } else {
                usize::MAX as int
            }) {
                (line - (old(self).viewport - 1)) as usize
            } else {
                old(self).offset
            }),
    {
        if line < self.offset {
            self.offset = line;
        } else if self.viewport > 0 && line >= self.offset.saturating_add(self.viewport) {
            self.offset = line.saturating_sub(self.viewport - 1);
        }
    }

    /// Moves one step; whether the offset changed.
    pub fn move_by(&mut self, direction: isize) -> (r: bool)
        ensures
            final(self).offset == spec_stepped(old(self).offset, direction as int),
            final(self).viewport == old(self).viewport,
            r == (final(self).offset != old(self).offset),
    {
        let previous = self.offset;
        self.offset = stepped(self.offset, direction);
        self.offset != previous
    }
}

/// The scroll position of the response, kept within its largest offset.
pub struct ResponseScrollState {
    offset: usize,
    max_offset: usize,
    drag_anchor: Option<(u16, usize)>,
}

impl ResponseScrollState {
    /// The offset never passes the largest one.
    pub closed spec fn inv(&self) -> bool {
        self.offset <= self.max_offset
    }

    pub closed spec fn spec_offset(&self) -> usize {
        self.offset
    }

    pub closed spec fn spec_max_offset(&self) -> usize {
        self.max_offset
    }

    pub closed spec fn spec_drag_anchor(&self) -> Option<(u16, usize)> {
        self.drag_anchor
    }

    /// Where a drag of the scroll bar started, if one is under way.
    pub fn drag_anchor(&self) -> (r: Option<(u16, usize)>)
        ensures
            r == self.spec_drag_anchor(),
    {
        self.drag_anchor
    }

    pub fn set_drag_anchor(&mut self, anchor: Option<(u16, usize)>)
        requires
            old(self).inv(),
        ensures
            final(self).inv(),
            final(self).spec_drag_anchor() == anchor,
            final(self).spec_offset() == old(self).spec_offset(),
            final(self).spec_max_offset() == old(self).spec_max_offset(),
    {
        self.drag_anchor = anchor;
    }

    pub fn new() -> (r: ResponseScrollState)
        ensures
            r.inv(),
            r.spec_offset() == 0,
            r.spec_max_offset() == 0,
            r.spec_drag_anchor() is None,
    {
        ResponseScrollState { offset: 0, max_offset: 0, drag_anchor: None }
    }

    pub fn offset(&self) -> (r: usize)
        ensures
            r == self.spec_offset(),
    {
        self.offset
    }

    pub fn reset(&mut self)
        requires
            old(self).inv(),
        ensures
            final(self).inv(),
            final(self).spec_offset() == 0,
            final(self).spec_max_offset() == old(self).spec_max_offset(),
            final(self).spec_drag_anchor() is None,
    {
        self.offset = 0;
        self.drag_anchor = None;
    }

    /// Goes to `offset`, or to the largest offset when that lies beyond.
    pub fn set_offset(&mut self, offset: usize)
        requires
            old(self).inv(),
        ensures
            final(self).inv(),
            final(self).spec_offset() == (if offset < old(self).spec_max_offset() {
                offset
            } else {
                old(self).spec_max_offset()
            }),
            final(self).spec_max_offset() == old(self).spec_max_offset(),
            final(self).spec_drag_anchor() == old(self).spec_drag_anchor(),
    {
        self.offset = if offset < self.max_offset {
            offset
        } else {
            self.max_offset
        };
    }

    /// Takes a new largest offset, and comes back within it.
    pub fn update_bounds(&mut self, max_offset: usize)
        ensures
            final(self).inv(),
            final(self).spec_max_offset() == max_offset,
            final(self).spec_offset() == (if old(self).spec_offset() < max_offset {
                old(self).spec_offset()
            } else {
                max_offset
            }),
            final(self).spec_drag_anchor() == old(self).spec_drag_anchor(),
    {
        self.max_offset = max_offset;
        if self.offset > max_offset {
            self.offset = max_offset;
        }
    }

    /// Moves one step within the bounds; whether the offset changed.
    pub fn move_by(&mut self, direction: isize) -> (r: bool)
        requires
            old(self).inv(),
        ensures
            final(self).inv(),
            final(self).spec_max_offset() == old(self).spec_max_offset(),
            final(self).spec_offset() == (if spec_stepped(old(self).spec_offset(), direction as int)
                < old(self).spec_max_offset() {
                spec_stepped(old(self).spec_offset(), direction as int)
            } else {
                old(self).spec_max_offset()
            }),
            r == (final(self).spec_offset() != old(self).spec_offset()),
            final(self).spec_drag_anchor() == old(self).spec_drag_anchor(),
    {
        let previous = self.offset;
        let next = stepped(self.offset, direction);
        self.offset = if next < self.max_offset {
            next
        } else {
            self.max_offset
        };
        self.offset != previous
    }
}

/// The largest offset of a list: its length less what shows, never below zero.
pub open spec fn max_list_offset(content_length: usize, viewport_length: usize) -> usize {
    if content_length > viewport_length {
        (content_length - viewport_length) as usize
    } else {
        0
    }
}

/// The scroll position of a list, read within its bounds each time.
pub struct ListScrollState {
    pub offset: usize,
    pub drag_anchor: Option<(u16, usize)>,
}

impl ListScrollState {
    pub fn new() -> (r: ListScrollState)
        ensures
            r.offset == 0,
            r.drag_anchor is None,
    {
        ListScrollState { offset: 0, drag_anchor: None }
    }

    /// The first shown row: the stored offset, brought within the list's bounds.
    pub fn offset(&self, content_length: usize, viewport_length: usize) -> (r: usize)
        ensures
            r == (if self.offset < max_list_offset(content_length, viewport_length) {
                self.offset
            } else {
                max_list_offset(content_length, viewport_length)
            }),
    {
        let max = content_length.saturating_sub(viewport_length);
        if self.offset < max {
            self.offset
        } else {
            max
        }
    }

    pub fn set_offset(&mut self, offset: usize, content_length: usize, viewport_length: usize)
        ensures
            final(self).offset == (if offset < max_list_offset(content_length, viewport_length) {
                offset
            } else {
                max_list_offset(content_length, viewport_length)
            }),
            final(self).drag_anchor == old(self).drag_anchor,
    {
        let max = content_length.saturating_sub(viewport_length);
        self.offset = if offset < max {
            offset
        } else {
            max
        };
    }

    pub fn move_by(&mut self, direction: isize, content_length: usize, viewport_length: usize)
        ensures
            final(self).offset == (if spec_stepped(old(self).offset, direction as int) < max_list_offset(
                content_length,
                viewport_length,
            ) {
                spec_stepped(old(self).offset, direction as int)
            } else {
                max_list_offset(content_length, viewport_length)
            }),
            final(self).drag_anchor == old(self).drag_anchor,
    {
        let max = content_length.saturating_sub(viewport_length);
        let next = stepped(self.offset, direction);
        self.offset = if next < max {
            next
        } else {
            max
        };
    }
}

/// A place in the response text: a line and a grapheme in it.
#[derive(Clone, Copy, PartialEq, Eq, Structural, Debug)]
pub struct ResponseTextPoint {
    pub line: usize,
    pub grapheme: usize,
}

/// One place comes no later than another: by line, then by grapheme.
pub open spec fn point_le(a: ResponseTextPoint, b: ResponseTextPoint) -> bool {
    a.line < b.line || (a.line == b.line && a.grapheme <= b.grapheme)
}

/// A selection in the response text, from where it was started to where it was taken.
pub struct ResponseSelection {
    pub anchor: ResponseTextPoint,
    pub head: ResponseTextPoint,
    pub text: String,
    pub dragging: bool,
}

impl ResponseSelection {
    /// The selection's two ends, the earlier first.
    pub fn ordered(&self) -> (r: (ResponseTextPoint, ResponseTextPoint))
        ensures
            point_le(r.0, r.1),
            (r.0 == self.anchor && r.1 == self.head) || (r.0 == self.head && r.1 == self.anchor),
    {
        if self.anchor.line < self.head.line || (self.anchor.line == self.head.line
            && self.anchor.grapheme <= self.head.grapheme) {
            (self.anchor, self.head)
        } else {
            (self.head, self.anchor)
        }
    }
}

/// Two presses make a double click when the second comes within this many milliseconds.
pub const DOUBLE_CLICK_MS: u64 = 400;

/// A press of the mouse: where, and when in milliseconds.
#[derive(Clone, Copy, PartialEq, Eq, Structural, Debug)]
pub struct MousePress {
    pub column: u16,
    pub row: u16,
    pub at: u64,
}

/// The last press that may start a double click.
pub struct ClickSequence {
    pub previous: Option<MousePress>,
}

pub open spec fn within_one(a: u16, b: u16) -> bool {
    (a <= b && b - a <= 1) || (b < a && a - b <= 1)
}

/// A press at `at` completes a double click with the one before when it comes soon enough
/// and at most one cell away in each direction.
pub open spec fn is_double_click(previous: Option<MousePress>, column: u16, row: u16, at: u64) -> bool {
    match previous {
        Some(p) => p.at <= at && at - p.at <= DOUBLE_CLICK_MS && within_one(p.column, column)
            && within_one(p.row, row),
        None => false,
    }
}

impl ClickSequence {
    pub fn new() -> (r: ClickSequence)
        ensures
            r.previous is None,
    {
        ClickSequence { previous: None }
    }

    /// Registers a press at `at` milliseconds; whether it completes a double click. A double
    /// click is forgotten, so a third press starts afresh.
    pub fn register(&mut self, column: u16, row: u16, at: u64) -> (r: bool)
        ensures
            r == is_double_click(old(self).previous, column, row, at),
            final(self).previous == (if r {
                None
            } else {
                Some(MousePress { column, row, at })
            }),
    {
        let is_double = match self.previous {
            Some(p) => p.at <= at && at - p.at <= DOUBLE_CLICK_MS && ((p.column <= column && column
                - p.column <= 1) || (column < p.column && p.column - column <= 1)) && ((p.row <= row
                && row - p.row <= 1) || (row < p.row && p.row - row <= 1)),
            None => false,
        };
        self.previous = if is_double {
            None
        } else {
            Some(MousePress { column, row, at })
        };
        is_double
    }

    pub fn reset(&mut self)
        ensures
            final(self).previous is None,
    {
        self.previous = None;
    }
}

/// The panes that focus goes round in each mode.
pub open spec fn focus_order(mode: ViewMode) -> Seq<Focus> {
    match mode {
        ViewMode::Standard => seq![Focus::Requests, Focus::Preview, Focus::Response],
        ViewMode::ResponseZoom => seq![Focus::Response],
    }
}

/// The pane that focus moves to: the next in the mode's order, or the one before when
/// `reverse`; the response when the focused pane is not in the order.
pub open spec fn spec_next_focus(mode: ViewMode, focus: Focus, reverse: bool) -> Focus {
    let order = focus_order(mode);
    if exists|i: int| 0 <= i < order.len() && order[i] == focus {
        let i = choose|i: int| 0 <= i < order.len() && order[i] == focus;
        if reverse {
            order[(i + order.len() - 1) % (order.len() as int)]
        } else {
            order[(i + 1) % (order.len() as int)]
        }
    } else {
        Focus::Response
    }
}

pub fn next_focus(mode: ViewMode, focus: Focus, reverse: bool) -> (r: Focus)
    ensures
        r == spec_next_focus(mode, focus, reverse),
{
    let ghost order = focus_order(mode);
    match mode {
        ViewMode::Standard => {
            let index: usize = match focus {
                Focus::Requests => 0,
                Focus::Preview => 1,
                Focus::Response => 2,
                Focus::Header => {
                    assert(forall|i: int| 0 <= i < order.len() ==> order[i] != focus);
                    return Focus::Response;
                },
            };
            assert(order[index as int] == focus);
            let next = if reverse {
                (index + 2) % 3
            } else {
                (index + 1) % 3
            };
            match next {
                0 => Focus::Requests,
                1 => Focus::Preview,
                _ => Focus::Response,
            }
        },
        ViewMode::ResponseZoom => {
            if focus == Focus::Response {
                assert(order[0] == focus);
                Focus::Response
            } else {
                assert(forall|i: int| 0 <= i < order.len() ==> order[i] != focus);
                Focus::Response
            }
        },
    }
}

/// Where focus moves from each pane of the standard order.
pub proof fn lemma_standard_focus(focus: Focus, reverse: bool)
    requires
        focus != Focus::Header,
    ensures
        spec_next_focus(ViewMode::Standard, focus, reverse) == (match focus {
            Focus::Requests => if reverse {
                Focus::Response
            } else {
                Focus::Preview
            },
            Focus::Preview => if reverse {
                Focus::Requests
            } else {
                Focus::Response
            },
            _ => if reverse {
                Focus::Preview
            } else {
                Focus::Requests
            },
        }),
{
    let order = focus_order(ViewMode::Standard);
    let k: int = match focus {
        Focus::Requests => 0,
        Focus::Preview => 1,
        _ => 2,
    };
    assert(order[k] == focus);
    let i = choose|i: int| 0 <= i < order.len() && order[i] == focus;
    assert(0 <= i < 3 && order[i] == focus);
    assert(i == k);
    assert((0int + 3 - 1) % 3 == 2);
    assert((1int + 3 - 1) % 3 == 0);
    assert((2int + 3 - 1) % 3 == 1);
    assert((0int + 1) % 3 == 1);
    assert((1int + 1) % 3 == 2);
    assert((2int + 1) % 3 == 0);
}

/// Moving focus on and then back returns to the pane that had it, for every pane in the
/// mode's order.
pub proof fn law_focus_round_trip(mode: ViewMode, focus: Focus)
    requires
        focus_order(mode).contains(focus),
    ensures
        spec_next_focus(mode, spec_next_focus(mode, focus, false), true) == focus,
        spec_next_focus(mode, spec_next_focus(mode, focus, true), false) == focus,
{
    let order = focus_order(mode);
    match mode {
        ViewMode::Standard => {
            let j = choose|j: int| 0 <= j < order.len() && order[j] == focus;
            assert(focus != Focus::Header);
            lemma_standard_focus(focus, false);
            lemma_standard_focus(focus, true);
            lemma_standard_focus(spec_next_focus(mode, focus, false), true);
            lemma_standard_focus(spec_next_focus(mode, focus, true), false);
        },
        ViewMode::ResponseZoom => {
            assert(order[0] == Focus::Response);
            let i = choose|i: int| 0 <= i < order.len() && order[i] == Focus::Response;
            assert(i == 0);
        },
    }
}

/// Scrolling the response never leaves it past its largest offset.
pub proof fn law_response_scroll_bounded(s: ResponseScrollState)
    requires
        s.inv(),
    ensures
        s.spec_offset() <= s.spec_max_offset(),
{
}

} // verus!
