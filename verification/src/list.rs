//! Shared cursor-paginated list state and the window a list is seen through.
use vstd::prelude::*;

use crate::draw::{self, Line};
use crate::strs;
use crate::theme::{Style, Theme};

verus! {

/// Paged list state, generic over the item type.
#[derive(Debug, Clone)]
pub struct TabState<T> {
    pub items: Vec<T>,
    pub selected: usize,
    pub next_cursor: Option<String>,
    pub loading: bool,
    pub error: Option<String>,
    /// Whether an initial load has completed.
    pub loaded: bool,
    /// Index of the first visible row, kept across renders.
    pub list_offset: usize,
    /// How many of the first drawn item's top rows are cut off.
    pub top_clip: u16,
    /// How many whole items the last render fitted on screen.
    pub page_items: usize,
}

/// What a [`TabState`] holds.
#[verifier::ext_equal]
pub struct TabView<T> {
    pub items: Seq<T>,
    pub selected: int,
    pub next_cursor: Option<Seq<char>>,
    pub loading: bool,
    pub error: Option<Seq<char>>,
    pub loaded: bool,
    pub list_offset: int,
    pub top_clip: int,
    pub page_items: int,
}

impl<T> View for TabState<T> {
    type V = TabView<T>;

    open spec fn view(&self) -> TabView<T> {
        TabView {
            items: self.items@,
            selected: self.selected as int,
            next_cursor: strs::opt_text(self.next_cursor),
            loading: self.loading,
            error: strs::opt_text(self.error),
            loaded: self.loaded,
            list_offset: self.list_offset as int,
            top_clip: self.top_clip as int,
            page_items: self.page_items as int,
        }
    }
}

/// A page as the server sent it, or the error it answered with.
pub type Page<T> = Result<(Vec<T>, Option<String>), String>;

impl<T> TabView<T> {
    /// Nothing loaded and nothing on its way.
    pub open spec fn fresh() -> TabView<T> {
        TabView {
            items: Seq::empty(),
            selected: 0,
            next_cursor: None,
            loading: false,
            error: None,
            loaded: false,
            list_offset: 0,
            top_clip: 0,
            page_items: 0,
        }
    }

    /// The state after a first page arrived (or failed to), when `view_len`
    /// of its items are visible.
    pub open spec fn after_initial(self, page: Page<T>, view_len: int) -> TabView<T> {
        match page {
            Ok((items, cursor)) => TabView {
                items: items@,
                selected: if self.selected >= view_len {
                    0
                } else {
                    self.selected
                },
                next_cursor: strs::opt_text(cursor),
                loading: false,
                error: None,
                loaded: true,
                list_offset: 0,
                top_clip: 0,
                page_items: self.page_items,
            },
            Err(msg) => TabView { loading: false, loaded: true, error: Some(msg@), ..self },
        }
    }

    /// The state after a follow-up page arrived, or failed to.
    pub open spec fn after_more(self, page: Page<T>) -> TabView<T> {
        match page {
            Ok((items, cursor)) => TabView {
                items: self.items + items@,
                next_cursor: strs::opt_text(cursor),
                loading: false,
                error: None,
                ..self
            },
            Err(msg) => TabView { loading: false, error: Some(msg@), ..self },
        }
    }

    /// The list after items came in at its top.
    pub open spec fn pushed_down(self, delta: int) -> TabView<T> {
        TabView { list_offset: self.list_offset + delta, ..self }
    }

    /// The list after items left it at its top.
    pub open spec fn pulled_up(self, delta: int) -> TabView<T> {
        TabView {
            list_offset: if self.list_offset >= delta {
                self.list_offset - delta
            } else {
                0
            },
            ..self
        }
    }

    /// The list with its viewport placed.
    pub open spec fn windowed(self, offset: int, clip: int) -> TabView<T> {
        TabView { list_offset: offset, top_clip: clip, ..self }
    }

    /// The list after it was drawn from `offset` on.
    pub open spec fn drawn(self, offset: int, heights: Seq<u16>, area: int) -> TabView<T> {
        TabView { list_offset: offset, page_items: page_of(heights, offset, area), ..self }
    }
}

impl<T> Default for TabState<T> {
    fn default() -> (r: TabState<T>)
        ensures
            r@ == TabView::<T>::fresh(),
    {
        TabState {
            items: Vec::new(),
            selected: 0,
            next_cursor: None,
            loading: false,
            error: None,
            loaded: false,
            list_offset: 0,
            top_clip: 0,
            page_items: 0,
        }
    }
}

impl<T> TabState<T> {
    /// A state that starts out loading.
    pub fn loading() -> (r: TabState<T>)
        ensures
            r@ == (TabView { loading: true, ..TabView::<T>::fresh() }),
    {
        let mut r: TabState<T> = TabState::default();
        r.loading = true;
        r
    }

    /// Apply an initial load or refresh. `view_len` gives the count after any
    /// screen-specific filtering; the selection resets when it is past it.
    pub fn apply_initial_filtered<F: FnOnce(&TabState<T>) -> usize>(
        &mut self,
        result: Page<T>,
        view_len: F,
    )
        requires
            forall|s: &TabState<T>| view_len.requires((s,)),
        ensures
            result is Err ==> final(self)@ == old(self)@.after_initial(result, 0),
            result is Ok ==> exists|s: TabState<T>, n: usize| #[trigger]
                view_len.ensures((&s,), n) && s@ == (TabView {
                    selected: old(self)@.selected,
                    error: old(self)@.error,
                    ..old(self)@.after_initial(result, 0)
                }) && final(self)@ == old(self)@.after_initial(result, n as int),
    {
        self.loading = false;
        self.loaded = true;
        match result {
            Ok((items, cursor)) => {
                self.items = items;
                self.next_cursor = cursor;
                // The offset indexed the previous list.
                self.list_offset = 0;
                self.top_clip = 0;
                let n: usize = view_len(self);
                let ghost asked = *self;
                assert(view_len.ensures((&asked,), n));
                if self.selected >= n {
                    self.selected = 0;
                }
                self.error = None;
            },
            Err(msg) => {
                self.error = Some(msg);
            },
        }
    }

    /// Apply an initial load, clamping the selection to the raw item count.
    pub fn apply_initial(&mut self, result: Page<T>)
        ensures
            final(self)@ == old(self)@.after_initial(
                result,
                match result {
                    Ok((items, _)) => items@.len() as int,
                    Err(_) => 0,
                },
            ),
    {
        let count = |s: &TabState<T>| -> (n: usize)
            ensures
                n == s.items@.len(),
            { s.items.len() };
        self.apply_initial_filtered(result, count);
    }

    /// Shift the persisted scroll offset, for items prepended at the top.
    pub fn shift_offset(&mut self, delta: usize)
        requires
            old(self).list_offset + delta <= usize::MAX,
        ensures
            final(self)@ == old(self)@.pushed_down(delta as int),
    {
        self.list_offset = self.list_offset + delta;
    }

    /// Shift the persisted scroll offset back, for items dropped off the top.
    pub fn shift_offset_back(&mut self, delta: usize)
        ensures
            final(self)@ == old(self)@.pulled_up(delta as int),
    {
        self.list_offset = if self.list_offset >= delta {
            self.list_offset - delta
        } else {
            0
        };
    }

    /// Place the viewport by row: `offset` names the first drawn item and
    /// `clip` how many of its top rows are cut off.
    pub fn set_window(&mut self, offset: usize, clip: u16)
        ensures
            final(self)@ == old(self)@.windowed(offset as int, clip as int),
    {
        self.list_offset = offset;
        self.top_clip = clip;
    }

    /// How many of the first drawn item's top rows the last render cut off.
    pub fn top_clip(&self) -> (r: u16)
        ensures
            r == self.top_clip,
    {
        self.top_clip
    }

    pub open spec fn page_spec(self) -> int {
        if self.page_items < 1 {
            1
        } else {
            self.page_items as int
        }
    }

    /// How many whole items the last render fitted on screen; one before the
    /// first render.
    pub fn page_items(&self) -> (r: usize)
        ensures
            r == self.page_spec(),
    {
        if self.page_items < 1 {
            1
        } else {
            self.page_items
        }
    }

    /// The first row the last render drew.
    pub fn list_offset(&self) -> (r: usize)
        ensures
            r == self.list_offset,
    {
        self.list_offset
    }

    /// Append a load-more page; the selection is unaffected.
    pub fn apply_more(&mut self, result: Page<T>)
        ensures
            final(self)@ == old(self)@.after_more(result),
    {
        self.loading = false;
        match result {
            Ok((items, cursor)) => {
                let mut more = items;
                self.items.append(&mut more);
                self.next_cursor = cursor;
                self.error = None;
            },
            Err(msg) => {
                self.error = Some(msg);
            },
        }
    }

    /// Keep what a render settled on: the first drawn item, and how many whole
    /// items fit below it.
    pub fn record_render(&mut self, offset: usize, heights: &Vec<u16>, area_height: u16)
        ensures
            final(self)@ == old(self)@.drawn(offset as int, heights@, area_height as int),
    {
        self.list_offset = offset;
        let mut used: u16 = 0;
        let mut fitted: usize = 0;
        let mut i: usize = offset;
        assert(rows_between(heights@, offset as int, offset as int) == 0);
        while i < heights.len()
            invariant_except_break
                offset <= i,
                i <= heights@.len() || fitted == 0,
                fitted == i - offset,
                used == draw::least(rows_between(heights@, offset as int, i as int), 0xffff),
                used <= area_height,
                rows_between(heights@, offset as int, i as int) >= 0,
                offset <= heights@.len() ==> page_count(
                    heights@,
                    offset as int,
                    i as int,
                    area_height as int,
                ) == page_count(heights@, offset as int, offset as int, area_height as int),
                offset > heights@.len() ==> i == offset,
            ensures
                offset <= heights@.len() ==> fitted == page_count(
                    heights@,
                    offset as int,
                    offset as int,
                    area_height as int,
                ),
                offset > heights@.len() ==> fitted == 0,
            decreases heights@.len() - i,
        {
            used = used.saturating_add(heights[i]);
            if used > area_height {
                break ;
            }
            fitted = fitted + 1;
            i = i + 1;
        }
        self.page_items = if fitted < 1 {
            1
        } else {
            fitted
        };
    }
}

/// The rows that items `from..to` take.
pub open spec fn rows_between(heights: Seq<u16>, from: int, to: int) -> int
    decreases to - from,
{
    if to <= from {
        0
    } else {
        rows_between(heights, from, to - 1) + heights[to - 1]
    }
}

/// How many items from `offset` on fit whole in `area` rows, the first `i -
/// offset` of them being known to fit. The count of rows stops at the largest
/// height there is.
pub open spec fn page_count(heights: Seq<u16>, offset: int, i: int, area: int) -> int
    decreases heights.len() - i,
{
    if i < heights.len() && draw::least(rows_between(heights, offset, i + 1), 0xffff) <= area {
        page_count(heights, offset, i + 1, area)
    } else {
        i - offset
    }
}

/// A page: how many items fit whole, at least one.
pub open spec fn page_of(heights: Seq<u16>, offset: int, area: int) -> int {
    let n = if offset <= heights.len() {
        page_count(heights, offset, offset, area)
    } else {
        0
    };
    if n < 1 {
        1
    } else {
        n
    }
}

// ---------------------------------------------------------------------------
// The row window.
// ---------------------------------------------------------------------------

/// A conversation pane's viewport, in rows rather than in whole items.
///
/// `first` and `last` are the items at the edges; `top` and `bottom` are how
/// many of their own rows the pane's edges cut off.
#[derive(Debug, Clone, Copy, PartialEq, Eq, Structural)]
pub struct RowWindow {
    pub first: usize,
    pub top: u16,
    pub last: usize,
    pub bottom: u16,
}

/// The row at which item `i` starts, counted with 32 bits.
pub open spec fn start(heights: Seq<u16>, i: int) -> int
    decreases i,
{
    if i <= 0 {
        0
    } else {
        let s = start(heights, i - 1) + heights[i - 1];
        if s > u32::MAX {
            u32::MAX as int
        } else {
            s
        }
    }
}

/// The row the window begins at when the items overflow the pane: flush with
/// the end when the last item is selected, else where the last render left it
/// unless the selected item would be cut off.
pub open spec fn window_row(
    heights: Seq<u16>,
    selected: int,
    prev: (usize, u16),
    pane: int,
) -> int {
    let n = heights.len() as int;
    let max_row = start(heights, n) - pane;
    let sel = draw::least(selected, n - 1);
    if sel == n - 1 {
        max_row
    } else {
        let top = start(heights, sel);
        let bottom = start(heights, sel + 1);
        let kept = draw::least(
            (if prev.0 <= n {
                start(heights, prev.0 as int)
            } else {
                0
            }) + prev.1,
            max_row,
        );
        if top < kept || heights[sel] >= pane {
            draw::least(top, max_row)
        } else if bottom > kept + pane {
            bottom - pane
        } else {
            kept
        }
    }
}

/// Whether the items overflow a pane of that many rows.
pub open spec fn overflows(heights: Seq<u16>, pane: int) -> bool {
    heights.len() > 0 && pane > 0 && start(heights, heights.len() as int) > pane
}

/// Whether a window shows the pane's rows from `row` on: the items at its edges
/// are the ones that hold the first and the last of them.
pub open spec fn shows_rows(heights: Seq<u16>, row: int, pane: int, w: RowWindow) -> bool {
    &&& w.first < heights.len()
    &&& start(heights, w.first as int) <= row < start(heights, w.first + 1)
    &&& w.top == row - start(heights, w.first as int)
    &&& w.last < heights.len()
    &&& start(heights, w.last as int) < row + pane <= start(heights, w.last + 1)
    &&& w.bottom == start(heights, w.last + 1) - (row + pane)
    // No row is left unused: what the edges leave fills the pane.
    &&& start(heights, w.last + 1) - start(heights, w.first as int) - w.top - w.bottom == pane
}

proof fn lemma_start_step(heights: Seq<u16>, i: int)
    requires
        0 <= i < heights.len(),
    ensures
        start(heights, i) <= start(heights, i + 1) <= start(heights, i) + heights[i],
        0 <= start(heights, i) <= u32::MAX,
        0 <= start(heights, i + 1) <= u32::MAX,
    decreases i,
{
    if i > 0 {
        lemma_start_step(heights, i - 1);
    }
}

proof fn lemma_start_monotonic(heights: Seq<u16>, i: int, j: int)
    requires
        0 <= i <= j <= heights.len(),
    ensures
        0 <= start(heights, i) <= start(heights, j) <= u32::MAX,
    decreases j - i,
{
    if i < j {
        lemma_start_monotonic(heights, i, j - 1);
        lemma_start_step(heights, j - 1);
    } else if i > 0 {
        lemma_start_step(heights, i - 1);
    }
}

/// Where the viewport sits over `heights`, given where the reader's cursor is
/// and where the last render left it.
///
/// No row of the pane is left unused: the item at an edge is drawn short.
pub fn row_window(heights: &[u16], selected: usize, prev: (usize, u16), pane: u16) -> (w: RowWindow)
    ensures
        !overflows(heights@, pane as int) ==> w == (RowWindow {
            first: 0,
            top: 0,
            last: (if heights@.len() == 0 {
                0
            } else {
                heights@.len() - 1
            }) as usize,
            bottom: 0,
        }),
        overflows(heights@, pane as int) ==> shows_rows(
            heights@,
            window_row(heights@, selected as int, prev, pane as int),
            pane as int,
            w,
        ),
{
    let n: usize = heights.len();
    let last_item: usize = if n > 0 {
        n - 1
    } else {
        0
    };
    let empty = RowWindow { first: 0, top: 0, last: last_item, bottom: 0 };
    if n == 0 || pane == 0 {
        return empty;
    }
    // The row at which each item starts, with the total as a final entry.
    let mut starts: Vec<u32> = Vec::new();
    let mut acc: u32 = 0;
    let mut i: usize = 0;
    while i < n
        invariant
            i <= n,
            n == heights@.len(),
            starts@.len() == i,
            acc == start(heights@, i as int),
            forall|j: int| 0 <= j < i ==> starts@[j] == start(heights@, j),
        decreases n - i,
    {
        starts.push(acc);
        let h: u32 = heights[i] as u32;
        acc = if acc > u32::MAX - h {
            u32::MAX
        } else {
            acc + h
        };
        i = i + 1;
    }
    starts.push(acc);
    let total: u32 = acc;
    let pane_rows: u32 = pane as u32;
    if total <= pane_rows {
        return empty;
    }
    let max_row: u32 = total - pane_rows;
    let sel: usize = if selected < last_item {
        selected
    } else {
        last_item
    };
    proof {
        lemma_start_step(heights@, sel as int);
        lemma_start_monotonic(heights@, sel + 1, n as int);
    }
    let row: u32 = if sel == last_item {
        // A live conversation keeps its tail flush with the bottom.
        max_row
    } else {
        let sel_top: u32 = starts[sel];
        let sel_bottom: u32 = starts[sel + 1];
        let base: u32 = if prev.0 < starts.len() {
            starts[prev.0]
        } else {
            0
        };
        let clip: u32 = prev.1 as u32;
        let left: u32 = if base > u32::MAX - clip {
            u32::MAX
        } else {
            base + clip
        };
        let kept: u32 = if left < max_row {
            left
        } else {
            max_row
        };
        if sel_top < kept || heights[sel] as u32 >= pane_rows {
            // Above the window, or too tall to fit: show the item's head.
            if sel_top < max_row {
                sel_top
            } else {
                max_row
            }
        } else if sel_bottom > kept + pane_rows {
            sel_bottom - pane_rows
        } else {
            kept
        }
    };
    assert(row == window_row(heights@, selected as int, prev, pane as int));
    assert(row <= max_row);
    let end: u32 = row + pane_rows;
    assert(starts.len() == n + 1);
    let mut first: usize = 0;
    while starts[first + 1] <= row
        invariant
            n == heights@.len(),
            starts@.len() == n + 1,
            n + 1 <= usize::MAX,
            first < n,
            forall|j: int| 0 <= j <= n ==> starts@[j] == start(heights@, j),
            starts@[first as int] <= row,
            row < starts@[n as int],
        decreases n - first,
    {
        first = first + 1;
    }
    let mut last: usize = first;
    while starts[last + 1] < end
        invariant
            n == heights@.len(),
            starts@.len() == n + 1,
            n + 1 <= usize::MAX,
            last < n,
            forall|j: int| 0 <= j <= n ==> starts@[j] == start(heights@, j),
            starts@[last as int] < end,
            end <= starts@[n as int],
        decreases n - last,
    {
        last = last + 1;
    }
    proof {
        lemma_start_step(heights@, first as int);
        lemma_start_step(heights@, last as int);
    }
    RowWindow {
        first,
        top: (row - starts[first]) as u16,
        last,
        bottom: (starts[last + 1] - end) as u16,
    }
}

/// The window never runs past either end, and the selected item is on screen:
/// whole when it is shorter than the pane, and else with its head, unless it
/// is the last item, whose tail is kept flush with the bottom.
pub proof fn law_selected_item_is_on_screen(
    heights: Seq<u16>,
    selected: int,
    prev: (usize, u16),
    pane: int,
)
    requires
        overflows(heights, pane),
        0 <= selected < heights.len(),
    ensures
        ({
            let row = window_row(heights, selected, prev, pane);
            let n = heights.len() as int;
            &&& 0 <= row <= start(heights, n) - pane
            &&& heights[selected] < pane ==> row <= start(heights, selected) && start(
                heights,
                selected + 1,
            ) <= row + pane
            &&& selected < n - 1 ==> row <= start(heights, selected)
            &&& selected == n - 1 ==> row + pane == start(heights, n)
        }),
{
    let n = heights.len() as int;
    lemma_start_step(heights, selected);
    lemma_start_monotonic(heights, selected + 1, n);
    lemma_start_monotonic(heights, selected, n);
    if prev.0 <= n {
        lemma_start_monotonic(heights, prev.0 as int, n);
    }
}

/// A cursor that is already on screen leaves the view where the reader left it.
pub proof fn law_visible_cursor_keeps_the_window(
    heights: Seq<u16>,
    selected: int,
    prev: (usize, u16),
    pane: int,
)
    requires
        overflows(heights, pane),
        0 <= selected < heights.len() - 1,
        prev.0 < heights.len(),
        heights[selected] < pane,
        start(heights, prev.0 as int) + prev.1 <= start(heights, selected),
        start(heights, selected + 1) <= start(heights, prev.0 as int) + prev.1 + pane,
        start(heights, prev.0 as int) + prev.1 <= start(heights, heights.len() as int) - pane,
    ensures
        window_row(heights, selected, prev, pane) == start(heights, prev.0 as int) + prev.1,
{
}

/// A window that a render settled on, handed to the next one, is settled on
/// again: it never moves by itself.
pub proof fn law_settled_window_stays(
    heights: Seq<u16>,
    selected: int,
    prev: (usize, u16),
    pane: int,
    w: RowWindow,
    again: RowWindow,
)
    requires
        overflows(heights, pane),
        0 <= selected,
        shows_rows(heights, window_row(heights, selected, prev, pane), pane, w),
        shows_rows(
            heights,
            window_row(heights, selected, (w.first, w.top), pane),
            pane,
            again,
        ),
    ensures
        again == w,
{
    let n = heights.len() as int;
    let sel = draw::least(selected, n - 1);
    lemma_start_step(heights, sel);
    lemma_start_monotonic(heights, sel + 1, n);
    lemma_start_monotonic(heights, sel, n);
    if prev.0 <= n {
        lemma_start_monotonic(heights, prev.0 as int, n);
    }
    let row = window_row(heights, selected, prev, pane);
    assert(row <= start(heights, n) - pane);
    assert(window_row(heights, selected, (w.first, w.top), pane) == row);
    lemma_one_item_holds_a_row(heights, row, w.first as int, again.first as int);
    lemma_one_item_holds_a_row(heights, row + pane - 1, w.last as int, again.last as int);
}

proof fn lemma_one_item_holds_a_row(heights: Seq<u16>, row: int, i: int, j: int)
    requires
        0 <= i < heights.len(),
        0 <= j < heights.len(),
        start(heights, i) <= row < start(heights, i + 1),
        start(heights, j) <= row < start(heights, j + 1),
    ensures
        i == j,
{
    if i < j {
        lemma_start_monotonic(heights, i + 1, j);
    } else if j < i {
        lemma_start_monotonic(heights, j + 1, i);
    }
}

// ---------------------------------------------------------------------------
// The list body.
// ---------------------------------------------------------------------------

/// What the status line says about a load-more failure, if anything.
pub open spec fn more_error_text<T>(s: TabView<T>) -> Option<Seq<char>> {
    if !s.loading && s.items.len() > 0 {
        match s.error {
            Some(msg) => Some("⚠ "@ + msg + " · scroll or r to retry"@),
            None => None,
        }
    } else {
        None
    }
}

/// Inline status text for a load-more failure: shown when the list is already
/// populated, so the list stays put and the error rides the status line.
pub fn load_more_error<T>(state: &TabState<T>) -> (r: Option<String>)
    ensures
        strs::opt_text(r) == more_error_text(state@),
{
    if !state.loading && state.items.len() > 0 {
        match &state.error {
            Some(msg) => {
                let mut s = String::new();
                s.append("⚠ ");
                s.append(msg.as_str());
                s.append(" · scroll or r to retry");
                assert(s@ =~= "⚠ "@ + msg@ + " · scroll or r to retry"@);
                Some(s)
            },
            None => None,
        }
    } else {
        None
    }
}

/// How the selected row of a list is marked.
#[derive(Debug, Clone, Copy, PartialEq, Eq, Structural)]
pub enum SelectionStyle {
    /// Paint the whole row's background.
    Fill,
    /// Recolor the row in the bold accent.
    Bar,
}

/// What a list body shows.
#[derive(Debug, Clone)]
pub enum ListBody {
    /// One line in place of the list.
    Message(Line),
    /// The rows, the one that is selected and its highlight, and where the
    /// view starts.
    Rows { rows: Vec<Vec<Line>>, highlight: Style, selected: usize, offset: usize },
}

/// What a [`ListBody`] shows.
#[verifier::ext_equal]
pub enum ListBodyView {
    Message(Seq<draw::SpanView>),
    Rows { rows: Seq<Seq<Seq<draw::SpanView>>>, highlight: Style, selected: int, offset: int },
}

impl View for ListBody {
    type V = ListBodyView;

    open spec fn view(&self) -> ListBodyView {
        match self {
            ListBody::Message(l) => ListBodyView::Message(l@),
            ListBody::Rows { rows, highlight, selected, offset } => ListBodyView::Rows {
                rows: draw::block_views(rows@),
                highlight: *highlight,
                selected: *selected as int,
                offset: *offset as int,
            },
        }
    }
}

/// The body of a list whose visible items draw as `rows`. A list with visible
/// rows is shown even when an error is set; the full-area error is for a
/// failed initial load.
pub open spec fn body_of<T>(
    s: TabView<T>,
    rows: Seq<Seq<Seq<draw::SpanView>>>,
    empty_label: Seq<char>,
    theme: Theme,
    selection: SelectionStyle,
) -> ListBodyView {
    if s.loading && s.items.len() == 0 {
        ListBodyView::Message(draw::one("loading…"@, theme.accent_spec()))
    } else if rows.len() > 0 {
        ListBodyView::Rows {
            rows,
            highlight: match selection {
                SelectionStyle::Fill => theme.selection_spec(),
                SelectionStyle::Bar => theme.accent_spec(),
            },
            selected: draw::least(s.selected, rows.len() - 1),
            offset: s.list_offset,
        }
    } else {
        match s.error {
            Some(msg) => ListBodyView::Message(draw::one(msg, theme.error_spec())),
            None => ListBodyView::Message(draw::one(empty_label, theme.muted_spec())),
        }
    }
}

/// Whether `rows` are what `item` draws the visible items as, each given its
/// position among them.
pub open spec fn drawn_by<T, F: Fn(usize, &T) -> Vec<Line>>(
    items: Seq<T>,
    visible: Seq<usize>,
    item: F,
    rows: Seq<Vec<Line>>,
) -> bool {
    &&& rows.len() == visible.len()
    &&& forall|pos: int|
        0 <= pos < visible.len() ==> call_ensures(
            item,
            (pos as usize, &items[visible[pos] as int]),
            #[trigger] rows[pos],
        )
}

/// [`render_body`] over the visible items, each drawn by `item`, which is given
/// the item's position among them.
pub fn render_body_indexed<T, F: Fn(usize, &T) -> Vec<Line>>(
    state: &TabState<T>,
    visible: &[usize],
    empty_label: &str,
    item: F,
    theme: &Theme,
    selection: SelectionStyle,
) -> (b: ListBody)
    requires
        forall|pos: int|
            0 <= pos < visible@.len() ==> #[trigger] visible@[pos] < state.items@.len(),
        forall|pos: int|
            0 <= pos < visible@.len() ==> call_requires(
                item,
                (pos as usize, &state.items@[#[trigger] visible@[pos] as int]),
            ),
    ensures
        exists|rows: Seq<Vec<Line>>| #[trigger]
            drawn_by(state.items@, visible@, item, rows) && b@ == body_of(
                state@,
                draw::block_views(rows),
                empty_label@,
                *theme,
                selection,
            ),
{
    let mut rows: Vec<Vec<Line>> = Vec::new();
    let mut pos: usize = 0;
    while pos < visible.len()
        invariant
            pos <= visible@.len(),
            rows@.len() == pos,
            forall|p: int|
                0 <= p < visible@.len() ==> #[trigger] visible@[p] < state.items@.len(),
            forall|p: int|
                0 <= p < visible@.len() ==> call_requires(
                    item,
                    (p as usize, &state.items@[#[trigger] visible@[p] as int]),
                ),
            forall|p: int|
                0 <= p < pos ==> call_ensures(
                    item,
                    (p as usize, &state.items@[visible@[p] as int]),
                    #[trigger] rows@[p],
                ),
        decreases visible@.len() - pos,
    {
        let at: usize = visible[pos];
        let row = item(pos, &state.items[at]);
        rows.push(row);
        pos = pos + 1;
    }
    assert(drawn_by(state.items@, visible@, item, rows@));
    render_body(state, rows, empty_label, theme, selection)
}

/// The body of a list whose visible items draw as `rows`.
pub fn render_body<T>(
    state: &TabState<T>,
    rows: Vec<Vec<Line>>,
    empty_label: &str,
    theme: &Theme,
    selection: SelectionStyle,
) -> (b: ListBody)
    ensures
        b@ == body_of(state@, draw::block_views(rows@), empty_label@, *theme, selection),
{
    if state.loading && state.items.len() == 0 {
        return ListBody::Message(Line::of("loading…", theme.accent_style()));
    }
    if rows.len() > 0 {
        let highlight = match selection {
            SelectionStyle::Fill => theme.selection_style(),
            SelectionStyle::Bar => theme.accent_style(),
        };
        let last: usize = rows.len() - 1;
        let selected: usize = if state.selected < last {
            state.selected
        } else {
            last
        };
        return ListBody::Rows { rows, highlight, selected, offset: state.list_offset };
    }
    match &state.error {
        Some(msg) => ListBody::Message(Line::single(msg.clone(), theme.error_style())),
        None => ListBody::Message(Line::of(empty_label, theme.muted_style())),
    }
}

/// A load-more failure never blanks a list that is already shown: its rows
/// stay, and the error is on the status line instead.
pub proof fn law_load_more_failure_keeps_the_list<T>(
    s: TabView<T>,
    msg: String,
    rows: Seq<Seq<Seq<draw::SpanView>>>,
    label: Seq<char>,
    theme: Theme,
    selection: SelectionStyle,
)
    requires
        s.items.len() > 0,
        rows.len() > 0,
    ensures
        ({
            let after = s.after_more(Err(msg));
            &&& after.items == s.items
            &&& after.selected == s.selected
            &&& body_of(after, rows, label, theme, selection) is Rows
            &&& more_error_text(after) is Some
        }),
{
}

/// A first page replaces the items and puts the view at the top; a further one goes
/// behind them and leaves the selection and the view; a failure changes no item and
/// is kept.
pub proof fn law_pages_bring_their_items<T>(
    s: TabView<T>,
    items: Vec<T>,
    cursor: Option<String>,
    msg: String,
    view_len: int,
)
    ensures
        ({
            let first = s.after_initial(Ok((items, cursor)), view_len);
            let more = s.after_more(Ok((items, cursor)));
            &&& first.items == items@ && first.next_cursor == strs::opt_text(cursor)
            &&& first.loaded && !first.loading && first.error is None
            &&& first.list_offset == 0 && first.top_clip == 0
            &&& s.selected < view_len ==> first.selected == s.selected
            &&& s.selected >= view_len ==> first.selected == 0
            &&& more.items == s.items + items@ && more.next_cursor == strs::opt_text(cursor)
            &&& !more.loading && more.error is None
            &&& more.selected == s.selected && more.list_offset == s.list_offset && more.top_clip
                == s.top_clip
            &&& s.after_initial(Err(msg), view_len) == (TabView {
                loading: false,
                loaded: true,
                error: Some(msg@),
                ..s
            })
            &&& s.after_more(Err(msg)) == (TabView { loading: false, error: Some(msg@), ..s })
        }),
{
}

/// A page is as many items as fit whole below the first one drawn: they fit, and one
/// more would not; where not even one does, it still counts.
pub proof fn law_a_page_is_what_fits(heights: Seq<u16>, offset: int, area: int)
    requires
        0 <= offset <= heights.len(),
        0 <= area < 0xffff,
    ensures
        ({
            let n = page_of(heights, offset, area);
            &&& n >= 1
            &&& n > 1 ==> offset + n <= heights.len() && rows_between(heights, offset, offset + n)
                <= area
            &&& offset + n < heights.len() ==> rows_between(heights, offset, offset + n + 1) > area
                || (n == 1 && rows_between(heights, offset, offset + 1) > area)
        }),
{
    lemma_page_count(heights, offset, offset, area);
}

proof fn lemma_page_count(heights: Seq<u16>, offset: int, i: int, area: int)
    requires
        0 <= offset <= i <= heights.len(),
        0 <= area < 0xffff,
        i > offset ==> rows_between(heights, offset, i) <= area,
    ensures
        ({
            let n = page_count(heights, offset, i, area);
            &&& i - offset <= n <= heights.len() - offset
            &&& n > 0 ==> rows_between(heights, offset, offset + n) <= area
            &&& offset + n < heights.len() ==> rows_between(heights, offset, offset + n + 1) > area
        }),
    decreases heights.len() - i,
{
    if i < heights.len() && draw::least(rows_between(heights, offset, i + 1), 0xffff) <= area {
        lemma_page_count(heights, offset, i + 1, area);
    }
}

/// Rows add up item by item.
pub proof fn law_rows_add_up(heights: Seq<u16>, from: int, mid: int, to: int)
    requires
        from <= mid <= to,
    ensures
        rows_between(heights, from, to) == rows_between(heights, from, mid) + rows_between(
            heights,
            mid,
            to,
        ),
        rows_between(heights, from, from) == 0,
        rows_between(heights, from, from + 1) == heights[from],
    decreases to - mid,
{
    reveal_with_fuel(rows_between, 2);
    if mid < to {
        law_rows_add_up(heights, from, mid, to - 1);
    }
}

/// Items start where the ones before them end, as far as 32 bits can say.
pub proof fn law_items_start_below_one_another(heights: Seq<u16>, i: int)
    requires
        0 <= i <= heights.len(),
    ensures
        start(heights, i) == draw::least(rows_between(heights, 0, i), u32::MAX as int),
    decreases i,
{
    if i > 0 {
        law_items_start_below_one_another(heights, i - 1);
    }
}

/// A window starts at the top of the selected item where that stood above it, at the
/// bottom of it where that stood below, and flush with the end on the last item.
pub proof fn law_the_window_follows_the_cursor(
    heights: Seq<u16>,
    selected: int,
    prev: (usize, u16),
    pane: int,
)
    requires
        overflows(heights, pane),
        0 <= selected < heights.len(),
        prev.0 <= heights.len(),
    ensures
        ({
            let row = window_row(heights, selected, prev, pane);
            let n = heights.len() as int;
            let was = start(heights, prev.0 as int) + prev.1;
            let end = start(heights, n) - pane;
            &&& selected == n - 1 ==> row == end
            &&& selected < n - 1 && heights[selected] < pane && was <= end ==> {
                &&& start(heights, selected) < was ==> row == draw::least(
                    start(heights, selected),
                    end,
                )
                &&& start(heights, selected) >= was && start(heights, selected + 1) > was + pane
                    ==> row == start(heights, selected + 1) - pane
                &&& start(heights, selected) >= was && start(heights, selected + 1) <= was + pane
                    ==> row == was
            }
        }),
{
}

/// A list that is loaded shows its rows with the selected one picked out, whatever
/// went wrong since; only an empty one shows a message in their place.
pub proof fn law_loaded_lists_show_their_rows<T>(
    s: TabView<T>,
    rows: Seq<Seq<Seq<draw::SpanView>>>,
    label: Seq<char>,
    theme: Theme,
    selection: SelectionStyle,
)
    requires
        s.items.len() > 0 || !s.loading,
    ensures
        rows.len() > 0 && 0 <= s.selected ==> ({
            &&& body_of(s, rows, label, theme, selection) matches ListBodyView::Rows {
                rows: shown,
                highlight,
                selected,
                offset,
            }
            &&& shown == rows
            &&& s.selected < rows.len() ==> selected == s.selected
            &&& 0 <= selected < rows.len()
            &&& offset == s.list_offset
            &&& selection == SelectionStyle::Fill ==> highlight == theme.selection_spec()
            &&& selection == SelectionStyle::Bar ==> highlight == theme.accent_spec()
        }),
        rows.len() == 0 && s.error is None ==> body_of(s, rows, label, theme, selection)
            == ListBodyView::Message(seq![draw::span(label, theme.muted_spec())]),
        rows.len() == 0 ==> (s.error matches Some(msg) ==> body_of(s, rows, label, theme, selection)
            == ListBodyView::Message(seq![draw::span(msg, theme.error_spec())])),
{
}

/// A load-more failure is told on the status line exactly when there is a list, no
/// page is on its way, and something went wrong; it says what.
pub proof fn law_load_more_failures_are_told<T>(s: TabView<T>)
    ensures
        more_error_text(s) is Some <==> s.items.len() > 0 && !s.loading && s.error is Some,
        more_error_text(s) matches Some(t) ==> (s.error matches Some(msg) && strs::occurs_at(
            t,
            msg,
            2,
        )),
{
    reveal_strlit("⚠ ");
    if let Some(t) = more_error_text(s) {
        let msg = s.error->Some_0;
        assert(t.subrange(2, 2 + msg.len() as int) =~= msg);
    }
}

/// The viewport moves with what comes in and leaves at the top, and back to where it was;
/// what is loaded and selected stays.
pub proof fn law_the_viewport_moves_with_the_top<T>(s: TabView<T>, delta: int)
    requires
        0 <= delta,
        0 <= s.list_offset,
    ensures
        s.pushed_down(delta).list_offset == s.list_offset + delta,
        s.pushed_down(delta).pulled_up(delta) == s,
        delta <= s.list_offset ==> s.pulled_up(delta).list_offset + delta == s.list_offset,
        delta > s.list_offset ==> s.pulled_up(delta).list_offset == 0,
        s.pushed_down(delta).items == s.items && s.pushed_down(delta).selected == s.selected,
        s.pulled_up(delta).items == s.items && s.pulled_up(delta).selected == s.selected,
{
}

/// A render keeps where it began and how much it showed, and nothing of what is loaded.
pub proof fn law_renders_keep_the_list<T>(
    s: TabView<T>,
    offset: int,
    clip: int,
    heights: Seq<u16>,
    area: int,
)
    ensures
        s.windowed(offset, clip).list_offset == offset,
        s.windowed(offset, clip).top_clip == clip,
        s.windowed(offset, clip).items == s.items,
        s.windowed(offset, clip).selected == s.selected,
        s.windowed(offset, clip).page_items == s.page_items,
        s.drawn(offset, heights, area).list_offset == offset,
        s.drawn(offset, heights, area).page_items == page_of(heights, offset, area),
        s.drawn(offset, heights, area).items == s.items,
        s.drawn(offset, heights, area).selected == s.selected,
{
}

} // verus!
