//! Shared keyboard navigation for cursor-paginated list screens.
//!
//! `selected` indexes the *visible* view of length `view_len`, so the model is
//! the same whether or not a screen filters its items.
use vstd::prelude::*;

use crate::key::KeyCode;

verus! {

/// Outcome of a navigation key, returned to the screen.
#[derive(Debug, Clone, Copy, PartialEq, Eq, Structural)]
pub enum ListNav {
    /// The cursor moved, or the key was a navigation key without effect.
    Moved,
    /// The user scrolled past the end and another page is available.
    LoadMore,
    /// Not a navigation key; the screen should handle it.
    Ignored,
}

/// The keys this module navigates with.
pub open spec fn nav_key(key: KeyCode) -> bool {
    ||| key == KeyCode::Char('j')
    ||| key == KeyCode::Char('k')
    ||| key == KeyCode::Char('g')
    ||| key == KeyCode::Char('G')
    ||| key == KeyCode::Char('n')
    ||| key is Up
    ||| key is Down
    ||| key is Home
    ||| key is End
    ||| key is PageUp
    ||| key is PageDown
}

/// Whether `key` is one this module navigates with.
pub fn is_nav_key(key: KeyCode) -> (b: bool)
    ensures
        b == nav_key(key),
{
    match key {
        KeyCode::Char(c) => c == 'j' || c == 'k' || c == 'g' || c == 'G' || c == 'n',
        KeyCode::Up
        | KeyCode::Down
        | KeyCode::Home
        | KeyCode::End
        | KeyCode::PageUp
        | KeyCode::PageDown => true,
        _ => false,
    }
}

/// `a - b`, stopping at zero.
pub open spec fn minus(a: int, b: int) -> int {
    if a >= b {
        a - b
    } else {
        0
    }
}

/// What a step down does at the end of the view.
pub open spec fn past_end(has_more: bool) -> ListNav {
    if has_more {
        ListNav::LoadMore
    } else {
        ListNav::Moved
    }
}

/// Where a key leaves the cursor and what the screen is told.
pub open spec fn navigated(
    key: KeyCode,
    selected: int,
    view_len: int,
    has_more: bool,
    page: int,
) -> (int, ListNav) {
    let step = if page < 1 {
        1
    } else {
        page
    };
    match key {
        KeyCode::PageUp => (minus(selected, step), ListNav::Moved),
        KeyCode::PageDown => if selected >= view_len - 1 {
            (selected, past_end(has_more))
        } else if selected + step < view_len {
            (selected + step, ListNav::Moved)
        } else {
            (view_len - 1, ListNav::Moved)
        },
        KeyCode::Down | KeyCode::Char('j') => if selected + 1 < view_len {
            (selected + 1, ListNav::Moved)
        } else {
            (selected, past_end(has_more))
        },
        KeyCode::Up | KeyCode::Char('k') => (minus(selected, 1), ListNav::Moved),
        KeyCode::Home | KeyCode::Char('g') => (0, ListNav::Moved),
        KeyCode::End | KeyCode::Char('G') => (minus(view_len, 1), ListNav::Moved),
        KeyCode::Char('n') => if has_more {
            (selected, ListNav::LoadMore)
        } else {
            (selected, ListNav::Ignored)
        },
        _ => (selected, ListNav::Ignored),
    }
}

/// Apply a navigation key to `selected` over a view of `view_len` items.
///
/// `has_more` is whether a next cursor page exists.
pub fn navigate(key: KeyCode, selected: &mut usize, view_len: usize, has_more: bool) -> (r: ListNav)
    ensures
        (*final(selected) as int, r) == navigated(
            key,
            *old(selected) as int,
            view_len as int,
            has_more,
            1,
        ),
{
    navigate_paged(key, selected, view_len, has_more, 1)
}

/// [`navigate`] with a real page size for PgUp and PgDn: how many whole items
/// the last render fitted on screen.
pub fn navigate_paged(
    key: KeyCode,
    selected: &mut usize,
    view_len: usize,
    has_more: bool,
    page: usize,
) -> (r: ListNav)
    ensures
        (*final(selected) as int, r) == navigated(
            key,
            *old(selected) as int,
            view_len as int,
            has_more,
            page as int,
        ),
{
    let step: usize = if page < 1 {
        1
    } else {
        page
    };
    match key {
        KeyCode::PageUp => {
            *selected = if *selected >= step {
                *selected - step
            } else {
                0
            };
            return ListNav::Moved;
        },
        KeyCode::PageDown => {
            if view_len == 0 || *selected >= view_len - 1 {
                // Already at the end: what is left is to load more.
                return if has_more {
                    ListNav::LoadMore
                } else {
                    ListNav::Moved
                };
            }
            let last: usize = view_len - 1;
            *selected = if step > last - *selected {
                last
            } else {
                *selected + step
            };
            return ListNav::Moved;
        },
        _ => {},
    }
    navigate_inner(key, selected, view_len, has_more)
}

fn navigate_inner(
    key: KeyCode,
    selected: &mut usize,
    view_len: usize,
    has_more: bool,
) -> (r: ListNav)
    requires
        !(key is PageUp),
        !(key is PageDown),
    ensures
        (*final(selected) as int, r) == navigated(
            key,
            *old(selected) as int,
            view_len as int,
            has_more,
            1,
        ),
{
    match key {
        KeyCode::Char('j') | KeyCode::Down => {
            if view_len > 0 && *selected < view_len - 1 {
                *selected = *selected + 1;
                ListNav::Moved
            } else if has_more {
                ListNav::LoadMore
            } else {
                ListNav::Moved
            }
        },
        KeyCode::Char('k') | KeyCode::Up => {
            if *selected > 0 {
                *selected = *selected - 1;
            }
            ListNav::Moved
        },
        KeyCode::Char('g') | KeyCode::Home => {
            *selected = 0;
            ListNav::Moved
        },
        KeyCode::Char('G') | KeyCode::End => {
            *selected = if view_len > 0 {
                view_len - 1
            } else {
                0
            };
            ListNav::Moved
        },
        // The explicit "next page of results" key.
        KeyCode::Char('n') => {
            if has_more {
                ListNav::LoadMore
            } else {
                ListNav::Ignored
            }
        },
        _ => ListNav::Ignored,
    }
}

// ---------------------------------------------------------------------------
// Laws.
// ---------------------------------------------------------------------------

/// A cursor inside the view stays inside it whatever key is pressed.
pub proof fn law_selection_stays_in_view(
    key: KeyCode,
    selected: int,
    view_len: int,
    has_more: bool,
    page: int,
)
    requires
        0 <= selected < view_len,
    ensures
        0 <= navigated(key, selected, view_len, has_more, page).0 < view_len,
{
}

/// Asking for more never also moves the cursor, and happens only when there is
/// more.
pub proof fn law_load_more_leaves_the_cursor(
    key: KeyCode,
    selected: int,
    view_len: int,
    has_more: bool,
    page: int,
)
    ensures
        navigated(key, selected, view_len, has_more, page).1 == ListNav::LoadMore ==> has_more
            && navigated(key, selected, view_len, has_more, page).0 == selected,
{
}

/// A key that is ignored is no navigation key, or is the next-page key with no
/// next page; and it leaves the cursor alone.
pub proof fn law_ignored_keys_are_not_nav_keys(
    key: KeyCode,
    selected: int,
    view_len: int,
    has_more: bool,
    page: int,
)
    ensures
        navigated(key, selected, view_len, has_more, page).1 == ListNav::Ignored <==> (!nav_key(key)
            || (key == KeyCode::Char('n') && !has_more)),
        navigated(key, selected, view_len, has_more, page).1 == ListNav::Ignored ==> navigated(
            key,
            selected,
            view_len,
            has_more,
            page,
        ).0 == selected,
{
}

/// A step down goes to the next item and a step up to the one before, as long as
/// there is one, so the one undoes the other; the letters do what the arrows do.
pub proof fn law_steps_go_to_the_neighbor(
    selected: int,
    view_len: int,
    has_more: bool,
    page: int,
)
    requires
        0 <= selected < view_len,
    ensures
        selected < view_len - 1 ==> navigated(
            KeyCode::Down,
            selected,
            view_len,
            has_more,
            page,
        ) == (selected + 1, ListNav::Moved),
        selected > 0 ==> navigated(KeyCode::Up, selected, view_len, has_more, page) == (
            selected - 1,
            ListNav::Moved,
        ),
        selected == 0 ==> navigated(KeyCode::Up, selected, view_len, has_more, page) == (
            0int,
            ListNav::Moved,
        ),
        selected == view_len - 1 ==> navigated(
            KeyCode::Down,
            selected,
            view_len,
            has_more,
            page,
        ) == (
            selected,
            if has_more {
                ListNav::LoadMore
            } else {
                ListNav::Moved
            },
        ),
        navigated(KeyCode::Char('j'), selected, view_len, has_more, page) == navigated(
            KeyCode::Down,
            selected,
            view_len,
            has_more,
            page,
        ),
        navigated(KeyCode::Char('k'), selected, view_len, has_more, page) == navigated(
            KeyCode::Up,
            selected,
            view_len,
            has_more,
            page,
        ),
{
}

/// The keys for the ends go to the first and to the last item.
pub proof fn law_ends_are_reached(selected: int, view_len: int, has_more: bool, page: int)
    requires
        view_len > 0,
    ensures
        navigated(KeyCode::Home, selected, view_len, has_more, page) == (0int, ListNav::Moved),
        navigated(KeyCode::Char('g'), selected, view_len, has_more, page) == (
            0int,
            ListNav::Moved,
        ),
        navigated(KeyCode::End, selected, view_len, has_more, page) == (
            view_len - 1,
            ListNav::Moved,
        ),
        navigated(KeyCode::Char('G'), selected, view_len, has_more, page) == (
            view_len - 1,
            ListNav::Moved,
        ),
{
}

/// A page is as many single steps as it has items: paging never goes further than
/// stepping would, and as far as it can; from the last item it asks for more.
pub proof fn law_a_page_is_that_many_steps(
    selected: int,
    view_len: int,
    has_more: bool,
    page: int,
)
    requires
        0 <= selected < view_len,
        page >= 1,
    ensures
        ({
            let down = navigated(KeyCode::PageDown, selected, view_len, has_more, page);
            let up = navigated(KeyCode::PageUp, selected, view_len, has_more, page);
            &&& selected + page < view_len ==> down == (selected + page, ListNav::Moved)
            &&& selected + page >= view_len && selected < view_len - 1 ==> down == (
                view_len - 1,
                ListNav::Moved,
            )
            &&& selected == view_len - 1 ==> down == (
                selected,
                if has_more {
                    ListNav::LoadMore
                } else {
                    ListNav::Moved
                },
            )
            &&& selected >= page ==> up == (selected - page, ListNav::Moved)
            &&& selected < page ==> up == (0int, ListNav::Moved)
        }),
        navigated(KeyCode::Char('n'), selected, view_len, true, page) == (
            selected,
            ListNav::LoadMore,
        ),
{
}

/// On an empty view nothing moves, and a step down asks for more where there is.
pub proof fn law_empty_views_stay(key: KeyCode, has_more: bool, page: int)
    ensures
        navigated(key, 0, 0, has_more, page).0 == 0,
        navigated(KeyCode::Down, 0, 0, true, page).1 == ListNav::LoadMore,
        navigated(KeyCode::PageDown, 0, 0, true, page).1 == ListNav::LoadMore,
{
}

} // verus!
