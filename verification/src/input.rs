//! Shared single-line text input.
//!
//! A value longer than its field is seen through a window that slides so that
//! the caret is always in view. Positions count characters.
use vstd::prelude::*;

use crate::draw::{self, push_span, Line, Span};
use crate::strs::{chars_of, string_of_range};
use crate::theme::{Style, Theme};

verus! {

/// Where the window starts for a caret at `cur` in a field `w` wide.
pub open spec fn window_offset(cur: int, w: int) -> int {
    if cur < w {
        0
    } else {
        cur - w + 1
    }
}

/// The block caret: body text reversed.
pub open spec fn caret_style(theme: Theme) -> Style {
    Style { reversed: true, ..theme.base_spec() }
}

/// A value with the caret at character `cursor`, seen through a field `width`
/// wide.
pub open spec fn windowed(text: Seq<char>, cursor: int, width: int, theme: Theme) -> Seq<
    draw::SpanView,
> {
    let w = if width < 1 {
        1
    } else {
        width
    };
    let cur = draw::least(cursor, text.len() as int);
    let offset = window_offset(cur, w);
    let end = draw::least(offset + w, text.len() as int);
    let before = draw::one(text.subrange(offset, cur), theme.base_spec());
    if cur < end {
        let caret = before + draw::one(seq![text[cur]], caret_style(theme));
        if cur + 1 < end {
            caret + draw::one(text.subrange(cur + 1, end), theme.base_spec())
        } else {
            caret
        }
    } else {
        before + draw::one(" "@, caret_style(theme))
    }
}

/// Render a focused input value, windowed to `width` cells so the caret at
/// character `cursor` stays in view, with a reverse-video block caret.
pub fn windowed_line(text: &str, cursor: usize, width: usize, theme: &Theme) -> (r: Line)
    ensures
        r@ == windowed(text@, cursor as int, width as int, *theme),
{
    let chars = chars_of(text);
    let n: usize = chars.len();
    let w: usize = if width < 1 {
        1
    } else {
        width
    };
    let cur: usize = if cursor < n {
        cursor
    } else {
        n
    };
    let offset: usize = if cur < w {
        0
    } else {
        cur - w + 1
    };
    let end: usize = if w > n - offset {
        n
    } else {
        offset + w
    };
    let mut caret = theme.base();
    caret.reversed = true;
    let mut spans: Vec<Span> = Vec::new();
    push_span(&mut spans, Span::new(string_of_range(&chars, offset, cur), theme.base()));
    if cur < end {
        let mut under = String::new();
        under.push(chars[cur]);
        assert(under@ =~= seq![chars@[cur as int]]);
        push_span(&mut spans, Span::new(under, caret));
        if cur + 1 < end {
            push_span(
                &mut spans,
                Span::new(string_of_range(&chars, cur + 1, end), theme.base()),
            );
        }
    } else {
        // The caret sits just past the last character.
        push_span(&mut spans, Span::of(" ", caret));
    }
    let line = Line::new(spans);
    assert(line@ =~= windowed(text@, cursor as int, width as int, *theme));
    line
}

/// A pasted text with each line ending turned into one space, read from
/// position `i` on.
pub open spec fn collapsed_from(s: Seq<char>, i: int) -> Seq<char>
    decreases s.len() - i,
{
    if i < 0 || i >= s.len() {
        Seq::empty()
    } else if s[i] == '\r' && i + 1 < s.len() && s[i + 1] == '\n' {
        seq![' '] + collapsed_from(s, i + 2)
    } else if s[i] == '\r' || s[i] == '\n' {
        seq![' '] + collapsed_from(s, i + 1)
    } else {
        seq![s[i]] + collapsed_from(s, i + 1)
    }
}

/// A text on one line: each line ending becomes one space.
pub fn collapse_newlines(text: &str) -> (r: String)
    ensures
        r@ == collapsed_from(text@, 0),
{
    let v = chars_of(text);
    let mut r = String::new();
    let mut i: usize = 0;
    let ghost all = collapsed_from(v@, 0);
    assert(r@ + all =~= all);
    while i < v.len()
        invariant
            i <= v@.len(),
            all == r@ + collapsed_from(v@, i as int),
        decreases v@.len() - i,
    {
        let ghost before = r@;
        if v[i] == '\r' && i + 1 < v.len() && v[i + 1] == '\n' {
            r.push(' ');
            assert(r@ =~= before + seq![' ']);
            assert(all =~= r@ + collapsed_from(v@, i + 2));
            i = i + 2;
        } else if v[i] == '\r' || v[i] == '\n' {
            r.push(' ');
            assert(r@ =~= before + seq![' ']);
            assert(all =~= r@ + collapsed_from(v@, i + 1));
            i = i + 1;
        } else {
            r.push(v[i]);
            assert(r@ =~= before + seq![v@[i as int]]);
            assert(all =~= r@ + collapsed_from(v@, i + 1));
            i = i + 1;
        }
    }
    assert(all =~= r@);
    r
}

// ---------------------------------------------------------------------------
// Laws.
// ---------------------------------------------------------------------------

/// The characters a line of runs holds.
pub open spec fn cells(l: Seq<draw::SpanView>) -> int
    decreases l.len(),
{
    if l.len() == 0 {
        0
    } else {
        cells(l.drop_last()) + l.last().content.len()
    }
}

/// The window never shows more characters than the field is wide, and the caret
/// is always inside it.
pub proof fn law_caret_stays_in_view(text: Seq<char>, cursor: int, width: int, theme: Theme)
    requires
        0 <= cursor,
        1 <= width,
    ensures
        ({
            let l = windowed(text, cursor, width, theme);
            &&& 2 <= l.len() <= 3
            &&& l[1].style == caret_style(theme)
            &&& l[1].content.len() == 1
            &&& l[0].content.len() < width
            &&& cells(l) <= width
        }),
{
    reveal_strlit(" ");
    let l = windowed(text, cursor, width, theme);
    reveal_with_fuel(cells, 4);
    if l.len() == 3 {
        assert(l.drop_last().drop_last().drop_last() =~= Seq::empty());
        assert(l.drop_last().drop_last().last() == l[0]);
        assert(l.drop_last().last() == l[1]);
    } else {
        assert(l.drop_last().drop_last() =~= Seq::empty());
        assert(l.drop_last().last() == l[0]);
    }
}

proof fn lemma_collapsed_has_no_newline(s: Seq<char>, i: int)
    ensures
        forall|k: int|
            0 <= k < collapsed_from(s, i).len() ==> {
                &&& #[trigger] collapsed_from(s, i)[k] != '\n'
                &&& collapsed_from(s, i)[k] != '\r'
            },
    decreases s.len() - i,
{
    if 0 <= i < s.len() {
        if s[i] == '\r' && i + 1 < s.len() && s[i + 1] == '\n' {
            lemma_collapsed_has_no_newline(s, i + 2);
            let rest = collapsed_from(s, i + 2);
            assert(forall|k: int|
                0 < k < collapsed_from(s, i).len() ==> #[trigger] collapsed_from(s, i)[k] == rest[k
                    - 1]);
        } else {
            lemma_collapsed_has_no_newline(s, i + 1);
            let rest = collapsed_from(s, i + 1);
            assert(forall|k: int|
                0 < k < collapsed_from(s, i).len() ==> #[trigger] collapsed_from(s, i)[k] == rest[k
                    - 1]);
        }
    }
}

/// A pasted text never brings a line ending into a field, so it cannot submit
/// one.
pub proof fn law_collapsed_text_is_one_line(s: Seq<char>, k: int)
    requires
        0 <= k < collapsed_from(s, 0).len(),
    ensures
        collapsed_from(s, 0)[k] != '\n',
        collapsed_from(s, 0)[k] != '\r',
{
    lemma_collapsed_has_no_newline(s, 0);
}

/// The caret stands on the character it is at, or on a blank behind the last one;
/// what is shown around it is what stands around it in the text, and the window
/// leaves out nothing that there is room for.
pub proof fn law_window_shows_the_text_around_the_caret(
    text: Seq<char>,
    cursor: int,
    width: int,
    theme: Theme,
)
    requires
        0 <= cursor,
        1 <= width,
    ensures
        ({
            let l = windowed(text, cursor, width, theme);
            let at = if cursor < text.len() {
                cursor
            } else {
                text.len() as int
            };
            let n = l[0].content.len() as int;
            &&& l[1].content == (if at < text.len() {
                seq![text[at]]
            } else {
                seq![' ']
            })
            &&& l[1].style.reversed
            &&& !l[0].style.reversed
            &&& n <= at
            &&& l[0].content == text.subrange(at - n, at)
            &&& n == at || n == width - 1
            &&& l.len() == 3 ==> {
                &&& !l[2].style.reversed
                &&& l[2].content == text.subrange(at + 1, at + 1 + l[2].content.len())
                &&& at + 1 + l[2].content.len() == text.len() || n + 1 + l[2].content.len() == width
            }
            &&& l.len() == 2 ==> at + 1 >= text.len() || n + 1 == width
        }),
{
    reveal_strlit(" ");
    assert(" "@ =~= seq![' ']);
}

proof fn lemma_collapsed_of_rest(a: Seq<char>, b: Seq<char>, j: int)
    requires
        0 <= j <= b.len(),
    ensures
        collapsed_from(a + b, a.len() + j) == collapsed_from(b, j),
    decreases b.len() - j,
{
    if j < b.len() {
        assert((a + b)[a.len() + j] == b[j]);
        lemma_collapsed_of_rest(a, b, j + 1);
        if j + 1 < b.len() {
            assert((a + b)[a.len() + j + 1] == b[j + 1]);
            lemma_collapsed_of_rest(a, b, j + 2);
        }
    }
}

proof fn lemma_collapsed_parts(a: Seq<char>, b: Seq<char>, i: int)
    requires
        0 <= i <= a.len(),
        a.len() > 0 && b.len() > 0 ==> !(a.last() == '\r' && b[0] == '\n'),
    ensures
        collapsed_from(a + b, i) == collapsed_from(a, i) + collapsed_from(b, 0),
    decreases a.len() - i,
{
    let s = a + b;
    let end = collapsed_from(b, 0);
    if i < a.len() {
        assert(s[i] == a[i]);
        if i + 1 < s.len() {
            assert(s[i + 1] == (if i + 1 < a.len() {
                a[i + 1]
            } else {
                b[0]
            }));
        }
        lemma_collapsed_parts(a, b, i + 1);
        assert(seq![' '] + (collapsed_from(a, i + 1) + end) =~= seq![' '] + collapsed_from(a, i + 1)
            + end);
        assert(seq![s[i]] + (collapsed_from(a, i + 1) + end) =~= seq![s[i]] + collapsed_from(
            a,
            i + 1,
        ) + end);
        if i + 1 < a.len() {
            lemma_collapsed_parts(a, b, i + 2);
            assert(seq![' '] + (collapsed_from(a, i + 2) + end) =~= seq![' '] + collapsed_from(
                a,
                i + 2,
            ) + end);
        }
    } else {
        lemma_collapsed_of_rest(a, b, 0);
        assert(Seq::<char>::empty() + end =~= end);
    }
}

/// A text is put on one line part by part; a line ending, of one character or of
/// two, becomes one space, and every other character stays.
pub proof fn law_line_endings_become_spaces(a: Seq<char>, b: Seq<char>, c: char)
    requires
        a.len() > 0 && b.len() > 0 ==> !(a.last() == '\r' && b[0] == '\n'),
    ensures
        collapsed_from(a + b, 0) == collapsed_from(a, 0) + collapsed_from(b, 0),
        collapsed_from(seq!['\r', '\n'], 0) == seq![' '],
        collapsed_from(seq![c], 0) == (if c == '\n' || c == '\r' {
            seq![' ']
        } else {
            seq![c]
        }),
        collapsed_from(Seq::empty(), 0) == Seq::<char>::empty(),
{
    lemma_collapsed_parts(a, b, 0);
    reveal_with_fuel(collapsed_from, 3);
    assert(seq![' '] + Seq::<char>::empty() =~= seq![' ']);
    assert(seq![c] + Seq::<char>::empty() =~= seq![c]);
}

} // verus!
