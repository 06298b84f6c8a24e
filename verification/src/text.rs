//! Display-width-aware text truncation, shared by the list previews.
//!
//! Cutting by character count misplaces the cut for wide glyphs, so these
//! helpers budget by *display width* instead.
use vstd::prelude::*;

use crate::model::Moment;
use crate::strs::{self, chars_of, string_of_range, trim};

verus! {

/// The columns of a character that is neither a control character, nor
/// [`narrow`], nor one of the combining marks U+0300 to U+036F.
pub uninterp spec fn other_width(c: char) -> u8;

/// A printable ASCII character, or one of the signs that the screens put in
/// themselves: the ellipsis, the shade block and the quotation bar.
pub open spec fn narrow(c: char) -> bool {
    (0x20 <= c as int && (c as int) < 0x7f) || c == '…' || c == '▒' || c == '│'
}

/// One of the combining diacritical marks.
pub open spec fn combining(c: char) -> bool {
    0x300 <= c as int && c as int <= 0x36f
}

/// The columns a character takes; `None` for a control character.
pub open spec fn char_width(c: char) -> Option<usize> {
    if strs::control_char(c) {
        None
    } else if narrow(c) {
        Some(1usize)
    } else if combining(c) {
        Some(0usize)
    } else {
        Some(other_width(c) as usize)
    }
}

/// `unicode_width::UnicodeWidthChar::width`: a control character has no width,
/// printable ASCII and `…`, `▒` and `│`, which are ambiguous and so taken as
/// narrow, take one column, the combining marks U+0300 to U+036F take none, and
/// the width of another character depends on it alone, fits in a byte and is
/// named [`other_width`].
#[verifier::external_body]
pub(crate) fn width_of_char(c: char) -> (r: Option<usize>)
    ensures
        strs::control_char(c) ==> r is None,
        narrow(c) ==> r == Some(1usize),
        combining(c) ==> r == Some(0usize),
        !strs::control_char(c) && !narrow(c) && !combining(c) ==> r == Some(
            other_width(c) as usize,
        ),
{
    unicode_width::UnicodeWidthChar::width(c)
}

/// The columns of a text with a character in it that is not [`narrow`].
pub uninterp spec fn other_text_width(s: Seq<char>) -> usize;

/// Whether a text is made of narrow characters only.
pub open spec fn plain(s: Seq<char>) -> bool {
    forall|i: int| 0 <= i < s.len() ==> narrow(#[trigger] s[i])
}

/// The columns a text takes as a whole.
pub open spec fn str_width(s: Seq<char>) -> int {
    if plain(s) {
        s.len() as int
    } else {
        other_text_width(s) as int
    }
}

/// `unicode_width::UnicodeWidthStr::width`: in a text of narrow characters each
/// takes one column; the width of a text with anything else in it depends on the
/// text alone and is named [`other_text_width`].
#[verifier::external_body]
pub(crate) fn width_of_str(s: &str) -> (r: usize)
    ensures
        plain(s@) ==> r == s@.len(),
        !plain(s@) ==> r == other_text_width(s@),
{
    unicode_width::UnicodeWidthStr::width(s)
}

/// The columns a character takes, none for a control character.
pub open spec fn columns(c: char) -> int {
    match char_width(c) {
        Some(w) => w as int,
        None => 0,
    }
}

/// The columns a character takes, none for a control character.
pub fn columns_of(c: char) -> (r: usize)
    ensures
        r == columns(c),
{
    match width_of_char(c) {
        Some(w) => w,
        None => 0,
    }
}

/// The columns that characters take one by one.
pub open spec fn columns_sum(s: Seq<char>) -> int
    decreases s.len(),
{
    if s.len() == 0 {
        0
    } else {
        columns_sum(s.drop_last()) + columns(s.last())
    }
}

/// How many characters fit in `budget` columns when the first `i` of them have
/// taken `used`.
pub open spec fn fitting(s: Seq<char>, i: int, used: int, budget: int) -> int
    decreases s.len() - i,
{
    if 0 <= i < s.len() && used + columns(s[i]) <= budget {
        fitting(s, i + 1, used + columns(s[i]), budget)
    } else {
        i
    }
}

/// How many of the first `n` characters are kept beside the `…` that marks a cut:
/// as many as leave the whole within `max` columns.
pub open spec fn kept(s: Seq<char>, n: int, max: int) -> int
    decreases n,
{
    if n <= 0 {
        0
    } else if str_width(s.take(n).push('…')) <= max {
        n
    } else {
        kept(s, n - 1, max)
    }
}

/// The text cut to `max` columns: whole when it fits, else as many characters
/// as fit beside the `…` that marks the cut, counted one by one and as a whole.
pub open spec fn truncated(s: Seq<char>, max: int) -> Seq<char> {
    if str_width(s) <= max {
        s
    } else if max == 0 {
        Seq::empty()
    } else {
        s.take(kept(s, fitting(s, 0, 0, max - 1), max)).push('…')
    }
}

/// Truncate `s` to at most `max` display columns, appending `…` when it is
/// cut. A `max` of 0 leaves no room even for the ellipsis.
pub fn truncate_to_width(s: &str, max: usize) -> (r: String)
    ensures
        r@ == truncated(s@, max as int),
        str_width(r@) <= max,
{
    if width_of_str(s) <= max {
        return s.to_owned();
    }
    if max == 0 {
        return String::new();
    }
    let budget: usize = max - 1;
    let v = chars_of(s);
    let mut width: usize = 0;
    let mut i: usize = 0;
    while i < v.len()
        invariant_except_break
            i <= v@.len(),
            width <= budget,
            fitting(v@, i as int, width as int, budget as int) == fitting(
                v@,
                0,
                0,
                budget as int,
            ),
        ensures
            i <= v@.len(),
            i == fitting(v@, 0, 0, budget as int),
        decreases v@.len() - i,
    {
        let cw: usize = columns_of(v[i]);
        if cw > budget - width {
            break ;
        }
        width = width + cw;
        i = i + 1;
    }
    proof {
        law_truncation_keeps_the_budget(s@, max as int);
    }
    // What the characters take together may be more than they take one by one.
    while i > 0
        invariant
            i <= v@.len(),
            v@ == s@,
            kept(s@, i as int, max as int) == kept(
                s@,
                fitting(s@, 0, 0, max - 1),
                max as int,
            ),
            str_width(s@) > max,
            max > 0,
            str_width(truncated(s@, max as int)) <= max,
        decreases i,
    {
        let out = marked(&v, i);
        assert(v@.take(i as int).push('…') =~= s@.take(i as int).push('…'));
        if width_of_str(out.as_str()) <= max {
            return out;
        }
        i = i - 1;
    }
    marked(&v, 0)
}

/// The first `n` characters and the mark of a cut.
fn marked(v: &Vec<char>, n: usize) -> (r: String)
    requires
        n <= v@.len(),
    ensures
        r@ == v@.take(n as int).push('…'),
{
    let mut out = string_of_range(v, 0, n);
    assert(v@.subrange(0, n as int) =~= v@.take(n as int));
    out.push('…');
    out
}

/// The first line of a text, without its line ending.
pub open spec fn first_line(s: Seq<char>) -> Seq<char> {
    let k = line_end(s, 0);
    if k < s.len() && k > 0 && s[k - 1] == '\r' {
        s.take(k - 1)
    } else {
        s.take(k)
    }
}

/// The position of the first line feed at or after `i`, or the end.
pub open spec fn line_end(s: Seq<char>, i: int) -> int
    decreases s.len() - i,
{
    if 0 <= i < s.len() && s[i] != '\n' {
        line_end(s, i + 1)
    } else {
        i
    }
}

/// The position of the first line feed at or after `from`, or the end.
pub fn find_line_end(v: &Vec<char>, from: usize) -> (k: usize)
    requires
        from <= v@.len(),
    ensures
        k == line_end(v@, from as int),
        from <= k <= v@.len(),
        k < v@.len() ==> v@[k as int] == '\n',
        forall|j: int| from <= j < k ==> v@[j] != '\n',
{
    let mut k: usize = from;
    while k < v.len() && v[k] != '\n'
        invariant
            from <= k <= v@.len(),
            line_end(v@, k as int) == line_end(v@, from as int),
            forall|j: int| from <= j < k ==> v@[j] != '\n',
        decreases v@.len() - k,
    {
        k = k + 1;
    }
    k
}

/// The first line of `s`, without its line ending.
pub fn first_line_of(s: &str) -> (r: String)
    ensures
        r@ == first_line(s@),
{
    let v = chars_of(s);
    let k: usize = find_line_end(&v, 0);
    let end: usize = if k < v.len() && k > 0 && v[k - 1] == '\r' {
        k - 1
    } else {
        k
    };
    assert(v@.subrange(0, end as int) =~= s@.take(end as int));
    string_of_range(&v, 0, end)
}

/// The line from `i` up to the line feed or end at `k`, without its line
/// ending.
pub open spec fn line_content(s: Seq<char>, i: int, k: int) -> Seq<char> {
    if k < s.len() && k > i && s[k - 1] == '\r' {
        s.subrange(i, k - 1)
    } else {
        s.subrange(i, k)
    }
}

/// The lines of a text from `i` on, without their line endings. A line ending at
/// the very end starts no further line.
pub open spec fn lines_from(s: Seq<char>, i: int) -> Seq<Seq<char>>
    decreases s.len() - i,
{
    if i < 0 || i >= s.len() {
        Seq::empty()
    } else {
        let k = line_end(s, i);
        if i <= k < s.len() {
            seq![line_content(s, i, k)] + lines_from(s, k + 1)
        } else {
            seq![line_content(s, i, k)]
        }
    }
}

/// The lines of `s`, without their line endings.
pub fn lines(s: &str) -> (r: Vec<String>)
    ensures
        strs::texts(r@) == lines_from(s@, 0),
{
    let v = chars_of(s);
    let mut r: Vec<String> = Vec::new();
    let mut i: usize = 0;
    assert(strs::texts(r@) + lines_from(s@, 0) =~= lines_from(s@, 0));
    while i < v.len()
        invariant
            i <= v@.len(),
            v@ == s@,
            strs::texts(r@) + lines_from(s@, i as int) == lines_from(s@, 0),
        decreases v@.len() - i,
    {
        let k: usize = find_line_end(&v, i);
        let end: usize = if k < v.len() && k > i && v[k - 1] == '\r' {
            k - 1
        } else {
            k
        };
        let ghost before = strs::texts(r@);
        let line = string_of_range(&v, i, end);
        assert(line@ == line_content(s@, i as int, k as int));
        r.push(line);
        assert(strs::texts(r@) =~= before.push(line@));
        let ghost rest = if k < v@.len() {
            lines_from(s@, k + 1)
        } else {
            Seq::empty()
        };
        assert(lines_from(s@, i as int) =~= seq![line@] + rest);
        assert(before.push(line@) + rest =~= before + (seq![line@] + rest));
        if k < v.len() {
            i = k + 1;
        } else {
            i = k;
        }
    }
    assert(lines_from(s@, i as int) =~= Seq::empty());
    assert(strs::texts(r@) + lines_from(s@, i as int) =~= strs::texts(r@));
    r
}

/// The first line of `s`, trimmed and cut to `max` columns.
pub fn first_line_truncated(s: &str, max: usize) -> (r: String)
    ensures
        r@ == truncated(strs::trimmed(first_line(s@)), max as int),
{
    truncate_to_width(trim(first_line_of(s).as_str()).as_str(), max)
}

/// The marker of an item whose author has revised it.
pub open spec fn edited_text(edited_at: Option<Moment>) -> Seq<char> {
    if edited_at is Some {
        " · (edited)"@
    } else {
        ""@
    }
}

/// The trailing marker for an entry or reply whose author has revised it, or
/// `""` when it is untouched.
pub fn edited_marker(edited_at: Option<Moment>) -> (r: &'static str)
    ensures
        r@ == edited_text(edited_at),
{
    if edited_at.is_some() {
        " · (edited)"
    } else {
        ""
    }
}

// ---------------------------------------------------------------------------
// Laws.
// ---------------------------------------------------------------------------

proof fn lemma_fitting_bounds(s: Seq<char>, i: int, budget: int)
    requires
        0 <= i <= s.len(),
        columns_sum(s.take(i)) <= budget,
    ensures
        i <= fitting(s, i, columns_sum(s.take(i)), budget) <= s.len(),
        columns_sum(s.take(fitting(s, i, columns_sum(s.take(i)), budget))) <= budget,
    decreases s.len() - i,
{
    let used = columns_sum(s.take(i));
    if i < s.len() && used + columns(s[i]) <= budget {
        assert(s.take(i + 1).drop_last() =~= s.take(i));
        lemma_fitting_bounds(s, i + 1, budget);
    }
}

proof fn lemma_fitting_is_longest(s: Seq<char>, i: int, budget: int, m: int)
    requires
        0 <= i <= s.len(),
        columns_sum(s.take(i)) <= budget,
        fitting(s, i, columns_sum(s.take(i)), budget) < m <= s.len(),
    ensures
        columns_sum(s.take(m)) > budget,
    decreases s.len() - i,
{
    let used = columns_sum(s.take(i));
    if i < s.len() && used + columns(s[i]) <= budget {
        assert(s.take(i + 1).drop_last() =~= s.take(i));
        lemma_fitting_is_longest(s, i + 1, budget, m);
    } else {
        assert(s.take(i + 1).drop_last() =~= s.take(i));
        lemma_columns_sum_grows(s, i + 1, m);
    }
}

proof fn lemma_columns_sum_grows(s: Seq<char>, a: int, b: int)
    requires
        0 <= a <= b <= s.len(),
    ensures
        columns_sum(s.take(a)) <= columns_sum(s.take(b)),
    decreases b,
{
    if a < b {
        assert(s.take(b).drop_last() =~= s.take(b - 1));
        lemma_columns_sum_grows(s, a, b - 1);
    }
}

proof fn lemma_kept(s: Seq<char>, n: int, max: int)
    requires
        0 <= n <= s.len(),
        max > 0,
    ensures
        0 <= kept(s, n, max) <= n,
        str_width(s.take(kept(s, n, max)).push('…')) <= max,
        forall|m: int|
            kept(s, n, max) < m <= n ==> #[trigger] str_width(s.take(m).push('…')) > max,
    decreases n,
{
    if n <= 0 {
        assert(s.take(0).push('…') =~= seq!['…']);
        assert(plain(s.take(0).push('…')));
    } else if str_width(s.take(n).push('…')) > max {
        lemma_kept(s, n - 1, max);
    }
}

/// A cut text is no wider than asked, marks the cut in its last column, and
/// keeps a beginning of the whole, at most `max - 1` columns of it one by one.
pub proof fn law_truncation_keeps_the_budget(s: Seq<char>, max: int)
    requires
        max > 0,
        str_width(s) > max,
    ensures
        str_width(truncated(s, max)) <= max,
        truncated(s, max).last() == '…',
        strs::starts_with(s, truncated(s, max).drop_last()),
        columns_sum(truncated(s, max).drop_last()) <= max - 1,
{
    assert(s.take(0) =~= Seq::<char>::empty());
    lemma_fitting_bounds(s, 0, max - 1);
    let n = fitting(s, 0, 0, max - 1);
    lemma_kept(s, n, max);
    lemma_columns_sum_grows(s, kept(s, n, max), n);
    assert(truncated(s, max).drop_last() =~= s.take(kept(s, n, max)));
}

/// What a cut keeps is the longest beginning that fits: one more character takes
/// more columns than there are, by itself or beside the `…`.
pub proof fn law_truncation_keeps_the_longest(s: Seq<char>, max: int, m: int)
    requires
        max > 0,
        str_width(s) > max,
        truncated(s, max).len() <= m <= s.len(),
    ensures
        columns_sum(s.take(m)) > max - 1 || str_width(s.take(m).push('…')) > max,
{
    assert(s.take(0) =~= Seq::<char>::empty());
    lemma_fitting_bounds(s, 0, max - 1);
    let n = fitting(s, 0, 0, max - 1);
    lemma_kept(s, n, max);
    if m > n {
        lemma_fitting_is_longest(s, 0, max - 1, m);
    }
}

/// A plain text is cut to exactly `max` columns.
pub proof fn law_plain_text_is_cut_by_length(s: Seq<char>, max: int)
    requires
        plain(s),
        0 < max < s.len(),
    ensures
        truncated(s, max) == s.take(max - 1).push('…'),
{
    assert(s.take(0) =~= Seq::<char>::empty());
    lemma_fitting_bounds(s, 0, max - 1);
    lemma_plain_columns(s, max - 1);
    lemma_plain_columns(s, fitting(s, 0, 0, max - 1));
    if fitting(s, 0, 0, max - 1) < max - 1 {
        lemma_fitting_is_longest(s, 0, max - 1, max - 1);
    }
    assert(plain(s.take(max - 1).push('…')));
}

pub proof fn lemma_plain_columns(s: Seq<char>, n: int)
    requires
        0 <= n <= s.len(),
        plain(s),
    ensures
        columns_sum(s.take(n)) == n,
    decreases n,
{
    if n > 0 {
        assert(s.take(n).drop_last() =~= s.take(n - 1));
        lemma_plain_columns(s, n - 1);
    } else {
        assert(s.take(0) =~= Seq::<char>::empty());
    }
}

/// A text that fits is left as it is.
pub proof fn law_fitting_text_is_unchanged(s: Seq<char>, max: int)
    requires
        str_width(s) <= max,
    ensures
        truncated(s, max) == s,
{
}

proof fn lemma_line_end(s: Seq<char>, i: int)
    requires
        0 <= i <= s.len(),
    ensures
        i <= line_end(s, i) <= s.len(),
        line_end(s, i) < s.len() ==> s[line_end(s, i)] == '\n',
        forall|k: int| i <= k < line_end(s, i) ==> #[trigger] s[k] != '\n',
    decreases s.len() - i,
{
    if i < s.len() && s[i] != '\n' {
        lemma_line_end(s, i + 1);
    }
}

proof fn lemma_line_end_is(s: Seq<char>, i: int, k: int)
    requires
        0 <= i <= k <= s.len(),
        forall|j: int| i <= j < k ==> #[trigger] s[j] != '\n',
        k < s.len() ==> s[k] == '\n',
    ensures
        line_end(s, i) == k,
    decreases k - i,
{
    if i < k {
        lemma_line_end_is(s, i + 1, k);
    }
}

/// The lines of a text do not hold a line feed.
pub proof fn law_lines_hold_no_line_feed(s: Seq<char>, i: int, k: int, j: int)
    requires
        0 <= i <= s.len(),
        0 <= k < lines_from(s, i).len(),
        0 <= j < lines_from(s, i)[k].len(),
    ensures
        lines_from(s, i)[k][j] != '\n',
    decreases s.len() - i,
{
    lemma_line_end(s, i);
    let e = line_end(s, i);
    if k == 0 {
        assert(lines_from(s, i)[0] == line_content(s, i, e));
        assert(s[i + j] != '\n');
    } else {
        assert(lines_from(s, i)[k] == lines_from(s, e + 1)[k - 1]);
        law_lines_hold_no_line_feed(s, e + 1, k - 1, j);
    }
}

/// A text that begins with a line and its line feed has that line first, without the
/// carriage return that may end it, and then the lines of the rest.
pub proof fn law_lines_are_read_in_order(line: Seq<char>, rest: Seq<char>)
    requires
        forall|k: int| 0 <= k < line.len() ==> #[trigger] line[k] != '\n',
        line.len() > 0 ==> line.last() != '\r',
    ensures
        lines_from(line + seq!['\n'] + rest, 0) == seq![line] + lines_from(rest, 0),
        lines_from(line + seq!['\r', '\n'] + rest, 0) == seq![line] + lines_from(rest, 0),
        line.len() > 0 ==> lines_from(line, 0) == seq![line],
        lines_from(Seq::<char>::empty(), 0).len() == 0,
        first_line(line + seq!['\n'] + rest) == line,
        first_line(line + seq!['\r', '\n'] + rest) == line,
        first_line(line) == line,
{
    let n = line.len() as int;
    let s = line + seq!['\n'] + rest;
    lemma_line_end_is(s, 0, n);
    assert(s.subrange(0, n) =~= line);
    assert(s.take(n) =~= line);
    assert(s.skip(n + 1) =~= rest);
    lemma_lines_of_tail(s, rest, n + 1, 0);
    assert(lines_from(s, 0) =~= seq![line] + lines_from(s, n + 1));
    let t = line + seq!['\r', '\n'] + rest;
    lemma_line_end_is(t, 0, n + 1);
    assert(t.subrange(0, n) =~= line);
    assert(t.take(n) =~= line);
    assert(t.skip(n + 2) =~= rest);
    lemma_lines_of_tail(t, rest, n + 2, 0);
    assert(lines_from(t, 0) =~= seq![line] + lines_from(t, n + 2));
    lemma_line_end_is(line, 0, n);
    assert(line.subrange(0, n) =~= line);
    assert(line.take(n) =~= line);
}

/// The lines from a place on are those of what stands there.
proof fn lemma_lines_of_tail(s: Seq<char>, rest: Seq<char>, at: int, i: int)
    requires
        0 <= at,
        s.len() == at + rest.len(),
        s.skip(at) == rest,
        0 <= i <= rest.len(),
    ensures
        lines_from(s, at + i) == lines_from(rest, i),
    decreases rest.len() - i,
{
    assert forall|k: int| 0 <= k < rest.len() implies s[at + k] == #[trigger] rest[k] by {
        assert(s.skip(at)[k] == rest[k]);
    }
    if i < rest.len() {
        lemma_line_end(rest, i);
        let k = line_end(rest, i);
        assert forall|j: int| at + i <= j < at + k implies #[trigger] s[j] != '\n' by {
            assert(rest[j - at] != '\n');
        }
        lemma_line_end_is(s, at + i, at + k);
        assert(line_content(s, at + i, at + k) =~= line_content(rest, i, k));
        if k < rest.len() {
            lemma_lines_of_tail(s, rest, at, k + 1);
        }
    }
}

/// Letters, digits and signs of ASCII take a column each, control characters and
/// combining marks none.
pub proof fn law_ascii_takes_a_column(c: char)
    ensures
        ' ' <= c <= '~' ==> columns(c) == 1,
        (c as int) < 32 ==> columns(c) == 0,
        0x300 <= c as int <= 0x36f ==> columns(c) == 0,
{
}

/// What was edited is marked, and nothing else.
pub proof fn law_only_edits_are_marked(edited_at: Option<Moment>)
    ensures
        edited_at is Some ==> edited_text(edited_at) == " · (edited)"@,
        edited_at is None ==> edited_text(edited_at).len() == 0,
{
    reveal_strlit("");
}

} // verus!
