//! OSC 8 terminal hyperlinks over a grid of cells.
//!
//! The entire `OSC 8 open · visible text · OSC 8 close` triple lives in a single
//! cell, and the cells it covers are marked to be skipped, so a redraw emits
//! the complete link or nothing of it.
use vstd::prelude::*;

use crate::draw::{self, Line, Rect};
use crate::strs::{
    self, begins, chars_of, is_control_char, string_of_range, to_ascii_lower_char, trim,
};
use crate::text::{self, columns_of, width_of_str};

verus! {

// ---------------------------------------------------------------------------
// The escape sequence.
// ---------------------------------------------------------------------------

/// The text without its control characters.
pub open spec fn without_controls(s: Seq<char>) -> Seq<char> {
    s.filter(|c: char| !strs::control_char(c))
}

/// Strip control characters from `s`, so that no escape sequence can be formed
/// from it.
pub fn strip_controls(s: &str) -> (r: String)
    ensures
        r@ == without_controls(s@),
{
    let v = chars_of(s);
    let mut r = String::new();
    let mut i: usize = 0;
    proof {
        reveal(Seq::filter);
        assert(v@.take(0) =~= Seq::<char>::empty());
    }
    while i < v.len()
        invariant
            i <= v@.len(),
            r@ == without_controls(v@.take(i as int)),
        decreases v@.len() - i,
    {
        proof {
            reveal(Seq::filter);
            assert(v@.take(i + 1).drop_last() =~= v@.take(i as int));
        }
        if !is_control_char(v[i]) {
            r.push(v[i]);
        }
        i = i + 1;
    }
    assert(v@.take(v@.len() as int) =~= v@);
    r
}

/// A hyperlink to `url` shown as `text`: open, text, close, with both stripped
/// of control characters.
pub open spec fn osc8_text(url: Seq<char>, text: Seq<char>) -> Seq<char> {
    "\u{1b}]8;;"@ + without_controls(url) + "\u{1b}\\"@ + without_controls(text)
        + "\u{1b}]8;;\u{1b}\\"@
}

/// Wrap `text` in an OSC 8 hyperlink to `url`.
pub fn osc8(url: &str, text: &str) -> (r: String)
    ensures
        r@ == osc8_text(url@, text@),
{
    let mut r = String::new();
    r.append("\u{1b}]8;;");
    r.append(strip_controls(url).as_str());
    r.append("\u{1b}\\");
    r.append(strip_controls(text).as_str());
    r.append("\u{1b}]8;;\u{1b}\\");
    assert(r@ =~= osc8_text(url@, text@));
    r
}

/// How many characters of `s` are control characters.
pub open spec fn control_count(s: Seq<char>) -> int
    decreases s.len(),
{
    if s.len() == 0 {
        0
    } else {
        control_count(s.drop_last()) + if strs::control_char(s.last()) {
            1int
        } else {
            0
        }
    }
}

proof fn lemma_control_count_concat(a: Seq<char>, b: Seq<char>)
    ensures
        control_count(a + b) == control_count(a) + control_count(b),
    decreases b.len(),
{
    if b.len() == 0 {
        assert(a + b =~= a);
    } else {
        assert((a + b).drop_last() =~= a + b.drop_last());
        lemma_control_count_concat(a, b.drop_last());
    }
}

proof fn lemma_stripped_has_no_controls(s: Seq<char>)
    ensures
        control_count(without_controls(s)) == 0,
        forall|i: int|
            0 <= i < without_controls(s).len() ==> !strs::control_char(#[trigger] without_controls(s)[i]),
    decreases s.len(),
{
    reveal(Seq::filter);
    if s.len() > 0 {
        lemma_stripped_has_no_controls(s.drop_last());
        let f = without_controls(s.drop_last());
        if !strs::control_char(s.last()) {
            assert(without_controls(s) =~= f.push(s.last()));
            assert(f.push(s.last()).drop_last() =~= f);
        } else {
            assert(without_controls(s) =~= f);
        }
    }
}

/// Whatever `url` and `text` hold, a hyperlink has exactly the four control
/// characters that the sequence itself is made of: neither can break out of it.
pub proof fn law_osc8_has_only_its_own_escapes(url: Seq<char>, text: Seq<char>)
    ensures
        control_count(osc8_text(url, text)) == 4,
        strs::starts_with(osc8_text(url, text), "\u{1b}]8;;"@ + without_controls(url) + "\u{1b}\\"@),
{
    let a = "\u{1b}]8;;"@;
    let b = without_controls(url);
    let c = "\u{1b}\\"@;
    let d = without_controls(text);
    let e = "\u{1b}]8;;\u{1b}\\"@;
    reveal_strlit("\u{1b}]8;;");
    reveal_strlit("\u{1b}\\");
    reveal_strlit("\u{1b}]8;;\u{1b}\\");
    lemma_control_count_concat(a, b);
    lemma_control_count_concat(a + b, c);
    lemma_control_count_concat(a + b + c, d);
    lemma_control_count_concat(a + b + c + d, e);
    lemma_stripped_has_no_controls(url);
    lemma_stripped_has_no_controls(text);
    assert(a =~= seq!['\u{1b}', ']', '8', ';', ';']);
    assert(c =~= seq!['\u{1b}', '\\']);
    assert(e =~= seq!['\u{1b}', ']', '8', ';', ';', '\u{1b}', '\\']);
    reveal_with_fuel(control_count, 8);
    assert(control_count(a) == 1);
    assert(control_count(c) == 1);
    assert(control_count(e) == 2);
    assert(osc8_text(url, text).take((a + b + c).len() as int) =~= a + b + c);
}

/// A text without control characters is its own stripped form, so a well-formed
/// link is carried unchanged.
pub proof fn law_clean_text_is_kept(s: Seq<char>)
    requires
        forall|i: int| 0 <= i < s.len() ==> !strs::control_char(#[trigger] s[i]),
    ensures
        without_controls(s) == s,
    decreases s.len(),
{
    reveal(Seq::filter);
    if s.len() > 0 {
        assert forall|i: int| 0 <= i < s.drop_last().len() implies !strs::control_char(
            #[trigger] s.drop_last()[i],
        ) by {
            assert(s.drop_last()[i] == s[i]);
        }
        law_clean_text_is_kept(s.drop_last());
        assert(!strs::control_char(s.last()));
        assert(without_controls(s) =~= s);
    }
}

// ---------------------------------------------------------------------------
// The grid.
// ---------------------------------------------------------------------------

/// One cell of the screen: the text it prints, and whether a redraw leaves it
/// alone.
#[derive(Debug, Clone)]
pub struct Cell {
    pub symbol: String,
    pub skip: bool,
}

/// What a [`Cell`] holds.
#[verifier::ext_equal]
pub struct CellView {
    pub symbol: Seq<char>,
    pub skip: bool,
}

impl View for Cell {
    type V = CellView;

    open spec fn view(&self) -> CellView {
        CellView { symbol: self.symbol@, skip: self.skip }
    }
}

/// An area of the screen and its cells, row by row.
#[derive(Debug)]
pub struct Grid {
    pub area: Rect,
    pub rows: Vec<Vec<Cell>>,
}

/// What a row of cells holds.
pub open spec fn row_view(row: Seq<Cell>) -> Seq<CellView> {
    Seq::new(row.len(), |i: int| row[i]@)
}

impl View for Grid {
    type V = Seq<Seq<CellView>>;

    open spec fn view(&self) -> Seq<Seq<CellView>> {
        Seq::new(self.rows@.len(), |i: int| row_view(self.rows@[i]@))
    }
}

impl Grid {
    /// Every row of the area is there in full, and the area ends where
    /// coordinates do.
    pub open spec fn wf(self) -> bool {
        &&& self.area.x + self.area.width <= u16::MAX
        &&& self.area.y + self.area.height <= u16::MAX
        &&& self.rows@.len() == self.area.height
        &&& forall|i: int|
            0 <= i < self.rows@.len() ==> (#[trigger] self.rows@[i])@.len() == self.area.width
    }
}

pub open spec fn is_blank(c: CellView) -> bool {
    c.symbol.len() == 0 || c.symbol == " "@
}

/// Where the run of filled cells that begins at `i` ends, at `limit` at the
/// latest.
pub open spec fn run_end(row: Seq<CellView>, i: int, limit: int) -> int
    decreases limit - i,
{
    if 0 <= i < limit && i < row.len() && !is_blank(row[i]) {
        run_end(row, i + 1, limit)
    } else {
        i
    }
}

/// The text that cells `from..to` print.
pub open spec fn run_text(row: Seq<CellView>, from: int, to: int) -> Seq<char>
    decreases to - from,
{
    if to <= from {
        Seq::empty()
    } else {
        run_text(row, from, to - 1) + row[to - 1].symbol
    }
}

pub open spec fn smaller(a: int, b: int) -> int {
    if a <= b {
        a
    } else {
        b
    }
}

/// How many columns of the run at (`x`, `y`) become a link to `url`: those of
/// the filled cells there, when they show the beginning of `url`, and else
/// none.
pub open spec fn linked_columns(
    area: Rect,
    grid: Seq<Seq<CellView>>,
    x: int,
    y: int,
    url: Seq<char>,
    max_cols: int,
) -> int {
    let target = strs::trimmed(url);
    if max_cols == 0 || target.len() == 0 || y < area.y || y >= area.y + area.height || x < area.x {
        0
    } else {
        let row = grid[y - area.y];
        let from = x - area.x;
        let to = run_end(row, from, smaller(area.width as int, from + max_cols));
        if to > from && strs::starts_with(target, run_text(row, from, to)) {
            to - from
        } else {
            0
        }
    }
}

/// A row in which cells `from..from + n` became one link to `url`: the first
/// carries it whole and the others are skipped.
pub open spec fn linked_row(row: Seq<CellView>, from: int, n: int, url: Seq<char>) -> Seq<CellView> {
    Seq::new(
        row.len(),
        |i: int|
            if i == from {
                CellView {
                    symbol: osc8_text(strs::trimmed(url), run_text(row, from, from + n)),
                    skip: row[i].skip,
                }
            } else if from < i < from + n {
                CellView { symbol: row[i].symbol, skip: true }
            } else {
                row[i]
            },
    )
}

/// The grid after the run at (`x`, `y`) was linked to `url`.
pub open spec fn linked(
    area: Rect,
    grid: Seq<Seq<CellView>>,
    x: int,
    y: int,
    url: Seq<char>,
    max_cols: int,
) -> Seq<Seq<CellView>> {
    let n = linked_columns(area, grid, x, y, url, max_cols);
    if n == 0 {
        grid
    } else {
        grid.update(y - area.y, linked_row(grid[y - area.y], x - area.x, n, url))
    }
}

/// Turn a horizontal run of already-painted cells into an OSC 8 hyperlink and
/// return how many columns were linked.
///
/// The glyphs on screen are collected up to the first blank cell, the row's
/// right edge, or `max_cols` columns. They must be a prefix of `url`; if they
/// are not, the run is left untouched.
pub fn linkify_run(buf: &mut Grid, x: u16, y: u16, url: &str, max_cols: u16) -> (n: u16)
    requires
        old(buf).wf(),
    ensures
        final(buf).wf(),
        final(buf).area == old(buf).area,
        n == linked_columns(old(buf).area, old(buf)@, x as int, y as int, url@, max_cols as int),
        final(buf)@ == linked(
            old(buf).area,
            old(buf)@,
            x as int,
            y as int,
            url@,
            max_cols as int,
        ),
{
    let area = buf.area;
    let target = trim(url);
    if max_cols == 0 || target.as_str().is_empty() || y < area.y || y >= area.y + area.height || x
        < area.x {
        return 0;
    }
    let r: usize = (y - area.y) as usize;
    let from: usize = (x - area.x) as usize;
    let width: usize = area.width as usize;
    let limit: usize = if (max_cols as usize) < width && from < width - max_cols as usize {
        from + max_cols as usize
    } else {
        width
    };
    let ghost row = buf@[r as int];
    assert(row == row_view(buf.rows@[r as int]@));
    assert(limit == smaller(area.width as int, from + max_cols));
    let mut text = String::new();
    let mut to: usize = from;
    while to < limit
        invariant_except_break
            from <= to,
            to <= limit || to == from,
            limit <= width,
            r < buf.rows@.len(),
            buf.rows@[r as int]@.len() == width,
            row == row_view(buf.rows@[r as int]@),
            text@ == run_text(row, from as int, to as int),
            run_end(row, to as int, limit as int) == run_end(row, from as int, limit as int),
        ensures
            from <= to,
            to <= limit || to == from,
            text@ == run_text(row, from as int, to as int),
            to == run_end(row, from as int, limit as int),
        decreases limit - to,
    {
        let symbol = buf.rows[r][to].symbol.clone();
        assert(row[to as int].symbol == symbol@);
        if symbol.as_str().is_empty() || strs::same(symbol.as_str(), " ") {
            break ;
        }
        text.append(symbol.as_str());
        to = to + 1;
    }
    if to == from || !begins(target.as_str(), text.as_str()) {
        return 0;
    }
    let sequence = osc8(target.as_str(), text.as_str());
    let ghost before = buf@;
    let ghost old_rows = buf.rows@;
    let mut cells: Vec<Cell> = Vec::new();
    let mut i: usize = 0;
    while i < width
        invariant
            i <= width,
            from < to <= width,
            r < buf.rows@.len(),
            buf.rows@ == old_rows,
            buf.area == area,
            buf.rows@[r as int]@.len() == width,
            row == row_view(buf.rows@[r as int]@),
            cells@.len() == i,
            sequence@ == osc8_text(strs::trimmed(url@), run_text(row, from as int, to as int)),
            forall|k: int|
                0 <= k < i ==> (#[trigger] cells@[k])@ == linked_row(
                    row,
                    from as int,
                    to - from,
                    url@,
                )[k],
        decreases width - i,
    {
        let symbol = if i == from {
            sequence.clone()
        } else {
            buf.rows[r][i].symbol.clone()
        };
        let skip = if from < i && i < to {
            true
        } else {
            buf.rows[r][i].skip
        };
        assert(row[i as int] == buf.rows@[r as int]@[i as int]@);
        cells.push(Cell { symbol, skip });
        i = i + 1;
    }
    assert(row_view(cells@) =~= linked_row(row, from as int, to - from, url@));
    buf.rows.set(r, cells);
    assert(buf@ =~= before.update(r as int, linked_row(row, from as int, to - from, url@)));
    (to - from) as u16
}

// ---------------------------------------------------------------------------
// Finding URLs.
// ---------------------------------------------------------------------------

/// Whether `scheme` stands at position `i`, letters in either case.
pub open spec fn scheme_occurs(chars: Seq<char>, i: int, scheme: Seq<char>) -> bool {
    &&& 0 <= i
    &&& i + scheme.len() <= chars.len()
    &&& forall|k: int|
        0 <= k < scheme.len() ==> strs::ascii_lower_char(#[trigger] chars[i + k]) == scheme[k]
}

/// The length of the scheme that begins at position `i`, if one does.
pub open spec fn scheme_len(chars: Seq<char>, i: int) -> Option<int> {
    if scheme_occurs(chars, i, "https://"@) {
        Some("https://"@.len() as int)
    } else if scheme_occurs(chars, i, "http://"@) {
        Some("http://"@.len() as int)
    } else if scheme_occurs(chars, i, "mailto:"@) {
        Some("mailto:"@.len() as int)
    } else if scheme_occurs(chars, i, "ftp://"@) {
        Some("ftp://"@.len() as int)
    } else {
        None
    }
}

fn scheme_here(chars: &Vec<char>, i: usize, scheme: &str) -> (r: Option<usize>)
    requires
        i <= chars@.len(),
    ensures
        r is Some <==> scheme_occurs(chars@, i as int, scheme@),
        r matches Some(n) ==> n == scheme@.len(),
{
    let sc = chars_of(scheme);
    if sc.len() > chars.len() - i {
        return None;
    }
    let mut k: usize = 0;
    while k < sc.len()
        invariant
            k <= sc@.len(),
            sc@ == scheme@,
            i + sc@.len() <= chars.len(),
            forall|j: int|
                0 <= j < k ==> strs::ascii_lower_char(#[trigger] chars@[i + j]) == scheme@[j],
        decreases sc@.len() - k,
    {
        if to_ascii_lower_char(chars[i + k]) != sc[k] {
            assert(strs::ascii_lower_char(chars@[i + k]) != scheme@[k as int]);
            return None;
        }
        k = k + 1;
    }
    Some(sc.len())
}

/// The length of the URL scheme that begins at `chars[i]` in either case, if
/// one does.
pub fn scheme_at(chars: &Vec<char>, i: usize) -> (r: Option<usize>)
    requires
        i <= chars@.len(),
    ensures
        r matches Some(n) ==> scheme_len(chars@, i as int) == Some(n as int) && i + n
            <= chars@.len() && n > 0,
        r is None ==> scheme_len(chars@, i as int) is None,
{
    proof {
        reveal_strlit("https://");
        reveal_strlit("http://");
        reveal_strlit("mailto:");
        reveal_strlit("ftp://");
    }
    if let Some(n) = scheme_here(chars, i, "https://") {
        return Some(n);
    }
    if let Some(n) = scheme_here(chars, i, "http://") {
        return Some(n);
    }
    if let Some(n) = scheme_here(chars, i, "mailto:") {
        return Some(n);
    }
    scheme_here(chars, i, "ftp://")
}

/// Characters allowed inside a URL: anything printable that is neither white
/// space nor a delimiter that never appears in a bare URL.
pub open spec fn url_char(c: char) -> bool {
    &&& !strs::white_space(c)
    &&& !strs::control_char(c)
    &&& c != '<' && c != '>' && c != '"' && c != '{' && c != '}' && c != '|' && c != '\\' && c
        != '^' && c != '`'
}

pub fn is_url_char(c: char) -> (r: bool)
    ensures
        r == url_char(c),
{
    !c.is_whitespace() && !is_control_char(c) && !(c == '<' || c == '>' || c == '"' || c == '{' || c
        == '}' || c == '|' || c == '\\' || c == '^' || c == '`')
}

/// Punctuation that usually abuts a URL rather than belonging to it.
pub open spec fn trailing_punct(c: char) -> bool {
    c == '.' || c == ',' || c == ';' || c == ':' || c == '!' || c == '?' || c == '\'' || c == '"'
        || c == ')' || c == ']' || c == '}' || c == '>' || c == '…'
}

/// Punctuation trimmed from the tail of a matched URL.
pub fn is_trailing_punct(c: char) -> (r: bool)
    ensures
        r == trailing_punct(c),
{
    c == '.' || c == ',' || c == ';' || c == ':' || c == '!' || c == '?' || c == '\'' || c == '"'
        || c == ')' || c == ']' || c == '}' || c == '>' || c == '…'
}

/// Where the run of URL characters that begins at `j` ends.
pub open spec fn url_run_end(chars: Seq<char>, j: int) -> int
    decreases chars.len() - j,
{
    if 0 <= j < chars.len() && url_char(chars[j]) {
        url_run_end(chars, j + 1)
    } else {
        j
    }
}

/// `j` moved back over trailing punctuation, no further than `from`.
pub open spec fn trim_punct(chars: Seq<char>, from: int, j: int) -> int
    decreases j - from,
{
    if j > from && trailing_punct(chars[j - 1]) {
        trim_punct(chars, from, j - 1)
    } else {
        j
    }
}

/// Where the URL that begins at `i` ends, if one begins there.
pub open spec fn url_end(chars: Seq<char>, i: int) -> Option<int> {
    match scheme_len(chars, i) {
        Some(n) => {
            let j = trim_punct(chars, i + n, url_run_end(chars, i + n));
            if j > i + n {
                Some(j)
            } else {
                None
            }
        },
        None => None,
    }
}

/// The URLs at or after position `i`, each as where it begins and ends.
pub open spec fn urls_from(chars: Seq<char>, i: int) -> Seq<(int, int)>
    decreases chars.len() - i,
{
    if i < 0 || i >= chars.len() {
        Seq::empty()
    } else {
        match url_end(chars, i) {
            Some(j) => if i < j <= chars.len() {
                seq![(i, j)] + urls_from(chars, j)
            } else {
                Seq::empty()
            },
            None => urls_from(chars, i + 1),
        }
    }
}

/// The column at which character `k` stands, counted with 16 bits.
pub open spec fn column_at(chars: Seq<char>, k: int) -> int
    decreases k,
{
    if k <= 0 {
        0
    } else {
        smaller(column_at(chars, k - 1) + text::columns(chars[k - 1]), u16::MAX as int)
    }
}

/// A URL on a line: its first column, its width in columns, and its text.
#[verifier::ext_equal]
pub struct FoundUrl {
    pub col: int,
    pub width: int,
    pub url: Seq<char>,
}

/// The URLs of a line's text.
pub open spec fn found_urls(chars: Seq<char>) -> Seq<FoundUrl> {
    let spans = urls_from(chars, 0);
    Seq::new(
        spans.len(),
        |k: int|
            FoundUrl {
                col: column_at(chars, spans[k].0),
                width: column_at(chars, spans[k].1) - column_at(chars, spans[k].0),
                url: chars.subrange(spans[k].0, spans[k].1),
            },
    )
}

/// What [`line_urls`] returns, as found URLs.
pub open spec fn url_views(v: Seq<(u16, u16, String)>) -> Seq<FoundUrl> {
    Seq::new(
        v.len(),
        |k: int| FoundUrl { col: v[k].0 as int, width: v[k].1 as int, url: v[k].2@ },
    )
}

proof fn lemma_column_monotonic(chars: Seq<char>, i: int, j: int)
    requires
        0 <= i <= j <= chars.len(),
    ensures
        0 <= column_at(chars, i) <= column_at(chars, j) <= u16::MAX,
    decreases j,
{
    if i < j {
        lemma_column_monotonic(chars, i, j - 1);
    } else if i > 0 {
        lemma_column_monotonic(chars, i - 1, i - 1);
    }
}

/// Find the URLs on one line, each as start column, display width and text.
pub fn line_urls(line: &Line) -> (r: Vec<(u16, u16, String)>)
    ensures
        url_views(r@) == found_urls(draw::line_text(line@)),
{
    let whole = line.text();
    let chars = chars_of(whole.as_str());
    let n: usize = chars.len();
    let mut col_of: Vec<u16> = Vec::new();
    let mut col: u16 = 0;
    let mut k: usize = 0;
    while k < n
        invariant
            k <= n,
            n == chars@.len(),
            col_of@.len() == k,
            col == column_at(chars@, k as int),
            forall|j: int| 0 <= j < k ==> col_of@[j] == column_at(chars@, j),
        decreases n - k,
    {
        col_of.push(col);
        let w: u16 = columns_of(chars[k]) as u16;
        col = if col > u16::MAX - w {
            u16::MAX
        } else {
            col + w
        };
        k = k + 1;
    }
    col_of.push(col);
    let mut out: Vec<(u16, u16, String)> = Vec::new();
    let mut i: usize = 0;
    let ghost all = urls_from(chars@, 0);
    assert(all =~= Seq::<(int, int)>::empty() + all);
    let ghost mut done: Seq<(int, int)> = Seq::empty();
    assert(col_of.len() == n + 1);
    while i < n
        invariant
            i <= n,
            n == chars@.len(),
            n + 1 <= usize::MAX,
            col_of@.len() == n + 1,
            forall|j: int| 0 <= j <= n ==> col_of@[j] == column_at(chars@, j),
            all == urls_from(chars@, 0),
            all == done + urls_from(chars@, i as int),
            out@.len() == done.len(),
            forall|q: int|
                0 <= q < done.len() ==> {
                    &&& (#[trigger] out@[q]).0 == column_at(chars@, done[q].0)
                    &&& out@[q].1 == column_at(chars@, done[q].1) - column_at(chars@, done[q].0)
                    &&& out@[q].2@ == chars@.subrange(done[q].0, done[q].1)
                },
        decreases n - i,
    {
        if let Some(len) = scheme_at(&chars, i) {
            let from: usize = i + len;
            let mut j: usize = from;
            while j < n && is_url_char(chars[j])
                invariant
                    from <= j <= n,
                    n == chars@.len(),
                    url_run_end(chars@, j as int) == url_run_end(chars@, from as int),
                decreases n - j,
            {
                j = j + 1;
            }
            let ghost run = j as int;
            while j > from && is_trailing_punct(chars[j - 1])
                invariant
                    from <= j <= n,
                    n == chars@.len(),
                    trim_punct(chars@, from as int, j as int) == trim_punct(
                        chars@,
                        from as int,
                        run,
                    ),
                decreases j,
            {
                j = j - 1;
            }
            if j > from {
                let url = string_of_range(&chars, i, j);
                let c0: u16 = col_of[i];
                let c1: u16 = col_of[j];
                proof {
                    lemma_column_monotonic(chars@, i as int, j as int);
                    done = done.push((i as int, j as int));
                    assert(all =~= done + urls_from(chars@, j as int));
                }
                out.push((c0, c1 - c0, url));
                i = j;
                continue ;
            }
        }
        i = i + 1;
    }
    proof {
        assert(urls_from(chars@, n as int) =~= Seq::empty());
        assert(all =~= done);
        assert(url_views(out@) =~= found_urls(chars@));
    }
    out
}

/// A URL and where it lands: the wrapped row it sits on, counted from the top
/// of the content, the column it starts at, its display width, and its target.
#[derive(Debug, Clone)]
pub struct LinkTarget {
    pub row: u32,
    pub col: u16,
    pub width: u16,
    pub url: String,
}

/// What a [`LinkTarget`] says.
#[verifier::ext_equal]
pub struct TargetView {
    pub row: int,
    pub col: int,
    pub width: int,
    pub url: Seq<char>,
}

impl View for LinkTarget {
    type V = TargetView;

    open spec fn view(&self) -> TargetView {
        TargetView {
            row: self.row as int,
            col: self.col as int,
            width: self.width as int,
            url: self.url@,
        }
    }
}

/// What a list of targets says.
pub open spec fn target_views(v: Seq<LinkTarget>) -> Seq<TargetView> {
    Seq::new(v.len(), |i: int| v[i]@)
}

/// The columns a line takes, its runs one after another, counted with 32 bits.
pub open spec fn line_width(l: Seq<draw::SpanView>) -> int
    decreases l.len(),
{
    if l.len() == 0 {
        0
    } else {
        smaller(
            line_width(l.drop_last()) + text::str_width(l.last().content),
            u32::MAX as int,
        )
    }
}

/// The columns a line takes.
pub fn width_of_line(line: &Line) -> (w: u32)
    ensures
        w == line_width(line@),
{
    let mut w: u32 = 0;
    let mut i: usize = 0;
    while i < line.spans.len()
        invariant
            i <= line.spans@.len(),
            w == line_width(line@.take(i as int)),
        decreases line.spans@.len() - i,
    {
        let add: usize = width_of_str(line.spans[i].content.as_str());
        w = if add > u32::MAX as usize {
            u32::MAX
        } else if add as u32 > u32::MAX - w {
            u32::MAX
        } else {
            w + add as u32
        };
        i = i + 1;
        assert(line@.take(i as int).drop_last() =~= line@.take(i - 1));
    }
    assert(line@.take(line@.len() as int) =~= line@);
    w
}

/// How many rows a line of `w` columns is taken to wrap to: one more than
/// needed when it wraps at all, since words move to the next row whole.
pub open spec fn row_count(w: int, cols: int) -> int {
    if w <= cols {
        1
    } else {
        (w + cols - 1) / cols + 1
    }
}

/// The row at which line `i` starts, counted with 32 bits.
pub open spec fn line_row(lines: Seq<Seq<draw::SpanView>>, i: int, cols: int) -> int
    decreases i,
{
    if i <= 0 {
        0
    } else {
        smaller(
            line_row(lines, i - 1, cols) + row_count(line_width(lines[i - 1]), cols),
            u32::MAX as int,
        )
    }
}

/// The targets of one line that starts at row `row`.
pub open spec fn targets_of_line(l: Seq<draw::SpanView>, row: int) -> Seq<TargetView> {
    let found = found_urls(draw::line_text(l));
    Seq::new(
        found.len(),
        |k: int|
            TargetView { row, col: found[k].col, width: found[k].width, url: found[k].url },
    )
}

/// The targets of the first `n` lines wrapped to `cols` columns.
pub open spec fn targets_of(lines: Seq<Seq<draw::SpanView>>, n: int, cols: int) -> Seq<TargetView>
    decreases n,
{
    if n <= 0 {
        Seq::empty()
    } else {
        targets_of(lines, n - 1, cols) + targets_of_line(
            lines[n - 1],
            line_row(lines, n - 1, cols),
        )
    }
}

/// At least one column.
pub open spec fn wrap_columns(width: u16) -> int {
    if width == 0 {
        1
    } else {
        width as int
    }
}

fn rows_for(w: u32, cols: u32) -> (r: u32)
    requires
        0 < cols,
    ensures
        r == smaller(row_count(w as int, cols as int), u32::MAX as int),
{
    if w <= cols {
        return 1;
    }
    let c: u64 = cols as u64;
    let q: u64 = (w as u64 + c - 1) / c;
    assert(q <= w as u64 + c - 1) by (nonlinear_arith)
        requires
            q == (w as u64 + c - 1) / c as int,
            c > 0,
    ;
    if q + 1 > u32::MAX as u64 {
        u32::MAX
    } else {
        (q + 1) as u32
    }
}

/// The row at which each line starts when wrapped to `wrap_width` columns, with
/// the total as a final entry.
pub fn line_rows(lines: &Vec<Line>, wrap_width: u16) -> (r: Vec<u32>)
    ensures
        r@.len() == lines@.len() + 1,
        forall|i: int|
            0 <= i <= lines@.len() ==> #[trigger] r@[i] == line_row(
                draw::line_views(lines@),
                i,
                wrap_columns(wrap_width),
            ),
{
    let cols: u32 = if wrap_width == 0 {
        1
    } else {
        wrap_width as u32
    };
    let ghost views = draw::line_views(lines@);
    let mut r: Vec<u32> = Vec::new();
    let mut acc: u32 = 0;
    r.push(acc);
    let mut i: usize = 0;
    while i < lines.len()
        invariant
            i <= lines@.len(),
            views == draw::line_views(lines@),
            cols == wrap_columns(wrap_width),
            acc == line_row(views, i as int, wrap_columns(wrap_width)),
            r@.len() == i + 1,
            forall|k: int|
                0 <= k <= i ==> #[trigger] r@[k] == line_row(views, k, wrap_columns(wrap_width)),
        decreases lines@.len() - i,
    {
        let rows: u32 = rows_for(width_of_line(&lines[i]), cols);
        acc = if acc > u32::MAX - rows {
            u32::MAX
        } else {
            acc + rows
        };
        r.push(acc);
        i = i + 1;
    }
    r
}

/// Find every URL across `lines`, about to be drawn as a wrapping paragraph
/// `wrap_width` columns wide, and record where each lands.
pub fn find_link_targets(lines: &Vec<Line>, wrap_width: u16) -> (out: Vec<LinkTarget>)
    ensures
        target_views(out@) == targets_of(
            draw::line_views(lines@),
            lines@.len() as int,
            wrap_columns(wrap_width),
        ),
{
    let cols: u32 = if wrap_width == 0 {
        1
    } else {
        wrap_width as u32
    };
    let ghost views = draw::line_views(lines@);
    let ghost c = wrap_columns(wrap_width);
    let mut out: Vec<LinkTarget> = Vec::new();
    let mut acc: u32 = 0;
    let mut i: usize = 0;
    assert(target_views(out@) =~= targets_of(views, 0, c));
    while i < lines.len()
        invariant
            i <= lines@.len(),
            views == draw::line_views(lines@),
            c == wrap_columns(wrap_width),
            cols == c,
            acc == line_row(views, i as int, c),
            target_views(out@) == targets_of(views, i as int, c),
        decreases lines@.len() - i,
    {
        let found = line_urls(&lines[i]);
        let ghost base = out@;
        let mut k: usize = 0;
        let ghost here = targets_of_line(views[i as int], acc as int);
        while k < found.len()
            invariant
                k <= found@.len(),
                url_views(found@) == found_urls(draw::line_text(views[i as int])),
                here == targets_of_line(views[i as int], acc as int),
                target_views(out@) == target_views(base) + here.take(k as int),
            decreases found@.len() - k,
        {
            let url = found[k].2.clone();
            let ghost seen = found_urls(draw::line_text(views[i as int]));
            assert(url_views(found@)[k as int] == seen[k as int]);
            assert(here.len() == seen.len());
            let ghost prev = out@;
            out.push(LinkTarget { row: acc, col: found[k].0, width: found[k].1, url });
            assert(out@.last()@ == here[k as int]);
            assert(target_views(out@) =~= target_views(prev).push(here[k as int]));
            assert(here.take(k + 1) =~= here.take(k as int).push(here[k as int]));
            k = k + 1;
            assert(target_views(out@) =~= target_views(base) + here.take(k as int));
        }
        assert(here.len() == url_views(found@).len());
        assert(here.take(k as int) =~= here);
        let rows: u32 = rows_for(width_of_line(&lines[i]), cols);
        acc = if acc > u32::MAX - rows {
            u32::MAX
        } else {
            acc + rows
        };
        i = i + 1;
    }
    out
}

// ---------------------------------------------------------------------------
// Applying them.
// ---------------------------------------------------------------------------

/// The grid after one target was applied: linked when its row is on screen.
pub open spec fn target_applied(
    bounds: Rect,
    grid: Seq<Seq<CellView>>,
    area: Rect,
    scroll: int,
    t: TargetView,
) -> Seq<Seq<CellView>> {
    let rel = t.row - scroll;
    if rel < 0 || rel >= area.height || t.col >= area.width {
        grid
    } else {
        linked(
            bounds,
            grid,
            area.x + t.col,
            area.y + rel,
            t.url,
            smaller(t.width, area.width - t.col),
        )
    }
}

/// The grid after the first `n` targets were applied.
pub open spec fn targets_applied(
    bounds: Rect,
    grid: Seq<Seq<CellView>>,
    area: Rect,
    scroll: int,
    targets: Seq<TargetView>,
    n: int,
) -> Seq<Seq<CellView>>
    decreases n,
{
    if n <= 0 {
        grid
    } else {
        target_applied(
            bounds,
            targets_applied(bounds, grid, area, scroll, targets, n - 1),
            area,
            scroll,
            targets[n - 1],
        )
    }
}

/// Overlay the hyperlinks found by [`find_link_targets`] onto `buf`, given the
/// paragraph's `area` and vertical `scroll` in wrapped rows.
pub fn apply_link_targets(buf: &mut Grid, area: Rect, scroll: u16, targets: &Vec<LinkTarget>)
    requires
        old(buf).wf(),
        area.x + area.width <= u16::MAX,
        area.y + area.height <= u16::MAX,
    ensures
        final(buf).wf(),
        final(buf).area == old(buf).area,
        final(buf)@ == targets_applied(
            old(buf).area,
            old(buf)@,
            area,
            scroll as int,
            target_views(targets@),
            targets@.len() as int,
        ),
{
    let ghost views = target_views(targets@);
    let mut i: usize = 0;
    while i < targets.len()
        invariant
            i <= targets@.len(),
            buf.wf(),
            buf.area == old(buf).area,
            area.x + area.width <= u16::MAX,
            area.y + area.height <= u16::MAX,
            views == target_views(targets@),
            buf@ == targets_applied(
                old(buf).area,
                old(buf)@,
                area,
                scroll as int,
                views,
                i as int,
            ),
        decreases targets@.len() - i,
    {
        let t = &targets[i];
        assert(views[i as int] == t@);
        let rel: i64 = t.row as i64 - scroll as i64;
        if rel >= 0 && rel < area.height as i64 && t.col < area.width {
            let room: u16 = area.width - t.col;
            let max: u16 = if t.width < room {
                t.width
            } else {
                room
            };
            linkify_run(buf, area.x + t.col, area.y + rel as u16, t.url.as_str(), max);
        }
        i = i + 1;
    }
}

/// A paragraph with the links to lay over it.
#[derive(Debug)]
pub struct LinkedParagraph {
    pub lines: Vec<Line>,
    pub scroll: u16,
    pub targets: Vec<LinkTarget>,
}

/// The paragraph of `lines` scrolled by `scroll` rows, with a link for every
/// URL in it when `enabled`.
pub fn render_linked_paragraph(lines: Vec<Line>, width: u16, scroll: u16, enabled: bool) -> (p:
    LinkedParagraph)
    ensures
        p.lines == lines,
        p.scroll == scroll,
        target_views(p.targets@) == if enabled {
            targets_of(draw::line_views(lines@), lines@.len() as int, wrap_columns(width))
        } else {
            Seq::<TargetView>::empty()
        },
{
    let targets = if enabled {
        find_link_targets(&lines, width)
    } else {
        let t: Vec<LinkTarget> = Vec::new();
        assert(target_views(t@) =~= Seq::<TargetView>::empty());
        t
    };
    LinkedParagraph { lines, scroll, targets }
}

// ---------------------------------------------------------------------------
// Laws.
// ---------------------------------------------------------------------------

/// Linking changes no text but the first cell's, changes no other row, and
/// what it hides is exactly the run whose glyphs the first cell now prints.
pub proof fn law_linking_touches_only_the_run(
    area: Rect,
    grid: Seq<Seq<CellView>>,
    x: int,
    y: int,
    url: Seq<char>,
    max_cols: int,
    r: int,
    i: int,
)
    requires
        0 <= r < grid.len(),
        0 <= i < grid[r].len(),
        grid.len() == area.height,
        !(r == y - area.y && x - area.x <= i < x - area.x + linked_columns(
            area,
            grid,
            x,
            y,
            url,
            max_cols,
        )),
    ensures
        linked(area, grid, x, y, url, max_cols).len() == grid.len(),
        linked(area, grid, x, y, url, max_cols)[r][i] == grid[r][i],
{
}

proof fn lemma_run_end_bounds(row: Seq<CellView>, i: int, limit: int)
    ensures
        i <= run_end(row, i, limit),
        i <= limit ==> run_end(row, i, limit) <= limit,
    decreases limit - i,
{
    if 0 <= i < limit && i < row.len() && !is_blank(row[i]) {
        lemma_run_end_bounds(row, i + 1, limit);
    }
}

/// A link never covers more columns than the caller allows or the row has.
pub proof fn law_link_keeps_its_budget(
    area: Rect,
    grid: Seq<Seq<CellView>>,
    x: int,
    y: int,
    url: Seq<char>,
    max_cols: int,
)
    requires
        0 <= max_cols,
        0 <= x,
    ensures
        0 <= linked_columns(area, grid, x, y, url, max_cols) <= max_cols,
        linked_columns(area, grid, x, y, url, max_cols) > 0 ==> x + linked_columns(
            area,
            grid,
            x,
            y,
            url,
            max_cols,
        ) <= area.x + area.width,
{
    if x >= area.x && y >= area.y {
        let row = grid[y - area.y];
        let from = x - area.x;
        let limit = smaller(area.width as int, from + max_cols);
        lemma_run_end_bounds(row, from, limit);
    }
}

proof fn lemma_url_run(chars: Seq<char>, j: int)
    requires
        0 <= j <= chars.len(),
    ensures
        j <= url_run_end(chars, j) <= chars.len(),
        forall|k: int| j <= k < url_run_end(chars, j) ==> url_char(#[trigger] chars[k]),
    decreases chars.len() - j,
{
    if j < chars.len() && url_char(chars[j]) {
        lemma_url_run(chars, j + 1);
    }
}

proof fn lemma_trim_punct(chars: Seq<char>, from: int, j: int)
    requires
        from <= j,
    ensures
        from <= trim_punct(chars, from, j) <= j,
        trim_punct(chars, from, j) > from ==> !trailing_punct(
            chars[trim_punct(chars, from, j) - 1],
        ),
    decreases j - from,
{
    if j > from && trailing_punct(chars[j - 1]) {
        lemma_trim_punct(chars, from, j - 1);
    }
}

/// Whether `at..end` is a URL: a scheme, then characters that a URL can hold,
/// the last of which is no punctuation that merely abuts it.
pub open spec fn url_at(chars: Seq<char>, at: int, end: int) -> bool {
    match scheme_len(chars, at) {
        Some(n) => {
            &&& 0 <= at
            &&& at + n < end <= chars.len()
            &&& forall|k: int| at + n <= k < end ==> url_char(#[trigger] chars[k])
            &&& !trailing_punct(chars[end - 1])
        },
        None => false,
    }
}

/// What is found on a line are URLs, one behind the other, none inside another.
pub proof fn law_found_runs_are_urls(chars: Seq<char>, i: int)
    requires
        0 <= i,
    ensures
        forall|k: int|
            0 <= k < urls_from(chars, i).len() ==> i <= (#[trigger] urls_from(chars, i)[k]).0
                && url_at(chars, urls_from(chars, i)[k].0, urls_from(chars, i)[k].1),
        forall|j: int, k: int|
            0 <= j < k < urls_from(chars, i).len() ==> (#[trigger] urls_from(chars, i)[j]).1 <= (
            #[trigger] urls_from(chars, i)[k]).0,
    decreases chars.len() - i,
{
    if i < chars.len() {
        reveal_strlit("https://");
        reveal_strlit("http://");
        reveal_strlit("mailto:");
        reveal_strlit("ftp://");
        if let Some(n) = scheme_len(chars, i) {
            lemma_url_run(chars, i + n);
            lemma_trim_punct(chars, i + n, url_run_end(chars, i + n));
        }
        match url_end(chars, i) {
            Some(j) => {
                law_found_runs_are_urls(chars, j);
                let rest = urls_from(chars, j);
                let all = urls_from(chars, i);
                assert(url_at(chars, i, j));
                assert(all =~= seq![(i, j)] + rest);
                assert forall|k: int| 0 <= k < all.len() implies i <= (#[trigger] all[k]).0
                    && url_at(chars, all[k].0, all[k].1) by {
                    if k > 0 {
                        assert(all[k] == rest[k - 1]);
                    }
                }
                assert forall|a: int, b: int| 0 <= a < b < all.len() implies (
                #[trigger] all[a]).1 <= (#[trigger] all[b]).0 by {
                    assert(all[b] == rest[b - 1]);
                    if a > 0 {
                        assert(all[a] == rest[a - 1]);
                    }
                }
            },
            None => {
                law_found_runs_are_urls(chars, i + 1);
                let rest = urls_from(chars, i + 1);
                assert(urls_from(chars, i) == rest);
            },
        }
    }
}

/// The column of a character is what the characters before it take, wide glyphs
/// included, as far as 16 bits can say.
pub proof fn law_columns_add_up(chars: Seq<char>, k: int)
    requires
        0 <= k <= chars.len(),
    ensures
        column_at(chars, k) == smaller(text::columns_sum(chars.take(k)), u16::MAX as int),
    decreases k,
{
    if k > 0 {
        law_columns_add_up(chars, k - 1);
        assert(chars.take(k).drop_last() =~= chars.take(k - 1));
    }
}

/// A URL begins with one of four schemes, in any case, and each is as long as it is
/// written.
pub proof fn law_schemes_begin_urls(a: Seq<char>, b: Seq<char>)
    ensures
        scheme_len(a + "https://"@ + b, a.len() as int) == Some(8int),
        scheme_len(a + "http://"@ + b, a.len() as int) == Some(7int),
        scheme_len(a + "mailto:"@ + b, a.len() as int) == Some(7int),
        scheme_len(a + "ftp://"@ + b, a.len() as int) == Some(6int),
        b.len() > 0 && b[0] != 'h' && b[0] != 'H' && b[0] != 'm' && b[0] != 'M' && b[0] != 'f'
            && b[0] != 'F' ==> scheme_len(a + b, a.len() as int) is None,
        scheme_len(a, a.len() as int) is None,
{
    reveal_strlit("https://");
    reveal_strlit("http://");
    reveal_strlit("mailto:");
    reveal_strlit("ftp://");
    let n = a.len() as int;
    let s = a + "http://"@ + b;
    assert(s[n] == 'h' && s[n + 1] == 't' && s[n + 2] == 't' && s[n + 3] == 'p' && s[n + 4] == ':');
    let m = a + "mailto:"@ + b;
    assert(m[n] == 'm');
    let f = a + "ftp://"@ + b;
    assert(f[n] == 'f');
    if scheme_occurs(s, n, "https://"@) {
        assert(strs::ascii_lower_char(s[n + 4]) == "https://"@[4]);
    }
    if scheme_occurs(m, n, "https://"@) || scheme_occurs(m, n, "http://"@) {
        assert(strs::ascii_lower_char(m[n + 0]) == 'h');
    }
    if scheme_occurs(f, n, "https://"@) || scheme_occurs(f, n, "http://"@) || scheme_occurs(
        f,
        n,
        "mailto:"@,
    ) {
        assert(strs::ascii_lower_char(f[n + 0]) == 'h' || strs::ascii_lower_char(f[n + 0]) == 'm');
    }
    assert(scheme_occurs(f, n, "ftp://"@));
    assert(scheme_occurs(m, n, "mailto:"@));
    assert(scheme_occurs(s, n, "http://"@));
    assert(scheme_occurs(a + "https://"@ + b, n, "https://"@));
    if b.len() > 0 && scheme_len(a + b, n) is Some {
        let t = a + b;
        assert(t[n] == b[0]);
        assert(strs::ascii_lower_char(t[n + 0]) == 'h' || strs::ascii_lower_char(t[n + 0]) == 'm'
            || strs::ascii_lower_char(t[n + 0]) == 'f');
    }
}

/// Letters, digits and the signs that addresses are made of belong to a URL; white space
/// and brackets end it, and what merely follows a sentence is not its last character.
pub proof fn law_urls_are_made_of_their_characters(c: char)
    ensures
        strs::ascii_alphanumeric(c) ==> url_char(c) && !trailing_punct(c),
        c == '/' || c == '-' || c == '_' || c == '=' || c == '&' || c == '#' || c == '%' || c == '~'
            || c == '+' ==> url_char(c) && !trailing_punct(c),
        c == '?' || c == '.' || c == ':' || c == ',' || c == ';' || c == '!' || c == ')' ==> url_char(
            c,
        ) && trailing_punct(c),
        c == ' ' || c == '\n' || c == '\t' || c == '<' || c == '>' || c == '"' || c == '`'
            ==> !url_char(c),
{
}

/// A run goes on as far as a URL can: behind it comes nothing but punctuation up to a
/// character that no URL holds.
pub proof fn law_urls_are_taken_whole(chars: Seq<char>, i: int)
    requires
        0 <= i < chars.len(),
    ensures
        url_end(chars, i) matches Some(j) ==> exists|m: int| #[trigger]
            ends_at(chars, j, m),
{
    reveal_strlit("https://");
    reveal_strlit("http://");
    reveal_strlit("mailto:");
    reveal_strlit("ftp://");
    if let Some(n) = scheme_len(chars, i) {
        let m = url_run_end(chars, i + n);
        lemma_url_run(chars, i + n);
        lemma_run_stops(chars, i + n);
        lemma_only_punct_is_cut(chars, i + n, m);
        lemma_trim_punct(chars, i + n, m);
        if let Some(j) = url_end(chars, i) {
            assert(ends_at(chars, j, m));
        }
    }
}

/// Whether from `j` to `m` stands only punctuation, and at `m` nothing of a URL.
pub open spec fn ends_at(chars: Seq<char>, j: int, m: int) -> bool {
    &&& j <= m <= chars.len()
    &&& forall|k: int| j <= k < m ==> trailing_punct(#[trigger] chars[k])
    &&& m < chars.len() ==> !url_char(chars[m])
}

proof fn lemma_run_stops(chars: Seq<char>, j: int)
    requires
        0 <= j <= chars.len(),
    ensures
        url_run_end(chars, j) < chars.len() ==> !url_char(chars[url_run_end(chars, j)]),
    decreases chars.len() - j,
{
    if j < chars.len() && url_char(chars[j]) {
        lemma_run_stops(chars, j + 1);
    }
}

proof fn lemma_only_punct_is_cut(chars: Seq<char>, from: int, j: int)
    requires
        from <= j,
    ensures
        forall|k: int| trim_punct(chars, from, j) <= k < j ==> trailing_punct(#[trigger] chars[k]),
    decreases j - from,
{
    if j > from && trailing_punct(chars[j - 1]) {
        lemma_only_punct_is_cut(chars, from, j - 1);
    }
}

/// Wherever a URL begins on a line, a run that was found covers the place.
pub proof fn law_every_url_is_found(chars: Seq<char>, i: int, p: int)
    requires
        0 <= i <= p < chars.len(),
        url_end(chars, p) is Some,
    ensures
        exists|k: int|
            0 <= k < urls_from(chars, i).len() && (#[trigger] urls_from(chars, i)[k]).0 <= p
                < urls_from(chars, i)[k].1,
    decreases chars.len() - i,
{
    reveal_strlit("https://");
    reveal_strlit("http://");
    reveal_strlit("mailto:");
    reveal_strlit("ftp://");
    if let Some(n) = scheme_len(chars, i) {
        lemma_url_run(chars, i + n);
        lemma_trim_punct(chars, i + n, url_run_end(chars, i + n));
    }
    let all = urls_from(chars, i);
    match url_end(chars, i) {
        Some(j) => {
            let rest = urls_from(chars, j);
            assert(all =~= seq![(i, j)] + rest);
            if p < j {
                assert(all[0].0 <= p < all[0].1);
            } else {
                law_every_url_is_found(chars, j, p);
                let k = choose|k: int|
                    0 <= k < rest.len() && (#[trigger] rest[k]).0 <= p < rest[k].1;
                assert(all[k + 1] == rest[k]);
            }
        },
        None => {
            law_every_url_is_found(chars, i + 1, p);
        },
    }
}

/// What is found is the text of its run, at the column where that begins, as wide as it
/// is.
pub proof fn law_found_urls_are_where_they_stand(chars: Seq<char>, k: int)
    requires
        0 <= k < found_urls(chars).len(),
        text::columns_sum(chars) <= u16::MAX,
    ensures
        found_urls(chars).len() == urls_from(chars, 0).len(),
        ({
            let (a, b) = urls_from(chars, 0)[k];
            let f = found_urls(chars)[k];
            &&& 0 <= a < b <= chars.len()
            &&& f.url == chars.subrange(a, b)
            &&& f.col == text::columns_sum(chars.take(a))
            &&& f.col + f.width == text::columns_sum(chars.take(b))
        }),
{
    law_found_runs_are_urls(chars, 0);
    let (a, b) = urls_from(chars, 0)[k];
    assert(url_at(chars, a, b));
    reveal_strlit("https://");
    reveal_strlit("http://");
    reveal_strlit("mailto:");
    reveal_strlit("ftp://");
    law_columns_add_up(chars, a);
    law_columns_add_up(chars, b);
    lemma_columns_grow(chars, a);
    lemma_columns_grow(chars, b);
}

proof fn lemma_columns_grow(chars: Seq<char>, k: int)
    requires
        0 <= k <= chars.len(),
    ensures
        text::columns_sum(chars.take(k)) <= text::columns_sum(chars),
    decreases chars.len() - k,
{
    if k < chars.len() {
        lemma_columns_grow(chars, k + 1);
        assert(chars.take(k + 1).drop_last() =~= chars.take(k));
    } else {
        assert(chars.take(k) =~= chars);
    }
}

/// Every URL of every line has a target on the row of its line; and as long as the lines
/// fit the width, that is the line's number.
pub proof fn law_every_url_has_a_target(
    lines: Seq<Seq<draw::SpanView>>,
    n: int,
    cols: int,
    i: int,
    k: int,
)
    requires
        0 <= i < n <= lines.len(),
        0 <= k < found_urls(draw::line_text(lines[i])).len(),
    ensures
        ({
            let f = found_urls(draw::line_text(lines[i]))[k];
            targets_of(lines, n, cols).contains(
                TargetView {
                    row: line_row(lines, i, cols),
                    col: f.col,
                    width: f.width,
                    url: f.url,
                },
            )
        }),
    decreases n,
{
    let f = found_urls(draw::line_text(lines[i]))[k];
    let t = TargetView { row: line_row(lines, i, cols), col: f.col, width: f.width, url: f.url };
    let before = targets_of(lines, n - 1, cols);
    let all = targets_of(lines, n, cols);
    if i < n - 1 {
        law_every_url_has_a_target(lines, n - 1, cols, i, k);
        let j = choose|j: int| 0 <= j < before.len() && before[j] == t;
        assert(all[j] == t);
    } else {
        assert(all[before.len() + k] == t);
    }
}

/// Lines that fit the width take a row each, and one that does not takes as many as hold
/// it.
pub proof fn law_fitting_lines_take_a_row(lines: Seq<Seq<draw::SpanView>>, i: int, cols: int)
    requires
        0 <= i <= lines.len(),
        i <= u32::MAX,
        forall|k: int| 0 <= k < i ==> line_width(#[trigger] lines[k]) <= cols,
    ensures
        line_row(lines, i, cols) == i,
        forall|w: int| cols > 0 && w > cols ==> #[trigger] row_count(w, cols) * cols >= w,
    decreases i,
{
    if i > 0 {
        law_fitting_lines_take_a_row(lines, i - 1, cols);
    }
    assert forall|w: int| cols > 0 && w > cols implies #[trigger] row_count(w, cols) * cols
        >= w by {
        let q = (w + cols - 1) / cols;
        vstd::arithmetic::div_mod::lemma_fundamental_div_mod(w + cols - 1, cols);
        assert(cols * q + cols == (q + 1) * cols) by (nonlinear_arith);
        assert((w + cols - 1) % cols < cols);
    }
}

/// A run of cells that spells the beginning of the URL, up to a blank or the bound,
/// becomes a link: its first cell prints the whole run as one, and the others are
/// passed over.
pub proof fn law_a_run_becomes_a_link(
    area: Rect,
    grid: Seq<Seq<CellView>>,
    x: int,
    y: int,
    url: Seq<char>,
    max_cols: int,
    to: int,
    i: int,
)
    requires
        grid.len() == area.height,
        area.y <= y < area.y + area.height,
        area.x <= x,
        grid[y - area.y].len() == area.width,
        x - area.x < to <= x - area.x + max_cols,
        to <= area.width,
        forall|k: int| x - area.x <= k < to ==> !is_blank(#[trigger] grid[y - area.y][k]),
        to == x - area.x + max_cols || to == area.width || is_blank(grid[y - area.y][to]),
        strs::starts_with(
            strs::trimmed(url),
            run_text(grid[y - area.y], x - area.x, to),
        ),
        strs::trimmed(url).len() > 0,
        0 <= i < area.width,
    ensures
        ({
            let from = x - area.x;
            let row = grid[y - area.y];
            let after = linked(area, grid, x, y, url, max_cols)[y - area.y];
            &&& linked_columns(area, grid, x, y, url, max_cols) == to - from
            &&& after[from].symbol == osc8_text(strs::trimmed(url), run_text(row, from, to))
            &&& after[from].skip == row[from].skip
            &&& from < i < to ==> after[i].skip
            &&& i < from || i >= to ==> after[i] == row[i]
        }),
{
    let row = grid[y - area.y];
    let from = x - area.x;
    lemma_run_end_is(row, from, smaller(area.width as int, from + max_cols), to);
}

proof fn lemma_run_end_is(row: Seq<CellView>, i: int, limit: int, to: int)
    requires
        0 <= i <= to <= limit,
        to <= row.len(),
        forall|k: int| i <= k < to ==> !is_blank(#[trigger] row[k]),
        to == limit || to == row.len() || is_blank(row[to]),
    ensures
        run_end(row, i, limit) == to,
    decreases to - i,
{
    if i < to {
        lemma_run_end_is(row, i + 1, limit, to);
    }
}

/// A run that spells anything else is left alone.
pub proof fn law_other_text_is_not_linked(
    area: Rect,
    grid: Seq<Seq<CellView>>,
    x: int,
    y: int,
    url: Seq<char>,
    max_cols: int,
)
    requires
        ({
            let row = grid[y - area.y];
            let from = x - area.x;
            let to = run_end(row, from, smaller(area.width as int, from + max_cols));
            !strs::starts_with(strs::trimmed(url), run_text(row, from, to))
        }) || strs::trimmed(url).len() == 0 || y < area.y || y >= area.y + area.height || x
            < area.x || max_cols == 0,
    ensures
        linked(area, grid, x, y, url, max_cols) == grid,
        linked_columns(area, grid, x, y, url, max_cols) == 0,
{
}

/// A link names the URL, then the text, and is closed.
pub proof fn law_links_name_url_and_text(url: Seq<char>, text: Seq<char>)
    requires
        forall|k: int| 0 <= k < url.len() ==> !strs::control_char(#[trigger] url[k]),
        forall|k: int| 0 <= k < text.len() ==> !strs::control_char(#[trigger] text[k]),
    ensures
        osc8_text(url, text) == "\u{1b}]8;;"@ + url + "\u{1b}\\"@ + text
            + "\u{1b}]8;;\u{1b}\\"@,
{
    law_clean_text_is_kept(url);
    law_clean_text_is_kept(text);
}

/// A target is applied at its place below the scroll, no wider than the area, and not at
/// all where it is out of view.
pub proof fn law_targets_in_view_are_applied(
    bounds: Rect,
    grid: Seq<Seq<CellView>>,
    area: Rect,
    scroll: int,
    t: TargetView,
)
    ensures
        t.row < scroll || t.row >= scroll + area.height || t.col >= area.width ==> target_applied(
            bounds,
            grid,
            area,
            scroll,
            t,
        ) == grid,
        scroll <= t.row < scroll + area.height && t.col < area.width && t.col + t.width
            <= area.width ==> target_applied(bounds, grid, area, scroll, t) == linked(
            bounds,
            grid,
            area.x + t.col,
            area.y + (t.row - scroll),
            t.url,
            t.width,
        ),
        scroll <= t.row < scroll + area.height && t.col < area.width && t.col + t.width
            > area.width ==> target_applied(bounds, grid, area, scroll, t) == linked(
            bounds,
            grid,
            area.x + t.col,
            area.y + (t.row - scroll),
            t.url,
            area.width - t.col,
        ),
{
}

/// Targets are applied one after the other, each to what the ones before it left.
pub proof fn law_targets_are_applied_in_order(
    bounds: Rect,
    grid: Seq<Seq<CellView>>,
    area: Rect,
    scroll: int,
    targets: Seq<TargetView>,
    n: int,
)
    requires
        0 < n <= targets.len(),
    ensures
        targets_applied(bounds, grid, area, scroll, targets, 0) == grid,
        targets_applied(bounds, grid, area, scroll, targets, n) == target_applied(
            bounds,
            targets_applied(bounds, grid, area, scroll, targets, n - 1),
            area,
            scroll,
            targets[n - 1],
        ),
{
}

} // verus!
