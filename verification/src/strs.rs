//! Operations on text, stated over sequences of characters.
use vstd::prelude::*;

verus! {

// ---------------------------------------------------------------------------
// Outside functions on characters and strings.
// ---------------------------------------------------------------------------

/// Whether a character has the Unicode `White_Space` property.
pub open spec fn white_space(c: char) -> bool {
    let n = c as int;
    ||| 0x9 <= n <= 0xd
    ||| n == 0x20
    ||| n == 0x85
    ||| n == 0xa0
    ||| n == 0x1680
    ||| 0x2000 <= n <= 0x200a
    ||| n == 0x2028
    ||| n == 0x2029
    ||| n == 0x202f
    ||| n == 0x205f
    ||| n == 0x3000
}

/// `char::is_whitespace`: whether the character has the Unicode `White_Space`
/// property, which is listed in [`white_space`].
pub assume_specification[ char::is_whitespace ](c: char) -> (b: bool)
    ensures
        b == white_space(c),
;

/// `String::push`: appends one character.
pub assume_specification[ String::push ](s: &mut String, c: char)
    ensures
        final(s)@ == old(s)@.push(c),
;

/// `String::pop`: removes and returns the last character, or returns `None`
/// and changes nothing when there is none.
pub assume_specification[ String::pop ](s: &mut String) -> (r: Option<char>)
    ensures
        old(s)@.len() == 0 ==> r == None::<char> && final(s)@ == old(s)@,
        old(s)@.len() > 0 ==> r == Some(old(s)@.last()) && final(s)@ == old(s)@.drop_last(),
;

/// What Unicode lowercasing makes of a text that is not ASCII alone.
pub uninterp spec fn unicode_lowercase(s: Seq<char>) -> Seq<char>;

/// What lowercasing makes of a text.
pub open spec fn lowercase(s: Seq<char>) -> Seq<char> {
    if all_ascii(s) {
        ascii_lowered(s)
    } else {
        unicode_lowercase(s)
    }
}

/// `str::to_lowercase`: on a text of ASCII characters only the letters `A` to
/// `Z` change; on another it depends on the text alone and is named
/// [`unicode_lowercase`].
pub assume_specification[ str::to_lowercase ](s: &str) -> (r: String)
    ensures
        all_ascii(s@) ==> r@ == ascii_lowered(s@),
        !all_ascii(s@) ==> r@ == unicode_lowercase(s@),
;

/// `char::from_u32`: the character with that code point, or `None` where the
/// number is a surrogate or above U+10FFFF.
pub assume_specification[ char::from_u32 ](n: u32) -> (r: Option<char>)
    ensures
        n < 0xd800 || (0xe000 <= n && n <= 0x10ffff) ==> r == Some(n as char),
        0xd800 <= n < 0xe000 || n > 0x10ffff ==> r is None,
;

/// `String::from_utf8`: the text that the bytes are the UTF-8 encoding of, or
/// `None` where they are not valid UTF-8.
#[verifier::external_body]
pub(crate) fn text_of_bytes(bytes: Vec<u8>) -> (r: Option<String>)
    ensures
        match r {
            Some(s) => vstd::utf8::valid_utf8(bytes@) && s@ == vstd::utf8::decode_utf8(bytes@),
            None => !vstd::utf8::valid_utf8(bytes@),
        },
{
    String::from_utf8(bytes).ok()
}

// ---------------------------------------------------------------------------
// Characters.
// ---------------------------------------------------------------------------

pub open spec fn is_ascii_char(c: char) -> bool {
    (c as int) < 128
}

pub open spec fn all_ascii(s: Seq<char>) -> bool {
    forall|i: int| 0 <= i < s.len() ==> is_ascii_char(#[trigger] s[i])
}

/// `A` to `Z` go to `a` to `z`; every other character stays.
pub open spec fn ascii_lower_char(c: char) -> char {
    if 'A' <= c && c <= 'Z' {
        ((c as int) + 32) as char
    } else {
        c
    }
}

pub open spec fn ascii_lowered(s: Seq<char>) -> Seq<char> {
    Seq::new(s.len(), |i: int| ascii_lower_char(s[i]))
}

/// The general category `Cc`: U+0000 to U+001F and U+007F to U+009F.
pub open spec fn control_char(c: char) -> bool {
    (c as int) < 0x20 || (0x7f <= (c as int) && (c as int) < 0xa0)
}

pub open spec fn ascii_alphanumeric(c: char) -> bool {
    ('0' <= c && c <= '9') || ('A' <= c && c <= 'Z') || ('a' <= c && c <= 'z')
}

pub fn to_ascii_lower_char(c: char) -> (r: char)
    ensures
        r == ascii_lower_char(c),
{
    if 'A' <= c && c <= 'Z' {
        let b: u8 = c as u8;
        (b + 32) as char
    } else {
        c
    }
}

pub fn is_control_char(c: char) -> (b: bool)
    ensures
        b == control_char(c),
{
    let n: u32 = c as u32;
    n < 0x20 || (0x7f <= n && n < 0xa0)
}

pub fn is_ascii_alphanumeric_char(c: char) -> (b: bool)
    ensures
        b == ascii_alphanumeric(c),
{
    ('0' <= c && c <= '9') || ('A' <= c && c <= 'Z') || ('a' <= c && c <= 'z')
}

// ---------------------------------------------------------------------------
// Texts.
// ---------------------------------------------------------------------------

/// The text of an optional string.
pub open spec fn opt_text(o: Option<String>) -> Option<Seq<char>> {
    match o {
        Some(s) => Some(s@),
        None => None,
    }
}

/// The texts of a sequence of strings.
pub open spec fn texts(v: Seq<String>) -> Seq<Seq<char>> {
    Seq::new(v.len(), |i: int| v[i]@)
}

/// The characters of a text.
pub fn chars_of(s: &str) -> (v: Vec<char>)
    ensures
        v@ == s@,
{
    let mut v: Vec<char> = Vec::new();
    for c in it: s.chars()
        invariant
            it.seq() == s@,
            v@ == s@.take(it.index() as int),
    {
        v.push(c);
        assert(v@ =~= s@.take(it.index() + 1));
    }
    assert(s@.take(s@.len() as int) =~= s@);
    v
}

/// The text made of the characters `v[from..to]`.
pub fn string_of_range(v: &Vec<char>, from: usize, to: usize) -> (s: String)
    requires
        from <= to <= v@.len(),
    ensures
        s@ == v@.subrange(from as int, to as int),
{
    let mut s = String::new();
    let mut i: usize = from;
    while i < to
        invariant
            from <= i <= to <= v@.len(),
            s@ == v@.subrange(from as int, i as int),
        decreases to - i,
    {
        s.push(v[i]);
        i = i + 1;
        assert(s@ =~= v@.subrange(from as int, i as int));
    }
    s
}

/// The text made of the given characters.
pub fn string_of(v: &Vec<char>) -> (s: String)
    ensures
        s@ == v@,
{
    let s = string_of_range(v, 0, v.len());
    assert(v@.subrange(0, v@.len() as int) =~= v@);
    s
}

/// Whether two texts are the same.
pub fn same(a: &str, b: &str) -> (r: bool)
    ensures
        r == (a@ == b@),
{
    a.to_owned() == b.to_owned()
}

/// A copy of an optional string.
pub fn clone_opt(o: &Option<String>) -> (r: Option<String>)
    ensures
        r == *o,
{
    match o {
        Some(s) => Some(s.clone()),
        None => None,
    }
}

/// A copy of a list of strings.
pub fn clone_strings(v: &Vec<String>) -> (r: Vec<String>)
    ensures
        r@ == v@,
{
    let mut r: Vec<String> = Vec::new();
    let mut i: usize = 0;
    while i < v.len()
        invariant
            i <= v@.len(),
            r@ == v@.take(i as int),
        decreases v@.len() - i,
    {
        r.push(v[i].clone());
        i = i + 1;
        assert(r@ =~= v@.take(i as int));
    }
    assert(v@.take(v@.len() as int) =~= v@);
    r
}

/// The text without the white space that leads it.
pub open spec fn trimmed_start(s: Seq<char>) -> Seq<char>
    decreases s.len(),
{
    if s.len() > 0 && white_space(s[0]) {
        trimmed_start(s.drop_first())
    } else {
        s
    }
}

/// The text without the white space that ends it.
pub open spec fn trimmed_end(s: Seq<char>) -> Seq<char>
    decreases s.len(),
{
    if s.len() > 0 && white_space(s.last()) {
        trimmed_end(s.drop_last())
    } else {
        s
    }
}

/// The text without leading and trailing white space.
pub open spec fn trimmed(s: Seq<char>) -> Seq<char> {
    trimmed_end(trimmed_start(s))
}

/// What is left of `text` without leading and trailing white space.
pub fn trim(text: &str) -> (r: String)
    ensures
        r@ == trimmed(text@),
{
    let v = chars_of(text);
    let mut from: usize = 0;
    assert(v@.subrange(0, v@.len() as int) =~= v@);
    while from < v.len() && v[from].is_whitespace()
        invariant
            from <= v@.len(),
            trimmed_start(v@.subrange(from as int, v@.len() as int)) == trimmed_start(v@),
        decreases v@.len() - from,
    {
        let ghost rest = v@.subrange(from as int, v@.len() as int);
        assert(rest.drop_first() =~= v@.subrange(from + 1, v@.len() as int));
        from = from + 1;
    }
    let mut to: usize = v.len();
    while from < to && v[to - 1].is_whitespace()
        invariant
            from <= to <= v@.len(),
            trimmed_end(v@.subrange(from as int, to as int)) == trimmed_end(
                v@.subrange(from as int, v@.len() as int),
            ),
        decreases to,
    {
        let ghost rest = v@.subrange(from as int, to as int);
        assert(rest.drop_last() =~= v@.subrange(from as int, to - 1));
        to = to - 1;
    }
    string_of_range(&v, from, to)
}

/// Whether `s` begins with `p`.
pub open spec fn starts_with(s: Seq<char>, p: Seq<char>) -> bool {
    p.len() <= s.len() && s.take(p.len() as int) == p
}

/// Whether `s` has `p` at position `i`.
pub open spec fn occurs_at(s: Seq<char>, p: Seq<char>, i: int) -> bool {
    0 <= i && i + p.len() <= s.len() && s.subrange(i, i + p.len()) == p
}

/// Whether `p` occurs in `s`.
pub open spec fn occurs(s: Seq<char>, p: Seq<char>) -> bool {
    exists|i: int| #[trigger] occurs_at(s, p, i)
}

/// Whether `p` stands in `s` at position `at`.
pub fn has_at(s: &Vec<char>, p: &Vec<char>, at: usize) -> (r: bool)
    requires
        at <= s@.len(),
    ensures
        r == occurs_at(s@, p@, at as int),
{
    if p.len() > s.len() - at {
        return false;
    }
    let mut i: usize = 0;
    while i < p.len()
        invariant
            i <= p@.len(),
            at + p@.len() <= s.len(),
            forall|j: int| 0 <= j < i ==> s@[at + j] == p@[j],
        decreases p@.len() - i,
    {
        if s[at + i] != p[i] {
            assert(s@.subrange(at as int, at + p@.len())[i as int] != p@[i as int]);
            return false;
        }
        i = i + 1;
    }
    assert(s@.subrange(at as int, at + p@.len()) =~= p@);
    true
}

proof fn lemma_starts_with_is_occurs_at_zero(s: Seq<char>, p: Seq<char>)
    ensures
        starts_with(s, p) == occurs_at(s, p, 0),
{
    if p.len() <= s.len() {
        assert(s.subrange(0, p.len() as int) =~= s.take(p.len() as int));
    }
}

/// Whether `text` begins with `prefix`.
pub fn begins(text: &str, prefix: &str) -> (r: bool)
    ensures
        r == starts_with(text@, prefix@),
{
    proof {
        lemma_starts_with_is_occurs_at_zero(text@, prefix@);
    }
    has_at(&chars_of(text), &chars_of(prefix), 0)
}

/// Whether `part` occurs in `text`.
pub fn contains(text: &str, part: &str) -> (r: bool)
    ensures
        r == occurs(text@, part@),
{
    let t = chars_of(text);
    let p = chars_of(part);
    if p.len() > t.len() {
        return false;
    }
    let last: usize = t.len() - p.len();
    let mut i: usize = 0;
    loop
        invariant
            t@ == text@,
            p@ == part@,
            i <= last,
            last + p@.len() == t@.len(),
            forall|j: int| 0 <= j < i ==> !occurs_at(t@, p@, j),
        decreases last - i,
    {
        if has_at(&t, &p, i) {
            assert(occurs_at(text@, part@, i as int));
            return true;
        }
        if i == last {
            return false;
        }
        i = i + 1;
    }
}

/// The text with `A` to `Z` lowered.
pub fn to_ascii_lower(text: &str) -> (r: String)
    ensures
        r@ == ascii_lowered(text@),
{
    let v = chars_of(text);
    let mut r = String::new();
    let mut i: usize = 0;
    while i < v.len()
        invariant
            i <= v@.len(),
            r@ == ascii_lowered(v@).take(i as int),
        decreases v@.len() - i,
    {
        r.push(to_ascii_lower_char(v[i]));
        i = i + 1;
        assert(r@ =~= ascii_lowered(v@).take(i as int));
    }
    assert(ascii_lowered(v@).take(v@.len() as int) =~= ascii_lowered(v@));
    r
}

/// Where the run of characters that are not white space and that begins at `i`
/// ends.
pub open spec fn word_end(s: Seq<char>, i: int) -> int
    decreases s.len() - i,
{
    if 0 <= i < s.len() && !white_space(s[i]) {
        word_end(s, i + 1)
    } else {
        i
    }
}

/// The words of `s` at or after position `i`: its longest runs without white
/// space.
pub open spec fn words_from(s: Seq<char>, i: int) -> Seq<Seq<char>>
    decreases s.len() - i,
{
    if i < 0 || i >= s.len() {
        Seq::empty()
    } else if white_space(s[i]) {
        words_from(s, i + 1)
    } else if i < word_end(s, i) <= s.len() {
        seq![s.subrange(i, word_end(s, i))] + words_from(s, word_end(s, i))
    } else {
        Seq::empty()
    }
}

/// The words of `text`, as `str::split_whitespace` gives them.
pub fn words(text: &str) -> (r: Vec<String>)
    ensures
        texts(r@) == words_from(text@, 0),
{
    let v = chars_of(text);
    let mut r: Vec<String> = Vec::new();
    let mut i: usize = 0;
    let ghost all = words_from(v@, 0);
    assert(texts(r@) + all =~= all);
    while i < v.len()
        invariant
            i <= v@.len(),
            all == texts(r@) + words_from(v@, i as int),
        decreases v@.len() - i,
    {
        if v[i].is_whitespace() {
            i = i + 1;
        } else {
            let mut j: usize = i + 1;
            while j < v.len() && !v[j].is_whitespace()
                invariant
                    i < j <= v@.len(),
                    word_end(v@, j as int) == word_end(v@, i as int),
                decreases v@.len() - j,
            {
                j = j + 1;
            }
            let ghost before = texts(r@);
            let word = string_of_range(&v, i, j);
            r.push(word);
            assert(texts(r@) =~= before.push(word@));
            assert(all =~= texts(r@) + words_from(v@, j as int));
            i = j;
        }
    }
    assert(all =~= texts(r@));
    r
}

/// The parts of `s` between the occurrences of `sep`, from position `from` on,
/// where the part under way began at `start`.
pub open spec fn split_from(s: Seq<char>, sep: char, start: int, from: int) -> Seq<Seq<char>>
    decreases s.len() - from,
{
    if from < 0 || from >= s.len() {
        seq![s.subrange(start, s.len() as int)]
    } else if s[from] == sep {
        seq![s.subrange(start, from)] + split_from(s, sep, from + 1, from + 1)
    } else {
        split_from(s, sep, start, from + 1)
    }
}

/// The parts of `s` between the occurrences of `sep`.
pub open spec fn split_at_each(s: Seq<char>, sep: char) -> Seq<Seq<char>> {
    split_from(s, sep, 0, 0)
}

/// The parts of `text` between the occurrences of `sep`.
pub fn split(text: &str, sep: char) -> (r: Vec<String>)
    ensures
        texts(r@) == split_at_each(text@, sep),
{
    let v = chars_of(text);
    let mut r: Vec<String> = Vec::new();
    let mut start: usize = 0;
    let mut i: usize = 0;
    let ghost all = split_at_each(v@, sep);
    assert(texts(r@) + all =~= all);
    while i < v.len()
        invariant
            start <= i <= v@.len(),
            all == texts(r@) + split_from(v@, sep, start as int, i as int),
        decreases v@.len() - i,
    {
        if v[i] == sep {
            let ghost before = texts(r@);
            let part = string_of_range(&v, start, i);
            r.push(part);
            assert(texts(r@) =~= before.push(part@));
            assert(all =~= texts(r@) + split_from(v@, sep, i + 1, i + 1));
            start = i + 1;
        }
        i = i + 1;
    }
    let ghost before = texts(r@);
    let part = string_of_range(&v, start, v.len());
    r.push(part);
    assert(texts(r@) =~= before.push(part@));
    assert(all =~= texts(r@));
    r
}

/// The decimal digits of a number, most significant first.
pub open spec fn decimal(n: nat) -> Seq<char>
    decreases n,
{
    if n < 10 {
        seq![digit_char(n)]
    } else {
        decimal(n / 10).push(digit_char(n % 10))
    }
}

pub open spec fn digit_char(d: nat) -> char {
    ((d + 48) as u8) as char
}

/// The decimal digits of `n`.
pub fn decimal_text(n: u64) -> (s: String)
    ensures
        s@ == decimal(n as nat),
{
    wide_decimal_text(n as u128)
}

/// The decimal digits of `n`.
pub fn wide_decimal_text(n: u128) -> (s: String)
    ensures
        s@ == decimal(n as nat),
    decreases n,
{
    let d: u8 = (n % 10) as u8;
    let c: char = (d + 48) as char;
    if n < 10 {
        let mut s = String::new();
        s.push(c);
        assert(s@ =~= decimal(n as nat));
        s
    } else {
        let mut s = wide_decimal_text(n / 10);
        s.push(c);
        s
    }
}

/// `n` copies of `s`.
pub open spec fn repeated(s: Seq<char>, n: nat) -> Seq<char>
    decreases n,
{
    if n == 0 {
        Seq::empty()
    } else {
        repeated(s, (n - 1) as nat) + s
    }
}

pub proof fn lemma_repeated_len(s: Seq<char>, n: nat)
    ensures
        repeated(s, n).len() == n * s.len(),
    decreases n,
{
    let k = s.len() as int;
    if n > 0 {
        lemma_repeated_len(s, (n - 1) as nat);
        assert(n * k == (n - 1) * k + k) by (nonlinear_arith);
    } else {
        assert(0 * k == 0);
    }
}

/// `n` copies of `text`.
pub fn repeat(text: &str, n: usize) -> (r: String)
    ensures
        r@ == repeated(text@, n as nat),
{
    let mut r = String::new();
    let mut i: usize = 0;
    while i < n
        invariant
            i <= n,
            r@ == repeated(text@, i as nat),
        decreases n - i,
    {
        r.append(text);
        i = i + 1;
    }
    r
}

/// The parts put together with `sep` between each two.
pub open spec fn joined(parts: Seq<Seq<char>>, sep: Seq<char>) -> Seq<char>
    decreases parts.len(),
{
    if parts.len() == 0 {
        Seq::empty()
    } else if parts.len() == 1 {
        parts[0]
    } else {
        joined(parts.drop_last(), sep) + sep + parts.last()
    }
}

/// The parts put together with `sep` between each two.
pub fn join(parts: &Vec<String>, sep: &str) -> (r: String)
    ensures
        r@ == joined(texts(parts@), sep@),
{
    let mut r = String::new();
    let ghost all = texts(parts@);
    let mut i: usize = 0;
    while i < parts.len()
        invariant
            i <= parts@.len(),
            all == texts(parts@),
            r@ == joined(all.take(i as int), sep@),
        decreases parts@.len() - i,
    {
        if i > 0 {
            r.append(sep);
        }
        r.append(parts[i].as_str());
        i = i + 1;
        assert(all.take(i as int).drop_last() =~= all.take(i - 1));
        assert(r@ =~= joined(all.take(i as int), sep@));
    }
    assert(all.take(parts@.len() as int) =~= all);
    r
}

/// What an optional borrowed text says.
pub open spec fn opt_str(s: Option<&str>) -> Option<Seq<char>> {
    match s {
        Some(s) => Some(s@),
        None => None,
    }
}

/// Append a text to a list of texts.
pub fn push_text(v: &mut Vec<String>, s: String)
    ensures
        texts(final(v)@) == texts(old(v)@).push(s@),
{
    v.push(s);
    assert(texts(v@) =~= texts(old(v)@).push(s@));
}

/// A number in decimal, with its sign where it is negative.
pub open spec fn signed_decimal(n: int) -> Seq<char> {
    if n < 0 {
        "-"@ + decimal((-n) as nat)
    } else {
        decimal(n as nat)
    }
}

/// A number in decimal, with its sign where it is negative.
pub fn signed_decimal_text(n: i64) -> (r: String)
    ensures
        r@ == signed_decimal(n as int),
{
    if n < 0 {
        let mut r = "-".to_owned();
        r.append(decimal_text((0 - n as i128) as u64).as_str());
        r
    } else {
        decimal_text(n as u64)
    }
}

/// The UTF-8 bytes of a text.
pub fn bytes_of(text: &str) -> (r: Vec<u8>)
    ensures
        r@ == vstd::utf8::encode_utf8(text@),
{
    let bytes = text.as_bytes();
    let mut r: Vec<u8> = Vec::new();
    let mut i: usize = 0;
    while i < bytes.len()
        invariant
            i <= bytes@.len(),
            r@ == bytes@.take(i as int),
        decreases bytes@.len() - i,
    {
        r.push(bytes[i]);
        i = i + 1;
        assert(r@ =~= bytes@.take(i as int));
    }
    assert(bytes@.take(bytes@.len() as int) =~= bytes@);
    r
}

// ---------------------------------------------------------------------------
// Laws.
// ---------------------------------------------------------------------------

proof fn lemma_trimmed_start(s: Seq<char>)
    ensures
        trimmed_start(s).len() <= s.len(),
        trimmed_start(s) == s.skip(s.len() - trimmed_start(s).len()),
        forall|k: int|
            0 <= k < s.len() - trimmed_start(s).len() ==> white_space(#[trigger] s[k]),
        trimmed_start(s).len() > 0 ==> !white_space(trimmed_start(s)[0]),
    decreases s.len(),
{
    if s.len() > 0 && white_space(s[0]) {
        let rest = s.drop_first();
        lemma_trimmed_start(rest);
        assert forall|k: int| 0 <= k < s.len() - trimmed_start(s).len() implies white_space(
            #[trigger] s[k],
        ) by {
            if k > 0 {
                assert(rest[k - 1] == s[k]);
            }
        }
        assert(trimmed_start(s) =~= s.skip(s.len() - trimmed_start(s).len()));
    } else {
        assert(s.skip(0) =~= s);
    }
}

proof fn lemma_trimmed_end(s: Seq<char>)
    ensures
        trimmed_end(s).len() <= s.len(),
        trimmed_end(s) == s.take(trimmed_end(s).len() as int),
        forall|k: int| trimmed_end(s).len() <= k < s.len() ==> white_space(#[trigger] s[k]),
        trimmed_end(s).len() > 0 ==> !white_space(trimmed_end(s).last()),
    decreases s.len(),
{
    if s.len() > 0 && white_space(s.last()) {
        let rest = s.drop_last();
        lemma_trimmed_end(rest);
        assert forall|k: int| trimmed_end(s).len() <= k < s.len() implies white_space(
            #[trigger] s[k],
        ) by {
            if k < rest.len() {
                assert(rest[k] == s[k]);
            }
        }
        assert(trimmed_end(s) =~= s.take(trimmed_end(s).len() as int));
    } else {
        assert(s.take(s.len() as int) =~= s);
    }
}

/// Whether `s` holds `t` at position `i`, and nothing but white space around it.
pub open spec fn padded_at(s: Seq<char>, t: Seq<char>, i: int) -> bool {
    &&& occurs_at(s, t, i)
    &&& forall|k: int| 0 <= k < i ==> white_space(#[trigger] s[k])
    &&& forall|k: int| i + t.len() <= k < s.len() ==> white_space(#[trigger] s[k])
}

/// Trimming takes white space off both ends, all of it, and nothing else.
pub proof fn law_trimming_takes_only_outer_white_space(s: Seq<char>)
    ensures
        exists|i: int| #[trigger] padded_at(s, trimmed(s), i),
        trimmed(s).len() > 0 ==> !white_space(trimmed(s)[0]) && !white_space(trimmed(s).last()),
        (trimmed(s).len() == 0) == (forall|k: int|
            0 <= k < s.len() ==> white_space(#[trigger] s[k])),
{
    let a = trimmed_start(s);
    let t = trimmed(s);
    lemma_trimmed_start(s);
    lemma_trimmed_end(a);
    let i = s.len() - a.len();
    assert(s.subrange(i, i + t.len()) =~= t);
    assert forall|k: int| i + t.len() <= k < s.len() implies white_space(#[trigger] s[k]) by {
        assert(a[k - i] == s[k]);
    }
    assert(padded_at(s, t, i));
    if t.len() > 0 {
        assert(t[0] == a[0]);
        assert(s[i] == t[0]);
    }
}

/// A text without white space at either end is left alone by trimming.
pub proof fn law_trimmed_text_stays(s: Seq<char>)
    requires
        s.len() > 0 ==> !white_space(s[0]) && !white_space(s.last()),
    ensures
        trimmed(s) == s,
{
}

proof fn lemma_word_end(s: Seq<char>, i: int)
    requires
        0 <= i <= s.len(),
    ensures
        i <= word_end(s, i) <= s.len(),
        forall|k: int| i <= k < word_end(s, i) ==> !white_space(#[trigger] s[k]),
        word_end(s, i) < s.len() ==> white_space(s[word_end(s, i)]),
    decreases s.len() - i,
{
    if i < s.len() && !white_space(s[i]) {
        lemma_word_end(s, i + 1);
    }
}

/// A word is not empty and has no white space in it.
pub proof fn law_words_have_no_white_space(s: Seq<char>, i: int)
    ensures
        forall|k: int, j: int|
            #![trigger words_from(s, i)[k][j]]
            0 <= k < words_from(s, i).len() && 0 <= j < words_from(s, i)[k].len()
                ==> !white_space(words_from(s, i)[k][j]),
        forall|k: int|
            0 <= k < words_from(s, i).len() ==> (#[trigger] words_from(s, i)[k]).len() > 0,
    decreases s.len() - i,
{
    if 0 <= i < s.len() {
        lemma_word_end(s, i);
        if white_space(s[i]) {
            law_words_have_no_white_space(s, i + 1);
            let rest = words_from(s, i + 1);
            assert(words_from(s, i) == rest);
        } else {
            let e = word_end(s, i);
            law_words_have_no_white_space(s, e);
            let rest = words_from(s, e);
            let all = words_from(s, i);
            assert(all =~= seq![s.subrange(i, e)] + rest);
            assert forall|k: int, j: int|
                #![trigger all[k][j]]
                0 <= k < all.len() && 0 <= j < all[k].len() implies !white_space(all[k][j]) by {
                if k > 0 {
                    assert(all[k] == rest[k - 1]);
                } else {
                    assert(all[k][j] == s[i + j]);
                }
            }
            assert forall|k: int| 0 <= k < all.len() implies (#[trigger] all[k]).len() > 0 by {
                if k > 0 {
                    assert(all[k] == rest[k - 1]);
                }
            }
        }
    }
}

proof fn lemma_words_of_tail(a: Seq<char>, b: Seq<char>, j: int)
    requires
        0 <= j <= b.len(),
    ensures
        words_from(a + b, a.len() + j) == words_from(b, j),
        word_end(a + b, a.len() + j) == a.len() + word_end(b, j),
    decreases b.len() - j,
{
    let s = a + b;
    if j < b.len() {
        assert(s[a.len() + j] == b[j]);
        lemma_words_of_tail(a, b, j + 1);
        if !white_space(b[j]) {
            let e = word_end(b, j);
            lemma_word_end(b, j);
            lemma_words_of_tail(a, b, e);
            assert(s.subrange(a.len() + j, a.len() + e) =~= b.subrange(j, e));
        }
    }
}

proof fn lemma_words_before_gap(a: Seq<char>, b: Seq<char>, i: int)
    requires
        0 <= i <= a.len(),
        b.len() > 0,
        white_space(b[0]),
    ensures
        words_from(a + b, i) == words_from(a, i) + words_from(b, 0),
        word_end(a + b, i) == word_end(a, i),
    decreases a.len() - i,
{
    let s = a + b;
    if i < a.len() {
        assert(s[i] == a[i]);
        lemma_words_before_gap(a, b, i + 1);
        if !white_space(a[i]) {
            let e = word_end(a, i);
            lemma_word_end(a, i);
            lemma_words_before_gap(a, b, e);
            assert(s.subrange(i, e) =~= a.subrange(i, e));
            assert(seq![a.subrange(i, e)] + (words_from(a, e) + words_from(b, 0)) =~= (seq![
                a.subrange(i, e),
            ] + words_from(a, e)) + words_from(b, 0));
        }
    } else {
        assert(s[i] == b[0]);
        lemma_words_of_tail(a, b, 0);
        assert(Seq::<Seq<char>>::empty() + words_from(b, 0) =~= words_from(b, 0));
    }
}

/// White space parts words: what stands before it and what stands behind it keep
/// their own, and no word reaches across.
pub proof fn law_white_space_parts_words(a: Seq<char>, gap: char, b: Seq<char>)
    requires
        white_space(gap),
    ensures
        words_from(a.push(gap) + b, 0) == words_from(a, 0) + words_from(b, 0),
        words_from(a.push(gap), 0) == words_from(a, 0),
{
    let g = seq![gap];
    lemma_words_before_gap(a, g + b, 0);
    assert(a.push(gap) + b =~= a + (g + b));
    lemma_words_of_tail(g, b, 0);
    assert((g + b)[0] == gap);
    lemma_words_before_gap(a, g, 0);
    assert(a.push(gap) =~= a + g);
    assert(words_from(g, 1) =~= Seq::<Seq<char>>::empty());
    assert(words_from(a, 0) + Seq::<Seq<char>>::empty() =~= words_from(a, 0));
}

/// Nothing but white space parts words: a text without any is one word.
pub proof fn law_solid_text_is_one_word(s: Seq<char>)
    requires
        s.len() > 0,
        forall|k: int| 0 <= k < s.len() ==> !white_space(#[trigger] s[k]),
    ensures
        words_from(s, 0) == seq![s],
{
    lemma_word_end(s, 0);
    let e = word_end(s, 0);
    assert(e == s.len());
    assert(words_from(s, e) =~= Seq::<Seq<char>>::empty());
    assert(s.subrange(0, e) =~= s);
    assert(seq![s] + Seq::<Seq<char>>::empty() =~= seq![s]);
}

/// Joining two lists is joining each and putting the separator between, and one
/// part alone stays as it is.
pub proof fn law_joining_puts_the_separator_between(
    a: Seq<Seq<char>>,
    b: Seq<Seq<char>>,
    sep: Seq<char>,
)
    ensures
        a.len() > 0 && b.len() > 0 ==> joined(a + b, sep) == joined(a, sep) + sep + joined(b, sep),
        a.len() == 1 ==> joined(a, sep) == a[0],
        a.len() == 0 ==> joined(a, sep) == Seq::<char>::empty(),
    decreases b.len(),
{
    if a.len() > 0 && b.len() > 0 {
        let all = a + b;
        assert(all.last() == b.last());
        if b.len() == 1 {
            assert(all.drop_last() =~= a);
        } else {
            assert(all.drop_last() =~= a + b.drop_last());
            law_joining_puts_the_separator_between(a, b.drop_last(), sep);
            assert((joined(a, sep) + sep + joined(b.drop_last(), sep)) + sep + b.last()
                =~= joined(a, sep) + sep + (joined(b.drop_last(), sep) + sep + b.last()));
        }
    }
}

proof fn lemma_split(s: Seq<char>, sep: char, start: int, from: int)
    requires
        0 <= start <= from <= s.len(),
        forall|k: int| start <= k < from ==> #[trigger] s[k] != sep,
    ensures
        split_from(s, sep, start, from).len() > 0,
        joined(split_from(s, sep, start, from), seq![sep]) == s.skip(start),
        forall|k: int, j: int|
            #![trigger split_from(s, sep, start, from)[k][j]]
            0 <= k < split_from(s, sep, start, from).len() && 0 <= j < split_from(
                s,
                sep,
                start,
                from,
            )[k].len() ==> split_from(s, sep, start, from)[k][j] != sep,
    decreases s.len() - from,
{
    let all = split_from(s, sep, start, from);
    if from >= s.len() {
        assert(s.subrange(start, s.len() as int) =~= s.skip(start));
    } else if s[from] == sep {
        lemma_split(s, sep, from + 1, from + 1);
        let rest = split_from(s, sep, from + 1, from + 1);
        let head = seq![s.subrange(start, from)];
        law_joining_puts_the_separator_between(head, rest, seq![sep]);
        assert(head[0] + seq![sep] + s.skip(from + 1) =~= s.skip(start));
        assert forall|k: int, j: int|
            #![trigger all[k][j]]
            0 <= k < all.len() && 0 <= j < all[k].len() implies all[k][j] != sep by {
            if k > 0 {
                assert(all[k] == rest[k - 1]);
            } else {
                assert(all[k][j] == s[start + j]);
            }
        }
    } else {
        lemma_split(s, sep, start, from + 1);
    }
}

/// Splitting and joining again gives back the text, and no part holds the
/// separator.
pub proof fn law_splitting_is_undone_by_joining(s: Seq<char>, sep: char)
    ensures
        joined(split_at_each(s, sep), seq![sep]) == s,
        forall|k: int, j: int|
            #![trigger split_at_each(s, sep)[k][j]]
            0 <= k < split_at_each(s, sep).len() && 0 <= j < split_at_each(s, sep)[k].len()
                ==> split_at_each(s, sep)[k][j] != sep,
{
    lemma_split(s, sep, 0, 0);
    assert(s.skip(0) =~= s);
}

/// The number that decimal digits stand for.
pub open spec fn number_of(digits: Seq<char>) -> int
    decreases digits.len(),
{
    if digits.len() == 0 {
        0
    } else {
        10 * number_of(digits.drop_last()) + (digits.last() as int - '0' as int)
    }
}

/// Decimal digits are read back as the number they were written for, and begin
/// with no zero that could be left out.
pub proof fn law_decimal_is_read_back(n: nat)
    ensures
        number_of(decimal(n)) == n,
        decimal(n).len() > 0,
        forall|k: int| 0 <= k < decimal(n).len() ==> '0' <= #[trigger] decimal(n)[k] <= '9',
        n > 0 ==> decimal(n)[0] != '0',
        n == 0 ==> decimal(n) == seq!['0'],
    decreases n,
{
    reveal_with_fuel(number_of, 2);
    if n >= 10 {
        law_decimal_is_read_back(n / 10);
        let less = decimal(n / 10);
        assert(decimal(n).drop_last() =~= less);
        assert(decimal(n)[0] == less[0]);
        assert forall|k: int| 0 <= k < decimal(n).len() implies '0' <= #[trigger] decimal(n)[k]
            <= '9' by {
            if k < less.len() {
                assert(decimal(n)[k] == less[k]);
            }
        }
    } else {
        assert(decimal(n).drop_last() =~= Seq::<char>::empty());
    }
}

/// A negative number has a minus sign before the digits, and another has none.
pub proof fn law_signs_are_kept(n: int)
    ensures
        n < 0 ==> signed_decimal(n)[0] == '-' && number_of(signed_decimal(n).skip(1)) == -n,
        n >= 0 ==> number_of(signed_decimal(n)) == n && signed_decimal(n)[0] != '-',
{
    reveal_strlit("-");
    if n < 0 {
        law_decimal_is_read_back((-n) as nat);
        assert(signed_decimal(n).skip(1) =~= decimal((-n) as nat));
    } else {
        law_decimal_is_read_back(n as nat);
    }
}

/// Copies add up, and one copy is the text itself.
pub proof fn law_copies_add_up(s: Seq<char>, a: nat, b: nat)
    ensures
        repeated(s, a + b) == repeated(s, a) + repeated(s, b),
        repeated(s, 1) == s,
    decreases b,
{
    reveal_with_fuel(repeated, 2);
    assert(Seq::<char>::empty() + s =~= s);
    if b > 0 {
        law_copies_add_up(s, a, (b - 1) as nat);
        assert(repeated(s, a) + repeated(s, (b - 1) as nat) + s =~= repeated(s, a) + (repeated(
            s,
            (b - 1) as nat,
        ) + s));
    } else {
        assert(repeated(s, a) + Seq::<char>::empty() =~= repeated(s, a));
    }
}

/// Lowering goes from each capital of the alphabet to its small letter, 32 on, and
/// leaves every other character; it is done once for all.
pub proof fn law_lowering_touches_capitals_only(s: Seq<char>, i: int)
    requires
        0 <= i < s.len(),
    ensures
        ascii_lowered(s).len() == s.len(),
        'A' <= s[i] <= 'Z' ==> ascii_lowered(s)[i] as int == s[i] as int + 32,
        !('A' <= s[i] <= 'Z') ==> ascii_lowered(s)[i] == s[i],
        !('A' <= ascii_lowered(s)[i] <= 'Z'),
        ascii_lowered(ascii_lowered(s)) == ascii_lowered(s),
{
    let l = ascii_lowered(s);
    assert forall|k: int| 0 <= k < l.len() implies !('A' <= #[trigger] l[k] <= 'Z') by {
        assert(l[k] == ascii_lower_char(s[k]));
    }
    assert(ascii_lowered(l) =~= l);
}

/// A text occurs in another exactly where what stands around it makes up the rest, and
/// at the beginning exactly where nothing stands before it.
pub proof fn law_occurrences_are_found(a: Seq<char>, p: Seq<char>, b: Seq<char>)
    ensures
        occurs(a + p + b, p),
        starts_with(p + b, p),
{
    let s = a + p + b;
    assert(s.subrange(a.len() as int, (a.len() + p.len()) as int) =~= p);
    assert(occurs_at(s, p, a.len() as int));
    assert((p + b).take(p.len() as int) =~= p);
}

/// Where a text is said to occur it can be cut out.
pub proof fn law_only_occurrences_are_found(s: Seq<char>, p: Seq<char>)
    ensures
        occurs(s, p) ==> exists|i: int|
            0 <= i && i + p.len() <= s.len() && #[trigger] s.subrange(i, i + p.len()) == p,
        starts_with(s, p) ==> p.len() <= s.len() && s.subrange(0, p.len() as int) == p,
{
    if occurs(s, p) {
        let i = choose|i: int| #[trigger] occurs_at(s, p, i);
        assert(s.subrange(i, i + p.len()) == p);
    }
    if starts_with(s, p) {
        assert(s.subrange(0, p.len() as int) =~= s.take(p.len() as int));
    }
}

} // verus!
