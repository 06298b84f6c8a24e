//! Text styles for chat messages.
//!
//! **Attribute styles** decorate the text without changing it. **Substitution
//! styles** rewrite the characters themselves, before the text is wrapped.
//! Anything unrecognized is plain text.
use std::borrow::Cow;

use vstd::prelude::*;

use crate::draw::{self, push_span, Span};
use crate::strs::{self, chars_of, same, split, to_ascii_lower, to_ascii_lower_char, trim};
use crate::text::{self, columns_of};
use crate::theme::{Color, Style, Theme};

verus! {

/// The glyph an unrevealed `spoiler` is masked with.
pub const SPOILER_GLYPH: char = '▒';

/// The `rainbow` cycle: the six normal hues, which every terminal maps to
/// colors that are legible against its own background.
pub const RAINBOW: [Color; 6] = [
    Color::Red,
    Color::Yellow,
    Color::Green,
    Color::Cyan,
    Color::Blue,
    Color::Magenta,
];

/// The `style` field of a message.
#[derive(Debug, Clone)]
pub enum MessageStyle {
    One(String),
    Many(Vec<String>),
    /// A shape this client cannot read.
    Other,
}

/// The styles decoded off one message's `style` field.
#[derive(Debug, Clone, Copy, PartialEq, Eq, Structural)]
pub struct TextStyles {
    /// The content is base64.
    pub art: bool,
    /// Per-character color cycling.
    pub rainbow: bool,
    /// Dimmed.
    pub quiet: bool,
    /// Hidden until the reader reveals it.
    pub spoiler: bool,
    pub blink: bool,
    pub wave: bool,
    /// Dim italic.
    pub slow: bool,
    /// Reversed video when static, glyph corruption when animated.
    pub glitch: bool,
    /// Digit substitution. Rewrites the text.
    pub l33t: bool,
    /// ASCII letters to Mathematical Script. Rewrites the text.
    pub cursive: bool,
    /// Lowercased, reversed, upside-down lookalikes. Rewrites the text.
    pub flip: bool,
}

impl TextStyles {
    pub open spec fn none() -> TextStyles {
        TextStyles {
            art: false,
            rainbow: false,
            quiet: false,
            spoiler: false,
            blink: false,
            wave: false,
            slow: false,
            glitch: false,
            l33t: false,
            cursive: false,
            flip: false,
        }
    }
}

impl Default for TextStyles {
    fn default() -> (r: TextStyles)
        ensures
            r == TextStyles::none(),
    {
        TextStyles {
            art: false,
            rainbow: false,
            quiet: false,
            spoiler: false,
            blink: false,
            wave: false,
            slow: false,
            glitch: false,
            l33t: false,
            cursive: false,
            flip: false,
        }
    }
}

/// A style name as it is compared: without surrounding white space, lowered.
pub open spec fn style_name(part: Seq<char>) -> Seq<char> {
    strs::ascii_lowered(strs::trimmed(part))
}

/// Whether one of the `+`-chained parts of `name` is the style `wanted`.
pub open spec fn chain_has(name: Seq<char>, wanted: Seq<char>) -> bool {
    exists|k: int|
        0 <= k < strs::split_at_each(name, '+').len() && style_name(
            #[trigger] strs::split_at_each(name, '+')[k],
        ) == wanted
}

/// Whether the message asks for the style `wanted`.
pub open spec fn asks_for(style: Option<&MessageStyle>, wanted: Seq<char>) -> bool {
    match style {
        Some(MessageStyle::One(name)) => chain_has(name@, wanted),
        Some(MessageStyle::Many(names)) => exists|j: int|
            0 <= j < names@.len() && chain_has((#[trigger] names@[j])@, wanted),
        _ => false,
    }
}

/// The styles a message asks for.
pub open spec fn decoded(style: Option<&MessageStyle>) -> TextStyles {
    TextStyles {
        art: asks_for(style, "art"@),
        rainbow: asks_for(style, "rainbow"@),
        quiet: asks_for(style, "quiet"@),
        spoiler: asks_for(style, "spoiler"@),
        blink: asks_for(style, "blink"@),
        wave: asks_for(style, "wave"@),
        slow: asks_for(style, "slow"@),
        glitch: asks_for(style, "glitch"@),
        l33t: asks_for(style, "l33t"@),
        cursive: asks_for(style, "cursive"@),
        flip: asks_for(style, "flip"@),
    }
}

fn name_chain_has(name: &str, wanted: &str) -> (r: bool)
    ensures
        r == chain_has(name@, wanted@),
{
    let parts = split(name, '+');
    let ghost all = strs::split_at_each(name@, '+');
    let mut k: usize = 0;
    while k < parts.len()
        invariant
            k <= parts@.len(),
            all == strs::split_at_each(name@, '+'),
            strs::texts(parts@) == all,
            forall|j: int| 0 <= j < k ==> style_name(#[trigger] all[j]) != wanted@,
        decreases parts@.len() - k,
    {
        let part = to_ascii_lower(trim(parts[k].as_str()).as_str());
        assert(all[k as int] == parts@[k as int]@);
        if same(part.as_str(), wanted) {
            assert(style_name(strs::split_at_each(name@, '+')[k as int]) == wanted@);
            return true;
        }
        k = k + 1;
    }
    false
}

fn names_ask_for(names: &Vec<String>, wanted: &str) -> (r: bool)
    ensures
        r == exists|j: int|
            0 <= j < names@.len() && chain_has((#[trigger] names@[j])@, wanted@),
{
    let mut j: usize = 0;
    while j < names.len()
        invariant
            j <= names@.len(),
            forall|q: int| 0 <= q < j ==> !chain_has((#[trigger] names@[q])@, wanted@),
        decreases names@.len() - j,
    {
        if name_chain_has(names[j].as_str(), wanted) {
            return true;
        }
        j = j + 1;
    }
    false
}

fn message_asks_for(style: Option<&MessageStyle>, wanted: &str) -> (r: bool)
    ensures
        r == asks_for(style, wanted@),
{
    match style {
        Some(MessageStyle::One(name)) => name_chain_has(name.as_str(), wanted),
        Some(MessageStyle::Many(names)) => names_ask_for(names, wanted),
        _ => false,
    }
}

impl TextStyles {
    /// Decode a message's `style` field. Names are matched in either case, and
    /// a chain may be joined with `+`.
    pub fn from_message(style: Option<&MessageStyle>) -> (r: TextStyles)
        ensures
            r == decoded(style),
    {
        TextStyles {
            art: message_asks_for(style, "art"),
            rainbow: message_asks_for(style, "rainbow"),
            quiet: message_asks_for(style, "quiet"),
            spoiler: message_asks_for(style, "spoiler"),
            blink: message_asks_for(style, "blink"),
            wave: message_asks_for(style, "wave"),
            slow: message_asks_for(style, "slow"),
            glitch: message_asks_for(style, "glitch"),
            l33t: message_asks_for(style, "l33t"),
            cursive: message_asks_for(style, "cursive"),
            flip: message_asks_for(style, "flip"),
        }
    }
}

// ---------------------------------------------------------------------------
// Substitutions.
// ---------------------------------------------------------------------------

/// `l33t`: six substitutions, applied to either case.
pub const L33T: [(char, char); 6] = [
    ('a', '4'),
    ('e', '3'),
    ('i', '1'),
    ('o', '0'),
    ('s', '5'),
    ('t', '7'),
];

/// `flip`: a lowercase letter to its conventional upside-down lookalike.
pub const FLIP: [(char, char); 26] = [
    ('a', '\u{250}'),
    ('b', 'q'),
    ('c', '\u{254}'),
    ('d', 'p'),
    ('e', '\u{1dd}'),
    ('f', '\u{25f}'),
    ('g', '\u{183}'),
    ('h', '\u{265}'),
    ('i', '\u{1d09}'),
    ('j', '\u{27e}'),
    ('k', '\u{29e}'),
    ('l', 'l'),
    ('m', '\u{26f}'),
    ('n', 'u'),
    ('o', 'o'),
    ('p', 'd'),
    ('q', 'b'),
    ('r', '\u{279}'),
    ('s', 's'),
    ('t', '\u{287}'),
    ('u', 'n'),
    ('v', '\u{28c}'),
    ('w', '\u{28d}'),
    ('x', 'x'),
    ('y', '\u{28e}'),
    ('z', 'z'),
];

/// What a table puts in the place of `c`: the entry of its lowercase form, or
/// `c` itself where there is none.
pub open spec fn replacement(table: Seq<(char, char)>, c: char, from: int) -> char
    decreases table.len() - from,
{
    if from < 0 || from >= table.len() {
        c
    } else if table[from].0 == strs::ascii_lower_char(c) {
        table[from].1
    } else {
        replacement(table, c, from + 1)
    }
}

/// A text with each character replaced through a table.
pub open spec fn mapped(text: Seq<char>, table: Seq<(char, char)>) -> Seq<char> {
    Seq::new(text.len(), |i: int| replacement(table, text[i], 0))
}

/// Substitute through a table, leaving anything absent from it alone. An
/// uppercase letter takes its lowercase entry's replacement.
pub fn map_chars(text: &str, table: &[(char, char)]) -> (r: String)
    ensures
        r@ == mapped(text@, table@),
{
    let v = chars_of(text);
    let mut r = String::new();
    let mut i: usize = 0;
    while i < v.len()
        invariant
            i <= v@.len(),
            r@ == mapped(v@, table@).take(i as int),
        decreases v@.len() - i,
    {
        let key = to_ascii_lower_char(v[i]);
        let mut c = v[i];
        let mut k: usize = 0;
        while k < table.len()
            invariant_except_break
                k <= table@.len(),
                i < v@.len(),
                key == strs::ascii_lower_char(v@[i as int]),
                c == v@[i as int],
                replacement(table@, v@[i as int], k as int) == replacement(
                    table@,
                    v@[i as int],
                    0,
                ),
            ensures
                c == replacement(table@, v@[i as int], 0),
            decreases table@.len() - k,
        {
            if table[k].0 == key {
                c = table[k].1;
                break ;
            }
            k = k + 1;
        }
        r.push(c);
        i = i + 1;
        assert(r@ =~= mapped(v@, table@).take(i as int));
    }
    assert(mapped(v@, table@).take(v@.len() as int) =~= mapped(v@, table@));
    r
}

/// A character in Mathematical Script, or itself when it is no ASCII letter.
/// Where the block has a hole, the letter lives in Letterlike Symbols.
pub open spec fn script(c: char) -> char {
    match c {
        'B' => '\u{212c}',
        'E' => '\u{2130}',
        'F' => '\u{2131}',
        'H' => '\u{210b}',
        'I' => '\u{2110}',
        'L' => '\u{2112}',
        'M' => '\u{2133}',
        'R' => '\u{211b}',
        'e' => '\u{212f}',
        'g' => '\u{210a}',
        'o' => '\u{2134}',
        _ => if 'A' <= c && c <= 'Z' {
            (0x1D49C + (c as int - 'A' as int)) as char
        } else if 'a' <= c && c <= 'z' {
            (0x1D4B6 + (c as int - 'a' as int)) as char
        } else {
            c
        },
    }
}

/// One character into Mathematical Script, or unchanged if it is not an ASCII
/// letter.
pub fn to_script(c: char) -> (r: char)
    ensures
        r == script(c),
{
    match c {
        'B' => '\u{212c}',
        'E' => '\u{2130}',
        'F' => '\u{2131}',
        'H' => '\u{210b}',
        'I' => '\u{2110}',
        'L' => '\u{2112}',
        'M' => '\u{2133}',
        'R' => '\u{211b}',
        'e' => '\u{212f}',
        'g' => '\u{210a}',
        'o' => '\u{2134}',
        _ => {
            let n: u32 = c as u32;
            let code: u32 = if 'A' <= c && c <= 'Z' {
                0x1D49C + (n - 65)
            } else if 'a' <= c && c <= 'z' {
                0x1D4B6 + (n - 97)
            } else {
                return c;
            };
            match char::from_u32(code) {
                Some(s) => s,
                None => c,
            }
        },
    }
}

/// Upside-down text, of a text already lowered: mapped, and read back to front.
pub open spec fn flipped(lower: Seq<char>) -> Seq<char> {
    mapped(lower, FLIP@).reverse()
}

/// Flip a text that is already lowered.
pub fn flip_lowered(lower: &str) -> (r: String)
    ensures
        r@ == flipped(lower@),
{
    let m = map_chars(lower, FLIP.as_slice());
    let v = chars_of(m.as_str());
    let mut r = String::new();
    let mut i: usize = v.len();
    while i > 0
        invariant
            i <= v@.len(),
            r@ == v@.reverse().take(v@.len() - i),
        decreases i,
    {
        i = i - 1;
        r.push(v[i]);
        assert(r@ =~= v@.reverse().take(v@.len() - i));
    }
    assert(v@.reverse().take(v@.len() as int) =~= v@.reverse());
    r
}

impl TextStyles {
    pub open spec fn substitutes_spec(self) -> bool {
        self.l33t || self.cursive || self.flip
    }

    /// Whether any style here rewrites the text rather than decorating it.
    pub fn substitutes(self) -> (b: bool)
        ensures
            b == self.substitutes_spec(),
    {
        self.l33t || self.cursive || self.flip
    }

    /// The text with `l33t` and `cursive` applied, in that order.
    pub open spec fn spelled(self, text: Seq<char>) -> Seq<char> {
        let a = if self.l33t {
            mapped(text, L33T@)
        } else {
            text
        };
        if self.cursive {
            Seq::new(a.len(), |i: int| script(a[i]))
        } else {
            a
        }
    }

    /// The text after all substitutions: `flip` comes last.
    pub open spec fn substituted(self, text: Seq<char>) -> Seq<char> {
        if self.flip {
            flipped(strs::lowercase(self.spelled(text)))
        } else {
            self.spelled(text)
        }
    }

    /// The text with `l33t` and `cursive` applied, in that order.
    pub fn spell(self, text: &str) -> (r: String)
        ensures
            r@ == self.spelled(text@),
    {
        let a = if self.l33t {
            map_chars(text, L33T.as_slice())
        } else {
            text.to_owned()
        };
        if !self.cursive {
            return a;
        }
        let v = chars_of(a.as_str());
        let mut r = String::new();
        let mut i: usize = 0;
        while i < v.len()
            invariant
                i <= v@.len(),
                r@.len() == i,
                forall|k: int| 0 <= k < i ==> r@[k] == script(v@[k]),
            decreases v@.len() - i,
        {
            r.push(to_script(v[i]));
            i = i + 1;
        }
        assert(r@ =~= self.spelled(text@));
        r
    }

    /// Apply the substitution styles, which must happen before the text is
    /// wrapped or masked. The text is borrowed when none applies.
    pub fn transform<'a>(self, text: &'a str) -> (r: Cow<'a, str>)
        ensures
            r@ == self.substituted(text@),
            r is Borrowed <==> !self.substitutes_spec(),
    {
        if !self.substitutes() {
            return Cow::Borrowed(text);
        }
        let spelled = self.spell(text);
        if self.flip {
            let lower = spelled.as_str().to_lowercase();
            Cow::Owned(flip_lowered(lower.as_str()))
        } else {
            Cow::Owned(spelled)
        }
    }

    pub open spec fn animates_spec(self) -> bool {
        self.blink || self.wave || self.glitch
    }

    /// Whether these styles have anything to animate.
    pub fn animates(self) -> (b: bool)
        ensures
            b == self.animates_spec(),
    {
        self.blink || self.wave || self.glitch
    }
}

// ---------------------------------------------------------------------------
// Decoration.
// ---------------------------------------------------------------------------

/// How many animation frames one blink phase lasts.
pub const BLINK_PHASE_FRAMES: usize = 4;

/// How often the animation clock advances, in milliseconds.
pub const ANIM_TICK_MILLIS: u64 = 150;

/// The animation tick interval in milliseconds.
pub fn anim_tick() -> (r: u64)
    ensures
        r == 150,
{
    ANIM_TICK_MILLIS
}

/// Distance between wave crests, in characters.
pub const WAVE_SPACING: usize = 5;

/// Where the crest stands at `frame`: it travels along and bounces back.
pub open spec fn crest_phase(frame: int) -> int {
    let t = frame % 8;
    if t > 4 {
        8 - t
    } else {
        t
    }
}

/// Whether character `i` is under the wave's crest at `frame`.
pub fn wave_crest(i: usize, frame: usize) -> (b: bool)
    ensures
        b == (i as int % 5 == crest_phase(frame as int)),
{
    let period: usize = 2 * (WAVE_SPACING - 1);
    let t: usize = frame % period;
    let phase: usize = if t > WAVE_SPACING - 1 {
        period - t
    } else {
        t
    };
    i % WAVE_SPACING == phase
}

/// Whether the palette has been flattened to no color at all.
pub open spec fn monochrome(theme: Theme) -> bool {
    theme.foreground == Color::Reset && theme.accent == Color::Reset && theme.error == Color::Reset
}

pub fn is_monochrome(theme: &Theme) -> (b: bool)
    ensures
        b == monochrome(*theme),
{
    theme.foreground == Color::Reset && theme.accent == Color::Reset && theme.error == Color::Reset
}

/// For each character, as many copies of `glyph` as it takes columns.
pub open spec fn filled(s: Seq<char>, glyph: char) -> Seq<char>
    decreases s.len(),
{
    if s.len() == 0 {
        Seq::empty()
    } else {
        filled(s.drop_last(), glyph) + Seq::new(
            text::columns(s.last()) as nat,
            |i: int| glyph,
        )
    }
}

fn fill(text: &str, glyph: char) -> (r: String)
    ensures
        r@ == filled(text@, glyph),
{
    let v = chars_of(text);
    let mut r = String::new();
    let mut i: usize = 0;
    while i < v.len()
        invariant
            i <= v@.len(),
            r@ == filled(v@.take(i as int), glyph),
        decreases v@.len() - i,
    {
        let n: usize = columns_of(v[i]);
        let ghost before = r@;
        let mut k: usize = 0;
        while k < n
            invariant
                k <= n,
                r@ == before + Seq::new(k as nat, |i: int| glyph),
            decreases n - k,
        {
            r.push(glyph);
            k = k + 1;
            assert(r@ =~= before + Seq::new(k as nat, |i: int| glyph));
        }
        i = i + 1;
        assert(v@.take(i as int).drop_last() =~= v@.take(i - 1));
    }
    assert(v@.take(v@.len() as int) =~= v@);
    r
}

/// Mask a row for an unrevealed `spoiler`: each character becomes as many
/// glyphs as it took columns.
pub fn mask(text: &str) -> (r: String)
    ensures
        r@ == filled(text@, SPOILER_GLYPH),
{
    fill(text, SPOILER_GLYPH)
}

/// The style the presentational styles make of `base`. `rainbow` shows here
/// only where there is no color to cycle. The stand-ins for `wave` and
/// `glitch` are drawn only when there is no clock.
pub open spec fn decorated(styles: TextStyles, base: Style, theme: Theme, animating: bool) -> Style {
    Style {
        fg: if styles.blink {
            Some(theme.warning)
        } else {
            base.fg
        },
        bg: base.bg,
        bold: base.bold || styles.blink || (styles.rainbow && monochrome(theme)),
        dim: base.dim || styles.quiet || styles.slow,
        italic: base.italic || styles.slow || (styles.wave && !animating),
        underlined: base.underlined,
        reversed: base.reversed || (styles.glitch && !animating),
    }
}

/// Fold the presentational styles into one style.
pub fn decorate(styles: TextStyles, base: Style, theme: &Theme, animating: bool) -> (r: Style)
    ensures
        r == decorated(styles, base, *theme, animating),
{
    let mut style = base;
    if styles.quiet {
        style.dim = true;
    }
    if styles.slow {
        style.dim = true;
        style.italic = true;
    }
    if styles.wave && !animating {
        style.italic = true;
    }
    if styles.glitch && !animating {
        style.reversed = true;
    }
    if styles.blink {
        style.bold = true;
        style.fg = Some(theme.warning);
    }
    if styles.rainbow && is_monochrome(theme) {
        style.bold = true;
    }
    style
}

/// Whether the row is blanked at this frame: the off phase of `blink`. A masked
/// spoiler is left alone.
pub open spec fn blanked(styles: TextStyles, revealed: bool, frame: Option<usize>) -> bool {
    &&& frame is Some
    &&& styles.blink
    &&& !(styles.spoiler && !revealed)
    &&& (frame->Some_0 as int / 4) % 2 == 1
}

/// The run of character `i` when each character has its own style.
pub open spec fn cell_span(
    c: char,
    i: int,
    styles: TextStyles,
    style: Style,
    theme: Theme,
    frame: Option<usize>,
) -> draw::SpanView {
    draw::span(
        seq![c],
        Style {
            fg: if styles.rainbow && !monochrome(theme) {
                Some(RAINBOW@[i % 6])
            } else {
                style.fg
            },
            bold: style.bold || (styles.wave && frame is Some && i % 5 == crest_phase(
                frame->Some_0 as int,
            )),
            ..style
        },
    )
}

/// One wrapped row of message text as styled spans.
pub open spec fn row_spans(
    text: Seq<char>,
    styles: TextStyles,
    revealed: bool,
    base: Style,
    theme: Theme,
    frame: Option<usize>,
) -> Seq<draw::SpanView> {
    let animating = frame is Some && (styles.wave || styles.glitch);
    let style = decorated(styles, base, theme, animating);
    if blanked(styles, revealed, frame) {
        draw::one(filled(text, ' '), base)
    } else if styles.spoiler && !revealed {
        draw::one(filled(text, SPOILER_GLYPH), Style { fg: Some(theme.muted), ..style })
    } else if !(styles.rainbow && !monochrome(theme)) && !(animating && styles.wave) {
        draw::one(text, style)
    } else {
        Seq::new(text.len(), |i: int| cell_span(text[i], i, styles, style, theme, frame))
    }
}

/// Render one already-wrapped row of message text as styled spans.
///
/// A `frame` of `None` is the static approximation; otherwise `blink`, `wave`
/// and `glitch` are advanced, and every other style renders the same.
pub fn styled_spans_at(
    text: &str,
    styles: TextStyles,
    revealed: bool,
    base: Style,
    theme: &Theme,
    frame: Option<usize>,
) -> (r: Vec<Span>)
    ensures
        draw::span_views(r@) == row_spans(text@, styles, revealed, base, *theme, frame),
{
    let hidden_spoiler = styles.spoiler && !revealed;
    let mut r: Vec<Span> = Vec::new();
    if let Some(f) = frame {
        if styles.blink && !hidden_spoiler && (f / BLINK_PHASE_FRAMES) % 2 == 1 {
            // Blank rather than absent, and as wide as the row.
            push_span(&mut r, Span::new(fill(text, ' '), base));
            assert(draw::span_views(r@) =~= draw::one(filled(text@, ' '), base));
            return r;
        }
    }
    let animating = frame.is_some() && (styles.wave || styles.glitch);
    let style = decorate(styles, base, theme, animating);
    if hidden_spoiler {
        let mut masked = style;
        masked.fg = Some(theme.muted);
        push_span(&mut r, Span::new(mask(text), masked));
        assert(draw::span_views(r@) =~= draw::one(filled(text@, SPOILER_GLYPH), masked));
        return r;
    }
    let rainbow = styles.rainbow && !is_monochrome(theme);
    let per_cell = animating && styles.wave;
    if !rainbow && !per_cell {
        push_span(&mut r, Span::of(text, style));
        assert(draw::span_views(r@) =~= draw::one(text@, style));
        return r;
    }
    let v = chars_of(text);
    let ghost want = row_spans(text@, styles, revealed, base, *theme, frame);
    assert(draw::span_views(r@) =~= want.take(0));
    let mut i: usize = 0;
    while i < v.len()
        invariant
            i <= v@.len(),
            v@ == text@,
            rainbow == (styles.rainbow && !monochrome(*theme)),
            want.len() == v@.len(),
            forall|k: int|
                0 <= k < v@.len() ==> want[k] == cell_span(
                    v@[k],
                    k,
                    styles,
                    style,
                    *theme,
                    frame,
                ),
            draw::span_views(r@) == want.take(i as int),
        decreases v@.len() - i,
    {
        let mut st = style;
        if rainbow {
            st.fg = Some(RAINBOW[i % 6]);
        }
        if let Some(f) = frame {
            if styles.wave && wave_crest(i, f) {
                st.bold = true;
            }
        }
        let mut s = String::new();
        s.push(v[i]);
        assert(s@ =~= seq![v@[i as int]]);
        push_span(&mut r, Span::new(s, st));
        assert(want.take(i + 1) =~= want.take(i as int).push(want[i as int]));
        i = i + 1;
    }
    assert(want.take(v@.len() as int) =~= want);
    r
}

// ---------------------------------------------------------------------------
// Corruption.
// ---------------------------------------------------------------------------

/// Combining marks that sit above a glyph.
pub const ABOVE: [char; 20] = [
    '\u{0300}',
    '\u{0301}',
    '\u{0302}',
    '\u{0303}',
    '\u{0304}',
    '\u{0306}',
    '\u{0307}',
    '\u{0308}',
    '\u{0309}',
    '\u{030a}',
    '\u{030b}',
    '\u{030c}',
    '\u{030d}',
    '\u{030f}',
    '\u{0310}',
    '\u{0311}',
    '\u{0313}',
    '\u{033d}',
    '\u{033e}',
    '\u{0350}',
];

/// Combining marks that sit below a glyph.
pub const BELOW: [char; 18] = [
    '\u{0316}',
    '\u{0317}',
    '\u{0318}',
    '\u{031e}',
    '\u{031f}',
    '\u{0320}',
    '\u{0323}',
    '\u{0324}',
    '\u{0325}',
    '\u{0327}',
    '\u{0328}',
    '\u{032a}',
    '\u{032c}',
    '\u{032d}',
    '\u{032e}',
    '\u{0330}',
    '\u{0331}',
    '\u{0353}',
];

/// Combining marks drawn through a glyph.
pub const THROUGH: [char; 5] = ['\u{0334}', '\u{0335}', '\u{0336}', '\u{0337}', '\u{0338}'];

/// The value for a character position, a frame and a salt: one round of mixing
/// of a weighted sum, so that neighbors do not land on neighboring values.
pub open spec fn noise_value(i: usize, frame: usize, salt: u64) -> u64 {
    let h = (i as u64).wrapping_mul(0x9E37_79B9_7F4A_7C15).wrapping_add(
        (frame as u64).wrapping_mul(0xBF58_476D_1CE4_E5B9),
    ).wrapping_add(salt.wrapping_mul(0x94D0_49BB_1331_11EB));
    let h = (h ^ (h >> 30)).wrapping_mul(0xBF58_476D_1CE4_E5B9);
    h ^ (h >> 27)
}

/// A deterministic value for a character position, a frame and a salt.
pub fn noise(i: usize, frame: usize, salt: u64) -> (r: u64)
    ensures
        r == noise_value(i, frame, salt),
{
    let a: u64 = (i as u64).wrapping_mul(0x9E37_79B9_7F4A_7C15);
    let b: u64 = (frame as u64).wrapping_mul(0xBF58_476D_1CE4_E5B9);
    let c: u64 = salt.wrapping_mul(0x94D0_49BB_1331_11EB);
    let mut h: u64 = a.wrapping_add(b).wrapping_add(c);
    h = h ^ (h >> 30);
    h = h.wrapping_mul(0xBF58_476D_1CE4_E5B9);
    h = h ^ (h >> 27);
    h
}

/// Whether character `i` is corrupted this `frame`.
pub open spec fn hit(i: usize, frame: usize) -> bool {
    noise_value(i, frame, 0) % 5 == 0
}

/// Whether character `i` is corrupted this `frame`.
pub fn glitch_hit(i: usize, frame: usize) -> (b: bool)
    ensures
        b == hit(i, frame),
{
    noise(i, frame, 0) % 5 == 0
}

pub open spec fn takes_below(at: usize, frame: usize) -> bool {
    noise_value(at, frame, 0x22) % 10 < 4
}

pub open spec fn takes_through(at: usize, frame: usize) -> bool {
    noise_value(at, frame, 0x33) % 10 < 2
}

/// A hit that rolled neither of the other two still takes a mark above.
pub open spec fn takes_above(at: usize, frame: usize) -> bool {
    noise_value(at, frame, 0x11) % 10 < 7 || !(takes_below(at, frame) || takes_through(at, frame))
}

/// The marks of one set that character `at` takes: one or none.
pub open spec fn marks_of(set: Seq<char>, taken: bool, roll: u64) -> Seq<char> {
    if taken {
        seq![set[roll as int % set.len() as int]]
    } else {
        Seq::empty()
    }
}

/// The marks of the character at `at`, at most one from each set.
pub open spec fn marks(at: usize, frame: usize) -> Seq<char> {
    marks_of(ABOVE@, takes_above(at, frame), noise_value(at, frame, 0x44)) + marks_of(
        BELOW@,
        takes_below(at, frame),
        noise_value(at, frame, 0x55),
    ) + marks_of(THROUGH@, takes_through(at, frame), noise_value(at, frame, 0x66))
}

/// Append this frame's marks for the character at `at`, which has been hit.
pub fn corrupt_one(out: &mut String, at: usize, frame: usize)
    ensures
        final(out)@ == old(out)@ + marks(at, frame),
{
    let above = noise(at, frame, 0x11) % 10 < 7;
    let below = noise(at, frame, 0x22) % 10 < 4;
    let through = noise(at, frame, 0x33) % 10 < 2;
    if above || !(below || through) {
        let k: usize = (noise(at, frame, 0x44) % 20) as usize;
        out.push(ABOVE[k]);
    }
    if below {
        let k: usize = (noise(at, frame, 0x55) % 18) as usize;
        out.push(BELOW[k]);
    }
    if through {
        let k: usize = (noise(at, frame, 0x66) % 5) as usize;
        out.push(THROUGH[k]);
    }
    assert(out@ =~= old(out)@ + marks(at, frame));
}

/// How many characters are not white space.
pub open spec fn live_count(s: Seq<char>) -> int
    decreases s.len(),
{
    if s.len() == 0 {
        0
    } else {
        live_count(s.drop_last()) + if strs::white_space(s.last()) {
            0int
        } else {
            1
        }
    }
}

/// The first `n` characters of a row, each followed by its marks when it is hit
/// or is the one that is always hit. The character at position `k` of the row
/// is number `base + k` on screen, and `live` characters came before the row.
pub open spec fn corrupted(
    s: Seq<char>,
    n: int,
    base: int,
    live: int,
    forced: int,
    frame: usize,
) -> Seq<char>
    decreases n,
{
    if n <= 0 {
        Seq::empty()
    } else {
        let c = s[n - 1];
        let at = (base + n - 1) as usize;
        let nth = live + live_count(s.take(n - 1));
        corrupted(s, n - 1, base, live, forced, frame).push(c) + if !strs::white_space(c) && (hit(
            at,
            frame,
        ) || nth == forced) {
            marks(at, frame)
        } else {
            Seq::empty()
        }
    }
}

/// The characters that spans `0..n` hold.
pub open spec fn chars_before(spans: Seq<draw::SpanView>, n: int) -> int
    decreases n,
{
    if n <= 0 {
        0
    } else {
        chars_before(spans, n - 1) + spans[n - 1].content.len()
    }
}

/// The characters that spans `0..n` hold and that are not white space.
pub open spec fn live_before(spans: Seq<draw::SpanView>, n: int) -> int
    decreases n,
{
    if n <= 0 {
        0
    } else {
        live_before(spans, n - 1) + live_count(spans[n - 1].content)
    }
}

/// The number of the live character that is hit whatever the rolls say.
pub open spec fn forced_hit(spans: Seq<draw::SpanView>, frame: usize) -> int {
    noise_value(0, frame, 0x77) as int % live_before(spans, spans.len() as int)
}

/// The spans with this frame's marks hung off their characters.
pub open spec fn corrupted_spans(spans: Seq<draw::SpanView>, frame: usize) -> Seq<draw::SpanView> {
    if live_before(spans, spans.len() as int) == 0 {
        spans
    } else {
        Seq::new(
            spans.len(),
            |k: int|
                draw::span(
                    corrupted(
                        spans[k].content,
                        spans[k].content.len() as int,
                        chars_before(spans, k),
                        live_before(spans, k),
                        forced_hit(spans, frame),
                        frame,
                    ),
                    spans[k].style,
                ),
        )
    }
}

proof fn lemma_live_count_bounds(s: Seq<char>)
    ensures
        0 <= live_count(s) <= s.len(),
    decreases s.len(),
{
    if s.len() > 0 {
        lemma_live_count_bounds(s.drop_last());
    }
}

proof fn lemma_before_monotonic(spans: Seq<draw::SpanView>, i: int, j: int)
    requires
        0 <= i <= j,
    ensures
        0 <= chars_before(spans, i) <= chars_before(spans, j),
        0 <= live_before(spans, i) <= live_before(spans, j),
        live_before(spans, i) <= chars_before(spans, i),
    decreases j,
{
    if j > 0 {
        lemma_live_count_bounds(spans[j - 1].content);
        if i < j {
            lemma_before_monotonic(spans, i, j - 1);
        } else {
            lemma_before_monotonic(spans, i - 1, j - 1);
        }
    }
}

fn count_live(text: &str) -> (n: usize)
    ensures
        n == live_count(text@),
{
    let v = chars_of(text);
    let mut n: usize = 0;
    let mut i: usize = 0;
    while i < v.len()
        invariant
            i <= v@.len(),
            n <= i,
            n == live_count(v@.take(i as int)),
        decreases v@.len() - i,
    {
        if !v[i].is_whitespace() {
            n = n + 1;
        }
        i = i + 1;
        assert(v@.take(i as int).drop_last() =~= v@.take(i - 1));
    }
    assert(v@.take(v@.len() as int) =~= v@);
    n
}

fn corrupt_row(text: &str, base: usize, live: usize, forced: usize, frame: usize) -> (r: String)
    requires
        base + text@.len() <= usize::MAX,
        live + text@.len() <= usize::MAX,
    ensures
        r@ == corrupted(
            text@,
            text@.len() as int,
            base as int,
            live as int,
            forced as int,
            frame,
        ),
{
    let v = chars_of(text);
    let mut r = String::new();
    let mut nth: usize = live;
    let mut i: usize = 0;
    while i < v.len()
        invariant
            i <= v@.len(),
            base + v@.len() <= usize::MAX,
            live + v@.len() <= usize::MAX,
            nth == live + live_count(v@.take(i as int)),
            nth <= live + i,
            r@ == corrupted(v@, i as int, base as int, live as int, forced as int, frame),
        decreases v@.len() - i,
    {
        r.push(v[i]);
        let ghost pushed = r@;
        if !v[i].is_whitespace() {
            if glitch_hit(base + i, frame) || nth == forced {
                corrupt_one(&mut r, base + i, frame);
            }
            nth = nth + 1;
        }
        i = i + 1;
        assert(v@.take(i as int).drop_last() =~= v@.take(i - 1));
        assert(r@ =~= corrupted(v@, i as int, base as int, live as int, forced as int, frame));
    }
    r
}

/// Hang combining marks off the characters `glitch` is corrupting this frame.
///
/// It must run after every pass that indexes the row. Every frame corrupts at
/// least one character, white space is never decorated, and every
/// glyph keeps its style.
pub fn corrupt_spans(spans: Vec<Span>, frame: usize) -> (r: Vec<Span>)
    requires
        chars_before(draw::span_views(spans@), spans@.len() as int) <= usize::MAX,
    ensures
        draw::span_views(r@) == corrupted_spans(draw::span_views(spans@), frame),
{
    let ghost views = draw::span_views(spans@);
    let ghost total = spans@.len() as int;
    let mut live: usize = 0;
    let mut i: usize = 0;
    while i < spans.len()
        invariant
            i <= spans@.len(),
            views == draw::span_views(spans@),
            total == spans@.len(),
            chars_before(views, total) <= usize::MAX,
            live == live_before(views, i as int),
        decreases spans@.len() - i,
    {
        assert(views[i as int].content == spans@[i as int].content@);
        proof {
            lemma_before_monotonic(views, i + 1, total);
        }
        live = live + count_live(spans[i].content.as_str());
        i = i + 1;
    }
    if live == 0 {
        return spans;
    }
    let forced: usize = (noise(0, frame, 0x77) % live as u64) as usize;
    let mut r: Vec<Span> = Vec::new();
    let mut at: usize = 0;
    let mut nth: usize = 0;
    let mut k: usize = 0;
    let ghost want = corrupted_spans(views, frame);
    assert(draw::span_views(r@) =~= want.take(0));
    while k < spans.len()
        invariant
            k <= spans@.len(),
            views == draw::span_views(spans@),
            total == spans@.len(),
            chars_before(views, total) <= usize::MAX,
            live == live_before(views, total),
            live > 0,
            forced == forced_hit(views, frame),
            at == chars_before(views, k as int),
            nth == live_before(views, k as int),
            want == corrupted_spans(views, frame),
            draw::span_views(r@) == want.take(k as int),
        decreases spans@.len() - k,
    {
        assert(views[k as int].content == spans@[k as int].content@);
        proof {
            lemma_before_monotonic(views, k as int, k as int);
            lemma_before_monotonic(views, k + 1, total);
            lemma_live_count_bounds(views[k as int].content);
        }
        let text = spans[k].content.as_str();
        let out = corrupt_row(text, at, nth, forced, frame);
        push_span(&mut r, Span::new(out, spans[k].style));
        assert(want.take(k + 1) =~= want.take(k as int).push(want[k as int]));
        at = at + chars_of(text).len();
        nth = nth + count_live(text);
        k = k + 1;
    }
    assert(want.take(total) =~= want);
    r
}

// ---------------------------------------------------------------------------
// Laws.
// ---------------------------------------------------------------------------

/// Every letter spelled in script lands on an assigned code point: none of the
/// holes of the Mathematical Script block.
pub proof fn law_script_avoids_the_holes(c: char)
    requires
        ('A' <= c && c <= 'Z') || ('a' <= c && c <= 'z'),
    ensures
        ({
            let p = script(c) as int;
            &&& p != 0x1D49D && p != 0x1D4A0 && p != 0x1D4A1 && p != 0x1D4A3 && p != 0x1D4A4
            &&& p != 0x1D4A7 && p != 0x1D4A8 && p != 0x1D4AD && p != 0x1D4BA && p != 0x1D4BC
            &&& p != 0x1D4C4
        }),
{
}

/// Whether a mark is one of a set.
pub open spec fn of_set(set: Seq<char>, c: char) -> bool {
    exists|k: int| 0 <= k < set.len() && #[trigger] set[k] == c
}

/// A hit character takes at least one mark and at most one from each set, so
/// at most three, and the marks of one set never stack.
pub proof fn law_at_most_one_mark_of_each_set(at: usize, frame: usize)
    ensures
        1 <= marks(at, frame).len() <= 3,
        exists|a: Seq<char>, b: Seq<char>, t: Seq<char>|
            #![trigger a + b + t]
            {
                &&& marks(at, frame) == a + b + t
                &&& a.len() <= 1 && b.len() <= 1 && t.len() <= 1
                &&& forall|k: int| 0 <= k < a.len() ==> of_set(ABOVE@, #[trigger] a[k])
                &&& forall|k: int| 0 <= k < b.len() ==> of_set(BELOW@, #[trigger] b[k])
                &&& forall|k: int| 0 <= k < t.len() ==> of_set(THROUGH@, #[trigger] t[k])
            },
{
    let a = marks_of(ABOVE@, takes_above(at, frame), noise_value(at, frame, 0x44));
    let b = marks_of(BELOW@, takes_below(at, frame), noise_value(at, frame, 0x55));
    let t = marks_of(THROUGH@, takes_through(at, frame), noise_value(at, frame, 0x66));
    assert(marks(at, frame) == a + b + t);
    assert(ABOVE@.len() == 20 && BELOW@.len() == 18 && THROUGH@.len() == 5);
    assert forall|k: int| 0 <= k < a.len() implies of_set(ABOVE@, #[trigger] a[k]) by {
        assert(ABOVE@[noise_value(at, frame, 0x44) as int % 20] == a[k]);
    }
    assert forall|k: int| 0 <= k < b.len() implies of_set(BELOW@, #[trigger] b[k]) by {
        assert(BELOW@[noise_value(at, frame, 0x55) as int % 18] == b[k]);
    }
    assert forall|k: int| 0 <= k < t.len() implies of_set(THROUGH@, #[trigger] t[k]) by {
        assert(THROUGH@[noise_value(at, frame, 0x66) as int % 5] == t[k]);
    }
}

proof fn lemma_marks_combine(at: usize, frame: usize)
    ensures
        forall|k: int| 0 <= k < marks(at, frame).len() ==> text::combining(#[trigger] marks(at, frame)[k]),
{
    assert(forall|k: int| 0 <= k < 20 ==> text::combining(#[trigger] ABOVE@[k]));
    assert(forall|k: int| 0 <= k < 18 ==> text::combining(#[trigger] BELOW@[k]));
    assert(forall|k: int| 0 <= k < 5 ==> text::combining(#[trigger] THROUGH@[k]));
}

/// Every mark of a hit character is a combining diacritical mark.
pub proof fn law_marks_are_combining(at: usize, frame: usize, k: int)
    requires
        0 <= k < marks(at, frame).len(),
    ensures
        text::combining(marks(at, frame)[k]),
{
    lemma_marks_combine(at, frame);
}

proof fn lemma_columns_concat(a: Seq<char>, b: Seq<char>)
    ensures
        text::columns_sum(a + b) == text::columns_sum(a) + text::columns_sum(b),
    decreases b.len(),
{
    if b.len() == 0 {
        assert(a + b =~= a);
    } else {
        assert((a + b).drop_last() =~= a + b.drop_last());
        lemma_columns_concat(a, b.drop_last());
    }
}

proof fn lemma_marks_take_no_column(s: Seq<char>)
    requires
        forall|k: int| 0 <= k < s.len() ==> text::columns(#[trigger] s[k]) == 0,
    ensures
        text::columns_sum(s) == 0,
    decreases s.len(),
{
    if s.len() > 0 {
        assert forall|k: int| 0 <= k < s.drop_last().len() implies text::columns(
            #[trigger] s.drop_last()[k],
        ) == 0 by {
            assert(s.drop_last()[k] == s[k]);
        }
        lemma_marks_take_no_column(s.drop_last());
    }
}

/// Corruption never costs a column: the row keeps its width, whatever the
/// frame.
pub proof fn law_corruption_keeps_the_width(
    s: Seq<char>,
    n: int,
    base: int,
    live: int,
    forced: int,
    frame: usize,
)
    requires
        0 <= n <= s.len(),
    ensures
        text::columns_sum(corrupted(s, n, base, live, forced, frame)) == text::columns_sum(
            s.take(n),
        ),
    decreases n,
{
    if n > 0 {
        law_corruption_keeps_the_width(s, n - 1, base, live, forced, frame);
        let before = corrupted(s, n - 1, base, live, forced, frame);
        let at = (base + n - 1) as usize;
        lemma_marks_combine(at, frame);
        lemma_marks_take_no_column(marks(at, frame));
        lemma_columns_concat(before.push(s[n - 1]), marks(at, frame));
        assert(before.push(s[n - 1]).drop_last() =~= before);
        assert(before.push(s[n - 1]) + Seq::<char>::empty() =~= before.push(s[n - 1]));
        assert(s.take(n).drop_last() =~= s.take(n - 1));
    } else {
        assert(s.take(0) =~= Seq::<char>::empty());
    }
}

/// A text with the combining marks deleted.
pub open spec fn unmarked(s: Seq<char>) -> Seq<char>
    decreases s.len(),
{
    if s.len() == 0 {
        Seq::empty()
    } else if text::combining(s.last()) {
        unmarked(s.drop_last())
    } else {
        unmarked(s.drop_last()).push(s.last())
    }
}

proof fn lemma_marks_are_deleted(s: Seq<char>, m: Seq<char>)
    requires
        forall|k: int| 0 <= k < m.len() ==> text::combining(#[trigger] m[k]),
    ensures
        unmarked(s + m) == unmarked(s),
    decreases m.len(),
{
    if m.len() > 0 {
        assert forall|k: int| 0 <= k < m.drop_last().len() implies text::combining(
            #[trigger] m.drop_last()[k],
        ) by {
            assert(m.drop_last()[k] == m[k]);
        }
        lemma_marks_are_deleted(s, m.drop_last());
        assert((s + m).drop_last() =~= s + m.drop_last());
        assert((s + m).last() == m[m.len() - 1]);
    } else {
        assert(s + m =~= s);
    }
}

proof fn lemma_unmarked_text(s: Seq<char>)
    requires
        forall|k: int| 0 <= k < s.len() ==> !text::combining(#[trigger] s[k]),
    ensures
        unmarked(s) == s,
    decreases s.len(),
{
    if s.len() > 0 {
        assert forall|k: int| 0 <= k < s.drop_last().len() implies !text::combining(
            #[trigger] s.drop_last()[k],
        ) by {
            assert(s.drop_last()[k] == s[k]);
        }
        lemma_unmarked_text(s.drop_last());
        assert(!text::combining(s[s.len() - 1]));
        assert(s.drop_last().push(s.last()) =~= s);
    } else {
        assert(s =~= Seq::<char>::empty());
    }
}

proof fn lemma_deleting_marks(
    s: Seq<char>,
    n: int,
    base: int,
    live: int,
    forced: int,
    frame: usize,
)
    requires
        0 <= n <= s.len(),
    ensures
        unmarked(corrupted(s, n, base, live, forced, frame)) == unmarked(s.take(n)),
    decreases n,
{
    if n > 0 {
        lemma_deleting_marks(s, n - 1, base, live, forced, frame);
        let before = corrupted(s, n - 1, base, live, forced, frame);
        let at = (base + n - 1) as usize;
        lemma_marks_combine(at, frame);
        lemma_marks_are_deleted(before.push(s[n - 1]), marks(at, frame));
        assert(before.push(s[n - 1]).drop_last() =~= before);
        assert(before.push(s[n - 1]) + Seq::<char>::empty() =~= before.push(s[n - 1]));
        assert(s.take(n).drop_last() =~= s.take(n - 1));
    } else {
        assert(s.take(0) =~= Seq::<char>::empty());
    }
}

/// Corruption only adds marks: deleting them again gives back a run that had
/// none of its own, and of any other what deleting its own leaves.
pub proof fn law_deleting_the_marks_restores_the_run(
    s: Seq<char>,
    base: int,
    live: int,
    forced: int,
    frame: usize,
)
    ensures
        ({
            let out = corrupted(s, s.len() as int, base, live, forced, frame);
            &&& unmarked(out) == unmarked(s)
            &&& (forall|k: int| 0 <= k < s.len() ==> !text::combining(#[trigger] s[k]))
                ==> unmarked(out) == s
        }),
{
    lemma_deleting_marks(s, s.len() as int, base, live, forced, frame);
    assert(s.take(s.len() as int) =~= s);
    if forall|k: int| 0 <= k < s.len() ==> !text::combining(#[trigger] s[k]) {
        lemma_unmarked_text(s);
    }
}

proof fn lemma_no_mark_after_white_space(
    s: Seq<char>,
    n: int,
    base: int,
    live: int,
    forced: int,
    frame: usize,
)
    requires
        0 <= n <= s.len(),
        forall|k: int| 0 <= k < s.len() ==> !text::combining(#[trigger] s[k]),
    ensures
        ({
            let out = corrupted(s, n, base, live, forced, frame);
            &&& out.len() > 0 ==> !text::combining(out[0])
            &&& forall|k: int|
                0 < k < out.len() && text::combining(#[trigger] out[k]) ==> !strs::white_space(
                    out[k - 1],
                )
        }),
    decreases n,
{
    if n > 0 {
        lemma_no_mark_after_white_space(s, n - 1, base, live, forced, frame);
        let before = corrupted(s, n - 1, base, live, forced, frame);
        let out = corrupted(s, n, base, live, forced, frame);
        let at = (base + n - 1) as usize;
        let m = marks(at, frame);
        lemma_marks_combine(at, frame);
        let b = before.len() as int;
        assert(out[b] == s[n - 1]);
        assert(!text::combining(s[n - 1]));
        if b > 0 {
            assert(out[0] == before[0]);
        }
        assert forall|k: int| 0 < k < out.len() && text::combining(#[trigger] out[k]) implies
            !strs::white_space(out[k - 1]) by {
            if k < b {
                assert(out[k] == before[k]);
                assert(out[k - 1] == before[k - 1]);
            } else if k > b + 1 {
                assert(out[k - 1] == m[k - 1 - (b + 1)]);
                assert(text::combining(m[k - 1 - (b + 1)]));
            }
        }
    }
}

/// No mark hangs off white space, nor off nothing, in a run that had none of its
/// own.
pub proof fn law_no_mark_follows_white_space(
    s: Seq<char>,
    base: int,
    live: int,
    forced: int,
    frame: usize,
)
    requires
        forall|k: int| 0 <= k < s.len() ==> !text::combining(#[trigger] s[k]),
    ensures
        ({
            let out = corrupted(s, s.len() as int, base, live, forced, frame);
            &&& out.len() > 0 ==> !text::combining(out[0])
            &&& forall|k: int|
                0 < k < out.len() && text::combining(#[trigger] out[k]) ==> !strs::white_space(
                    out[k - 1],
                )
        }),
{
    lemma_no_mark_after_white_space(s, s.len() as int, base, live, forced, frame);
}

proof fn lemma_forced_row_grows(
    s: Seq<char>,
    n: int,
    base: int,
    live: int,
    forced: int,
    frame: usize,
)
    requires
        0 <= n <= s.len(),
    ensures
        corrupted(s, n, base, live, forced, frame).len() >= n,
        live <= forced < live + live_count(s.take(n)) ==> corrupted(
            s,
            n,
            base,
            live,
            forced,
            frame,
        ).len() > n,
    decreases n,
{
    if n > 0 {
        lemma_forced_row_grows(s, n - 1, base, live, forced, frame);
        assert(s.take(n).drop_last() =~= s.take(n - 1));
        assert(s.take(n).last() == s[n - 1]);
        law_at_most_one_mark_of_each_set((base + n - 1) as usize, frame);
    } else {
        assert(s.take(0) =~= Seq::<char>::empty());
    }
}

proof fn lemma_forced_prefix_grows(spans: Seq<draw::SpanView>, n: int, frame: usize)
    requires
        live_before(spans, spans.len() as int) > 0,
        0 <= n <= spans.len(),
    ensures
        chars_before(corrupted_spans(spans, frame), n) >= chars_before(spans, n),
        forced_hit(spans, frame) < live_before(spans, n) ==> chars_before(
            corrupted_spans(spans, frame),
            n,
        ) > chars_before(spans, n),
    decreases n,
{
    if n > 0 {
        lemma_forced_prefix_grows(spans, n - 1, frame);
        let s = spans[n - 1].content;
        lemma_forced_row_grows(
            s,
            s.len() as int,
            chars_before(spans, n - 1),
            live_before(spans, n - 1),
            forced_hit(spans, frame),
            frame,
        );
        assert(s.take(s.len() as int) =~= s);
    }
}

/// Every frame corrupts a row that has a live character: marks are added.
pub proof fn law_every_frame_corrupts_something(spans: Seq<draw::SpanView>, frame: usize)
    requires
        live_before(spans, spans.len() as int) > 0,
    ensures
        chars_before(corrupted_spans(spans, frame), spans.len() as int) > chars_before(
            spans,
            spans.len() as int,
        ),
{
    lemma_forced_prefix_grows(spans, spans.len() as int, frame);
}

/// A row without live characters is left alone.
pub proof fn law_nothing_to_corrupt_is_left_alone(spans: Seq<draw::SpanView>, frame: usize)
    requires
        live_before(spans, spans.len() as int) == 0,
    ensures
        corrupted_spans(spans, frame) == spans,
{
}

proof fn lemma_text_of_cells(
    text: Seq<char>,
    n: int,
    styles: TextStyles,
    style: Style,
    theme: Theme,
    frame: Option<usize>,
)
    requires
        0 <= n <= text.len(),
    ensures
        draw::line_text(
            Seq::new(n as nat, |i: int| cell_span(text[i], i, styles, style, theme, frame)),
        ) == text.take(n),
    decreases n,
{
    let cells = Seq::new(n as nat, |i: int| cell_span(text[i], i, styles, style, theme, frame));
    if n > 0 {
        lemma_text_of_cells(text, n - 1, styles, style, theme, frame);
        assert(cells.drop_last() =~= Seq::new(
            (n - 1) as nat,
            |i: int| cell_span(text[i], i, styles, style, theme, frame),
        ));
        assert(text.take(n) =~= text.take(n - 1) + seq![text[n - 1]]);
    } else {
        assert(text.take(0) =~= Seq::<char>::empty());
    }
}

/// Styling never changes the text, except where a spoiler hides it or a blink
/// blanks it.
pub proof fn law_styling_keeps_the_text(
    text: Seq<char>,
    styles: TextStyles,
    revealed: bool,
    base: Style,
    theme: Theme,
    frame: Option<usize>,
)
    requires
        !blanked(styles, revealed, frame),
        !(styles.spoiler && !revealed),
    ensures
        draw::line_text(row_spans(text, styles, revealed, base, theme, frame)) == text,
{
    let animating = frame is Some && (styles.wave || styles.glitch);
    let style = decorated(styles, base, theme, animating);
    lemma_text_of_cells(text, text.len() as int, styles, style, theme, frame);
    assert(text.take(text.len() as int) =~= text);
    reveal_with_fuel(draw::line_text, 2);
    assert(draw::one(text, style).drop_last() =~= Seq::empty());
    assert(Seq::<char>::empty() + text =~= text);
}

proof fn lemma_filled(s: Seq<char>, glyph: char)
    ensures
        filled(s, glyph).len() == text::columns_sum(s),
        forall|i: int| 0 <= i < filled(s, glyph).len() ==> #[trigger] filled(s, glyph)[i] == glyph,
    decreases s.len(),
{
    if s.len() > 0 {
        lemma_filled(s.drop_last(), glyph);
    }
}

/// What stands in for a hidden or blanked row has the columns of the text, so
/// revealing it never reflows the pane.
pub proof fn law_fill_keeps_the_width(s: Seq<char>, glyph: char)
    requires
        glyph == SPOILER_GLYPH || glyph == ' ',
    ensures
        forall|i: int| 0 <= i < filled(s, glyph).len() ==> #[trigger] filled(s, glyph)[i] == glyph,
        text::columns_sum(filled(s, glyph)) == text::columns_sum(s),
        text::str_width(filled(s, glyph)) == text::columns_sum(s),
{
    lemma_filled(s, glyph);
    let f = filled(s, glyph);
    text::lemma_plain_columns(f, f.len() as int);
    assert(f.take(f.len() as int) =~= f);
}

/// A message with nothing to animate looks the same at every frame.
pub proof fn law_static_styles_ignore_the_frame(
    text: Seq<char>,
    styles: TextStyles,
    revealed: bool,
    base: Style,
    theme: Theme,
    frame: Option<usize>,
)
    requires
        !styles.animates_spec(),
    ensures
        row_spans(text, styles, revealed, base, theme, frame) == row_spans(
            text,
            styles,
            revealed,
            base,
            theme,
            None,
        ),
{
    assert(row_spans(text, styles, revealed, base, theme, frame) =~= row_spans(
        text,
        styles,
        revealed,
        base,
        theme,
        None,
    ));
}

/// No built-in palette counts as flattened, and the flattened form of every
/// palette does.
pub proof fn law_monochrome_is_only_the_flattened_palette(
    k: crate::theme::ThemeKind,
    t: Theme,
)
    ensures
        !monochrome(k.palette()),
        monochrome(t.adapted(crate::theme::ColorMode::Monochrome)),
{
}

proof fn lemma_no_plus_no_split(name: Seq<char>, from: int)
    requires
        0 <= from <= name.len(),
        forall|k: int| 0 <= k < name.len() ==> #[trigger] name[k] != '+',
    ensures
        strs::split_from(name, '+', 0, from) == seq![name],
    decreases name.len() - from,
{
    if from < name.len() {
        lemma_no_plus_no_split(name, from + 1);
    } else {
        assert(name.subrange(0, from) =~= name);
    }
}

/// A name asks for the style it is the name of, whatever its case and the white space
/// around it, and for no other.
pub proof fn law_a_name_asks_for_its_style(name: String)
    requires
        forall|k: int| 0 <= k < name@.len() ==> #[trigger] name@[k] != '+',
    ensures
        ({
            let n = strs::ascii_lowered(strs::trimmed(name@));
            let d = decoded(Some(&MessageStyle::One(name)));
            &&& d.art == (n == "art"@)
            &&& d.rainbow == (n == "rainbow"@)
            &&& d.quiet == (n == "quiet"@)
            &&& d.spoiler == (n == "spoiler"@)
            &&& d.blink == (n == "blink"@)
            &&& d.wave == (n == "wave"@)
            &&& d.slow == (n == "slow"@)
            &&& d.glitch == (n == "glitch"@)
            &&& d.l33t == (n == "l33t"@)
            &&& d.cursive == (n == "cursive"@)
            &&& d.flip == (n == "flip"@)
        }),
{
    lemma_no_plus_no_split(name@, 0);
    let parts = strs::split_at_each(name@, '+');
    assert(parts == seq![name@]);
    let n = style_name(name@);
    assert forall|w: Seq<char>| #[trigger] chain_has(name@, w) == (n == w) by {
        if n == w {
            assert(style_name(parts[0]) == w);
        }
    }
}

/// A list of names asks for what any of them asks for, and without a style, or with one
/// that is no name, nothing is asked for.
pub proof fn law_lists_ask_for_each_of_their_styles(names: Vec<String>, w: Seq<char>, j: int)
    ensures
        0 <= j < names@.len() && asks_for(Some(&MessageStyle::One(names@[j])), w) ==> asks_for(
            Some(&MessageStyle::Many(names)),
            w,
        ),
        asks_for(Some(&MessageStyle::Many(names)), w) ==> exists|k: int|
            0 <= k < names@.len() && chain_has((#[trigger] names@[k])@, w),
        decoded(None) == TextStyles::none(),
        decoded(Some(&MessageStyle::Other)) == TextStyles::none(),
{
    if 0 <= j < names@.len() && asks_for(Some(&MessageStyle::One(names@[j])), w) {
        assert(chain_has(names@[j]@, w));
    }
}

/// A hidden spoiler shows one and the same sign for every column, and nothing of its
/// text.
pub proof fn law_spoilers_are_hidden(
    text: Seq<char>,
    styles: TextStyles,
    base: Style,
    theme: Theme,
    frame: Option<usize>,
    i: int,
)
    requires
        styles.spoiler,
    ensures
        ({
            let row = row_spans(text, styles, false, base, theme, frame);
            &&& row.len() == 1
            &&& row[0].content.len() == text::columns_sum(text)
            &&& 0 <= i < row[0].content.len() ==> row[0].content[i] == '▒'
            &&& row[0].style.fg == Some(theme.muted)
        }),
{
    lemma_filled(text, SPOILER_GLYPH);
}

/// Blinking text is blank for four frames and shown for four, and is as wide while it is
/// blank.
pub proof fn law_blinking_goes_on_and_off(
    text: Seq<char>,
    styles: TextStyles,
    revealed: bool,
    base: Style,
    theme: Theme,
    frame: usize,
    i: int,
)
    requires
        styles.blink,
        !styles.spoiler || revealed,
    ensures
        ({
            let row = row_spans(text, styles, revealed, base, theme, Some(frame));
            &&& frame as int % 8 >= 4 ==> row.len() == 1 && row[0].content.len()
                == text::columns_sum(text) && (0 <= i < row[0].content.len()
                ==> row[0].content[i] == ' ')
            &&& frame as int % 8 < 4 ==> draw::line_text(row) == text
        }),
{
    let f = frame as int;
    assert((f / 4) % 2 == (if f % 8 >= 4 {
        1int
    } else {
        0
    }));
    lemma_filled(text, ' ');
    if f % 8 < 4 {
        law_styling_keeps_the_text(text, styles, revealed, base, theme, Some(frame));
    }
}

/// A rainbow goes through its six colors character by character, unless the palette has
/// no colors.
pub proof fn law_rainbows_go_through_their_colors(
    text: Seq<char>,
    styles: TextStyles,
    base: Style,
    theme: Theme,
    i: int,
)
    requires
        styles.rainbow,
        !monochrome(theme),
        0 <= i < text.len(),
    ensures
        ({
            let row = row_spans(text, styles, true, base, theme, None);
            let k = i % 6;
            &&& row.len() == text.len()
            &&& row[i].content == seq![text[i]]
            &&& k == 0 ==> row[i].style.fg == Some(Color::Red)
            &&& k == 1 ==> row[i].style.fg == Some(Color::Yellow)
            &&& k == 2 ==> row[i].style.fg == Some(Color::Green)
            &&& k == 3 ==> row[i].style.fg == Some(Color::Cyan)
            &&& k == 4 ==> row[i].style.fg == Some(Color::Blue)
            &&& k == 5 ==> row[i].style.fg == Some(Color::Magenta)
        }),
{
}

/// The crest of a wave goes one character on or back with each frame, and is where it
/// was after eight.
pub proof fn law_the_crest_moves_by_one(frame: int)
    requires
        0 <= frame,
    ensures
        0 <= crest_phase(frame) <= 4,
        crest_phase(frame + 1) == crest_phase(frame) + 1 || crest_phase(frame + 1) == crest_phase(
            frame,
        ) - 1,
        crest_phase(frame + 8) == crest_phase(frame),
        frame % 8 == 0 ==> crest_phase(frame) == 0,
        frame % 8 == 4 ==> crest_phase(frame) == 4,
{
}

/// While a wave moves the characters of its crest are bold, and the others are as bold
/// as the rest makes them.
pub proof fn law_the_crest_is_bold(
    text: Seq<char>,
    styles: TextStyles,
    base: Style,
    theme: Theme,
    frame: usize,
    i: int,
)
    requires
        styles.wave,
        !styles.blink,
        !(styles.rainbow && monochrome(theme)),
        0 <= i < text.len(),
    ensures
        ({
            let row = row_spans(text, styles, true, base, theme, Some(frame));
            &&& row.len() == text.len()
            &&& row[i].content == seq![text[i]]
            &&& row[i].style.bold == (base.bold || i % 5 == crest_phase(frame as int))
        }),
{
}

/// Each style adds its own look and no other: none leaves the text as it is, a quiet one
/// is dim, a slow one dim and slanted, a blinking one bold in the warning color, and
/// what would move stands out by other means where it cannot.
pub proof fn law_styles_add_their_look(
    styles: TextStyles,
    base: Style,
    theme: Theme,
    animating: bool,
)
    ensures
        ({
            let d = decorated(styles, base, theme, animating);
            &&& d.bg == base.bg && d.underlined == base.underlined
            &&& styles.blink ==> d.bold && d.fg == Some(theme.warning)
            &&& !styles.blink ==> d.fg == base.fg
            &&& styles.quiet || styles.slow ==> d.dim
            &&& !styles.quiet && !styles.slow ==> d.dim == base.dim
            &&& styles.slow ==> d.italic
            &&& !styles.slow && !styles.wave ==> d.italic == base.italic
            &&& styles.wave && !animating ==> d.italic
            &&& !styles.glitch ==> d.reversed == base.reversed
            &&& styles.glitch && !animating ==> d.reversed
            &&& !styles.blink && !styles.rainbow ==> d.bold == base.bold
            &&& styles.rainbow && monochrome(theme) ==> d.bold
            &&& styles.rainbow && !styles.blink && !monochrome(theme) ==> d.bold == base.bold
        }),
        decorated(TextStyles::none(), base, theme, animating) == base,
{
}

/// Digits take the place of six letters, in either case, and every other character
/// stays.
pub proof fn law_leet_puts_digits_for_letters(styles: TextStyles, text: Seq<char>, i: int)
    requires
        styles.l33t,
        !styles.cursive,
        !styles.flip,
        0 <= i < text.len(),
    ensures
        ({
            let r = styles.substituted(text);
            let c = text[i];
            &&& r.len() == text.len()
            &&& c == 'a' || c == 'A' ==> r[i] == '4'
            &&& c == 'e' || c == 'E' ==> r[i] == '3'
            &&& c == 'i' || c == 'I' ==> r[i] == '1'
            &&& c == 'o' || c == 'O' ==> r[i] == '0'
            &&& c == 's' || c == 'S' ==> r[i] == '5'
            &&& c == 't' || c == 'T' ==> r[i] == '7'
            &&& !strs::ascii_alphanumeric(c) ==> r[i] == c
            &&& c == 'b' || c == 'c' || c == 'd' || c == 'X' || c == '7' ==> r[i] == c
        }),
{
    reveal_with_fuel(replacement, 7);
}

/// A style that substitutes nothing leaves the text, and one that does keeps its length
/// character by character, but for the lowering that turns it upside down.
pub proof fn law_substitution_goes_character_by_character(styles: TextStyles, text: Seq<char>)
    ensures
        !styles.l33t && !styles.cursive && !styles.flip ==> styles.substituted(text) == text,
        !styles.flip ==> styles.substituted(text).len() == text.len(),
        styles.cursive && !styles.l33t && !styles.flip ==> forall|i: int|
            0 <= i < text.len() ==> #[trigger] styles.substituted(text)[i] == script(text[i]),
{
}

/// Turning upside down reads from the end: what comes first goes last.
pub proof fn law_flipping_reads_from_the_end(a: Seq<char>, b: Seq<char>)
    ensures
        flipped(a + b) == flipped(b) + flipped(a),
        flipped(a).len() == a.len(),
        a.len() > 0 ==> flipped(a)[0] == replacement(FLIP@, a.last(), 0),
{
    assert(flipped(a + b) =~= flipped(b) + flipped(a));
}

/// Letters that are each other upside down are put for each other, those that look the
/// same stay, and so does what is no letter.
pub proof fn law_flipped_letters_face_each_other(c: char)
    ensures
        replacement(FLIP@, 'b', 0) == 'q',
        replacement(FLIP@, 'q', 0) == 'b',
        replacement(FLIP@, 'd', 0) == 'p',
        replacement(FLIP@, 'p', 0) == 'd',
        replacement(FLIP@, 'n', 0) == 'u',
        replacement(FLIP@, 'u', 0) == 'n',
        c == 'l' || c == 'o' || c == 's' || c == 'x' || c == 'z' ==> replacement(FLIP@, c, 0) == c,
        !('a' <= c <= 'z') && !('A' <= c <= 'Z') ==> replacement(FLIP@, c, 0) == c,
{
    reveal_with_fuel(replacement, 27);
}

/// Only letters are written in script, and no two alike.
pub proof fn law_script_tells_letters_apart(a: char, b: char)
    requires
        strs::is_ascii_char(a),
        strs::is_ascii_char(b),
    ensures
        script(a) == script(b) ==> a == b,
        (script(a) == a) == !('a' <= a <= 'z' || 'A' <= a <= 'Z'),
{
}

proof fn lemma_split_behind(s: Seq<char>, start: int, from: int)
    requires
        0 <= start <= from <= s.len(),
        forall|k: int| from <= k < s.len() ==> #[trigger] s[k] != '+',
    ensures
        strs::split_from(s, '+', start, from) == seq![s.skip(start)],
    decreases s.len() - from,
{
    if from < s.len() {
        lemma_split_behind(s, start, from + 1);
    } else {
        assert(s.subrange(start, from) =~= s.skip(start));
    }
}

proof fn lemma_split_before(s: Seq<char>, from: int, at: int)
    requires
        0 <= from <= at < s.len(),
        forall|k: int| from <= k < at ==> #[trigger] s[k] != '+',
        s[at] == '+',
    ensures
        strs::split_from(s, '+', 0, from) == seq![s.subrange(0, at)] + strs::split_from(
            s,
            '+',
            at + 1,
            at + 1,
        ),
    decreases at - from,
{
    if from < at {
        lemma_split_before(s, from + 1, at);
    }
}

/// Two names with a plus between them ask for both styles, and for no third.
pub proof fn law_chained_names_ask_for_both(
    name: String,
    a: Seq<char>,
    b: Seq<char>,
    wanted: Seq<char>,
)
    requires
        name@ == a + seq!['+'] + b,
        forall|k: int| 0 <= k < a.len() ==> #[trigger] a[k] != '+',
        forall|k: int| 0 <= k < b.len() ==> #[trigger] b[k] != '+',
    ensures
        asks_for(Some(&MessageStyle::One(name)), wanted) == (strs::ascii_lowered(strs::trimmed(a))
            == wanted || strs::ascii_lowered(strs::trimmed(b)) == wanted),
{
    let s = name@;
    let n = a.len() as int;
    assert forall|k: int| n + 1 <= k < s.len() implies #[trigger] s[k] != '+' by {
        assert(s[k] == b[k - n - 1]);
    }
    lemma_split_before(s, 0, n);
    lemma_split_behind(s, n + 1, n + 1);
    let parts = strs::split_at_each(s, '+');
    assert(s.subrange(0, n) =~= a);
    assert(s.skip(n + 1) =~= b);
    assert(parts =~= seq![a, b]);
    if style_name(a) == wanted {
        assert(style_name(parts[0]) == wanted);
    }
    if style_name(b) == wanted {
        assert(style_name(parts[1]) == wanted);
    }
}

} // verus!
