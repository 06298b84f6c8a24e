//! Colors, styles and the selectable palettes.
use vstd::prelude::*;

use crate::strs::{self, contains, same, to_ascii_lower};

verus! {

/// A terminal color.
#[derive(Debug, Clone, Copy, PartialEq, Eq, Structural)]
pub enum Color {
    /// The terminal's own default.
    Reset,
    Black,
    Red,
    Green,
    Yellow,
    Blue,
    Magenta,
    Cyan,
    Gray,
    DarkGray,
    LightRed,
    LightGreen,
    LightYellow,
    LightBlue,
    LightMagenta,
    LightCyan,
    White,
    /// An index into the xterm palette of 256 colors.
    Indexed(u8),
    /// 24-bit color.
    Rgb(u8, u8, u8),
}

/// How a run of text is drawn. A color of `None` leaves what is below it.
#[derive(Debug, Clone, Copy, PartialEq, Eq)]
pub struct Style {
    pub fg: Option<Color>,
    pub bg: Option<Color>,
    pub bold: bool,
    pub dim: bool,
    pub italic: bool,
    pub underlined: bool,
    pub reversed: bool,
}

/// The style that changes nothing.
pub open spec fn plain() -> Style {
    Style {
        fg: None,
        bg: None,
        bold: false,
        dim: false,
        italic: false,
        underlined: false,
        reversed: false,
    }
}

/// The plain style in a foreground color.
pub open spec fn colored(c: Color) -> Style {
    Style { fg: Some(c), ..plain() }
}

impl Style {
    pub fn new() -> (r: Style)
        ensures
            r == plain(),
    {
        Style {
            fg: None,
            bg: None,
            bold: false,
            dim: false,
            italic: false,
            underlined: false,
            reversed: false,
        }
    }

    /// The plain style in the foreground color `c`.
    pub fn color(c: Color) -> (r: Style)
        ensures
            r == colored(c),
    {
        let mut s = Style::new();
        s.fg = Some(c);
        s
    }
}

/// Visual theme. The default is `cyber`, bright green on black.
#[derive(Debug, Clone, Copy, PartialEq, Eq, Structural)]
pub struct Theme {
    pub background: Color,
    pub foreground: Color,
    pub muted: Color,
    pub accent: Color,
    /// Panel and screen titles.
    pub heading: Color,
    /// Confirmation toasts.
    pub success: Color,
    pub error: Color,
    /// Caution accent, which drives the rate-limit toast.
    pub warning: Color,
    pub border: Color,
    /// Background fill for the selected row in lists.
    pub selection: Color,
}

impl Theme {
    pub open spec fn cyber_palette() -> Theme {
        Theme {
            background: Color::Reset,
            foreground: Color::White,
            muted: Color::Indexed(245),
            accent: Color::LightGreen,
            heading: Color::LightGreen,
            success: Color::Green,
            error: Color::LightRed,
            warning: Color::LightYellow,
            border: Color::Green,
            selection: Color::Indexed(238),
        }
    }

    /// Bright green on black, the default look.
    pub fn cyber() -> (r: Theme)
        ensures
            r == Theme::cyber_palette(),
    {
        Theme {
            background: Color::Reset,
            foreground: Color::White,
            // A mid gray, so secondary text stays legible on black.
            muted: Color::Indexed(245),
            accent: Color::LightGreen,
            heading: Color::LightGreen,
            success: Color::Green,
            error: Color::LightRed,
            warning: Color::LightYellow,
            border: Color::Green,
            selection: Color::Indexed(238),
        }
    }

    pub open spec fn c64_palette() -> Theme {
        Theme {
            background: Color::Indexed(17),
            foreground: Color::Indexed(153),
            muted: Color::Indexed(75),
            accent: Color::Indexed(159),
            heading: Color::Indexed(159),
            success: Color::LightCyan,
            error: Color::LightRed,
            warning: Color::Indexed(227),
            border: Color::Indexed(75),
            selection: Color::Indexed(19),
        }
    }

    /// Commodore 64-inspired light blue on dark blue.
    pub fn c64() -> (r: Theme)
        ensures
            r == Theme::c64_palette(),
    {
        Theme {
            background: Color::Indexed(17),
            foreground: Color::Indexed(153),
            muted: Color::Indexed(75),
            accent: Color::Indexed(159),
            heading: Color::Indexed(159),
            success: Color::LightCyan,
            error: Color::LightRed,
            warning: Color::Indexed(227),
            border: Color::Indexed(75),
            selection: Color::Indexed(19),
        }
    }

    pub open spec fn vt320_palette() -> Theme {
        Theme {
            background: Color::Reset,
            foreground: Color::Indexed(214),
            muted: Color::Indexed(94),
            accent: Color::Indexed(220),
            heading: Color::Indexed(220),
            success: Color::Yellow,
            error: Color::LightRed,
            warning: Color::Indexed(222),
            border: Color::Indexed(94),
            selection: Color::Indexed(238),
        }
    }

    /// VT320 amber on black.
    pub fn vt320() -> (r: Theme)
        ensures
            r == Theme::vt320_palette(),
    {
        Theme {
            background: Color::Reset,
            foreground: Color::Indexed(214),
            muted: Color::Indexed(94),
            accent: Color::Indexed(220),
            heading: Color::Indexed(220),
            success: Color::Yellow,
            error: Color::LightRed,
            // Pale gold, distinct from the body amber.
            warning: Color::Indexed(222),
            border: Color::Indexed(94),
            selection: Color::Indexed(238),
        }
    }

    pub open spec fn vapor_palette() -> Theme {
        Theme {
            background: Color::Rgb(0x12, 0x1a, 0x2e),
            foreground: Color::Rgb(0xea, 0xf5, 0xff),
            muted: Color::Rgb(0x82, 0xa4, 0xc4),
            accent: Color::Rgb(0xff, 0x5f, 0xd1),
            heading: Color::Rgb(0x00, 0xe0, 0xff),
            success: Color::Rgb(0x5d, 0xff, 0xbf),
            error: Color::Rgb(0xff, 0x3b, 0x6b),
            warning: Color::Rgb(0xff, 0xe1, 0x6b),
            border: Color::Rgb(0x00, 0xe0, 0xff),
            selection: Color::Rgb(0x22, 0x30, 0x4f),
        }
    }

    /// Hot pink and electric cyan over deep indigo.
    pub fn vapor() -> (r: Theme)
        ensures
            r == Theme::vapor_palette(),
    {
        Theme {
            background: Color::Rgb(0x12, 0x1a, 0x2e),
            foreground: Color::Rgb(0xea, 0xf5, 0xff),
            muted: Color::Rgb(0x82, 0xa4, 0xc4),
            accent: Color::Rgb(0xff, 0x5f, 0xd1),
            heading: Color::Rgb(0x00, 0xe0, 0xff),
            success: Color::Rgb(0x5d, 0xff, 0xbf),
            error: Color::Rgb(0xff, 0x3b, 0x6b),
            warning: Color::Rgb(0xff, 0xe1, 0x6b),
            border: Color::Rgb(0x00, 0xe0, 0xff),
            selection: Color::Rgb(0x22, 0x30, 0x4f),
        }
    }

    pub open spec fn dark_palette() -> Theme {
        Theme {
            background: Color::Reset,
            foreground: Color::Indexed(252),
            muted: Color::Indexed(245),
            accent: Color::Indexed(75),
            heading: Color::Indexed(75),
            success: Color::Indexed(114),
            error: Color::Indexed(203),
            warning: Color::Indexed(215),
            border: Color::Indexed(240),
            selection: Color::Indexed(238),
        }
    }

    /// Neutral slate with a sky-blue accent.
    pub fn dark() -> (r: Theme)
        ensures
            r == Theme::dark_palette(),
    {
        Theme {
            background: Color::Reset,
            foreground: Color::Indexed(252),
            muted: Color::Indexed(245),
            accent: Color::Indexed(75),
            heading: Color::Indexed(75),
            success: Color::Indexed(114),
            error: Color::Indexed(203),
            warning: Color::Indexed(215),
            border: Color::Indexed(240),
            selection: Color::Indexed(238),
        }
    }

    pub open spec fn paper_palette() -> Theme {
        Theme {
            background: Color::Rgb(0xfd, 0xf6, 0xe3),
            foreground: Color::Rgb(0x3a, 0x35, 0x2c),
            muted: Color::Rgb(0x76, 0x6c, 0x5c),
            accent: Color::Rgb(0xc1, 0x3b, 0x5b),
            heading: Color::Rgb(0x0e, 0x7c, 0x86),
            success: Color::Rgb(0x4c, 0x8a, 0x2e),
            error: Color::Rgb(0xc0, 0x2a, 0x2a),
            warning: Color::Rgb(0xb0, 0x76, 0x00),
            border: Color::Rgb(0x0e, 0x7c, 0x86),
            selection: Color::Rgb(0xec, 0xdf, 0xc2),
        }
    }

    /// The one light theme: warm paper cream with dark ink.
    pub fn paper() -> (r: Theme)
        ensures
            r == Theme::paper_palette(),
    {
        Theme {
            background: Color::Rgb(0xfd, 0xf6, 0xe3),
            foreground: Color::Rgb(0x3a, 0x35, 0x2c),
            muted: Color::Rgb(0x76, 0x6c, 0x5c),
            accent: Color::Rgb(0xc1, 0x3b, 0x5b),
            heading: Color::Rgb(0x0e, 0x7c, 0x86),
            success: Color::Rgb(0x4c, 0x8a, 0x2e),
            error: Color::Rgb(0xc0, 0x2a, 0x2a),
            // Darkened so that it reads on cream.
            warning: Color::Rgb(0xb0, 0x76, 0x00),
            border: Color::Rgb(0x0e, 0x7c, 0x86),
            selection: Color::Rgb(0xec, 0xdf, 0xc2),
        }
    }

    pub open spec fn gruvbox_palette() -> Theme {
        Theme {
            background: Color::Rgb(0x28, 0x28, 0x28),
            foreground: Color::Rgb(0xeb, 0xdb, 0xb2),
            muted: Color::Rgb(0x92, 0x83, 0x74),
            accent: Color::Rgb(0xfe, 0x80, 0x19),
            heading: Color::Rgb(0x8e, 0xc0, 0x7c),
            success: Color::Rgb(0xb8, 0xbb, 0x26),
            error: Color::Rgb(0xfb, 0x49, 0x34),
            warning: Color::Rgb(0xfa, 0xbd, 0x2f),
            border: Color::Rgb(0x8e, 0xc0, 0x7c),
            selection: Color::Rgb(0x3c, 0x38, 0x36),
        }
    }

    /// Warm, matte, earthy dark: an aqua frame and an orange accent.
    pub fn gruvbox() -> (r: Theme)
        ensures
            r == Theme::gruvbox_palette(),
    {
        Theme {
            background: Color::Rgb(0x28, 0x28, 0x28),
            foreground: Color::Rgb(0xeb, 0xdb, 0xb2),
            muted: Color::Rgb(0x92, 0x83, 0x74),
            accent: Color::Rgb(0xfe, 0x80, 0x19),
            heading: Color::Rgb(0x8e, 0xc0, 0x7c),
            success: Color::Rgb(0xb8, 0xbb, 0x26),
            error: Color::Rgb(0xfb, 0x49, 0x34),
            warning: Color::Rgb(0xfa, 0xbd, 0x2f),
            border: Color::Rgb(0x8e, 0xc0, 0x7c),
            selection: Color::Rgb(0x3c, 0x38, 0x36),
        }
    }

    pub open spec fn base_spec(self) -> Style {
        Style { fg: Some(self.foreground), bg: Some(self.background), ..plain() }
    }

    /// Body text: foreground on background.
    #[verifier::when_used_as_spec(base_spec)]
    pub fn base(self) -> (r: Style)
        ensures
            r == self.base_spec(),
    {
        let mut s = Style::color(self.foreground);
        s.bg = Some(self.background);
        s
    }

    pub open spec fn muted_spec(self) -> Style {
        colored(self.muted)
    }

    #[verifier::when_used_as_spec(muted_spec)]
    pub fn muted_style(self) -> (r: Style)
        ensures
            r == self.muted_spec(),
    {
        Style::color(self.muted)
    }

    pub open spec fn accent_spec(self) -> Style {
        Style { bold: true, ..colored(self.accent) }
    }

    #[verifier::when_used_as_spec(accent_spec)]
    pub fn accent_style(self) -> (r: Style)
        ensures
            r == self.accent_spec(),
    {
        let mut s = Style::color(self.accent);
        s.bold = true;
        s
    }

    pub open spec fn heading_spec(self) -> Style {
        Style { bold: true, ..colored(self.heading) }
    }

    /// Bold style for panel and screen titles.
    #[verifier::when_used_as_spec(heading_spec)]
    pub fn heading_style(self) -> (r: Style)
        ensures
            r == self.heading_spec(),
    {
        let mut s = Style::color(self.heading);
        s.bold = true;
        s
    }

    pub open spec fn error_spec(self) -> Style {
        Style { bold: true, ..colored(self.error) }
    }

    #[verifier::when_used_as_spec(error_spec)]
    pub fn error_style(self) -> (r: Style)
        ensures
            r == self.error_spec(),
    {
        let mut s = Style::color(self.error);
        s.bold = true;
        s
    }

    pub open spec fn warning_spec(self) -> Style {
        Style { bold: true, ..colored(self.warning) }
    }

    #[verifier::when_used_as_spec(warning_spec)]
    pub fn warning_style(self) -> (r: Style)
        ensures
            r == self.warning_spec(),
    {
        let mut s = Style::color(self.warning);
        s.bold = true;
        s
    }

    pub open spec fn success_spec(self) -> Style {
        Style { bold: true, ..colored(self.success) }
    }

    #[verifier::when_used_as_spec(success_spec)]
    pub fn success_style(self) -> (r: Style)
        ensures
            r == self.success_spec(),
    {
        let mut s = Style::color(self.success);
        s.bold = true;
        s
    }

    pub open spec fn border_spec(self) -> Style {
        colored(self.border)
    }

    #[verifier::when_used_as_spec(border_spec)]
    pub fn border_style(self) -> (r: Style)
        ensures
            r == self.border_spec(),
    {
        Style::color(self.border)
    }

    pub open spec fn selection_spec(self) -> Style {
        Style { bg: Some(self.selection), bold: true, ..plain() }
    }

    /// Highlight of the selected list row: a background fill plus bold. It
    /// sets no foreground, so every span keeps its own color.
    #[verifier::when_used_as_spec(selection_spec)]
    pub fn selection_style(self) -> (r: Style)
        ensures
            r == self.selection_spec(),
    {
        let mut s = Style::new();
        s.bg = Some(self.selection);
        s.bold = true;
        s
    }

    /// The palette with `f` applied to each slot.
    pub open spec fn mapped(self, f: spec_fn(Color) -> Color) -> Theme {
        Theme {
            background: f(self.background),
            foreground: f(self.foreground),
            muted: f(self.muted),
            accent: f(self.accent),
            heading: f(self.heading),
            success: f(self.success),
            error: f(self.error),
            warning: f(self.warning),
            border: f(self.border),
            selection: f(self.selection),
        }
    }

    /// The theme on another background, where one is given.
    pub open spec fn on_background(self, bg: Option<Color>) -> Theme {
        Theme {
            background: match bg {
                Some(c) => c,
                None => self.background,
            },
            ..self
        }
    }

    pub open spec fn adapted(self, mode: ColorMode) -> Theme {
        self.mapped(|c: Color| mode.shown(c))
    }

    /// Adapt the palette to what the terminal can display.
    pub fn adapt(self, mode: ColorMode) -> (r: Theme)
        ensures
            r == self.adapted(mode),
    {
        Theme {
            background: mode.show(self.background),
            foreground: mode.show(self.foreground),
            muted: mode.show(self.muted),
            accent: mode.show(self.accent),
            heading: mode.show(self.heading),
            success: mode.show(self.success),
            error: mode.show(self.error),
            warning: mode.show(self.warning),
            border: mode.show(self.border),
            selection: mode.show(self.selection),
        }
    }

    /// Force the background per the user's transparency preference; `None`
    /// keeps the palette's own.
    pub fn with_background(self, bg: Option<Color>) -> (r: Theme)
        ensures
            r == self.on_background(bg),
    {
        let mut t = self;
        if let Some(c) = bg {
            t.background = c;
        }
        t
    }
}

impl Default for Theme {
    fn default() -> (r: Theme)
        ensures
            r == Theme::cyber_palette(),
    {
        Theme::cyber()
    }
}

/// What the terminal can render, decided once at startup.
#[derive(Debug, Clone, Copy, PartialEq, Eq, Structural)]
pub enum ColorMode {
    /// 24-bit color.
    Full,
    /// 256 colors: 24-bit colors are downsampled to the nearest index.
    Indexed256,
    /// No color at all.
    Monochrome,
}

/// The mode that the values of `NO_COLOR` and `COLORTERM` ask for.
pub open spec fn mode_for(no_color: Option<Seq<u8>>, colorterm: Option<Seq<char>>) -> ColorMode {
    if no_color matches Some(v) && v.len() > 0 {
        ColorMode::Monochrome
    } else if colorterm matches Some(v) && (strs::occurs(strs::ascii_lowered(v), "truecolor"@) || strs::occurs(
        strs::ascii_lowered(v),
        "24bit"@,
    )) {
        ColorMode::Full
    } else {
        ColorMode::Indexed256
    }
}

impl ColorMode {
    /// How a palette color appears in this mode.
    pub open spec fn shown(self, c: Color) -> Color {
        match self {
            ColorMode::Full => c,
            ColorMode::Indexed256 => match c {
                Color::Rgb(r, g, b) => Color::Indexed(ansi256(r, g, b)),
                _ => c,
            },
            ColorMode::Monochrome => Color::Reset,
        }
    }

    fn show(self, c: Color) -> (r: Color)
        ensures
            r == self.shown(c),
    {
        match self {
            ColorMode::Full => c,
            ColorMode::Indexed256 => match c {
                Color::Rgb(r, g, b) => Color::Indexed(rgb_to_ansi256(r, g, b)),
                other => other,
            },
            ColorMode::Monochrome => Color::Reset,
        }
    }

    /// Decide from the values of `NO_COLOR` and `COLORTERM`. Absent a
    /// truecolor hint the terminal is taken to have 256 colors.
    pub fn detect(no_color: Option<Vec<u8>>, colorterm: Option<String>) -> (r: ColorMode)
        ensures
            r == mode_for(
                match no_color {
                    Some(v) => Some(v@),
                    None => None,
                },
                match colorterm {
                    Some(v) => Some(v@),
                    None => None,
                },
            ),
    {
        if let Some(v) = &no_color {
            if v.len() > 0 {
                return ColorMode::Monochrome;
            }
        }
        if let Some(v) = &colorterm {
            let lower = to_ascii_lower(v.as_str());
            if contains(lower.as_str(), "truecolor") || contains(lower.as_str(), "24bit") {
                return ColorMode::Full;
            }
        }
        ColorMode::Indexed256
    }
}

/// The channel value of a step of the color cube.
pub open spec fn cube_level(step: int) -> int {
    if step <= 0 {
        0
    } else {
        55 + 40 * step
    }
}

/// The color of an xterm-256 index from 16 on: a 6x6x6 color cube, then a ramp
/// of 24 grays.
pub open spec fn index_color(k: int) -> (int, int, int) {
    if k < 232 {
        (
            cube_level((k - 16) / 36),
            cube_level((k - 16) / 6 % 6),
            cube_level((k - 16) % 6),
        )
    } else {
        (8 + 10 * (k - 232), 8 + 10 * (k - 232), 8 + 10 * (k - 232))
    }
}

pub open spec fn square(n: int) -> int {
    n * n
}

/// How far a color is from another: the sum of the squared differences of their
/// channels.
pub open spec fn distance(r: int, g: int, b: int, to: (int, int, int)) -> int {
    square(r - to.0) + square(g - to.1) + square(b - to.2)
}

/// Whether no index has a color nearer to an RGB color than `i` has, nor one as
/// near and a lower number.
pub open spec fn nearest(r: u8, g: u8, b: u8, i: int) -> bool {
    let near = distance(r as int, g as int, b as int, index_color(i));
    &&& 16 <= i <= 255
    &&& forall|k: int|
        16 <= k <= 255 ==> {
            let far = distance(r as int, g as int, b as int, #[trigger] index_color(k));
            near <= far && (near == far ==> i <= k)
        }
}

/// The step of the color cube nearest to a channel value, the lower of two that
/// are as near.
pub open spec fn cube_step(c: int) -> int {
    if c < 48 {
        0
    } else if c <= 115 {
        1
    } else {
        (c - 36) / 40
    }
}

/// The step of the gray ramp nearest to a color whose channels add up to `sum`,
/// the lower of two that are as near.
pub open spec fn gray_step(sum: int) -> int {
    if sum <= 39 {
        0
    } else {
        let j = (sum - 10) / 30;
        if j > 23 {
            23
        } else {
            j
        }
    }
}

/// The index in the color cube that is nearest to a color.
pub open spec fn cube_index(r: int, g: int, b: int) -> int {
    16 + 36 * cube_step(r) + 6 * cube_step(g) + cube_step(b)
}

/// The index in the gray ramp that is nearest to a color.
pub open spec fn gray_index(r: int, g: int, b: int) -> int {
    232 + gray_step(r + g + b)
}

/// The xterm-256 index nearest to an RGB color: the better of the nearest in the
/// cube and the nearest in the ramp.
pub open spec fn ansi256(r: u8, g: u8, b: u8) -> u8 {
    let (r, g, b) = (r as int, g as int, b as int);
    if distance(r, g, b, index_color(gray_index(r, g, b))) < distance(
        r,
        g,
        b,
        index_color(cube_index(r, g, b)),
    ) {
        gray_index(r, g, b) as u8
    } else {
        cube_index(r, g, b) as u8
    }
}

proof fn lemma_square_orders(a: int, b: int)
    ensures
        -b <= a <= b ==> square(a) <= square(b),
        -b < a < b ==> square(a) < square(b),
        b <= a <= -b ==> square(a) <= square(b),
        b < a < -b ==> square(a) < square(b),
        square(a) >= 0,
{
    assert(-b <= a <= b ==> a * a <= b * b) by (nonlinear_arith);
    assert(-b < a < b ==> a * a < b * b) by (nonlinear_arith);
    assert(b <= a <= -b ==> a * a <= b * b) by (nonlinear_arith);
    assert(b < a < -b ==> a * a < b * b) by (nonlinear_arith);
    assert(a * a >= 0) by (nonlinear_arith);
}

proof fn lemma_cube_step(c: int, step: int)
    requires
        0 <= c <= 255,
        0 <= step <= 5,
    ensures
        0 <= cube_step(c) <= 5,
        square(c - cube_level(cube_step(c))) <= square(c - cube_level(step)),
        square(c - cube_level(cube_step(c))) == square(c - cube_level(step)) ==> cube_step(c)
            <= step,
{
    let a = c - cube_level(cube_step(c));
    let b = c - cube_level(step);
    lemma_square_orders(a, b);
}

/// The distance to a gray is least where three times the gray is nearest to the
/// sum of the channels.
proof fn lemma_gray_distance(r: int, g: int, b: int, v: int)
    ensures
        3 * distance(r, g, b, (v, v, v)) == square(3 * v - (r + g + b)) + 3 * (square(r) + square(
            g,
        ) + square(b)) - square(r + g + b),
{
    assert(3 * ((r - v) * (r - v) + (g - v) * (g - v) + (b - v) * (b - v)) == (3 * v - (r + g + b))
        * (3 * v - (r + g + b)) + 3 * (r * r + g * g + b * b) - (r + g + b) * (r + g + b))
        by (nonlinear_arith);
}

proof fn lemma_gray_step(r: int, g: int, b: int, j: int)
    requires
        0 <= r <= 255,
        0 <= g <= 255,
        0 <= b <= 255,
        0 <= j <= 23,
    ensures
        ({
            let i = gray_index(r, g, b);
            let near = distance(r, g, b, index_color(i));
            let far = distance(r, g, b, index_color(232 + j));
            &&& 232 <= i <= 255
            &&& near <= far
            &&& near == far ==> i <= 232 + j
        }),
{
    let sum = r + g + b;
    let v = 8 + 10 * gray_step(sum);
    let w = 8 + 10 * j;
    lemma_gray_distance(r, g, b, v);
    lemma_gray_distance(r, g, b, w);
    lemma_square_orders(3 * v - sum, 3 * w - sum);
}

proof fn lemma_cube_index(r: int, g: int, b: int, k: int)
    requires
        0 <= r <= 255,
        0 <= g <= 255,
        0 <= b <= 255,
        16 <= k < 232,
    ensures
        ({
            let i = cube_index(r, g, b);
            let near = distance(r, g, b, index_color(i));
            let far = distance(r, g, b, index_color(k));
            &&& 16 <= i < 232
            &&& near <= far
            &&& near == far ==> i <= k
        }),
{
    let (x, y, z) = ((k - 16) / 36, (k - 16) / 6 % 6, (k - 16) % 6);
    lemma_cube_step(r, x);
    lemma_cube_step(g, y);
    lemma_cube_step(b, z);
    lemma_cube_color(r, g, b);
    assert(k == 16 + 36 * x + 6 * y + z);
}

proof fn lemma_cube_color(r: int, g: int, b: int)
    requires
        0 <= r <= 255,
        0 <= g <= 255,
        0 <= b <= 255,
    ensures
        16 <= cube_index(r, g, b) < 232,
        index_color(cube_index(r, g, b)) == (
            cube_level(cube_step(r)),
            cube_level(cube_step(g)),
            cube_level(cube_step(b)),
        ),
{
    let i = cube_index(r, g, b);
    assert((i - 16) / 36 == cube_step(r));
    assert((i - 16) / 6 % 6 == cube_step(g));
    assert((i - 16) % 6 == cube_step(b));
}

/// The index that is given for a color is the nearest there is, and the lowest
/// of those as near.
pub proof fn law_index_is_nearest(r: u8, g: u8, b: u8)
    ensures
        nearest(r, g, b, ansi256(r, g, b) as int),
{
    let (x, y, z) = (r as int, g as int, b as int);
    let i = ansi256(r, g, b) as int;
    lemma_cube_index(x, y, z, 16);
    lemma_gray_step(x, y, z, 0);
    let near = distance(x, y, z, index_color(i));
    assert forall|k: int| 16 <= k <= 255 implies {
        let far = distance(x, y, z, #[trigger] index_color(k));
        near <= far && (near == far ==> i <= k)
    } by {
        if k < 232 {
            lemma_cube_index(x, y, z, k);
        } else {
            lemma_gray_step(x, y, z, k - 232);
        }
    }
}

/// A color of the palette is given an index of that very color.
pub proof fn law_palette_colors_are_kept(r: u8, g: u8, b: u8, k: int)
    requires
        16 <= k <= 255,
        index_color(k) == (r as int, g as int, b as int),
    ensures
        index_color(ansi256(r, g, b) as int) == (r as int, g as int, b as int),
{
    law_index_is_nearest(r, g, b);
    let c = index_color(ansi256(r, g, b) as int);
    let (x, y, z) = (r as int, g as int, b as int);
    assert(distance(x, y, z, index_color(k)) == 0);
    lemma_square_is_zero(x - c.0);
    lemma_square_is_zero(y - c.1);
    lemma_square_is_zero(z - c.2);
}

proof fn lemma_square_is_zero(n: int)
    ensures
        square(n) >= 0,
        square(n) == 0 ==> n == 0,
{
    assert(n * n >= 0 && (n * n == 0 ==> n == 0)) by (nonlinear_arith);
}

fn step_of(c: u8) -> (r: u8)
    ensures
        r == cube_step(c as int),
        r <= 5,
{
    if c < 48 {
        0
    } else if c <= 115 {
        1
    } else {
        (c - 36) / 40
    }
}

fn level_of(step: u8) -> (r: u8)
    requires
        step <= 5,
    ensures
        r == cube_level(step as int),
{
    if step == 0 {
        0
    } else {
        55 + 40 * step
    }
}

fn squared(a: u8, b: u8) -> (r: u32)
    ensures
        r == square(a - b),
        r <= 65025,
{
    let d: u32 = if a < b {
        (b - a) as u32
    } else {
        (a - b) as u32
    };
    assert(d * d <= 255 * 255) by (nonlinear_arith)
        requires
            0 <= d <= 255,
    ;
    assert((a - b) * (a - b) == (b - a) * (b - a)) by (nonlinear_arith);
    d * d
}

fn spread(r: u8, g: u8, b: u8, x: u8, y: u8, z: u8) -> (d: u32)
    ensures
        d == distance(r as int, g as int, b as int, (x as int, y as int, z as int)),
{
    squared(r, x) + squared(g, y) + squared(b, z)
}

fn gray_of(sum: u16) -> (j: u8)
    ensures
        j == gray_step(sum as int),
        j <= 23,
{
    if sum <= 39 {
        0
    } else {
        let j: u16 = (sum - 10) / 30;
        if j > 23 {
            23
        } else {
            j as u8
        }
    }
}

/// Nearest xterm-256 index for an RGB color, the lowest of those as near.
pub fn rgb_to_ansi256(r: u8, g: u8, b: u8) -> (i: u8)
    ensures
        nearest(r, g, b, i as int),
        i == ansi256(r, g, b),
{
    let x: u8 = step_of(r);
    let y: u8 = step_of(g);
    let z: u8 = step_of(b);
    let cube: u32 = spread(r, g, b, level_of(x), level_of(y), level_of(z));
    let j: u8 = gray_of(r as u16 + g as u16 + b as u16);
    let v: u8 = 8 + 10 * j;
    let gray: u32 = spread(r, g, b, v, v, v);
    proof {
        lemma_cube_color(r as int, g as int, b as int);
    }
    let i: u8 = if gray < cube {
        232 + j
    } else {
        16 + 36 * x + 6 * y + z
    };
    assert(i == ansi256(r, g, b));
    proof {
        law_index_is_nearest(r, g, b);
    }
    i
}

/// The selectable palettes. `Custom` is defined by the user.
#[derive(Debug, Clone, Copy, PartialEq, Eq, Structural)]
pub enum ThemeKind {
    Cyber,
    C64,
    Vt320,
    Dark,
    Vapor,
    Paper,
    Gruvbox,
    Custom,
}

impl ThemeKind {
    /// The built-in palettes, in cycle order.
    pub const ALL: [ThemeKind; 7] = [
        ThemeKind::Cyber,
        ThemeKind::C64,
        ThemeKind::Vt320,
        ThemeKind::Dark,
        ThemeKind::Vapor,
        ThemeKind::Paper,
        ThemeKind::Gruvbox,
    ];

    pub open spec fn name_spec(self) -> Seq<char> {
        match self {
            ThemeKind::Cyber => "cyber"@,
            ThemeKind::C64 => "c64"@,
            ThemeKind::Vt320 => "vt320"@,
            ThemeKind::Dark => "dark"@,
            ThemeKind::Vapor => "vapor"@,
            ThemeKind::Paper => "paper"@,
            ThemeKind::Gruvbox => "gruvbox"@,
            ThemeKind::Custom => "custom"@,
        }
    }

    /// Stable lowercase name, as persisted in the preferences.
    pub fn name(self) -> (r: &'static str)
        ensures
            r@ == self.name_spec(),
    {
        match self {
            ThemeKind::Cyber => "cyber",
            ThemeKind::C64 => "c64",
            ThemeKind::Vt320 => "vt320",
            ThemeKind::Dark => "dark",
            ThemeKind::Vapor => "vapor",
            ThemeKind::Paper => "paper",
            ThemeKind::Gruvbox => "gruvbox",
            ThemeKind::Custom => "custom",
        }
    }

    /// The kind whose name is `lower`, or `Cyber` when no kind has it.
    pub open spec fn named(lower: Seq<char>) -> ThemeKind {
        if lower == "c64"@ {
            ThemeKind::C64
        } else if lower == "vt320"@ {
            ThemeKind::Vt320
        } else if lower == "dark"@ {
            ThemeKind::Dark
        } else if lower == "vapor"@ {
            ThemeKind::Vapor
        } else if lower == "paper"@ {
            ThemeKind::Paper
        } else if lower == "gruvbox"@ {
            ThemeKind::Gruvbox
        } else if lower == "custom"@ {
            ThemeKind::Custom
        } else {
            ThemeKind::Cyber
        }
    }

    /// Parse a name in any case; unknown names fall back to `Cyber`.
    pub fn from_name(name: &str) -> (r: ThemeKind)
        ensures
            r == ThemeKind::named(strs::lowercase(name@)),
            strs::all_ascii(name@) ==> r == ThemeKind::named(strs::ascii_lowered(name@)),
    {
        let lower = name.to_lowercase();
        ThemeKind::from_lower(lower.as_str())
    }

    /// The kind a lowercase name stands for.
    pub fn from_lower(lower: &str) -> (r: ThemeKind)
        ensures
            r == ThemeKind::named(lower@),
    {
        if same(lower, "c64") {
            ThemeKind::C64
        } else if same(lower, "vt320") {
            ThemeKind::Vt320
        } else if same(lower, "dark") {
            ThemeKind::Dark
        } else if same(lower, "vapor") {
            ThemeKind::Vapor
        } else if same(lower, "paper") {
            ThemeKind::Paper
        } else if same(lower, "gruvbox") {
            ThemeKind::Gruvbox
        } else if same(lower, "custom") {
            ThemeKind::Custom
        } else {
            ThemeKind::Cyber
        }
    }

    pub open spec fn palette(self) -> Theme {
        match self {
            ThemeKind::Cyber | ThemeKind::Custom => Theme::cyber_palette(),
            ThemeKind::C64 => Theme::c64_palette(),
            ThemeKind::Vt320 => Theme::vt320_palette(),
            ThemeKind::Dark => Theme::dark_palette(),
            ThemeKind::Vapor => Theme::vapor_palette(),
            ThemeKind::Paper => Theme::paper_palette(),
            ThemeKind::Gruvbox => Theme::gruvbox_palette(),
        }
    }

    /// Resolve to the concrete palette. `Custom` has none of its own and
    /// falls back to `cyber`.
    pub fn theme(self) -> (r: Theme)
        ensures
            r == self.palette(),
    {
        match self {
            ThemeKind::Cyber | ThemeKind::Custom => Theme::cyber(),
            ThemeKind::C64 => Theme::c64(),
            ThemeKind::Vt320 => Theme::vt320(),
            ThemeKind::Dark => Theme::dark(),
            ThemeKind::Vapor => Theme::vapor(),
            ThemeKind::Paper => Theme::paper(),
            ThemeKind::Gruvbox => Theme::gruvbox(),
        }
    }
}

// ---------------------------------------------------------------------------
// Laws.
// ---------------------------------------------------------------------------

/// Every kind is found again by its own name.
pub proof fn law_theme_names_round_trip(k: ThemeKind)
    ensures
        ThemeKind::named(strs::ascii_lowered(k.name_spec())) == k,
{
    reveal_strlit("cyber");
    reveal_strlit("c64");
    reveal_strlit("vt320");
    reveal_strlit("dark");
    reveal_strlit("vapor");
    reveal_strlit("paper");
    reveal_strlit("gruvbox");
    reveal_strlit("custom");
    assert(strs::ascii_lowered(k.name_spec()) =~= k.name_spec());
    assert("cyber"@.len() == 5 && "vapor"@.len() == 5 && "paper"@.len() == 5 && "vt320"@.len() == 5);
    assert("cyber"@[0] == 'c' && "vapor"@[1] == 'a' && "paper"@[0] == 'p' && "vt320"@[1] == 't');
    assert("custom"@.len() == 6 && "gruvbox"@.len() == 7 && "dark"@.len() == 4 && "c64"@.len() == 3);
}

/// A caution toast never has the color of body text in a built-in palette.
pub proof fn law_warning_differs_from_body_text(k: ThemeKind)
    ensures
        k.palette().warning != k.palette().foreground,
{
}

/// The accent and the three status colors of a built-in palette differ from
/// each other, so a toast's meaning reads at a glance.
pub proof fn law_status_colors_distinct(k: ThemeKind)
    ensures
        k.palette().accent != k.palette().success,
        k.palette().accent != k.palette().error,
        k.palette().accent != k.palette().warning,
        k.palette().success != k.palette().error,
        k.palette().success != k.palette().warning,
        k.palette().error != k.palette().warning,
{
}

/// Adapting twice to the same mode is adapting once, and no 24-bit color is
/// left outside of the full mode.
pub proof fn law_adapt_is_idempotent(t: Theme, mode: ColorMode)
    ensures
        t.adapted(mode).adapted(mode) == t.adapted(mode),
        mode == ColorMode::Full ==> t.adapted(mode) == t,
        forall|c: Color| mode != ColorMode::Full ==> #[trigger] mode.shown(c) !is Rgb,
{
}

/// Each style takes its own color of the palette and no background but where it says so;
/// what stands out is bold, body, muted and border are not.
pub proof fn law_styles_take_their_colors(t: Theme)
    ensures
        t.base_spec().fg == Some(t.foreground) && t.base_spec().bg == Some(t.background)
            && !t.base_spec().bold,
        t.muted_spec().fg == Some(t.muted) && t.muted_spec().bg is None && !t.muted_spec().bold,
        t.accent_spec().fg == Some(t.accent) && t.accent_spec().bg is None
            && t.accent_spec().bold,
        t.heading_spec().fg == Some(t.heading) && t.heading_spec().bg is None
            && t.heading_spec().bold,
        t.error_spec().fg == Some(t.error) && t.error_spec().bg is None && t.error_spec().bold,
        t.warning_spec().fg == Some(t.warning) && t.warning_spec().bg is None
            && t.warning_spec().bold,
        t.success_spec().fg == Some(t.success) && t.success_spec().bg is None
            && t.success_spec().bold,
        t.border_spec().fg == Some(t.border) && t.border_spec().bg is None
            && !t.border_spec().bold,
        t.selection_spec().fg is None && t.selection_spec().bg == Some(t.selection)
            && t.selection_spec().bold,
{
}

/// A background that is given takes the palette's place and changes nothing else.
pub proof fn law_a_given_background_is_taken(t: Theme, c: Color)
    ensures
        t.on_background(Some(c)).background == c,
        t.on_background(None) == t,
        t.on_background(Some(c)) == (Theme { background: c, ..t }),
{
}

/// Without colors every color is the terminal's own; with 256 a 24-bit color becomes the
/// nearest index and every other stays; with all of them nothing changes.
pub proof fn law_modes_show_colors(t: Theme, r: u8, g: u8, b: u8, c: Color)
    ensures
        ColorMode::Monochrome.shown(c) == Color::Reset,
        ColorMode::Full.shown(c) == c,
        !(c is Rgb) ==> ColorMode::Indexed256.shown(c) == c,
        ({
            &&& ColorMode::Indexed256.shown(Color::Rgb(r, g, b)) matches Color::Indexed(k)
            &&& nearest(r, g, b, k as int)
        }),
        t.adapted(ColorMode::Monochrome).foreground == Color::Reset,
        t.adapted(ColorMode::Monochrome).background == Color::Reset,
        t.adapted(ColorMode::Monochrome).accent == Color::Reset,
        t.adapted(ColorMode::Indexed256).accent == ColorMode::Indexed256.shown(t.accent),
        t.adapted(ColorMode::Indexed256).foreground == ColorMode::Indexed256.shown(t.foreground),
        t.adapted(ColorMode::Indexed256).background == ColorMode::Indexed256.shown(t.background),
        t.adapted(ColorMode::Indexed256).muted == ColorMode::Indexed256.shown(t.muted),
        t.adapted(ColorMode::Indexed256).heading == ColorMode::Indexed256.shown(t.heading),
        t.adapted(ColorMode::Indexed256).success == ColorMode::Indexed256.shown(t.success),
        t.adapted(ColorMode::Indexed256).error == ColorMode::Indexed256.shown(t.error),
        t.adapted(ColorMode::Indexed256).warning == ColorMode::Indexed256.shown(t.warning),
        t.adapted(ColorMode::Indexed256).border == ColorMode::Indexed256.shown(t.border),
        t.adapted(ColorMode::Indexed256).selection == ColorMode::Indexed256.shown(t.selection),
{
    law_index_is_nearest(r, g, b);
}

/// A wish for no color comes first, then a terminal that says it shows all of them,
/// and 256 are what is left.
pub proof fn law_the_mode_follows_the_environment(
    no_color: Option<Seq<u8>>,
    colorterm: Option<Seq<char>>,
)
    ensures
        no_color matches Some(v) ==> v.len() > 0 ==> mode_for(no_color, colorterm) is Monochrome,
        no_color is None && colorterm is None ==> mode_for(no_color, colorterm) is Indexed256,
        (no_color is None || no_color->Some_0.len() == 0) && colorterm is Some ==> {
            let lower = strs::ascii_lowered(colorterm->Some_0);
            let all = strs::occurs(lower, "truecolor"@) || strs::occurs(lower, "24bit"@);
            &&& all ==> mode_for(no_color, colorterm) is Full
            &&& !all ==> mode_for(no_color, colorterm) is Indexed256
        },
        no_color == Some(Seq::<u8>::empty()) ==> mode_for(no_color, colorterm) == mode_for(
            None,
            colorterm,
        ),
{
}

/// Each theme's name is its own, and a name that none has is that of the standard one.
pub proof fn law_themes_go_by_their_names(lower: Seq<char>, k: ThemeKind)
    ensures
        ThemeKind::named(lower) == k && !(k is Cyber) ==> lower == k.name_spec(),
        (forall|j: ThemeKind| #[trigger] j.name_spec() != lower) ==> ThemeKind::named(lower)
            is Cyber,
{
    if forall|j: ThemeKind| #[trigger] j.name_spec() != lower {
        assert(ThemeKind::C64.name_spec() != lower);
        assert(ThemeKind::Vt320.name_spec() != lower);
        assert(ThemeKind::Dark.name_spec() != lower);
        assert(ThemeKind::Vapor.name_spec() != lower);
        assert(ThemeKind::Paper.name_spec() != lower);
        assert(ThemeKind::Gruvbox.name_spec() != lower);
        assert(ThemeKind::Custom.name_spec() != lower);
    }
}

/// The built-in palettes differ from each other, in their accent or their foreground.
pub proof fn law_palettes_differ(a: ThemeKind, b: ThemeKind)
    requires
        a != b,
        !(a is Custom),
        !(b is Custom),
    ensures
        a.palette().accent != b.palette().accent || a.palette().foreground
            != b.palette().foreground,
{
}

/// In every palette what is selected stands on a color of its own, and text, muted text
/// and accents are told apart from it and from each other.
pub proof fn law_text_is_told_apart(k: ThemeKind)
    ensures
        k.palette().foreground != k.palette().background,
        k.palette().foreground != k.palette().muted,
        k.palette().foreground != k.palette().selection,
        k.palette().foreground != k.palette().accent,
        k.palette().muted != k.palette().accent,
        k.palette().muted != k.palette().background,
        k.palette().selection != k.palette().background,
        k.palette().foreground != k.palette().error,
{
}

/// The built-in themes are listed once each.
pub proof fn law_every_built_in_theme_is_listed(k: ThemeKind)
    ensures
        ThemeKind::ALL@.len() == 7,
        ThemeKind::ALL@.contains(k) == !(k is Custom),
{
    let a = ThemeKind::ALL@;
    assert(a[0] is Cyber && a[1] is C64 && a[2] is Vt320 && a[3] is Dark && a[4] is Vapor && a[5]
        is Paper && a[6] is Gruvbox);
    if k is Custom && a.contains(k) {
        let i = choose|i: int| 0 <= i < a.len() && a[i] == k;
        assert(a[i] is Custom);
    }
}

} // verus!
