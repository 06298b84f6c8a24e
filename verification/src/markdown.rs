//! Minimal markdown renderer.
//!
//! Handles headings, bold and italic, inline code, code blocks, unordered
//! lists, blockquotes, links (the visible text, then the bare URL on its own
//! line), soft and hard breaks, and `@mention` highlighting. The rest renders
//! as plain text.
use pulldown_cmark::{Event, Parser, Tag};

use vstd::prelude::*;

use crate::draw::{self, push_line, push_span, Line, Span};
use crate::strs::{
    self, begins, chars_of, is_ascii_alphanumeric_char, join, repeat, same, string_of_range, trim,
    words,
};
use crate::text::{self, truncate_to_width};
use crate::theme::{self, Style, Theme};

verus! {

// ---------------------------------------------------------------------------
// What the parser reports.
// ---------------------------------------------------------------------------

/// One event of a parsed document. A tag that opens or closes is given by the
/// name the parser's own type has for it, such as `Emphasis` or `Heading(H2)`.
#[derive(Debug, Clone)]
pub enum MdEvent {
    /// A link opens, with its destination.
    Link(String),
    /// An image opens, with its destination.
    Image(String),
    /// Another tag opens.
    Start(String),
    /// A tag closes.
    End(String),
    Text(String),
    Code(String),
    /// A soft or a hard line break.
    Break,
    /// A thematic break.
    Rule,
    /// Anything else.
    Other,
}

/// What an [`MdEvent`] says.
#[verifier::ext_equal]
pub enum EventView {
    Link(Seq<char>),
    Image(Seq<char>),
    Start(Seq<char>),
    End(Seq<char>),
    Text(Seq<char>),
    Code(Seq<char>),
    Break,
    Rule,
    Other,
}

impl View for MdEvent {
    type V = EventView;

    open spec fn view(&self) -> EventView {
        match self {
            MdEvent::Link(s) => EventView::Link(s@),
            MdEvent::Image(s) => EventView::Image(s@),
            MdEvent::Start(s) => EventView::Start(s@),
            MdEvent::End(s) => EventView::End(s@),
            MdEvent::Text(s) => EventView::Text(s@),
            MdEvent::Code(s) => EventView::Code(s@),
            MdEvent::Break => EventView::Break,
            MdEvent::Rule => EventView::Rule,
            MdEvent::Other => EventView::Other,
        }
    }
}

pub open spec fn event_views(v: Seq<MdEvent>) -> Seq<EventView> {
    Seq::new(v.len(), |i: int| v[i]@)
}

/// The events of a markdown document.
pub uninterp spec fn markdown_events(src: Seq<char>) -> Seq<EventView>;

/// `pulldown_cmark::Parser::new` and the events it yields, each as a plain
/// value, and a tag by the words of its `Debug` form: they depend on the source
/// text alone and are named [`markdown_events`].
#[verifier::external_body]
pub(crate) fn parse(src: &str) -> (r: Vec<MdEvent>)
    ensures
        event_views(r@) == markdown_events(src@),
{
    Parser::new(src).map(|e| match e {
        Event::Start(Tag::Link { dest_url, .. }) => MdEvent::Link(dest_url.into_string()),
        Event::Start(Tag::Image { dest_url, .. }) => MdEvent::Image(dest_url.into_string()),
        Event::Start(t) => MdEvent::Start(format!("{:?}", t.to_end())),
        Event::End(t) => MdEvent::End(format!("{:?}", t)),
        Event::Text(s) => MdEvent::Text(s.into_string()),
        Event::Code(s) => MdEvent::Code(s.into_string()),
        Event::SoftBreak | Event::HardBreak => MdEvent::Break,
        Event::Rule => MdEvent::Rule,
        _ => MdEvent::Other,
    }).collect()
}

/// A tag the renderer gives a meaning to.
#[derive(Debug, Clone, Copy, PartialEq, Eq, Structural)]
pub enum MdTag {
    /// A heading and its level.
    Heading(u8),
    Paragraph,
    CodeBlock,
    Emphasis,
    Strong,
    List,
    Item,
    BlockQuote,
    Link,
    Image,
    Other,
}

/// The tag that a name stands for.
pub open spec fn tag_named(name: Seq<char>) -> MdTag {
    if name == "Heading(H1)"@ {
        MdTag::Heading(1)
    } else if name == "Heading(H2)"@ {
        MdTag::Heading(2)
    } else if name == "Heading(H3)"@ {
        MdTag::Heading(3)
    } else if name == "Heading(H4)"@ {
        MdTag::Heading(4)
    } else if name == "Heading(H5)"@ {
        MdTag::Heading(5)
    } else if name == "Heading(H6)"@ {
        MdTag::Heading(6)
    } else if name == "Paragraph"@ {
        MdTag::Paragraph
    } else if name == "CodeBlock"@ {
        MdTag::CodeBlock
    } else if name == "Emphasis"@ {
        MdTag::Emphasis
    } else if name == "Strong"@ {
        MdTag::Strong
    } else if strs::starts_with(name, "List("@) {
        MdTag::List
    } else if name == "Item"@ {
        MdTag::Item
    } else if strs::starts_with(name, "BlockQuote("@) {
        MdTag::BlockQuote
    } else if name == "Link"@ {
        MdTag::Link
    } else if name == "Image"@ {
        MdTag::Image
    } else {
        MdTag::Other
    }
}

fn tag_for(name: &str) -> (r: MdTag)
    ensures
        r == tag_named(name@),
{
    if same(name, "Heading(H1)") {
        MdTag::Heading(1)
    } else if same(name, "Heading(H2)") {
        MdTag::Heading(2)
    } else if same(name, "Heading(H3)") {
        MdTag::Heading(3)
    } else if same(name, "Heading(H4)") {
        MdTag::Heading(4)
    } else if same(name, "Heading(H5)") {
        MdTag::Heading(5)
    } else if same(name, "Heading(H6)") {
        MdTag::Heading(6)
    } else if same(name, "Paragraph") {
        MdTag::Paragraph
    } else if same(name, "CodeBlock") {
        MdTag::CodeBlock
    } else if same(name, "Emphasis") {
        MdTag::Emphasis
    } else if same(name, "Strong") {
        MdTag::Strong
    } else if begins(name, "List(") {
        MdTag::List
    } else if same(name, "Item") {
        MdTag::Item
    } else if begins(name, "BlockQuote(") {
        MdTag::BlockQuote
    } else if same(name, "Link") {
        MdTag::Link
    } else if same(name, "Image") {
        MdTag::Image
    } else {
        MdTag::Other
    }
}

// ---------------------------------------------------------------------------
// Mentions.
// ---------------------------------------------------------------------------

/// A character that can stand in a mentioned name.
pub open spec fn name_char(c: char) -> bool {
    strs::ascii_alphanumeric(c) || c == '_'
}

/// Where the run of name characters that begins at `i` ends.
pub open spec fn name_end(s: Seq<char>, i: int) -> int
    decreases s.len() - i,
{
    if 0 <= i < s.len() && name_char(s[i]) {
        name_end(s, i + 1)
    } else {
        i
    }
}

/// The run of plain text `s[from..to]`, if there is any.
pub open spec fn plain_run(s: Seq<char>, from: int, to: int, base: Style) -> Seq<draw::SpanView> {
    if from < to {
        draw::one(s.subrange(from, to), base)
    } else {
        Seq::empty()
    }
}

/// The runs of a text from position `i` on, where the plain run under way began
/// at `start`: an `@` followed by a name is a run of its own.
pub open spec fn mention_spans(
    s: Seq<char>,
    start: int,
    i: int,
    base: Style,
    accent: Style,
) -> Seq<draw::SpanView>
    decreases s.len() - i,
{
    if i < 0 || i >= s.len() {
        plain_run(s, start, s.len() as int, base)
    } else {
        let e = name_end(s, i + 1);
        if s[i] == '@' && i + 1 < e <= s.len() {
            plain_run(s, start, i, base) + draw::one(s.subrange(i, e), accent) + mention_spans(
                s,
                e,
                e,
                base,
                accent,
            )
        } else {
            mention_spans(s, start, i + 1, base, accent)
        }
    }
}

/// Split text on `@mention` boundaries and apply the accent style to mentions.
pub fn mention_aware_spans(text: &str, base: Style, theme: &Theme) -> (out: Vec<Span>)
    ensures
        draw::span_views(out@) == mention_spans(text@, 0, 0, base, theme.accent_spec()),
{
    let v = chars_of(text);
    let accent = theme.accent_style();
    let mut out: Vec<Span> = Vec::new();
    let mut start: usize = 0;
    let mut i: usize = 0;
    let ghost all = mention_spans(v@, 0, 0, base, accent);
    assert(draw::span_views(out@) + all =~= all);
    while i < v.len()
        invariant
            start <= i <= v@.len(),
            accent == theme.accent_spec(),
            all == draw::span_views(out@) + mention_spans(
                v@,
                start as int,
                i as int,
                base,
                accent,
            ),
        decreases v@.len() - i,
    {
        if v[i] == '@' {
            let mut e: usize = i + 1;
            while e < v.len() && (is_ascii_alphanumeric_char(v[e]) || v[e] == '_')
                invariant
                    i < e <= v@.len(),
                    name_end(v@, e as int) == name_end(v@, i + 1),
                decreases v@.len() - e,
            {
                e = e + 1;
            }
            if e > i + 1 {
                let ghost before = draw::span_views(out@);
                if start < i {
                    push_span(&mut out, Span::new(string_of_range(&v, start, i), base));
                }
                assert(draw::span_views(out@) =~= before + plain_run(
                    v@,
                    start as int,
                    i as int,
                    base,
                ));
                push_span(&mut out, Span::new(string_of_range(&v, i, e), accent));
                assert(all =~= draw::span_views(out@) + mention_spans(
                    v@,
                    e as int,
                    e as int,
                    base,
                    accent,
                ));
                start = e;
                i = e;
                continue ;
            }
        }
        i = i + 1;
    }
    let ghost before = draw::span_views(out@);
    if start < v.len() {
        push_span(&mut out, Span::new(string_of_range(&v, start, v.len()), base));
    }
    assert(draw::span_views(out@) =~= before + plain_run(
        v@,
        start as int,
        v@.len() as int,
        base,
    ));
    assert(all =~= draw::span_views(out@));
    out
}

// ---------------------------------------------------------------------------
// The renderer.
// ---------------------------------------------------------------------------

/// Whether an image's destination URL is surfaced below its placeholder.
#[derive(Debug, Clone, Copy, PartialEq, Eq, Structural)]
pub enum ImageUrls {
    /// Surface the URL on its own line.
    Show,
    /// Suppress the URL: the image itself is drawn elsewhere.
    Hide,
}

/// A surfaced URL and where it landed: the line, the column its text starts
/// at, and the URL.
#[derive(Debug, Clone, PartialEq, Eq)]
pub struct LinkRef {
    pub line: usize,
    pub col: u16,
    pub url: String,
}

/// What a [`LinkRef`] says.
#[verifier::ext_equal]
pub struct LinkView {
    pub line: int,
    pub col: int,
    pub url: Seq<char>,
}

impl View for LinkRef {
    type V = LinkView;

    open spec fn view(&self) -> LinkView {
        LinkView { line: self.line as int, col: self.col as int, url: self.url@ }
    }
}

pub open spec fn link_views(v: Seq<LinkRef>) -> Seq<LinkView> {
    Seq::new(v.len(), |i: int| v[i]@)
}

/// The text of an image's placeholder.
pub open spec fn placeholder(alt: Seq<char>) -> Seq<char> {
    if strs::trimmed(alt).len() == 0 {
        "[image]"@
    } else {
        "[image: "@ + text::truncated(strs::trimmed(alt), 60) + "]"@
    }
}

/// Build the inline image placeholder, carrying a capped description when there
/// is one.
pub fn image_placeholder(alt: &str) -> (r: String)
    ensures
        r@ == placeholder(alt@),
{
    let alt = trim(alt);
    if alt.as_str().is_empty() {
        return "[image]".to_owned();
    }
    let mut r = "[image: ".to_owned();
    r.append(truncate_to_width(alt.as_str(), 60).as_str());
    r.append("]");
    r
}

/// Whether a link's visible text already conveys its URL.
pub open spec fn redundant(text: Seq<char>, url: Seq<char>) -> bool {
    let t = strs::trimmed(text);
    let u = strs::trimmed(url);
    t == u || u == "mailto:"@ + t
}

/// Whether the link's visible `text` already conveys the `url`: plain
/// autolinks, and mail addresses.
pub fn link_suffix_redundant(text: &str, url: &str) -> (r: bool)
    ensures
        r == redundant(text@, url@),
{
    let text = trim(text);
    let url = trim(url);
    if same(text.as_str(), url.as_str()) {
        return true;
    }
    let mut mail = "mailto:".to_owned();
    mail.append(text.as_str());
    same(url.as_str(), mail.as_str())
}

/// The renderer between two events.
#[derive(Debug)]
pub struct MdState {
    pub out: Vec<Line>,
    pub links: Vec<LinkRef>,
    /// The line under way.
    pub line: Vec<Span>,
    pub stack: Vec<Style>,
    pub list_depth: u32,
    pub quote_depth: u32,
    /// The description of the image that is open.
    pub image_alt: Option<String>,
    pub image_url: Option<String>,
    /// The destination of the link that is open.
    pub link_url: Option<String>,
    pub link_text: String,
}

/// What an [`MdState`] holds.
#[verifier::ext_equal]
pub struct MdView {
    pub out: Seq<Seq<draw::SpanView>>,
    pub links: Seq<LinkView>,
    pub line: Seq<draw::SpanView>,
    pub stack: Seq<Style>,
    pub list_depth: int,
    pub quote_depth: int,
    pub image_alt: Option<Seq<char>>,
    pub image_url: Option<Seq<char>>,
    pub link_url: Option<Seq<char>>,
    pub link_text: Seq<char>,
}

impl View for MdState {
    type V = MdView;

    open spec fn view(&self) -> MdView {
        MdView {
            out: draw::line_views(self.out@),
            links: link_views(self.links@),
            line: draw::span_views(self.line@),
            stack: self.stack@,
            list_depth: self.list_depth as int,
            quote_depth: self.quote_depth as int,
            image_alt: strs::opt_text(self.image_alt),
            image_url: strs::opt_text(self.image_url),
            link_url: strs::opt_text(self.link_url),
            link_text: self.link_text@,
        }
    }
}

/// `a + 1`, counted with 32 bits.
pub open spec fn deeper(a: int) -> int {
    if a < u32::MAX {
        a + 1
    } else {
        a
    }
}

/// `a - 1`, stopping at zero.
pub open spec fn shallower(a: int) -> int {
    if a > 0 {
        a - 1
    } else {
        0
    }
}

pub open spec fn bounded(a: int) -> int {
    if a > u16::MAX {
        u16::MAX as int
    } else {
        a
    }
}

/// Style of an inline image placeholder and of a link's text.
pub open spec fn link_style(theme: Theme) -> Style {
    Style { underlined: true, ..theme::colored(theme.accent) }
}

impl MdView {
    pub open spec fn initial(theme: Theme) -> MdView {
        MdView {
            out: Seq::empty(),
            links: Seq::empty(),
            line: Seq::empty(),
            stack: seq![theme.base_spec()],
            list_depth: 0,
            quote_depth: 0,
            image_alt: None,
            image_url: None,
            link_url: None,
            link_text: Seq::empty(),
        }
    }

    /// A line as it is put out: behind a bar for each level of quotation.
    pub open spec fn quoted(self, line: Seq<draw::SpanView>, theme: Theme) -> Seq<draw::SpanView> {
        if self.quote_depth > 0 {
            draw::one(strs::repeated("│ "@, self.quote_depth as nat), theme.muted_spec()) + line
        } else {
            line
        }
    }

    /// The line under way is put out, unless it is empty.
    pub open spec fn flushed(self, theme: Theme) -> MdView {
        if self.line.len() == 0 {
            self
        } else {
            MdView {
                out: self.out.push(self.quoted(self.line, theme)),
                line: Seq::empty(),
                ..self
            }
        }
    }

    pub open spec fn with_blank(self) -> MdView {
        MdView { out: self.out.push(draw::blank()), ..self }
    }

    pub open spec fn with_span(self, s: draw::SpanView) -> MdView {
        MdView { line: self.line.push(s), ..self }
    }

    pub open spec fn pushed(self, s: Style) -> MdView {
        MdView { stack: self.stack.push(s), ..self }
    }

    pub open spec fn popped(self) -> MdView {
        if self.stack.len() > 0 {
            MdView { stack: self.stack.drop_last(), ..self }
        } else {
            self
        }
    }

    pub open spec fn style(self, theme: Theme) -> Style {
        if self.stack.len() > 0 {
            self.stack.last()
        } else {
            theme.base_spec()
        }
    }

    /// A URL is put out alone on a line of its own, indented, and recorded.
    pub open spec fn surfaced(self, url: Seq<char>, theme: Theme) -> MdView {
        let s = self.flushed(theme);
        let line = draw::one("  "@ + strs::trimmed(url), theme::colored(theme.accent));
        MdView {
            out: s.out.push(s.quoted(line, theme)),
            links: s.links.push(
                LinkView {
                    line: s.out.len() as int,
                    col: bounded(bounded((s.quote_depth % 65536) * 2) + 2),
                    url: strs::trimmed(url),
                },
            ),
            ..s
        }
    }

    /// A tag opens.
    pub open spec fn opened(self, tag: MdTag, theme: Theme) -> MdView {
        match tag {
            MdTag::Heading(level) => self.flushed(theme).pushed(
                Style { underlined: level == 1, ..theme.accent_spec() },
            ).with_span(
                draw::span(strs::repeated("#"@, level as nat) + " "@, theme.muted_spec()),
            ),
            MdTag::Emphasis => self.pushed(Style { italic: true, ..self.style(theme) }),
            MdTag::Strong => self.pushed(Style { bold: true, ..self.style(theme) }),
            MdTag::CodeBlock => self.flushed(theme).pushed(theme::colored(theme.accent)),
            MdTag::List => MdView { list_depth: deeper(self.list_depth), ..self },
            MdTag::Item => self.flushed(theme).with_span(
                draw::span(
                    strs::repeated("  "@, shallower(self.list_depth) as nat) + "• "@,
                    theme.muted_spec(),
                ),
            ),
            MdTag::BlockQuote => {
                let s = self.flushed(theme);
                MdView { quote_depth: deeper(s.quote_depth), ..s }.pushed(
                    Style { italic: true, ..theme.muted_spec() },
                )
            },
            _ => self,
        }
    }

    /// A tag other than a link or an image closes.
    pub open spec fn closed_tag(self, tag: MdTag, theme: Theme) -> MdView {
        match tag {
            MdTag::Heading(_) => self.popped().flushed(theme).with_blank(),
            MdTag::Paragraph => self.flushed(theme).with_blank(),
            MdTag::CodeBlock => self.flushed(theme).popped().with_blank(),
            MdTag::Emphasis | MdTag::Strong => self.popped(),
            MdTag::List => MdView { list_depth: shallower(self.list_depth), ..self }.flushed(
                theme,
            ),
            MdTag::Item => self.flushed(theme),
            MdTag::BlockQuote => {
                let s = self.flushed(theme);
                MdView { quote_depth: shallower(s.quote_depth), ..s }.popped()
            },
            _ => self,
        }
    }

    /// An image closes: its placeholder stands in the line, and its URL below
    /// it where URLs are shown.
    pub open spec fn closed_image(self, theme: Theme, urls: ImageUrls) -> MdView {
        let alt = match self.image_alt {
            Some(a) => a,
            None => Seq::empty(),
        };
        let s = MdView { image_alt: None, image_url: None, ..self }.with_span(
            draw::span(placeholder(alt), link_style(theme)),
        );
        match self.image_url {
            Some(url) => if urls == ImageUrls::Show && strs::trimmed(url).len() > 0 {
                s.surfaced(url, theme)
            } else {
                s
            },
            None => s,
        }
    }

    /// A link closes: its URL is put out below it unless the text already
    /// conveys it.
    pub open spec fn closed_link(self, theme: Theme) -> MdView {
        let s = self.popped();
        match self.link_url {
            Some(url) => {
                let t = MdView { link_url: None, link_text: Seq::empty(), ..s };
                if strs::trimmed(url).len() > 0 && !redundant(self.link_text, url) {
                    t.surfaced(url, theme)
                } else {
                    t
                }
            },
            None => s,
        }
    }

    /// Text belongs to the image or the link that is open; text of an image is
    /// not shown.
    pub open spec fn heard(self, t: Seq<char>) -> MdView {
        match self.image_alt {
            Some(alt) => MdView { image_alt: Some(alt + t), ..self },
            None => if self.link_url is Some {
                MdView { link_text: self.link_text + t, ..self }
            } else {
                self
            },
        }
    }

    /// The state after an event.
    pub open spec fn stepped(self, e: EventView, theme: Theme, urls: ImageUrls) -> MdView {
        match e {
            EventView::Image(url) => MdView {
                image_alt: Some(Seq::empty()),
                image_url: Some(url),
                ..self
            },
            EventView::Link(url) => MdView {
                link_url: Some(url),
                link_text: Seq::empty(),
                ..self.pushed(link_style(theme))
            },
            EventView::Start(name) => self.opened(tag_named(name), theme),
            EventView::End(name) => match tag_named(name) {
                MdTag::Image => self.closed_image(theme, urls),
                MdTag::Link => self.closed_link(theme),
                tag => self.closed_tag(tag, theme),
            },
            EventView::Text(t) => {
                let s = self.heard(t);
                if self.image_alt is Some {
                    s
                } else {
                    MdView {
                        line: s.line + mention_spans(
                            t,
                            0,
                            0,
                            self.style(theme),
                            theme.accent_spec(),
                        ),
                        ..s
                    }
                }
            },
            EventView::Code(t) => {
                let s = self.heard(t);
                if self.image_alt is Some {
                    s
                } else {
                    s.with_span(draw::span("`"@ + t + "`"@, theme::colored(theme.accent)))
                }
            },
            EventView::Break => self.flushed(theme),
            EventView::Rule => {
                let s = self.flushed(theme);
                MdView {
                    out: s.out.push(
                        draw::one("────────────────────────────"@, theme.muted_spec()),
                    ),
                    ..s
                }
            },
            EventView::Other => self,
        }
    }

    /// The state after the first `n` events.
    pub open spec fn after(
        events: Seq<EventView>,
        n: int,
        theme: Theme,
        urls: ImageUrls,
    ) -> MdView
        decreases n,
    {
        if n <= 0 {
            MdView::initial(theme)
        } else {
            MdView::after(events, n - 1, theme, urls).stepped(events[n - 1], theme, urls)
        }
    }

    /// The lines and links of a document with these events.
    pub open spec fn rendered(events: Seq<EventView>, theme: Theme, urls: ImageUrls) -> MdView {
        MdView::after(events, events.len() as int, theme, urls).flushed(theme)
    }
}

fn link_text_style(theme: &Theme) -> (r: Style)
    ensures
        r == link_style(*theme),
{
    let mut s = Style::color(theme.accent);
    s.underlined = true;
    s
}

impl MdState {
    fn new(theme: &Theme) -> (r: MdState)
        ensures
            r@ == MdView::initial(*theme),
    {
        let mut stack: Vec<Style> = Vec::new();
        stack.push(theme.base());
        let r = MdState {
            out: Vec::new(),
            links: Vec::new(),
            line: Vec::new(),
            stack,
            list_depth: 0,
            quote_depth: 0,
            image_alt: None,
            image_url: None,
            link_url: None,
            link_text: String::new(),
        };
        assert(r@ =~= MdView::initial(*theme));
        r
    }

    /// Put a finished line out, behind its bars.
    fn put(&mut self, spans: Vec<Span>, theme: &Theme)
        ensures
            final(self)@ == (MdView {
                out: old(self)@.out.push(old(self)@.quoted(draw::span_views(spans@), *theme)),
                ..old(self)@
            }),
    {
        let mut spans = spans;
        let ghost given = draw::span_views(spans@);
        if self.quote_depth > 0 {
            let bars = Span::new(repeat("│ ", self.quote_depth as usize), theme.muted_style());
            spans.insert(0, bars);
            assert(draw::span_views(spans@) =~= self@.quoted(given, *theme));
        }
        push_line(&mut self.out, Line::new(spans));
    }

    fn flush(&mut self, theme: &Theme)
        ensures
            final(self)@ == old(self)@.flushed(*theme),
    {
        if self.line.len() == 0 {
            return ;
        }
        let mut spans: Vec<Span> = Vec::new();
        spans.append(&mut self.line);
        assert(spans@ =~= old(self).line@);
        assert(draw::span_views(self.line@) =~= Seq::empty());
        self.put(spans, theme);
    }

    fn blank(&mut self)
        ensures
            final(self)@ == old(self)@.with_blank(),
    {
        push_line(&mut self.out, Line::empty());
    }

    fn pop_style(&mut self)
        ensures
            final(self)@ == old(self)@.popped(),
    {
        let _ = self.stack.pop();
    }

    fn current_style(&self, theme: &Theme) -> (r: Style)
        ensures
            r == self@.style(*theme),
    {
        if self.stack.len() > 0 {
            self.stack[self.stack.len() - 1]
        } else {
            theme.base()
        }
    }

    /// Surface a destination URL on a line of its own and record where it
    /// landed.
    fn surface_url(&mut self, url: &str, theme: &Theme)
        ensures
            final(self)@ == old(self)@.surfaced(url@, *theme),
    {
        self.flush(theme);
        let url = trim(url);
        let mut shown = "  ".to_owned();
        shown.append(url.as_str());
        let mut spans: Vec<Span> = Vec::new();
        push_span(&mut spans, Span::new(shown, Style::color(theme.accent)));
        assert(draw::span_views(spans@) =~= draw::one(
            shown@,
            theme::colored(theme.accent),
        ));
        let line: usize = self.out.len();
        self.put(spans, theme);
        let doubled: u32 = (self.quote_depth % 65536) * 2;
        let bars: u32 = if doubled > 65535 {
            65535
        } else {
            doubled
        };
        let col: u16 = if bars + 2 > 65535 {
            65535
        } else {
            (bars + 2) as u16
        };
        let ghost links = link_views(self.links@);
        let link = LinkRef { line, col, url };
        self.links.push(link);
        assert(link_views(self.links@) =~= links.push(link@));
    }

    fn open(&mut self, tag: MdTag, theme: &Theme)
        ensures
            final(self)@ == old(self)@.opened(tag, *theme),
    {
        match tag {
            MdTag::Heading(level) => {
                self.flush(theme);
                let mut style = theme.accent_style();
                style.underlined = level == 1;
                self.stack.push(style);
                let mut prefix = repeat("#", level as usize);
                prefix.append(" ");
                push_span(&mut self.line, Span::new(prefix, theme.muted_style()));
            },
            MdTag::Emphasis => {
                let mut style = self.current_style(theme);
                style.italic = true;
                self.stack.push(style);
            },
            MdTag::Strong => {
                let mut style = self.current_style(theme);
                style.bold = true;
                self.stack.push(style);
            },
            MdTag::CodeBlock => {
                self.flush(theme);
                self.stack.push(Style::color(theme.accent));
            },
            MdTag::List => {
                if self.list_depth < u32::MAX {
                    self.list_depth = self.list_depth + 1;
                }
            },
            MdTag::Item => {
                self.flush(theme);
                let depth: u32 = if self.list_depth > 0 {
                    self.list_depth - 1
                } else {
                    0
                };
                let mut bullet = repeat("  ", depth as usize);
                bullet.append("• ");
                push_span(&mut self.line, Span::new(bullet, theme.muted_style()));
            },
            MdTag::BlockQuote => {
                self.flush(theme);
                if self.quote_depth < u32::MAX {
                    self.quote_depth = self.quote_depth + 1;
                }
                let mut style = theme.muted_style();
                style.italic = true;
                self.stack.push(style);
            },
            _ => {},
        }
    }

    fn close(&mut self, tag: MdTag, theme: &Theme)
        ensures
            final(self)@ == old(self)@.closed_tag(tag, *theme),
    {
        match tag {
            MdTag::Heading(_) => {
                self.pop_style();
                self.flush(theme);
                self.blank();
            },
            MdTag::Paragraph => {
                self.flush(theme);
                self.blank();
            },
            MdTag::CodeBlock => {
                self.flush(theme);
                self.pop_style();
                self.blank();
            },
            MdTag::Emphasis | MdTag::Strong => {
                self.pop_style();
            },
            MdTag::List => {
                if self.list_depth > 0 {
                    self.list_depth = self.list_depth - 1;
                }
                self.flush(theme);
            },
            MdTag::Item => {
                self.flush(theme);
            },
            MdTag::BlockQuote => {
                self.flush(theme);
                if self.quote_depth > 0 {
                    self.quote_depth = self.quote_depth - 1;
                }
                self.pop_style();
            },
            _ => {},
        }
    }

    fn close_image(&mut self, theme: &Theme, urls: ImageUrls)
        ensures
            final(self)@ == old(self)@.closed_image(*theme, urls),
    {
        let alt = match self.image_alt.take() {
            Some(a) => a,
            None => String::new(),
        };
        let shown = image_placeholder(alt.as_str());
        let url = self.image_url.take();
        push_span(&mut self.line, Span::new(shown, link_text_style(theme)));
        if let Some(url) = url {
            if urls == ImageUrls::Show && !trim(url.as_str()).as_str().is_empty() {
                self.surface_url(url.as_str(), theme);
            }
        }
    }

    fn close_link(&mut self, theme: &Theme)
        ensures
            final(self)@ == old(self)@.closed_link(*theme),
    {
        self.pop_style();
        if let Some(url) = self.link_url.take() {
            let text = self.link_text.clone();
            self.link_text = String::new();
            if !trim(url.as_str()).as_str().is_empty() && !link_suffix_redundant(
                text.as_str(),
                url.as_str(),
            ) {
                self.surface_url(url.as_str(), theme);
            }
        }
    }

    fn hear(&mut self, t: &str)
        ensures
            final(self)@ == old(self)@.heard(t@),
    {
        if let Some(alt) = self.image_alt.take() {
            let mut alt = alt;
            alt.append(t);
            self.image_alt = Some(alt);
        } else if self.link_url.is_some() {
            self.link_text.append(t);
        }
    }

    fn step(&mut self, e: &MdEvent, theme: &Theme, urls: ImageUrls)
        ensures
            final(self)@ == old(self)@.stepped(e@, *theme, urls),
    {
        match e {
            MdEvent::Image(url) => {
                self.image_alt = Some(String::new());
                self.image_url = Some(url.clone());
            },
            MdEvent::Link(url) => {
                self.stack.push(link_text_style(theme));
                self.link_url = Some(url.clone());
                self.link_text = String::new();
            },
            MdEvent::Start(name) => {
                self.open(tag_for(name.as_str()), theme);
            },
            MdEvent::End(name) => {
                match tag_for(name.as_str()) {
                    MdTag::Image => {
                        self.close_image(theme, urls);
                    },
                    MdTag::Link => {
                        self.close_link(theme);
                    },
                    tag => {
                        self.close(tag, theme);
                    },
                }
            },
            MdEvent::Text(t) => {
                let in_image = self.image_alt.is_some();
                self.hear(t.as_str());
                if !in_image {
                    let style = self.current_style(theme);
                    let mut spans = mention_aware_spans(t.as_str(), style, theme);
                    let ghost line = draw::span_views(self.line@);
                    let ghost more = draw::span_views(spans@);
                    self.line.append(&mut spans);
                    assert(draw::span_views(self.line@) =~= line + more);
                }
            },
            MdEvent::Code(t) => {
                let in_image = self.image_alt.is_some();
                self.hear(t.as_str());
                if !in_image {
                    let mut shown = "`".to_owned();
                    shown.append(t.as_str());
                    shown.append("`");
                    push_span(&mut self.line, Span::new(shown, Style::color(theme.accent)));
                }
            },
            MdEvent::Break => {
                self.flush(theme);
            },
            MdEvent::Rule => {
                self.flush(theme);
                push_line(
                    &mut self.out,
                    Line::of("────────────────────────────", theme.muted_style()),
                );
            },
            MdEvent::Other => {},
        }
    }
}

/// The lines of a document with these events, and every URL surfaced in them.
pub fn render_events(events: &Vec<MdEvent>, theme: &Theme, image_urls: ImageUrls) -> (r: (
    Vec<Line>,
    Vec<LinkRef>,
))
    ensures
        draw::line_views(r.0@) == MdView::rendered(event_views(events@), *theme, image_urls).out,
        link_views(r.1@) == MdView::rendered(event_views(events@), *theme, image_urls).links,
{
    let mut s = MdState::new(theme);
    let ghost views = event_views(events@);
    let mut i: usize = 0;
    while i < events.len()
        invariant
            i <= events@.len(),
            views == event_views(events@),
            s@ == MdView::after(views, i as int, *theme, image_urls),
        decreases events@.len() - i,
    {
        s.step(&events[i], theme, image_urls);
        i = i + 1;
    }
    s.flush(theme);
    (s.out, s.links)
}

/// Render markdown and also report every surfaced URL, so that a scrolling
/// renderer can make those rows clickable.
pub fn render_markdown_collect(input: &str, theme: &Theme, image_urls: ImageUrls) -> (r: (
    Vec<Line>,
    Vec<LinkRef>,
))
    ensures
        draw::line_views(r.0@) == MdView::rendered(
            markdown_events(input@),
            *theme,
            image_urls,
        ).out,
        link_views(r.1@) == MdView::rendered(markdown_events(input@), *theme, image_urls).links,
{
    let events = parse(input);
    render_events(&events, theme, image_urls)
}

/// Render markdown, choosing whether image placeholders carry their URL.
pub fn render_markdown_with(input: &str, theme: &Theme, image_urls: ImageUrls) -> (r: Vec<Line>)
    ensures
        draw::line_views(r@) == MdView::rendered(markdown_events(input@), *theme, image_urls).out,
{
    render_markdown_collect(input, theme, image_urls).0
}

/// Render markdown source into styled lines, image URLs shown.
pub fn render_markdown(input: &str, theme: &Theme) -> (r: Vec<Line>)
    ensures
        draw::line_views(r@) == MdView::rendered(
            markdown_events(input@),
            *theme,
            ImageUrls::Show,
        ).out,
{
    render_markdown_with(input, theme, ImageUrls::Show)
}

// ---------------------------------------------------------------------------
// Previews.
// ---------------------------------------------------------------------------

/// The text collected so far, and whether an image is open.
#[verifier::ext_equal]
pub struct PreviewView {
    pub text: Seq<char>,
    pub in_image: bool,
}

/// The plain text of the first `n` events, without what stands in images.
pub open spec fn preview_after(events: Seq<EventView>, n: int) -> PreviewView
    decreases n,
{
    if n <= 0 {
        PreviewView { text: Seq::empty(), in_image: false }
    } else {
        let s = preview_after(events, n - 1);
        match events[n - 1] {
            EventView::Image(_) => PreviewView { in_image: true, ..s },
            EventView::End(name) => match tag_named(name) {
                MdTag::Image => PreviewView { in_image: false, ..s },
                MdTag::Paragraph => PreviewView { text: s.text.push(' '), ..s },
                _ => s,
            },
            EventView::Text(t) | EventView::Code(t) => if s.in_image {
                s
            } else {
                PreviewView { text: s.text + t, ..s }
            },
            EventView::Break => PreviewView { text: s.text.push(' '), ..s },
            _ => s,
        }
    }
}

/// The one-line preview of a document with these events.
pub open spec fn preview(events: Seq<EventView>, max: int) -> Seq<char> {
    let all = preview_after(events, events.len() as int).text;
    let flat = strs::joined(strs::words_from(all, 0), " "@);
    if flat.len() == 0 {
        Seq::empty()
    } else {
        text::truncated(flat, max)
    }
}

/// The one-line preview of a document with these events.
pub fn preview_events(events: &Vec<MdEvent>, max: usize) -> (r: String)
    ensures
        r@ == preview(event_views(events@), max as int),
{
    let ghost views = event_views(events@);
    let mut text = String::new();
    let mut in_image = false;
    let mut i: usize = 0;
    while i < events.len()
        invariant
            i <= events@.len(),
            views == event_views(events@),
            text@ == preview_after(views, i as int).text,
            in_image == preview_after(views, i as int).in_image,
        decreases events@.len() - i,
    {
        match &events[i] {
            MdEvent::Image(_) => {
                in_image = true;
            },
            MdEvent::End(name) => {
                match tag_for(name.as_str()) {
                    MdTag::Image => {
                        in_image = false;
                    },
                    MdTag::Paragraph => {
                        text.push(' ');
                    },
                    _ => {},
                }
            },
            MdEvent::Text(t) => {
                if !in_image {
                    text.append(t.as_str());
                }
            },
            MdEvent::Code(t) => {
                if !in_image {
                    text.append(t.as_str());
                }
            },
            MdEvent::Break => {
                text.push(' ');
            },
            _ => {},
        }
        i = i + 1;
    }
    let collapsed = join(&words(text.as_str()), " ");
    if collapsed.as_str().is_empty() {
        return String::new();
    }
    truncate_to_width(collapsed.as_str(), max)
}

/// A single-line plain-text preview of post content for list views: markdown
/// is flattened, images are dropped, white space is collapsed, and the result
/// is cut to `max` columns.
pub fn content_preview(content: &str, max: usize) -> (r: String)
    ensures
        r@ == preview(markdown_events(content@), max as int),
{
    preview_events(&parse(content), max)
}

// ---------------------------------------------------------------------------
// Laws.
// ---------------------------------------------------------------------------

proof fn lemma_line_text_concat(a: Seq<draw::SpanView>, b: Seq<draw::SpanView>)
    ensures
        draw::line_text(a + b) == draw::line_text(a) + draw::line_text(b),
    decreases b.len(),
{
    if b.len() == 0 {
        assert(a + b =~= a);
        assert(draw::line_text(a) + Seq::<char>::empty() =~= draw::line_text(a));
    } else {
        assert((a + b).drop_last() =~= a + b.drop_last());
        lemma_line_text_concat(a, b.drop_last());
        assert(draw::line_text(a) + (draw::line_text(b.drop_last()) + b.last().content)
            =~= draw::line_text(a) + draw::line_text(b.drop_last()) + b.last().content);
    }
}

proof fn lemma_one_text(content: Seq<char>, style: Style)
    ensures
        draw::line_text(draw::one(content, style)) == content,
{
    assert(draw::one(content, style).drop_last() =~= Seq::empty());
    reveal_with_fuel(draw::line_text, 2);
    assert(Seq::<char>::empty() + content =~= content);
}

proof fn lemma_mention_text(s: Seq<char>, start: int, i: int, base: Style, accent: Style)
    requires
        0 <= start <= i <= s.len(),
    ensures
        draw::line_text(mention_spans(s, start, i, base, accent)) == s.subrange(
            start,
            s.len() as int,
        ),
    decreases s.len() - i,
{
    let n = s.len() as int;
    if i >= s.len() {
        lemma_one_text(s.subrange(start, n), base);
        if start >= n {
            assert(s.subrange(start, n) =~= Seq::<char>::empty());
        }
    } else {
        let e = name_end(s, i + 1);
        if s[i] == '@' && i + 1 < e <= s.len() {
            lemma_mention_text(s, e, e, base, accent);
            let a = plain_run(s, start, i, base);
            let b = draw::one(s.subrange(i, e), accent);
            let c = mention_spans(s, e, e, base, accent);
            lemma_one_text(s.subrange(start, i), base);
            lemma_one_text(s.subrange(i, e), accent);
            lemma_line_text_concat(a, b);
            lemma_line_text_concat(a + b, c);
            if start >= i {
                assert(s.subrange(start, i) =~= Seq::<char>::empty());
            }
            assert(s.subrange(start, i) + s.subrange(i, e) + s.subrange(e, n) =~= s.subrange(
                start,
                n,
            ));
        } else {
            lemma_mention_text(s, start, i + 1, base, accent);
        }
    }
}

/// Highlighting mentions changes no character of a text.
pub proof fn law_mentions_keep_the_text(s: Seq<char>, base: Style, accent: Style)
    ensures
        draw::line_text(mention_spans(s, 0, 0, base, accent)) == s,
{
    lemma_mention_text(s, 0, 0, base, accent);
    assert(s.subrange(0, s.len() as int) =~= s);
}

/// Whether a recorded link names a line that is there, that ends with the link's
/// URL in a run of its own, and where the URL starts at the link's column, as
/// far as 16 bits can say.
pub open spec fn link_lands(out: Seq<Seq<draw::SpanView>>, link: LinkView) -> bool {
    let line = out[link.line];
    let text = draw::line_text(line);
    let before = text.take(text.len() - link.url.len());
    &&& 0 <= link.line < out.len()
    &&& line.len() > 0
    &&& line.last().content == "  "@ + link.url
    &&& text == before + link.url
    &&& text::columns_sum(before) <= u16::MAX ==> link.col == text::columns_sum(before)
}

/// Whether every recorded link lands, each on a line below the one before.
pub open spec fn links_land(s: MdView) -> bool {
    &&& forall|k: int| 0 <= k < s.links.len() ==> link_lands(s.out, #[trigger] s.links[k])
    &&& forall|j: int, k: int|
        0 <= j < k < s.links.len() ==> (#[trigger] s.links[j]).line < (
        #[trigger] s.links[k]).line
}

/// What holds between two events.
spec fn sound(s: MdView) -> bool {
    links_land(s) && s.quote_depth >= 0
}

proof fn lemma_more_lines(s: MdView, t: MdView)
    requires
        sound(s),
        t.links == s.links,
        t.quote_depth >= 0,
        s.out.len() <= t.out.len(),
        forall|i: int| 0 <= i < s.out.len() ==> #[trigger] t.out[i] == s.out[i],
    ensures
        sound(t),
{
    assert forall|k: int| 0 <= k < t.links.len() implies link_lands(
        t.out,
        #[trigger] t.links[k],
    ) by {
        assert(link_lands(s.out, s.links[k]));
        assert(t.out[t.links[k].line] == s.out[s.links[k].line]);
    }
}

proof fn lemma_bars_are_plain(n: nat)
    ensures
        text::plain(strs::repeated("│ "@, n)),
    decreases n,
{
    if n > 0 {
        reveal_strlit("│ ");
        lemma_bars_are_plain((n - 1) as nat);
        let less = strs::repeated("│ "@, (n - 1) as nat);
        let all = strs::repeated("│ "@, n);
        assert forall|k: int| 0 <= k < all.len() implies text::narrow(#[trigger] all[k]) by {
            if k < less.len() {
                assert(all[k] == less[k]);
            } else {
                assert(all[k] == "│ "@[k - less.len()]);
            }
        }
    }
}

proof fn lemma_surfaced_lands(s: MdView, url: Seq<char>, theme: Theme)
    requires
        sound(s),
    ensures
        sound(s.surfaced(url, theme)),
{
    let t = s.flushed(theme);
    lemma_more_lines(s, t);
    let r = s.surfaced(url, theme);
    let u = strs::trimmed(url);
    let line = draw::one("  "@ + u, theme::colored(theme.accent));
    let whole = t.quoted(line, theme);
    let link = r.links.last();
    assert(whole.last() == line[0]);
    reveal_strlit("  ");
    reveal_strlit("│ ");
    lemma_one_text("  "@ + u, theme::colored(theme.accent));
    if t.quote_depth > 0 {
        let bars = strs::repeated("│ "@, t.quote_depth as nat);
        strs::lemma_repeated_len("│ "@, t.quote_depth as nat);
        lemma_one_text(bars, theme.muted_spec());
        lemma_line_text_concat(draw::one(bars, theme.muted_spec()), line);
        assert(draw::line_text(whole) == bars + ("  "@ + u));
    }
    let text = draw::line_text(whole);
    assert(text.len() == 2 * t.quote_depth + 2 + u.len());
    let before = text.take(text.len() - u.len());
    assert(text =~= before + u);
    assert(text::plain(before)) by {
        lemma_bars_are_plain(t.quote_depth as nat);
        assert forall|k: int| 0 <= k < before.len() implies text::narrow(#[trigger] before[k]) by {
            if t.quote_depth > 0 && k < 2 * t.quote_depth {
                assert(before[k] == strs::repeated("│ "@, t.quote_depth as nat)[k]);
            } else {
                assert(before[k] == ' ');
            }
        }
    }
    text::lemma_plain_columns(before, before.len() as int);
    assert(before.take(before.len() as int) =~= before);
    assert(link_lands(r.out, link));
    assert forall|k: int| 0 <= k < r.links.len() implies link_lands(
        r.out,
        #[trigger] r.links[k],
    ) by {
        if k < t.links.len() {
            assert(r.links[k] == t.links[k]);
            assert(link_lands(t.out, t.links[k]));
            assert(r.out[t.links[k].line] == t.out[t.links[k].line]);
        }
    }
    assert forall|j: int, k: int| 0 <= j < k < r.links.len() implies (#[trigger] r.links[j]).line
        < (#[trigger] r.links[k]).line by {
        assert(r.links[j] == t.links[j]);
        assert(link_lands(t.out, t.links[j]));
        if k < t.links.len() {
            assert(r.links[k] == t.links[k]);
        }
    }
}

proof fn lemma_step_lands(s: MdView, e: EventView, theme: Theme, urls: ImageUrls)
    requires
        sound(s),
    ensures
        sound(s.stepped(e, theme, urls)),
{
    let r = s.stepped(e, theme, urls);
    match e {
        EventView::End(name) => match tag_named(name) {
            MdTag::Image => {
                let alt = match s.image_alt {
                    Some(a) => a,
                    None => Seq::empty(),
                };
                let t = MdView { image_alt: None, image_url: None, ..s }.with_span(
                    draw::span(placeholder(alt), link_style(theme)),
                );
                lemma_more_lines(s, t);
                if s.image_url is Some {
                    lemma_surfaced_lands(t, s.image_url->Some_0, theme);
                }
            },
            MdTag::Link => {
                let t = MdView { link_url: None, link_text: Seq::empty(), ..s.popped() };
                lemma_more_lines(s, t);
                if s.link_url is Some {
                    lemma_surfaced_lands(t, s.link_url->Some_0, theme);
                }
            },
            _ => {
                lemma_more_lines(s, r);
            },
        },
        _ => {
            lemma_more_lines(s, r);
        },
    }
}

proof fn lemma_after_lands(events: Seq<EventView>, n: int, theme: Theme, urls: ImageUrls)
    ensures
        sound(MdView::after(events, n, theme, urls)),
    decreases n,
{
    if n > 0 {
        lemma_after_lands(events, n - 1, theme, urls);
        lemma_step_lands(
            MdView::after(events, n - 1, theme, urls),
            events[n - 1],
            theme,
            urls,
        );
    }
}

/// Every surfaced link names an output line where the URL stands alone, after
/// nothing but quotation bars and the indent, and the column it starts at there.
/// The lines of the links ascend.
pub proof fn law_links_point_at_their_urls(
    events: Seq<EventView>,
    theme: Theme,
    urls: ImageUrls,
)
    ensures
        links_land(MdView::rendered(events, theme, urls)),
{
    lemma_after_lands(events, events.len() as int, theme, urls);
    lemma_more_lines(
        MdView::after(events, events.len() as int, theme, urls),
        MdView::rendered(events, theme, urls),
    );
}

proof fn lemma_tag_names()
    ensures
        tag_named("Heading(H1)"@) == MdTag::Heading(1),
        tag_named("Heading(H2)"@) == MdTag::Heading(2),
        tag_named("Heading(H3)"@) == MdTag::Heading(3),
        tag_named("Heading(H4)"@) == MdTag::Heading(4),
        tag_named("Heading(H5)"@) == MdTag::Heading(5),
        tag_named("Heading(H6)"@) == MdTag::Heading(6),
        tag_named("Paragraph"@) == MdTag::Paragraph,
        tag_named("CodeBlock"@) == MdTag::CodeBlock,
        tag_named("Emphasis"@) == MdTag::Emphasis,
        tag_named("Strong"@) == MdTag::Strong,
        tag_named("Item"@) == MdTag::Item,
        tag_named("Link"@) == MdTag::Link,
        tag_named("Image"@) == MdTag::Image,
        forall|rest: Seq<char>| #[trigger]
            tag_named("List("@ + rest) == MdTag::List,
        forall|rest: Seq<char>| #[trigger]
            tag_named("BlockQuote("@ + rest) == MdTag::BlockQuote,
{
    reveal_strlit("Heading(H1)");
    reveal_strlit("Heading(H2)");
    reveal_strlit("Heading(H3)");
    reveal_strlit("Heading(H4)");
    reveal_strlit("Heading(H5)");
    reveal_strlit("Heading(H6)");
    reveal_strlit("Paragraph");
    reveal_strlit("CodeBlock");
    reveal_strlit("Emphasis");
    reveal_strlit("Strong");
    reveal_strlit("List(");
    reveal_strlit("Item");
    reveal_strlit("BlockQuote(");
    reveal_strlit("Link");
    reveal_strlit("Image");
    assert("Heading(H1)"@[9] != "Heading(H2)"@[9]);
    assert("Heading(H1)"@[9] != "Heading(H3)"@[9]);
    assert("Heading(H2)"@[9] != "Heading(H3)"@[9]);
    assert("Heading(H1)"@[9] != "Heading(H4)"@[9]);
    assert("Heading(H2)"@[9] != "Heading(H4)"@[9]);
    assert("Heading(H3)"@[9] != "Heading(H4)"@[9]);
    assert("Heading(H1)"@[9] != "Heading(H5)"@[9]);
    assert("Heading(H2)"@[9] != "Heading(H5)"@[9]);
    assert("Heading(H3)"@[9] != "Heading(H5)"@[9]);
    assert("Heading(H4)"@[9] != "Heading(H5)"@[9]);
    assert("Heading(H1)"@[9] != "Heading(H6)"@[9]);
    assert("Heading(H2)"@[9] != "Heading(H6)"@[9]);
    assert("Heading(H3)"@[9] != "Heading(H6)"@[9]);
    assert("Heading(H4)"@[9] != "Heading(H6)"@[9]);
    assert("Heading(H5)"@[9] != "Heading(H6)"@[9]);
    assert("Paragraph"@[0] != "CodeBlock"@[0]);
    assert("Emphasis"@.len() == 8 && "Strong"@.len() == 6);
    assert("Paragraph"@.len() == 9 && "CodeBlock"@.len() == 9);
    assert("Item"@[0] != "Link"@[0]);
    assert(!strs::starts_with("Item"@, "List("@));
    assert(!strs::starts_with("Link"@, "List("@));
    assert(!strs::starts_with("Image"@, "List("@)) by {
        assert("Image"@.take(5)[0] == 'I');
    }
    assert(!strs::starts_with("Link"@, "BlockQuote("@));
    assert(!strs::starts_with("Image"@, "BlockQuote("@));
    assert forall|rest: Seq<char>| #[trigger] tag_named("List("@ + rest) == MdTag::List by {
        let n = "List("@ + rest;
        assert(n[0] == 'L' && n[4] == '(');
        assert(n.take(5) =~= "List("@);
        assert("Heading(H1)"@[0] == 'H' && "Heading(H2)"@[0] == 'H' && "Heading(H3)"@[0] == 'H');
        assert("Heading(H4)"@[0] == 'H' && "Heading(H5)"@[0] == 'H' && "Heading(H6)"@[0] == 'H');
        assert("Paragraph"@[0] == 'P' && "CodeBlock"@[0] == 'C' && "Emphasis"@[0] == 'E');
        assert("Strong"@[0] == 'S');
    }
    assert forall|rest: Seq<char>| #[trigger] tag_named("BlockQuote("@ + rest)
        == MdTag::BlockQuote by {
        let n = "BlockQuote("@ + rest;
        assert(n[0] == 'B');
        assert(n.take(11) =~= "BlockQuote("@);
        assert(n.take(5)[0] == 'B');
        assert("List("@[0] == 'L');
        assert("Heading(H1)"@[0] == 'H' && "Heading(H2)"@[0] == 'H' && "Heading(H3)"@[0] == 'H');
        assert("Heading(H4)"@[0] == 'H' && "Heading(H5)"@[0] == 'H' && "Heading(H6)"@[0] == 'H');
        assert("Paragraph"@[0] == 'P' && "CodeBlock"@[0] == 'C' && "Emphasis"@[0] == 'E');
        assert("Strong"@[0] == 'S' && "Item"@[0] == 'I');
    }
}

/// Whether the first `n` lines of `out` are the ones of `s` and, where a line was
/// under way, that line behind a bar for each level of quotation.
pub open spec fn lines_kept(s: MdView, out: Seq<Seq<draw::SpanView>>, n: int) -> bool {
    let m = s.out.len() as int;
    &&& n <= out.len()
    &&& m <= out.len()
    &&& out.take(m) == s.out
    &&& s.line.len() == 0 ==> n == m
    &&& s.line.len() > 0 ==> {
        &&& n == m + 1
        &&& draw::line_text(out[m]) == strs::repeated("│ "@, s.quote_depth as nat)
            + draw::line_text(s.line)
        &&& out[m].len() >= s.line.len()
        &&& out[m].skip(out[m].len() - s.line.len()) == s.line
    }
}

proof fn lemma_flush_keeps_lines(s: MdView, theme: Theme)
    requires
        s.quote_depth >= 0,
    ensures
        s.flushed(theme).line.len() == 0,
        lines_kept(s, s.flushed(theme).out, s.flushed(theme).out.len() as int),
{
    let f = s.flushed(theme);
    let m = s.out.len() as int;
    assert(f.out.take(m) =~= s.out);
    if s.line.len() > 0 {
        let bars = strs::repeated("│ "@, s.quote_depth as nat);
        let whole = s.quoted(s.line, theme);
        if s.quote_depth > 0 {
            let prefix = draw::one(bars, theme.muted_spec());
            lemma_one_text(bars, theme.muted_spec());
            lemma_line_text_concat(prefix, s.line);
            assert(whole.skip(whole.len() - s.line.len()) =~= s.line);
        } else {
            assert(bars + draw::line_text(s.line) =~= draw::line_text(s.line));
            assert(whole.skip(0) =~= s.line);
        }
    } else {
        assert(s.line =~= Seq::empty());
    }
}

proof fn lemma_kept_lines_stay_kept(s: MdView, out: Seq<Seq<draw::SpanView>>, l: Seq<draw::SpanView>)
    requires
        lines_kept(s, out, out.len() as int),
    ensures
        lines_kept(s, out.push(l), out.len() as int),
{
    let m = s.out.len() as int;
    assert(out.push(l).take(m) =~= out.take(m));
}

/// A paragraph, a heading and a code block end their line and leave a blank line
/// below it, so that what follows stands apart.
pub proof fn law_blocks_end_with_a_blank_line(
    s: MdView,
    name: Seq<char>,
    theme: Theme,
    urls: ImageUrls,
)
    requires
        s.quote_depth >= 0,
        name == "Paragraph"@ || name == "CodeBlock"@ || name == "Heading(H1)"@ || name
            == "Heading(H2)"@ || name == "Heading(H3)"@ || name == "Heading(H4)"@ || name
            == "Heading(H5)"@ || name == "Heading(H6)"@,
    ensures
        ({
            let r = s.stepped(EventView::End(name), theme, urls);
            &&& r.line.len() == 0
            &&& r.out.len() > 0
            &&& r.out.last().len() == 0
            &&& lines_kept(s, r.out, r.out.len() - 1)
            &&& r.links == s.links
            &&& r.quote_depth == s.quote_depth
            &&& r.list_depth == s.list_depth
        }),
{
    lemma_tag_names();
    lemma_flush_keeps_lines(s, theme);
    lemma_flush_keeps_lines(s.popped(), theme);
    lemma_kept_lines_stay_kept(s, s.flushed(theme).out, draw::blank());
    lemma_kept_lines_stay_kept(s.popped(), s.popped().flushed(theme).out, draw::blank());
    if name != "Paragraph"@ && name != "CodeBlock"@ {
        assert(tag_named(name) is Heading);
        assert(lines_kept(s, s.popped().flushed(theme).out.push(draw::blank()), s.popped().flushed(
            theme,
        ).out.len() as int));
    }
}

/// A line break, and the end of an item, end the line and leave no blank line.
pub proof fn law_breaks_end_the_line(s: MdView, theme: Theme, urls: ImageUrls)
    requires
        s.quote_depth >= 0,
    ensures
        ({
            let r = s.stepped(EventView::Break, theme, urls);
            &&& r.line.len() == 0
            &&& lines_kept(s, r.out, r.out.len() as int)
            &&& r.stack == s.stack
            &&& r.quote_depth == s.quote_depth
        }),
        ({
            let r = s.stepped(EventView::End("Item"@), theme, urls);
            &&& r.line.len() == 0
            &&& lines_kept(s, r.out, r.out.len() as int)
            &&& r.stack == s.stack
            &&& r.quote_depth == s.quote_depth
        }),
{
    lemma_tag_names();
    lemma_flush_keeps_lines(s, theme);
}

/// A thematic break is a rule on a line of its own.
pub proof fn law_rules_stand_alone(s: MdView, theme: Theme, urls: ImageUrls)
    requires
        s.quote_depth >= 0,
    ensures
        ({
            let r = s.stepped(EventView::Rule, theme, urls);
            &&& r.line.len() == 0
            &&& r.out.len() > 0
            &&& lines_kept(s, r.out, r.out.len() - 1)
            &&& draw::line_text(r.out.last()).len() == 28
            &&& forall|k: int|
                0 <= k < 28 ==> #[trigger] draw::line_text(r.out.last())[k] == '─'
        }),
{
    lemma_flush_keeps_lines(s, theme);
    reveal_strlit("────────────────────────────");
    lemma_one_text("────────────────────────────"@, theme.muted_spec());
    lemma_kept_lines_stay_kept(
        s,
        s.flushed(theme).out,
        draw::one("────────────────────────────"@, theme.muted_spec()),
    );
}

/// A heading begins a line with as many `#` as its level, and its text is bold in
/// the accent color until it ends, underlined where it is of the first level.
pub proof fn law_headings_show_their_level(
    s: MdView,
    name: Seq<char>,
    level: nat,
    theme: Theme,
    urls: ImageUrls,
)
    requires
        s.quote_depth >= 0,
        name == "Heading(H1)"@ && level == 1 || name == "Heading(H2)"@ && level == 2 || name
            == "Heading(H3)"@ && level == 3 || name == "Heading(H4)"@ && level == 4 || name
            == "Heading(H5)"@ && level == 5 || name == "Heading(H6)"@ && level == 6,
    ensures
        ({
            let r = s.stepped(EventView::Start(name), theme, urls);
            &&& lines_kept(s, r.out, r.out.len() as int)
            &&& draw::line_text(r.line).len() == level + 1
            &&& draw::line_text(r.line).last() == ' '
            &&& forall|k: int| 0 <= k < level ==> #[trigger] draw::line_text(r.line)[k] == '#'
            &&& r.stack.drop_last() == s.stack
            &&& r.stack.last().fg == Some(theme.accent)
            &&& r.stack.last().bold
            &&& r.stack.last().underlined == (level == 1)
            &&& r.stepped(EventView::End(name), theme, urls).stack == s.stack
        }),
{
    lemma_tag_names();
    lemma_flush_keeps_lines(s, theme);
    reveal_strlit("#");
    reveal_strlit(" ");
    let r = s.stepped(EventView::Start(name), theme, urls);
    let marks = strs::repeated("#"@, level);
    lemma_one_text(marks + " "@, theme.muted_spec());
    assert(r.line =~= draw::one(marks + " "@, theme.muted_spec()));
    lemma_copies_of(seq!['#'], level, '#');
    assert("#"@ =~= seq!['#']);
    assert(r.stack.drop_last() =~= s.stack);
}

proof fn lemma_copies_of(s: Seq<char>, n: nat, c: char)
    requires
        s == seq![c],
    ensures
        strs::repeated(s, n).len() == n,
        forall|k: int| 0 <= k < n ==> #[trigger] strs::repeated(s, n)[k] == c,
    decreases n,
{
    if n > 0 {
        lemma_copies_of(s, (n - 1) as nat, c);
    }
}

/// An item begins a line with a bullet, two columns further in for each list
/// around its own.
pub proof fn law_items_have_bullets(s: MdView, theme: Theme, urls: ImageUrls)
    requires
        s.quote_depth >= 0,
        s.list_depth >= 0,
    ensures
        ({
            let r = s.stepped(EventView::Start("Item"@), theme, urls);
            let text = draw::line_text(r.line);
            let inner = if s.list_depth > 0 {
                s.list_depth - 1
            } else {
                0
            };
            &&& lines_kept(s, r.out, r.out.len() as int)
            &&& text.len() == 2 * inner + 2
            &&& text[2 * inner] == '•'
            &&& forall|k: int| 0 <= k < text.len() && k != 2 * inner ==> #[trigger] text[k] == ' '
            &&& r.stack == s.stack
        }),
{
    lemma_tag_names();
    lemma_flush_keeps_lines(s, theme);
    reveal_strlit("  ");
    reveal_strlit("• ");
    let r = s.stepped(EventView::Start("Item"@), theme, urls);
    let inner = shallower(s.list_depth) as nat;
    let lead = strs::repeated("  "@, inner);
    lemma_one_text(lead + "• "@, theme.muted_spec());
    assert(r.line =~= draw::one(lead + "• "@, theme.muted_spec()));
    strs::lemma_repeated_len("  "@, inner);
    lemma_spaces(inner);
    let text = draw::line_text(r.line);
    assert(text == lead + "• "@);
    assert(lead.len() == 2 * inner);
    assert(text[2 * inner as int] == "• "@[0]);
    assert forall|k: int| 0 <= k < text.len() && k != 2 * inner implies #[trigger] text[k]
        == ' ' by {
        if k < lead.len() {
            assert(text[k] == lead[k]);
        } else {
            assert(text[k] == "• "@[k - lead.len()]);
        }
    }
}

proof fn lemma_spaces(n: nat)
    ensures
        forall|k: int|
            0 <= k < strs::repeated("  "@, n).len() ==> #[trigger] strs::repeated("  "@, n)[k]
                == ' ',
    decreases n,
{
    reveal_strlit("  ");
    if n > 0 {
        let less = strs::repeated("  "@, (n - 1) as nat);
        let all = strs::repeated("  "@, n);
        lemma_spaces((n - 1) as nat);
        assert forall|k: int| 0 <= k < all.len() implies #[trigger] all[k] == ' ' by {
            if k < less.len() {
                assert(all[k] == less[k]);
            } else {
                assert(all[k] == "  "@[k - less.len()]);
            }
        }
    }
}

/// A list is one level deeper inside than outside, and a quotation one bar
/// further in; what was open around them is open again when they end.
pub proof fn law_nesting_is_undone(
    s: MdView,
    rest: Seq<char>,
    inside: MdView,
    theme: Theme,
    urls: ImageUrls,
)
    requires
        0 <= s.quote_depth < u32::MAX,
        0 <= s.list_depth < u32::MAX,
    ensures
        ({
            let r = s.stepped(EventView::Start("List("@ + rest), theme, urls);
            &&& r == (MdView { list_depth: s.list_depth + 1, ..s })
            &&& inside.list_depth == r.list_depth ==> inside.stepped(
                EventView::End("List("@ + rest),
                theme,
                urls,
            ).list_depth == s.list_depth
        }),
        ({
            let r = s.stepped(EventView::Start("BlockQuote("@ + rest), theme, urls);
            &&& r.quote_depth == s.quote_depth + 1
            &&& lines_kept(s, r.out, r.out.len() as int)
            &&& r.line.len() == 0
            &&& r.stack.drop_last() == s.stack
            &&& r.stack.last().italic
            &&& r.stack.last().fg == Some(theme.muted)
            &&& inside.quote_depth == r.quote_depth && inside.stack == r.stack ==> ({
                let after = inside.stepped(EventView::End("BlockQuote("@ + rest), theme, urls);
                &&& after.quote_depth == s.quote_depth
                &&& after.stack == s.stack
                &&& after.line.len() == 0
                &&& lines_kept(inside, after.out, after.out.len() as int)
            })
        }),
{
    lemma_tag_names();
    lemma_flush_keeps_lines(s, theme);
    let q = s.stepped(EventView::Start("BlockQuote("@ + rest), theme, urls);
    assert(q.stack.drop_last() =~= s.stack);
    if inside.quote_depth == q.quote_depth {
        lemma_flush_keeps_lines(inside, theme);
    }
}

/// Emphasis makes what stands in it italic, and strong emphasis bold, on top of
/// what is in force, until it ends.
pub proof fn law_emphasis_is_undone(s: MdView, theme: Theme, urls: ImageUrls)
    requires
        s.stack.len() > 0,
    ensures
        ({
            let r = s.stepped(EventView::Start("Emphasis"@), theme, urls);
            &&& r.stack.len() == s.stack.len() + 1
            &&& r.stack.last() == (Style { italic: true, ..s.stack.last() })
            &&& r.stepped(EventView::End("Emphasis"@), theme, urls) == s
        }),
        ({
            let r = s.stepped(EventView::Start("Strong"@), theme, urls);
            &&& r.stack.len() == s.stack.len() + 1
            &&& r.stack.last() == (Style { bold: true, ..s.stack.last() })
            &&& r.stepped(EventView::End("Strong"@), theme, urls) == s
        }),
{
    lemma_tag_names();
    let e = s.stepped(EventView::Start("Emphasis"@), theme, urls);
    assert(e.stack.drop_last() =~= s.stack);
    assert(e.stepped(EventView::End("Emphasis"@), theme, urls) =~= s);
    let b = s.stepped(EventView::Start("Strong"@), theme, urls);
    assert(b.stack.drop_last() =~= s.stack);
    assert(b.stepped(EventView::End("Strong"@), theme, urls) =~= s);
}

/// A code block begins a line, and its text has the accent color until it ends.
pub proof fn law_code_blocks_begin_a_line(s: MdView, theme: Theme, urls: ImageUrls)
    requires
        s.quote_depth >= 0,
    ensures
        ({
            let r = s.stepped(EventView::Start("CodeBlock"@), theme, urls);
            &&& lines_kept(s, r.out, r.out.len() as int)
            &&& r.line.len() == 0
            &&& r.stack.last().fg == Some(theme.accent)
            &&& r.stepped(EventView::End("CodeBlock"@), theme, urls).stack == s.stack
        }),
{
    lemma_tag_names();
    lemma_flush_keeps_lines(s, theme);
    let r = s.stepped(EventView::Start("CodeBlock"@), theme, urls);
    assert(r.stack.drop_last() =~= s.stack);
}

/// Text goes behind what the line already shows, character for character, and
/// code between two backquotes; neither changes what was put out.
pub proof fn law_text_goes_to_the_line(s: MdView, t: Seq<char>, theme: Theme, urls: ImageUrls)
    requires
        s.image_alt is None,
    ensures
        ({
            let r = s.stepped(EventView::Text(t), theme, urls);
            &&& r.out == s.out
            &&& r.links == s.links
            &&& r.stack == s.stack
            &&& draw::line_text(r.line) == draw::line_text(s.line) + t
            &&& r.line.len() >= s.line.len()
            &&& r.line.take(s.line.len() as int) == s.line
            &&& t.len() > 0 ==> r.line.len() > s.line.len()
        }),
        ({
            let r = s.stepped(EventView::Code(t), theme, urls);
            &&& r.out == s.out
            &&& r.links == s.links
            &&& r.stack == s.stack
            &&& draw::line_text(r.line) == draw::line_text(s.line) + (seq!['`'] + t + seq!['`'])
            &&& r.line.len() == s.line.len() + 1
            &&& r.line.take(s.line.len() as int) == s.line
            &&& r.line.last().style.fg == Some(theme.accent)
        }),
{
    let base = s.style(theme);
    let m = mention_spans(t, 0, 0, base, theme.accent_spec());
    law_mentions_keep_the_text(t, base, theme.accent_spec());
    lemma_line_text_concat(s.line, m);
    let r = s.stepped(EventView::Text(t), theme, urls);
    assert(r.line.take(s.line.len() as int) =~= s.line);
    if t.len() > 0 && m.len() == 0 {
        assert(m =~= Seq::empty());
        assert(draw::line_text(m).len() == 0);
    }
    reveal_strlit("`");
    let c = s.stepped(EventView::Code(t), theme, urls);
    assert(c.line.take(s.line.len() as int) =~= s.line);
    assert(c.line.drop_last() =~= s.line);
    assert("`"@ + t + "`"@ =~= seq!['`'] + t + seq!['`']);
}

proof fn lemma_paragraph(s: MdView, t: Seq<char>, theme: Theme, urls: ImageUrls) -> (r: MdView)
    requires
        s.image_alt is None,
        s.quote_depth == 0,
        s.line.len() == 0,
        t.len() > 0,
    ensures
        r == s.stepped(EventView::Start("Paragraph"@), theme, urls).stepped(
            EventView::Text(t),
            theme,
            urls,
        ).stepped(EventView::End("Paragraph"@), theme, urls),
        r.image_alt is None,
        r.quote_depth == 0,
        r.line.len() == 0,
        r.out.len() == s.out.len() + 2,
        r.out.take(s.out.len() as int) == s.out,
        draw::line_text(r.out[s.out.len() as int]) == t,
        r.out[s.out.len() as int + 1].len() == 0,
{
    lemma_tag_names();
    let a = s.stepped(EventView::Start("Paragraph"@), theme, urls);
    assert(a == s);
    let b = a.stepped(EventView::Text(t), theme, urls);
    law_text_goes_to_the_line(a, t, theme, urls);
    assert(s.line =~= Seq::empty());
    assert(Seq::<char>::empty() + t =~= t);
    let r = b.stepped(EventView::End("Paragraph"@), theme, urls);
    law_blocks_end_with_a_blank_line(b, "Paragraph"@, theme, urls);
    assert(strs::repeated("│ "@, 0) + draw::line_text(b.line) =~= draw::line_text(b.line));
    r
}

/// The events of two paragraphs of text, one behind the other.
pub open spec fn two_paragraphs(a: Seq<char>, b: Seq<char>) -> Seq<EventView> {
    seq![
        EventView::Start("Paragraph"@),
        EventView::Text(a),
        EventView::End("Paragraph"@),
        EventView::Start("Paragraph"@),
        EventView::Text(b),
        EventView::End("Paragraph"@),
    ]
}

/// Two paragraphs stand on lines of their own, each with a blank line below it.
pub proof fn law_paragraphs_stand_apart(
    a: Seq<char>,
    b: Seq<char>,
    theme: Theme,
    urls: ImageUrls,
)
    requires
        a.len() > 0,
        b.len() > 0,
    ensures
        ({
            let out = MdView::rendered(two_paragraphs(a, b), theme, urls).out;
            &&& out.len() == 4
            &&& draw::line_text(out[0]) == a
            &&& draw::line_text(out[1]) == Seq::<char>::empty()
            &&& draw::line_text(out[2]) == b
            &&& draw::line_text(out[3]) == Seq::<char>::empty()
        }),
{
    let s = MdView::initial(theme);
    let one = lemma_paragraph(s, a, theme, urls);
    let two = lemma_paragraph(one, b, theme, urls);
    let events = two_paragraphs(a, b);
    reveal_with_fuel(MdView::after, 7);
    assert(MdView::after(events, 3, theme, urls) == one);
    assert(MdView::after(events, 6, theme, urls) == two);
    assert(two.out[0] == two.out.take(2)[0]);
    assert(two.out[1] == two.out.take(2)[1]);
}

/// Whether an image is open before the event `n`.
pub open spec fn image_open(events: Seq<EventView>, n: int) -> bool
    decreases n,
{
    if n <= 0 {
        false
    } else {
        events[n - 1] is Image || (image_open(events, n - 1) && events[n - 1] != EventView::End(
            "Image"@,
        ))
    }
}

proof fn lemma_only_image(name: Seq<char>)
    ensures
        tag_named(name) == MdTag::Image <==> name == "Image"@,
{
    lemma_tag_names();
}

proof fn lemma_image_open(events: Seq<EventView>, n: int, theme: Theme, urls: ImageUrls)
    ensures
        MdView::after(events, n, theme, urls).image_alt is Some == image_open(events, n),
        MdView::after(events, n, theme, urls).quote_depth >= 0,
    decreases n,
{
    if n > 0 {
        lemma_image_open(events, n - 1, theme, urls);
        match events[n - 1] {
            EventView::End(name) => {
                lemma_only_image(name);
            },
            _ => {},
        }
    }
}

/// Whether some line that was put out, or else the line under way, shows `t`.
spec fn shows(s: MdView, t: Seq<char>) -> bool {
    ||| exists|l: int|
        0 <= l < s.out.len() && strs::occurs(#[trigger] draw::line_text(s.out[l]), t)
    ||| strs::occurs(draw::line_text(s.line), t)
}

proof fn lemma_occurs_inside(a: Seq<char>, b: Seq<char>, c: Seq<char>, t: Seq<char>)
    requires
        strs::occurs(b, t),
    ensures
        strs::occurs(a + b + c, t),
{
    let i = choose|i: int| #[trigger] strs::occurs_at(b, t, i);
    assert((a + b + c).subrange(a.len() + i, a.len() + i + t.len()) =~= b.subrange(i, i + t.len()));
    assert(strs::occurs_at(a + b + c, t, a.len() + i));
}

proof fn lemma_still_shown(s: MdView, r: MdView, t: Seq<char>)
    requires
        shows(s, t),
        t.len() > 0,
        s.out.len() <= r.out.len(),
        r.out.take(s.out.len() as int) == s.out,
        lines_kept(s, r.out, (s.out.len() + 1) as int) || (s.line.len() <= r.line.len() && r.line.take(
            s.line.len() as int,
        ) == s.line),
    ensures
        shows(r, t),
{
    if strs::occurs(draw::line_text(s.line), t) {
        if s.line.len() <= r.line.len() && r.line.take(s.line.len() as int) == s.line {
            let more = r.line.skip(s.line.len() as int);
            assert(r.line =~= s.line + more);
            lemma_line_text_concat(s.line, more);
            lemma_occurs_inside(
                Seq::empty(),
                draw::line_text(s.line),
                draw::line_text(more),
                t,
            );
            assert(Seq::<char>::empty() + draw::line_text(s.line) + draw::line_text(more)
                =~= draw::line_text(r.line));
        } else {
            let m = s.out.len() as int;
            let bars = strs::repeated("│ "@, s.quote_depth as nat);
            if s.line.len() == 0 {
                let i = choose|i: int| #[trigger]
                    strs::occurs_at(draw::line_text(s.line), t, i);
                assert(false);
            }
            lemma_occurs_inside(bars, draw::line_text(s.line), Seq::empty(), t);
            assert(bars + draw::line_text(s.line) + Seq::<char>::empty() =~= draw::line_text(
                r.out[m],
            ));
            assert(strs::occurs(draw::line_text(r.out[m]), t));
        }
    } else {
        let l = choose|l: int|
            0 <= l < s.out.len() && strs::occurs(#[trigger] draw::line_text(s.out[l]), t);
        assert(r.out.take(s.out.len() as int)[l] == r.out[l]);
        assert(strs::occurs(draw::line_text(r.out[l]), t));
    }
}

proof fn lemma_flush_still_shows(s: MdView, theme: Theme, t: Seq<char>)
    requires
        shows(s, t),
        t.len() > 0,
        s.quote_depth >= 0,
    ensures
        shows(s.flushed(theme), t),
{
    lemma_flush_keeps_lines(s, theme);
    if s.line.len() > 0 {
        lemma_still_shown(s, s.flushed(theme), t);
    }
}

proof fn lemma_surfacing_still_shows(s: MdView, url: Seq<char>, theme: Theme, t: Seq<char>)
    requires
        shows(s, t),
        t.len() > 0,
        s.quote_depth >= 0,
    ensures
        shows(s.surfaced(url, theme), t),
{
    lemma_flush_still_shows(s, theme, t);
    let f = s.flushed(theme);
    let r = s.surfaced(url, theme);
    assert(r.out.take(f.out.len() as int) =~= f.out);
    assert(r.line.take(f.line.len() as int) =~= f.line);
    lemma_still_shown(f, r, t);
}

proof fn lemma_same_lines_show(s: MdView, r: MdView, t: Seq<char>)
    requires
        shows(s, t),
        r.out == s.out,
        r.line == s.line,
    ensures
        shows(r, t),
{
}

proof fn lemma_longer_line_shows(s: MdView, r: MdView, t: Seq<char>)
    requires
        shows(s, t),
        t.len() > 0,
        r.out == s.out,
        s.line.len() <= r.line.len(),
        r.line.take(s.line.len() as int) == s.line,
    ensures
        shows(r, t),
{
    assert(r.out.take(s.out.len() as int) =~= s.out);
    lemma_still_shown(s, r, t);
}

proof fn lemma_more_out_shows(s: MdView, r: MdView, l: Seq<draw::SpanView>, t: Seq<char>)
    requires
        shows(s, t),
        t.len() > 0,
        r.out == s.out.push(l),
        r.line == s.line,
    ensures
        shows(r, t),
{
    assert(r.out.take(s.out.len() as int) =~= s.out);
    assert(r.line.take(s.line.len() as int) =~= s.line);
    lemma_still_shown(s, r, t);
}

proof fn lemma_step_still_shows(
    s: MdView,
    e: EventView,
    theme: Theme,
    urls: ImageUrls,
    t: Seq<char>,
)
    requires
        shows(s, t),
        t.len() > 0,
        s.quote_depth >= 0,
    ensures
        shows(s.stepped(e, theme, urls), t),
{
    let r = s.stepped(e, theme, urls);
    let f = s.flushed(theme);
    lemma_flush_still_shows(s, theme, t);
    match e {
        EventView::Start(name) => match tag_named(name) {
            MdTag::Heading(_) | MdTag::Item => {
                assert(r.line.take(f.line.len() as int) =~= f.line);
                lemma_longer_line_shows(f, r, t);
            },
            MdTag::CodeBlock | MdTag::BlockQuote => {
                lemma_same_lines_show(f, r, t);
            },
            _ => {
                lemma_same_lines_show(s, r, t);
            },
        },
        EventView::End(name) => match tag_named(name) {
            MdTag::Heading(_) => {
                let p = s.popped();
                lemma_same_lines_show(s, p, t);
                lemma_flush_still_shows(p, theme, t);
                lemma_more_out_shows(p.flushed(theme), r, draw::blank(), t);
            },
            MdTag::Paragraph | MdTag::CodeBlock => {
                lemma_more_out_shows(f, r, draw::blank(), t);
            },
            MdTag::List => {
                let d = MdView { list_depth: shallower(s.list_depth), ..s };
                lemma_same_lines_show(s, d, t);
                lemma_flush_still_shows(d, theme, t);
            },
            MdTag::Item | MdTag::BlockQuote => {
                lemma_same_lines_show(f, r, t);
            },
            MdTag::Image => {
                let alt = match s.image_alt {
                    Some(a) => a,
                    None => Seq::empty(),
                };
                let d = MdView { image_alt: None, image_url: None, ..s }.with_span(
                    draw::span(placeholder(alt), link_style(theme)),
                );
                assert(d.line.take(s.line.len() as int) =~= s.line);
                lemma_longer_line_shows(s, d, t);
                if let Some(url) = s.image_url {
                    lemma_surfacing_still_shows(d, url, theme, t);
                }
            },
            MdTag::Link => {
                let d = MdView { link_url: None, link_text: Seq::empty(), ..s.popped() };
                lemma_same_lines_show(s, d, t);
                lemma_same_lines_show(s, s.popped(), t);
                if let Some(url) = s.link_url {
                    lemma_surfacing_still_shows(d, url, theme, t);
                }
            },
            _ => {
                lemma_same_lines_show(s, r, t);
            },
        },
        EventView::Text(more) | EventView::Code(more) => {
            if s.image_alt is None {
                law_text_goes_to_the_line(s, more, theme, urls);
                lemma_longer_line_shows(s, r, t);
            } else {
                lemma_same_lines_show(s, r, t);
            }
        },
        EventView::Rule => {
            lemma_more_out_shows(
                f,
                r,
                draw::one("────────────────────────────"@, theme.muted_spec()),
                t,
            );
        },
        EventView::Break => {},
        _ => {
            lemma_same_lines_show(s, r, t);
        },
    }
}

proof fn lemma_text_is_shown(
    events: Seq<EventView>,
    k: int,
    n: int,
    t: Seq<char>,
    theme: Theme,
    urls: ImageUrls,
)
    requires
        0 <= k < n <= events.len(),
        events[k] == EventView::Text(t),
        t.len() > 0,
        !image_open(events, k),
    ensures
        shows(MdView::after(events, n, theme, urls), t),
    decreases n,
{
    let s = MdView::after(events, n - 1, theme, urls);
    lemma_image_open(events, n - 1, theme, urls);
    if n == k + 1 {
        law_text_goes_to_the_line(s, t, theme, urls);
        let r = MdView::after(events, n, theme, urls);
        let before = draw::line_text(s.line);
        assert((before + t).subrange(before.len() as int, (before.len() + t.len()) as int) =~= t);
        assert(strs::occurs_at(draw::line_text(r.line), t, before.len() as int));
    } else {
        lemma_text_is_shown(events, k, n - 1, t, theme, urls);
        lemma_step_still_shows(s, events[n - 1], theme, urls, t);
    }
}

/// Every text of a document that stands in no image is shown whole on some line.
pub proof fn law_every_text_is_shown(
    events: Seq<EventView>,
    k: int,
    t: Seq<char>,
    theme: Theme,
    urls: ImageUrls,
)
    requires
        0 <= k < events.len(),
        events[k] == EventView::Text(t),
        t.len() > 0,
        !image_open(events, k),
    ensures
        exists|l: int|
            0 <= l < MdView::rendered(events, theme, urls).out.len() && strs::occurs(
                #[trigger] draw::line_text(MdView::rendered(events, theme, urls).out[l]),
                t,
            ),
{
    let n = events.len() as int;
    let s = MdView::after(events, n, theme, urls);
    lemma_text_is_shown(events, k, n, t, theme, urls);
    lemma_image_open(events, n, theme, urls);
    lemma_flush_still_shows(s, theme, t);
    let r = MdView::rendered(events, theme, urls);
    lemma_flush_keeps_lines(s, theme);
    if strs::occurs(draw::line_text(r.line), t) {
        let i = choose|i: int| #[trigger] strs::occurs_at(draw::line_text(r.line), t, i);
        assert(false);
    }
}

// ---------------------------------------------------------------------------
// Laws of previews.
// ---------------------------------------------------------------------------

proof fn lemma_preview_of_prefix(a: Seq<EventView>, b: Seq<EventView>, n: int)
    requires
        0 <= n <= a.len(),
    ensures
        preview_after(a + b, n) == preview_after(a, n),
    decreases n,
{
    if n > 0 {
        lemma_preview_of_prefix(a, b, n - 1);
        assert((a + b)[n - 1] == a[n - 1]);
    }
}

proof fn lemma_preview_of_rest(a: Seq<EventView>, b: Seq<EventView>, n: int)
    requires
        0 <= n <= b.len(),
        !preview_after(a, a.len() as int).in_image,
    ensures
        preview_after(a + b, a.len() + n).text == preview_after(a, a.len() as int).text
            + preview_after(b, n).text,
        preview_after(a + b, a.len() + n).in_image == preview_after(b, n).in_image,
    decreases n,
{
    let before = preview_after(a, a.len() as int).text;
    if n > 0 {
        lemma_preview_of_rest(a, b, n - 1);
        assert((a + b)[a.len() + n - 1] == b[n - 1]);
        let less = preview_after(b, n - 1).text;
        match b[n - 1] {
            EventView::Text(t) | EventView::Code(t) => {
                assert(before + less + t =~= before + (less + t));
            },
            _ => {
                assert((before + less).push(' ') =~= before + less.push(' '));
            },
        }
    } else {
        lemma_preview_of_prefix(a, b, a.len() as int);
        assert(before + Seq::<char>::empty() =~= before);
    }
}

/// The words of a document's plain text.
pub open spec fn document_words(events: Seq<EventView>) -> Seq<Seq<char>> {
    strs::words_from(preview_after(events, events.len() as int).text, 0)
}

/// Where a paragraph ends or a line breaks, a word ends: a document of two parts
/// has the words of the first and then those of the second, and none that is
/// made of both.
pub proof fn law_paragraphs_part_words(a: Seq<EventView>, b: Seq<EventView>)
    requires
        a.len() > 0,
        a.last() == EventView::End("Paragraph"@) || a.last() == EventView::Break,
        !image_open(a, a.len() as int),
    ensures
        document_words(a + b) == document_words(a) + document_words(b),
{
    lemma_tag_names();
    let n = a.len() as int;
    lemma_preview_image_open(a, n);
    lemma_preview_of_rest(a, b, b.len() as int);
    assert((a + b).len() == n + b.len());
    let t = preview_after(a, n).text;
    let less = preview_after(a, n - 1).text;
    assert(a[n - 1] == a.last());
    assert(t == less.push(' '));
    strs::law_white_space_parts_words(less, ' ', preview_after(b, b.len() as int).text);
}

proof fn lemma_preview_image_open(events: Seq<EventView>, n: int)
    ensures
        preview_after(events, n).in_image == image_open(events, n),
    decreases n,
{
    if n > 0 {
        lemma_preview_image_open(events, n - 1);
        match events[n - 1] {
            EventView::End(name) => {
                lemma_only_image(name);
            },
            _ => {},
        }
    }
}

/// Text and code add their characters to the plain text where no image is open,
/// and nothing where one is.
pub proof fn law_previews_leave_out_images(events: Seq<EventView>, t: Seq<char>)
    ensures
        ({
            let n = events.len() as int;
            let before = preview_after(events, n).text;
            let text = preview_after(events.push(EventView::Text(t)), n + 1).text;
            let code = preview_after(events.push(EventView::Code(t)), n + 1).text;
            &&& image_open(events, n) ==> text == before && code == before
            &&& !image_open(events, n) ==> text == before + t && code == before + t
        }),
        document_words(Seq::empty()) == Seq::<Seq<char>>::empty(),
{
    let n = events.len() as int;
    lemma_preview_image_open(events, n);
    let a = seq![EventView::Text(t)];
    let b = seq![EventView::Code(t)];
    assert(events.push(EventView::Text(t)) =~= events + a);
    assert(events.push(EventView::Code(t)) =~= events + b);
    lemma_preview_of_prefix(events, a, n);
    lemma_preview_of_prefix(events, b, n);
}

/// Two paragraphs have the words of the one and then the words of the other.
pub proof fn law_two_paragraphs_keep_their_words(a: Seq<char>, b: Seq<char>)
    ensures
        document_words(two_paragraphs(a, b)) == strs::words_from(a, 0) + strs::words_from(b, 0),
{
    lemma_tag_names();
    let e = two_paragraphs(a, b);
    reveal_with_fuel(preview_after, 7);
    let text = preview_after(e, 6).text;
    assert(preview_after(e, 1).text == Seq::<char>::empty());
    assert(Seq::<char>::empty() + a =~= a);
    assert(preview_after(e, 3).text == a.push(' '));
    assert(text == (a.push(' ') + b).push(' '));
    strs::law_white_space_parts_words(a.push(' ') + b, ' ', Seq::empty());
    strs::law_white_space_parts_words(a, ' ', b);
}

/// A preview that is not cut is the document's words with one space between each
/// two.
pub proof fn law_uncut_previews_hold_the_words(events: Seq<EventView>, max: int)
    requires
        text::str_width(strs::joined(document_words(events), seq![' '])) <= max,
    ensures
        preview(events, max) == strs::joined(document_words(events), seq![' ']),
{
    reveal_strlit(" ");
    assert(" "@ =~= seq![' ']);
    let flat = strs::joined(document_words(events), " "@);
    if flat.len() == 0 {
        assert(flat =~= Seq::<char>::empty());
    } else {
        text::law_fitting_text_is_unchanged(flat, max);
    }
}

// ---------------------------------------------------------------------------
// Laws of mentions, images and links.
// ---------------------------------------------------------------------------

proof fn lemma_name_end(s: Seq<char>, i: int, e: int)
    requires
        0 <= i <= e <= s.len(),
        forall|k: int| i <= k < e ==> name_char(#[trigger] s[k]),
        e < s.len() ==> !name_char(s[e]),
    ensures
        name_end(s, i) == e,
    decreases e - i,
{
    if i < e {
        lemma_name_end(s, i + 1, e);
    }
}

/// Whether an `@` stands before a character of a name somewhere in a text.
pub open spec fn mentions_somebody(s: Seq<char>) -> bool {
    exists|k: int|
        0 <= k < s.len() - 1 && #[trigger] s[k] == '@' && (strs::ascii_alphanumeric(s[k + 1])
            || s[k + 1] == '_')
}

proof fn lemma_no_mention_before(
    s: Seq<char>,
    m: int,
    i: int,
    base: Style,
    accent: Style,
)
    requires
        0 <= i <= m <= s.len(),
        forall|k: int|
            0 <= k < m && #[trigger] s[k] == '@' ==> k + 1 >= s.len() || !name_char(s[k + 1]),
    ensures
        mention_spans(s, 0, i, base, accent) == mention_spans(s, 0, m, base, accent),
    decreases m - i,
{
    if i < m {
        if s[i] == '@' {
            lemma_name_end(s, i + 1, i + 1);
        }
        lemma_no_mention_before(s, m, i + 1, base, accent);
    }
}

proof fn lemma_mentions_of_rest(
    a: Seq<char>,
    b: Seq<char>,
    start: int,
    i: int,
    base: Style,
    accent: Style,
)
    requires
        0 <= start <= i <= b.len(),
    ensures
        mention_spans(a + b, a.len() + start, a.len() + i, base, accent) == mention_spans(
            b,
            start,
            i,
            base,
            accent,
        ),
    decreases b.len() - i,
{
    let s = a + b;
    let n = a.len() as int;
    if i < b.len() {
        lemma_name_end_of_rest(a, b, i + 1);
        assert(s[n + i] == b[i]);
        let e = name_end(b, i + 1);
        if b[i] == '@' && i + 1 < e <= b.len() {
            lemma_mentions_of_rest(a, b, e, e, base, accent);
            assert(s.subrange(n + start, n + i) =~= b.subrange(start, i));
            assert(s.subrange(n + i, n + e) =~= b.subrange(i, e));
        } else {
            lemma_mentions_of_rest(a, b, start, i + 1, base, accent);
        }
    } else {
        assert(s.subrange(n + start, s.len() as int) =~= b.subrange(start, b.len() as int));
    }
}

proof fn lemma_name_end_of_rest(a: Seq<char>, b: Seq<char>, i: int)
    requires
        0 <= i <= b.len(),
    ensures
        name_end(a + b, a.len() + i) == a.len() + name_end(b, i),
    decreases b.len() - i,
{
    if i < b.len() {
        assert((a + b)[a.len() + i] == b[i]);
        lemma_name_end_of_rest(a, b, i + 1);
    }
}

/// An `@` with a name behind it is a run of its own in the accent, all of the name
/// and no more; a text that mentions nobody is one run.
pub proof fn law_mentions_are_picked_out(
    a: Seq<char>,
    name: Seq<char>,
    b: Seq<char>,
    base: Style,
    accent: Style,
)
    requires
        !mentions_somebody(a),
        name.len() > 0,
        forall|k: int|
            0 <= k < name.len() ==> strs::ascii_alphanumeric(#[trigger] name[k]) || name[k] == '_',
        b.len() > 0 ==> !strs::ascii_alphanumeric(b[0]) && b[0] != '_',
    ensures
        ({
            let lead = if a.len() > 0 {
                draw::one(a, base)
            } else {
                Seq::empty()
            };
            &&& mention_spans(a, 0, 0, base, accent) == lead
            &&& mention_spans(a + seq!['@'] + name + b, 0, 0, base, accent) == lead + draw::one(
                seq!['@'] + name,
                accent,
            ) + mention_spans(b, 0, 0, base, accent)
        }),
{
    let s = a + seq!['@'] + name + b;
    let n = a.len() as int;
    let e = n + 1 + name.len();
    assert forall|k: int| 0 <= k < n && #[trigger] a[k] == '@' implies k + 1 >= a.len()
        || !name_char(a[k + 1]) by {}
    lemma_no_mention_before(a, n, 0, base, accent);
    assert(a.subrange(0, n) =~= a);
    assert forall|k: int| 0 <= k < n && #[trigger] s[k] == '@' implies k + 1 >= s.len()
        || !name_char(s[k + 1]) by {
        assert(s[k] == a[k]);
        if k + 1 < n {
            assert(s[k + 1] == a[k + 1]);
        } else {
            assert(s[k + 1] == '@');
        }
    }
    lemma_no_mention_before(s, n, 0, base, accent);
    assert forall|k: int| n + 1 <= k < e implies name_char(#[trigger] s[k]) by {
        assert(s[k] == name[k - n - 1]);
    }
    if e < s.len() {
        assert(s[e] == b[0]);
    }
    lemma_name_end(s, n + 1, e);
    assert(s[n] == '@');
    assert(s.subrange(n, e) =~= seq!['@'] + name);
    assert(s.subrange(0, n) =~= a);
    let head = a + seq!['@'] + name;
    lemma_mentions_of_rest(head, b, 0, 0, base, accent);
    assert(s =~= head + b);
}

/// An image shows as its description in brackets where it stands, none of which
/// is shown as text; and where URLs are shown, its URL is put out below.
pub proof fn law_images_show_their_description(
    s: MdView,
    url: Seq<char>,
    alt: Seq<char>,
    theme: Theme,
    urls: ImageUrls,
)
    requires
        s.image_alt is None,
        s.quote_depth >= 0,
    ensures
        ({
            let r = s.stepped(EventView::Image(url), theme, urls).stepped(
                EventView::Text(alt),
                theme,
                urls,
            ).stepped(EventView::End("Image"@), theme, urls);
            let shown = if strs::trimmed(alt).len() == 0 {
                seq!['[', 'i', 'm', 'a', 'g', 'e', ']']
            } else {
                seq!['[', 'i', 'm', 'a', 'g', 'e', ':', ' '] + text::truncated(
                    strs::trimmed(alt),
                    60,
                ) + seq![']']
            };
            let quiet = urls == ImageUrls::Hide || strs::trimmed(url).len() == 0;
            &&& r.image_alt is None
            &&& r.link_text == s.link_text
            &&& quiet ==> r.out == s.out && r.links == s.links && draw::line_text(r.line)
                == draw::line_text(s.line) + shown
            &&& !quiet ==> {
                &&& r.line.len() == 0
                &&& r.out.len() == s.out.len() + 2
                &&& r.out.take(s.out.len() as int) == s.out
                &&& draw::line_text(r.out[s.out.len() as int]) == strs::repeated(
                    "│ "@,
                    s.quote_depth as nat,
                ) + (draw::line_text(s.line) + shown)
                &&& draw::line_text(r.out.last()) == strs::repeated("│ "@, s.quote_depth as nat)
                    + (seq![' ', ' '] + strs::trimmed(url))
                &&& r.links.len() == s.links.len() + 1
                &&& r.links.last().url == strs::trimmed(url)
                &&& r.links.last().line == r.out.len() - 1
            }
        }),
{
    lemma_tag_names();
    reveal_strlit("[image]");
    reveal_strlit("[image: ");
    reveal_strlit("]");
    assert("[image]"@ =~= seq!['[', 'i', 'm', 'a', 'g', 'e', ']']);
    assert("[image: "@ =~= seq!['[', 'i', 'm', 'a', 'g', 'e', ':', ' ']);
    assert("]"@ =~= seq![']']);
    let o = s.stepped(EventView::Image(url), theme, urls);
    let h = o.stepped(EventView::Text(alt), theme, urls);
    assert(Seq::<char>::empty() + alt =~= alt);
    assert(h.image_alt == Some(alt));
    let label = draw::span(placeholder(alt), link_style(theme));
    let t = MdView { image_alt: None, image_url: None, ..h }.with_span(label);
    assert(t.line.drop_last() =~= s.line);
    assert(draw::line_text(t.line) == draw::line_text(s.line) + placeholder(alt));
    if !(urls == ImageUrls::Hide || strs::trimmed(url).len() == 0) {
        lemma_surfaced_lines(t, url, theme);
    }
}

proof fn lemma_surfaced_lines(s: MdView, url: Seq<char>, theme: Theme)
    requires
        s.quote_depth >= 0,
        s.line.len() > 0,
    ensures
        ({
            let r = s.surfaced(url, theme);
            let bars = strs::repeated("│ "@, s.quote_depth as nat);
            &&& r.line.len() == 0
            &&& r.out.len() == s.out.len() + 2
            &&& r.out.take(s.out.len() as int) == s.out
            &&& draw::line_text(r.out[s.out.len() as int]) == bars + draw::line_text(s.line)
            &&& draw::line_text(r.out.last()) == bars + (seq![' ', ' '] + strs::trimmed(url))
        }),
{
    reveal_strlit("  ");
    assert("  "@ =~= seq![' ', ' ']);
    let bars = strs::repeated("│ "@, s.quote_depth as nat);
    let f = s.flushed(theme);
    let r = s.surfaced(url, theme);
    lemma_flush_keeps_lines(s, theme);
    assert(r.out.take(s.out.len() as int) =~= f.out.take(s.out.len() as int));
    let content = "  "@ + strs::trimmed(url);
    let line = draw::one(content, theme::colored(theme.accent));
    lemma_one_text(content, theme::colored(theme.accent));
    lemma_one_text(bars, theme.muted_spec());
    lemma_line_text_concat(draw::one(bars, theme.muted_spec()), line);
    if s.quote_depth == 0 {
        assert(bars + content =~= content);
    }
    assert(r.out[s.out.len() as int] == f.out[s.out.len() as int]);
}

/// A link shows its text, underlined in the accent color, and then its URL on a
/// line below, unless the text already says it.
pub proof fn law_links_show_text_and_url(
    s: MdView,
    url: Seq<char>,
    t: Seq<char>,
    theme: Theme,
    urls: ImageUrls,
)
    requires
        s.image_alt is None,
        s.quote_depth >= 0,
        t.len() > 0,
    ensures
        ({
            let r = s.stepped(EventView::Link(url), theme, urls).stepped(
                EventView::Text(t),
                theme,
                urls,
            );
            let e = r.stepped(EventView::End("Link"@), theme, urls);
            let told = strs::trimmed(url).len() == 0 || strs::trimmed(t) == strs::trimmed(url)
                || strs::trimmed(url) == "mailto:"@ + strs::trimmed(t);
            &&& draw::line_text(r.line) == draw::line_text(s.line) + t
            &&& r.stack.last() == (Style {
                fg: Some(theme.accent),
                bg: None,
                bold: false,
                dim: false,
                italic: false,
                underlined: true,
                reversed: false,
            })
            &&& e.stack == s.stack
            &&& told ==> e.out == s.out && e.line == r.line && e.links == s.links
            &&& !told ==> {
                &&& e.line.len() == 0
                &&& e.out.len() == s.out.len() + 2
                &&& e.out.take(s.out.len() as int) == s.out
                &&& draw::line_text(e.out[s.out.len() as int]) == strs::repeated(
                    "│ "@,
                    s.quote_depth as nat,
                ) + (draw::line_text(s.line) + t)
                &&& draw::line_text(e.out.last()) == strs::repeated("│ "@, s.quote_depth as nat)
                    + (seq![' ', ' '] + strs::trimmed(url))
                &&& e.links.len() == s.links.len() + 1
                &&& e.links.last().url == strs::trimmed(url)
                &&& e.links.last().line == e.out.len() - 1
            }
        }),
{
    lemma_tag_names();
    let o = s.stepped(EventView::Link(url), theme, urls);
    let r = o.stepped(EventView::Text(t), theme, urls);
    law_text_goes_to_the_line(o, t, theme, urls);
    assert(Seq::<char>::empty() + t =~= t);
    assert(r.link_text == t);
    assert(r.stack.drop_last() =~= s.stack);
    let p = MdView { link_url: None, link_text: Seq::empty(), ..r.popped() };
    assert(p.line == r.line && r.line.len() > 0);
    lemma_surfaced_lines(p, url, theme);
}

/// A document begins with nothing, in the theme's own style, and is read event by
/// event; what is under way at its end is put out.
pub proof fn law_documents_are_read_in_order(
    events: Seq<EventView>,
    e: EventView,
    theme: Theme,
    urls: ImageUrls,
)
    ensures
        ({
            let n = events.len() as int;
            let s = MdView::after(events, n, theme, urls);
            let start = MdView::after(events, 0, theme, urls);
            &&& MdView::after(events.push(e), n + 1, theme, urls) == s.stepped(e, theme, urls)
            &&& start.out.len() == 0 && start.line.len() == 0 && start.links.len() == 0
            &&& start.stack == seq![theme.base_spec()]
            &&& start.image_alt is None && start.link_url is None && start.quote_depth == 0
                && start.list_depth == 0
            &&& lines_kept(
                s,
                MdView::rendered(events, theme, urls).out,
                MdView::rendered(events, theme, urls).out.len() as int,
            )
            &&& MdView::rendered(events, theme, urls).links == s.links
        }),
{
    let n = events.len() as int;
    let all = events.push(e);
    lemma_after_prefix(events, e, n, theme, urls);
    lemma_image_open(events, n, theme, urls);
    lemma_flush_keeps_lines(MdView::after(events, n, theme, urls), theme);
}

proof fn lemma_after_prefix(
    events: Seq<EventView>,
    e: EventView,
    n: int,
    theme: Theme,
    urls: ImageUrls,
)
    requires
        0 <= n <= events.len(),
    ensures
        MdView::after(events.push(e), n, theme, urls) == MdView::after(events, n, theme, urls),
    decreases n,
{
    if n > 0 {
        lemma_after_prefix(events, e, n - 1, theme, urls);
        assert(events.push(e)[n - 1] == events[n - 1]);
    }
}

/// An image without a description stands as such; one with a description that fits shows
/// it.
pub proof fn law_placeholders_show_the_description(alt: Seq<char>)
    ensures
        strs::trimmed(alt).len() == 0 ==> placeholder(alt) == "[image]"@,
        strs::trimmed(alt).len() > 0 && text::str_width(strs::trimmed(alt)) <= 60 ==> placeholder(
            alt,
        ) == "[image: "@ + strs::trimmed(alt) + "]"@,
{
}

/// A link's address is left out exactly where its text is the address, alone or behind
/// the scheme of mail.
pub proof fn law_addresses_are_shown_once(label: Seq<char>, url: Seq<char>)
    ensures
        strs::trimmed(label) == strs::trimmed(url) ==> redundant(label, url),
        strs::trimmed(url) == "mailto:"@ + strs::trimmed(label) ==> redundant(label, url),
        redundant(label, url) ==> strs::trimmed(label) == strs::trimmed(url) || strs::trimmed(url)
            == "mailto:"@ + strs::trimmed(label),
{
}

/// A document starts with nothing written, in the theme's own style.
pub proof fn law_documents_start_plain(theme: Theme)
    ensures
        MdView::initial(theme).out.len() == 0,
        MdView::initial(theme).line.len() == 0,
        MdView::initial(theme).links.len() == 0,
        MdView::initial(theme).stack == seq![theme.base_spec()],
        MdView::initial(theme).list_depth == 0,
        MdView::initial(theme).quote_depth == 0,
        MdView::initial(theme).image_alt is None,
        MdView::initial(theme).link_url is None,
        link_style(theme).underlined,
        link_style(theme).fg == Some(theme.accent),
{
}

/// A URL on a row of its own is shown two columns in, trimmed, and its target points to
/// that row and column.
pub proof fn law_surfaced_urls_have_their_row(s: MdView, url: Seq<char>, theme: Theme)
    requires
        s.line.len() == 0,
        s.quote_depth == 0,
    ensures
        ({
            let a = s.surfaced(url, theme);
            &&& a.links.len() == s.links.len() + 1
            &&& a.links.last().url == strs::trimmed(url)
            &&& 0 <= a.links.last().line < a.out.len()
            &&& a.links.last().col == 2
            &&& a.out[a.links.last().line].len() == 1
            &&& a.out[a.links.last().line][0].content == "  "@ + strs::trimmed(url)
        }),
{
}

} // verus!
