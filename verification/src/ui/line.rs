//! Single-line styled text built from coloured spans.

use vstd::prelude::*;
use vstd::slice::slice_subrange;

use crate::text::number::{decimal, decimal_string};
use crate::text::strings::{cat2, chars_of, push_chars, push_spaces, string_of};
use crate::ui::theme::Color;

verus! {

/// How a span looks.
#[derive(Clone, Copy, Debug, PartialEq, Eq, Structural)]
pub enum Style {
    Plain,
    Color(Color),
    Bold(Color),
}

/// Some text in one style.
#[derive(Debug, PartialEq, Eq)]
pub struct Span {
    pub text: String,
    pub style: Style,
}

#[verifier::ext_equal]
pub ghost struct SpanView {
    pub text: Seq<char>,
    pub style: Style,
}

impl View for Span {
    type V = SpanView;

    open spec fn view(&self) -> SpanView {
        SpanView { text: self.text@, style: self.style }
    }
}

/// The views of some spans.
pub open spec fn span_views(spans: Seq<Span>) -> Seq<SpanView> {
    spans.map_values(|s: Span| s@)
}

/// A line of styled text.
#[derive(Debug, PartialEq, Eq)]
pub struct Line {
    pub spans: Vec<Span>,
}

impl View for Line {
    type V = Seq<SpanView>;

    open spec fn view(&self) -> Seq<SpanView> {
        span_views(self.spans@)
    }
}

/// The views of some lines.
pub open spec fn line_views(lines: Seq<Line>) -> Seq<Seq<SpanView>> {
    lines.map_values(|l: Line| l@)
}

/// A line with nothing on it.
pub open spec fn blank() -> Seq<SpanView> {
    Seq::empty()
}

/// A line with more text in some style. No text adds nothing.
pub open spec fn with(line: Seq<SpanView>, text: Seq<char>, style: Style) -> Seq<SpanView> {
    if text.len() == 0 {
        line
    } else {
        line.push(SpanView { text, style })
    }
}

/// A line with more plain text.
pub open spec fn plain(line: Seq<SpanView>, text: Seq<char>) -> Seq<SpanView> {
    with(line, text, Style::Plain)
}

/// A line with more coloured text.
pub open spec fn color(line: Seq<SpanView>, text: Seq<char>, c: Color) -> Seq<SpanView> {
    with(line, text, Style::Color(c))
}

/// A line with more bold text.
pub open spec fn bold(line: Seq<SpanView>, text: Seq<char>, c: Color) -> Seq<SpanView> {
    with(line, text, Style::Bold(c))
}

/// The text of a line, without its styles.
pub open spec fn line_text(line: Seq<SpanView>) -> Seq<char>
    decreases line.len(),
{
    if line.len() == 0 {
        Seq::empty()
    } else {
        line_text(line.drop_last()) + line.last().text
    }
}

/// `n` spaces.
pub open spec fn spaces(n: int) -> Seq<char> {
    Seq::new(n as nat, |i: int| ' ')
}

/// A line padded with spaces up to `width` characters.
pub open spec fn padded(line: Seq<SpanView>, width: int) -> Seq<SpanView> {
    if line_text(line).len() < width {
        plain(line, spaces(width - line_text(line).len()))
    } else {
        line
    }
}

impl Line {
    /// A line with nothing on it.
    pub fn new() -> (r: Line)
        ensures
            r@ == blank(),
    {
        let r = Line { spans: Vec::new() };
        assert(r@ =~= blank());
        r
    }

    /// A line of plain text.
    pub fn plain(text: &str) -> (r: Line)
        ensures
            r@ == plain(blank(), text@),
    {
        let mut line = Line::new();
        line.push(text);
        line
    }

    /// Adds text in some style.
    pub fn styled(&mut self, text: &str, style: Style)
        ensures
            final(self)@ == with(old(self)@, text@, style),
    {
        if !text.is_empty() {
            let span = Span { text: text.to_owned(), style };
            self.spans.push(span);
            assert(span_views(self.spans@) =~= span_views(old(self).spans@).push(span@));
        }
    }

    /// Adds plain text.
    pub fn push(&mut self, text: &str)
        ensures
            final(self)@ == plain(old(self)@, text@),
    {
        self.styled(text, Style::Plain);
    }

    /// Adds coloured text.
    pub fn color(&mut self, text: &str, c: Color)
        ensures
            final(self)@ == color(old(self)@, text@, c),
    {
        self.styled(text, Style::Color(c));
    }

    /// Adds bold text.
    pub fn bold(&mut self, text: &str, c: Color)
        ensures
            final(self)@ == bold(old(self)@, text@, c),
    {
        self.styled(text, Style::Bold(c));
    }

    /// Adds another line's spans.
    pub fn append(&mut self, other: Line)
        ensures
            final(self)@ == old(self)@ + other@,
    {
        let mut more = other.spans;
        self.spans.append(&mut more);
        assert(span_views(self.spans@) =~= span_views(old(self).spans@) + span_views(other.spans@));
    }

    /// Pads with spaces up to `width` characters.
    pub fn pad_to(&mut self, width: usize)
        ensures
            final(self)@ == padded(old(self)@, width as int),
    {
        let ghost all = self@;
        let mut left: usize = width;
        let mut i: usize = 0;
        assert(all.take(0) =~= Seq::<SpanView>::empty());
        while i < self.spans.len()
            invariant
                i <= self.spans@.len(),
                *self == *old(self),
                all == span_views(self.spans@),
                left <= width,
                line_text(all.take(i as int)).len() == width - left,
            decreases self.spans@.len() - i,
        {
            let ghost next = all.take(i + 1);
            assert(next.drop_last() =~= all.take(i as int));
            assert(next.last() == self.spans@[i as int]@);
            let n: usize = self.spans[i].text.as_str().unicode_len();
            if n >= left {
                proof {
                    lemma_text_grows(all, i + 1);
                }
                return;
            }
            left = left - n;
            i = i + 1;
        }
        assert(all.take(all.len() as int) =~= all);
        if left > 0 {
            let mut text = String::new();
            push_spaces(&mut text, left);
            assert(text@ =~= spaces(left as int));
            self.push(text.as_str());
        }
    }
}

/// More spans never make the text shorter.
proof fn lemma_text_grows(line: Seq<SpanView>, i: int)
    requires
        0 <= i <= line.len(),
    ensures
        line_text(line.take(i)).len() <= line_text(line).len(),
    decreases line.len() - i,
{
    if i < line.len() {
        lemma_text_grows(line, i + 1);
        assert(line.take(i + 1).drop_last() =~= line.take(i));
    } else {
        assert(line.take(i) =~= line);
    }
}

/// A text cut to `max` characters, with `…` for what is missing.
pub open spec fn cut(s: Seq<char>, max: int) -> Seq<char> {
    if s.len() <= max {
        s
    } else if max <= 0 {
        Seq::empty()
    } else {
        s.take(max - 1).push('…')
    }
}

/// Truncates to `max` characters, marking the cut with `…`.
pub fn truncate(s: &str, max: usize) -> (r: String)
    ensures
        r@ == cut(s@, max as int),
{
    let chars = chars_of(s);
    if chars.len() <= max {
        s.to_owned()
    } else if max == 0 {
        let r = String::new();
        assert(r@ =~= Seq::<char>::empty());
        r
    } else {
        let mut out = string_of(slice_subrange(chars.as_slice(), 0, max - 1));
        out.push('…');
        assert(out@ =~= s@.take(max - 1).push('…'));
        out
    }
}

/// The end of a text, at most `max` characters, with `…` for what is missing.
pub open spec fn cut_left(s: Seq<char>, max: int) -> Seq<char> {
    if s.len() <= max {
        s
    } else if max <= 0 {
        seq!['…']
    } else {
        seq!['…'] + s.skip(s.len() - max + 1)
    }
}

/// Keeps the end of `s`, e.g. `…/services/billing`.
pub fn truncate_left(s: &str, max: usize) -> (r: String)
    ensures
        r@ == cut_left(s@, max as int),
{
    let chars = chars_of(s);
    let n: usize = chars.len();
    if n <= max {
        return s.to_owned();
    }
    let mut out = String::new();
    out.push('…');
    if max > 0 {
        let tail = slice_subrange(chars.as_slice(), n - max + 1, n);
        push_chars(&mut out, tail);
        assert(tail@ =~= s@.skip(s@.len() - max + 1));
    }
    assert(out@ =~= cut_left(s@, max as int));
    out
}

/// A cut text fits.
pub proof fn law_cut_text_fits(s: Seq<char>, max: int)
    requires
        0 <= max,
    ensures
        cut(s, max).len() <= max,
        s.len() <= max ==> cut(s, max) == s,
        0 < max ==> cut_left(s, max).len() <= max,
{
}

/// How long ago, in the largest unit that fits.
pub open spec fn age_text(secs: nat) -> Seq<char> {
    if secs < 60 {
        decimal(secs) + "s"@
    } else if secs < 3600 {
        decimal(secs / 60) + "m"@
    } else if secs < 86_400 {
        decimal(secs / 3600) + "h"@
    } else if secs < 604_800 {
        decimal(secs / 86_400) + "d"@
    } else if secs < 2_592_000 {
        decimal(secs / 604_800) + "w"@
    } else if secs < 31_536_000 {
        decimal(secs / 2_592_000) + "M"@
    } else {
        decimal(secs / 31_536_000) + "y"@
    }
}

/// How long before `now` a time is; a time that is not known, or to come, is no time ago.
pub open spec fn age_of(time: Option<u64>, now: u64) -> Seq<char> {
    match time {
        None => Seq::empty(),
        Some(t) => age_text(
            if t <= now {
                (now - t) as nat
            } else {
                0
            },
        ),
    }
}

/// A number and its unit.
fn amount(n: u64, unit: &str) -> (r: String)
    ensures
        r@ == decimal(n as nat) + unit@,
{
    let number = decimal_string(n);
    cat2(number.as_str(), unit)
}

/// `3m`, `2h`, `5d`, `1w`, `4M`, `2y` like lazygit's recency column. Times are seconds
/// since 1970.
pub fn age(time: Option<u64>, now: u64) -> (r: String)
    ensures
        r@ == age_of(time, now),
{
    let secs: u64 = match time {
        None => {
            let r = String::new();
            assert(r@ =~= Seq::<char>::empty());
            return r;
        },
        Some(t) => if t <= now {
            now - t
        } else {
            0
        },
    };
    if secs < 60 {
        amount(secs, "s")
    } else if secs < 3600 {
        amount(secs / 60, "m")
    } else if secs < 86_400 {
        amount(secs / 3600, "h")
    } else if secs < 604_800 {
        amount(secs / 86_400, "d")
    } else if secs < 2_592_000 {
        amount(secs / 604_800, "w")
    } else if secs < 31_536_000 {
        amount(secs / 2_592_000, "M")
    } else {
        amount(secs / 31_536_000, "y")
    }
}

} // verus!
