use vstd::prelude::*;
use chrono::Timelike;
use crate::convolution::{Convolution, TickInput};

verus! {

/// A local time of day.
#[derive(Clone, Copy, Debug, PartialEq, Eq)]
pub struct ClockTime {
    pub hour: u8,
    pub minute: u8,
    pub second: u8,
}

impl ClockTime {
    /// Hour, minute and second are in range.
    pub open spec fn wf(&self) -> bool {
        self.hour < 24 && self.minute < 60 && self.second < 60
    }
}

/// Relies on chrono's `Local::now` and its `Timelike` accessors, which give an
/// hour from 0 to 23 and a minute and a second from 0 to 59.
#[verifier::external_body]
fn local_clock() -> (r: ClockTime)
    ensures
        r.wf(),
{
    let now = chrono::Local::now();
    ClockTime { hour: now.hour() as u8, minute: now.minute() as u8, second: now.second() as u8 }
}

/// The decimal digit `d` (below 10).
pub open spec fn digit_char(d: int) -> char {
    ((d + 48) as u8) as char
}

/// `n` (below 100) in two decimal digits.
pub open spec fn two_digits(n: int) -> Seq<char> {
    seq![digit_char(n / 10), digit_char(n % 10)]
}

/// The hour on a 12-hour dial: 12, 1, ..., 11.
pub open spec fn dial_hour(hour: int) -> int {
    if hour % 12 == 0 {
        12
    } else {
        hour % 12
    }
}

/// The text of a time of day: `HH:MM:SS` on a 24-hour clock, `hh:mm:ssAM` or
/// `hh:mm:ssPM` on a 12-hour clock.
pub open spec fn clock_text(t: ClockTime, f24: bool) -> Seq<char> {
    let hms = |h: int| two_digits(h) + seq![':'] + two_digits(t.minute as int) + seq![':'] + two_digits(
        t.second as int,
    );
    if f24 {
        hms(t.hour as int)
    } else if t.hour < 12 {
        hms(dial_hour(t.hour as int)) + seq!['A', 'M']
    } else {
        hms(dial_hour(t.hour as int)) + seq!['P', 'M']
    }
}

/// Appends `n` (below 100) in two decimal digits.
fn push_two_digits(text: &mut Vec<char>, n: u8)
    requires
        n < 100,
    ensures
        final(text)@ == old(text)@ + two_digits(n as int),
{
    text.push(((n / 10) + 48) as char);
    text.push(((n % 10) + 48) as char);
    assert(final(text)@ =~= old(text)@ + two_digits(n as int));
}

/// Formats a time of day as [`clock_text`] states.
pub fn format_clock(t: ClockTime, f24: bool) -> (r: Vec<char>)
    requires
        t.wf(),
    ensures
        r@ == clock_text(t, f24),
{
    let hour: u8 = if f24 {
        t.hour
    } else if t.hour % 12 == 0 {
        12
    } else {
        t.hour % 12
    };
    let mut text: Vec<char> = Vec::new();
    push_two_digits(&mut text, hour);
    text.push(':');
    push_two_digits(&mut text, t.minute);
    text.push(':');
    push_two_digits(&mut text, t.second);
    if !f24 {
        if t.hour < 12 {
            text.push('A');
        } else {
            text.push('P');
        }
        text.push('M');
    }
    assert(text@ =~= clock_text(t, f24));
    text
}

/// Where a text of `len` glyphs starts so that it stands centred in a
/// `width` by `height` frame: `((width - 5 len + 7) / 2, (height - 7) / 2)`,
/// each at least zero.
pub open spec fn text_origin_spec(width: int, height: int, len: int) -> (int, int) {
    let x = if width + 7 >= 5 * len {
        (width + 7 - 5 * len) / 2
    } else {
        0
    };
    let y = if height >= 7 {
        (height - 7) / 2
    } else {
        0
    };
    (x, y)
}

/// Computes [`text_origin_spec`].
pub fn text_origin(width: usize, height: usize, len: usize) -> (r: (usize, usize))
    requires
        len <= usize::MAX / 5,
    ensures
        (r.0 as int, r.1 as int) == text_origin_spec(width as int, height as int, len as int),
{
    let span: usize = 5 * len;
    let x = if span >= 7 {
        let overhang: usize = span - 7;
        if width >= overhang {
            (width - overhang) / 2
        } else {
            0
        }
    } else {
        let gap: usize = 7 - span;
        width / 2 + gap / 2 + (width % 2 + gap % 2) / 2
    };
    let y = if height >= 7 {
        (height - 7) / 2
    } else {
        0
    };
    (x, y)
}

/// A pixel under a text mask: a non-zero mask pixel paints over it.
pub open spec fn masked(pixel: u32, mask: u32) -> u32 {
    if mask != 0 {
        mask
    } else {
        pixel
    }
}

/// Paints every non-zero pixel of `mask` over `pixels`.
pub fn overlay(pixels: &mut Vec<u32>, mask: &Vec<u32>)
    requires
        old(pixels)@.len() == mask@.len(),
    ensures
        final(pixels)@ == Seq::new(mask@.len(), |i: int| masked(old(pixels)@[i], mask@[i])),
{
    let n = pixels.len();
    let mut i: usize = 0;
    while i < n
        invariant
            n == pixels@.len(),
            n == old(pixels)@.len(),
            n == mask@.len(),
            i <= n,
            forall|j: int| 0 <= j < i ==> pixels@[j] == masked(old(pixels)@[j], mask@[j]),
            forall|j: int| i <= j < n ==> pixels@[j] == old(pixels)@[j],
        decreases n - i,
    {
        if mask[i] != 0 {
            pixels[i] = mask[i];
        }
        i += 1;
    }
    assert(pixels@ =~= Seq::new(mask@.len(), |i: int| masked(old(pixels)@[i], mask@[i])));
}

/// What minifb_fonts' 5x8 renderer leaves in `buf` after drawing `text` at
/// `(x, y)` in `color` on a `width` by `height` frame.
pub uninterp spec fn glyph_paint(
    buf: Seq<u32>,
    width: nat,
    height: nat,
    color: u32,
    x: nat,
    y: nat,
    text: Seq<char>,
) -> Seq<u32>;

/// Relies on minifb_fonts' `font5x8::new_renderer` and `FbFontRenderer::draw_text`:
/// the result depends on the arguments alone; the renderer writes `color` at
/// glyph pixels that fall inside the `width` by `height` frame and nothing else.
#[verifier::external_body]
fn draw_text(buf: &mut Vec<u32>, width: usize, height: usize, color: u32, x: usize, y: usize, text: &Vec<char>)
    requires
        old(buf)@.len() == width * height,
        x <= width / 2 + 4,
        y <= height,
        text@.len() <= 16,
    ensures
        final(buf)@ == glyph_paint(old(buf)@, width as nat, height as nat, color, x as nat, y as nat, text@),
        final(buf)@.len() == old(buf)@.len(),
        forall|i: int| 0 <= i < old(buf)@.len() ==> #[trigger] final(buf)@[i] == old(buf)@[i] || final(buf)@[i] == color,
{
    let text: String = text.iter().collect();
    minifb_fonts::font5x8::new_renderer(width, height, color).draw_text(buf, x, y, text.as_str());
}

/// The frame after painting the glyphs of `text`, centred, in `ink` over
/// `before`: the renderer draws on an all-zero mask, and every non-zero mask
/// pixel paints over the frame.
pub open spec fn clock_frame(before: Seq<u32>, width: nat, height: nat, ink: u32, text: Seq<char>) -> Seq<u32> {
    let origin = text_origin_spec(width as int, height as int, text.len() as int);
    let mask = glyph_paint(
        Seq::new(before.len(), |i: int| 0u32),
        width,
        height,
        ink,
        origin.0 as nat,
        origin.1 as nat,
        text,
    );
    Seq::new(before.len(), |i: int| masked(before[i], mask[i]))
}

/// Overlays the local time of day as text, centred, in the configured color or,
/// without one, in the tick's accent color.
pub struct TimeConvolution {
    /// 24-hour format when set, 12-hour with AM/PM otherwise.
    pub f24: bool,
    pub color: Option<u32>,
}

impl TimeConvolution {
    /// The color the text is drawn in this tick.
    pub open spec fn ink(&self, input: TickInput) -> u32 {
        match self.color {
            Some(c) => c,
            None => input.accent,
        }
    }
}

impl Convolution for TimeConvolution {
    open spec fn fits(&self, width: nat, height: nat) -> bool {
        true
    }

    open spec fn step(
        &self,
        next: Self,
        before: Seq<u32>,
        after: Seq<u32>,
        width: nat,
        height: nat,
        input: TickInput,
    ) -> bool {
        &&& next == *self
        &&& exists|t: ClockTime|
            t.wf() && #[trigger] clock_frame(before, width, height, self.ink(input), clock_text(t, self.f24))
                == after
        &&& after.len() == before.len()
        &&& forall|i: int|
            0 <= i < after.len() ==> #[trigger] after[i] == before[i] || after[i] == self.ink(input)
    }

    fn name(&self) -> &'static str {
        "Time"
    }

    fn transform(&mut self, pixels: &mut Vec<u32>, width: usize, height: usize, input: &TickInput) {
        let now = local_clock();
        let text = format_clock(now, self.f24);
        assert(text@.len() == 8 || text@.len() == 10);
        let color: u32 = match self.color {
            Some(c) => c,
            None => input.accent,
        };
        let mut mask: Vec<u32> = vec![0; pixels.len()];
        assert(mask@ =~= Seq::new(pixels@.len(), |i: int| 0u32));
        let (x, y) = text_origin(width, height, text.len());
        draw_text(&mut mask, width, height, color, x, y, &text);
        overlay(pixels, &mask);
        assert(color == self.ink(*input));
        assert(clock_frame(old(pixels)@, width as nat, height as nat, self.ink(*input), clock_text(now, self.f24))
            =~= pixels@);
    }
}

} // verus!
